//! A located symbol: its module grid and its alignment patterns.

use vstd::prelude::*;
use crate::alignment::{find_alignment_patterns, lists_alignment_patterns, AlignmentPatternIter};
use crate::bytes::{bits_of, bits_value, DataByteIter};
use crate::error::DecodeError;
use crate::grid::{idx_to_module, sample_module, spans_fit, Grid, Span, MAX_GRID_SIDE};
use crate::img::{height, width, Raster};
use crate::mask::{get_mask_fn, mask_for};
use crate::regions::{
    format_row_from, lemma_format_row_members, HorizFormatIter, HorizTimingIter, VertFormatIter,
    VertTimingIter, format_column_above, timing_column_from, timing_row_from,
};
use crate::traversal::{walk_outputs, whole_run, DataBitIter};
use crate::util::{GridPoint, IteratorExt};

verus! {

/// The mask identifier that three format modules spell, the first module
/// being the least significant bit and a white module a 1.
pub open spec fn mask_bits(first: bool, second: bool, third: bool) -> u8 {
    ((if first {
        1int
    } else {
        0int
    }) + (if second {
        2int
    } else {
        0int
    }) + (if third {
        4int
    } else {
        0int
    })) as u8
}

/// The mask identifier of a symbol: the third, fourth and fifth module of
/// the format row. `None` where the grid has no format row or the row holds
/// fewer than five format modules.
pub open spec fn format_mask_id(grid: Grid, img: image::DynamicImage) -> Option<u8> {
    let format = format_row_from(grid.width(), 0);
    if grid.height() <= 8 || format.len() < 5 {
        None
    } else {
        Some(
            mask_bits(
                grid.module_white(img, format[2].x as int, 8),
                grid.module_white(img, format[3].x as int, 8),
                grid.module_white(img, format[4].x as int, 8),
            ),
        )
    }
}

/// How the walk over a symbol ends where it holds too few bits: with its own
/// error if it breaks, else with `Truncated`.
pub open spec fn short_walk_error(code: Code) -> DecodeError {
    if whole_run(code).broken {
        DecodeError::TraversalInvariantBroken
    } else {
        DecodeError::Truncated
    }
}

/// A symbol whose geometry has been recovered: the pixel spans of its module
/// columns and rows, and the alignment patterns found in it.
pub struct Code {
    columns: Vec<Span>,
    rows: Vec<Span>,
    alignment_positions: Vec<GridPoint>,
}

impl Code {
    /// The module grid of the symbol.
    pub closed spec fn grid(&self) -> Grid {
        Grid { columns: self.columns@, rows: self.rows@ }
    }

    /// The top-left modules of the symbol's alignment patterns.
    pub closed spec fn alignment(&self) -> Seq<GridPoint> {
        self.alignment_positions@
    }

    /// The grid is no larger than `MAX_GRID_SIDE` on either side.
    #[verifier::type_invariant]
    pub closed spec fn is_bounded(&self) -> bool {
        self.columns@.len() <= MAX_GRID_SIDE && self.rows@.len() <= MAX_GRID_SIDE
    }

    /// Builds the symbol from the spans of its columns and rows and scans it
    /// for alignment patterns. `None` when a side of the grid is longer than
    /// `MAX_GRID_SIDE` or a span reaches outside the image.
    pub fn new(img: &image::DynamicImage, columns: Vec<Span>, rows: Vec<Span>) -> (code: Option<
        Self,
    >)
        ensures
            code is Some <==> (Grid { columns: columns@, rows: rows@ }).bounded() && (Grid {
                columns: columns@,
                rows: rows@,
            }).fits(*img),
            code matches Some(c) ==> {
                &&& c.grid() == (Grid { columns: columns@, rows: rows@ })
                &&& lists_alignment_patterns(c.alignment(), *img, c.grid())
            },
    {
        if columns.len() > MAX_GRID_SIDE || rows.len() > MAX_GRID_SIDE {
            return None;
        }
        if !spans_fit(columns.as_slice(), width(img)) || !spans_fit(rows.as_slice(), height(img)) {
            return None;
        }
        let alignment_positions = find_alignment_patterns(img, columns.as_slice(), rows.as_slice());
        Some(Code { columns, rows, alignment_positions })
    }

    /// Whether every module of the symbol lies inside `img`.
    pub fn fits_image(&self, img: &image::DynamicImage) -> (ok: bool)
        ensures
            ok == self.grid().fits(*img),
    {
        let columns_fit = spans_fit(self.columns.as_slice(), width(img));
        let rows_fit = spans_fit(self.rows.as_slice(), height(img));
        assert(self.grid().columns == self.columns@);
        assert(self.grid().rows == self.rows@);
        columns_fit && rows_fit
    }

    /// The alignment patterns that were found when the symbol was built.
    pub fn alignment_positions(&self) -> (found: &[GridPoint])
        ensures
            found@ == self.alignment(),
    {
        self.alignment_positions.as_slice()
    }

    /// The pixels of the module at column `x` of row `y`.
    pub fn idx_to_module(&self, x: usize, y: usize) -> (module: Raster)
        requires
            self.grid().contains(x as int, y as int),
        ensures
            module == self.grid().raster(x as int, y as int),
    {
        idx_to_module(self.columns.as_slice(), self.rows.as_slice(), x, y)
    }

    /// A walk over the timing row.
    pub fn horiz_timing_iter(&self) -> (iter: HorizTimingIter)
        ensures
            iter.wf(),
            iter.remaining() == timing_row_from(self.grid().width(), 7),
            iter.failure() is None,
    {
        HorizTimingIter::new(self.columns.len())
    }

    /// A walk over the timing column.
    pub fn vert_timing_iter(&self) -> (iter: VertTimingIter)
        ensures
            iter.wf(),
            iter.remaining() == timing_column_from(self.grid().height(), 7),
            iter.failure() is None,
    {
        VertTimingIter::new(self.rows.len())
    }

    /// A walk over the format modules of the format row.
    pub fn horiz_format_iter(&self) -> (iter: HorizFormatIter)
        ensures
            iter.wf(),
            iter.remaining() == format_row_from(self.grid().width(), 0),
            iter.failure() is None,
    {
        HorizFormatIter::new(self.columns.len())
    }

    /// A walk over the format modules of the format column.
    pub fn vert_format_iter(&self) -> (iter: VertFormatIter)
        ensures
            iter.wf(),
            iter.remaining() == format_column_above(self.grid().height(), self.grid().height()),
            iter.failure() is None,
    {
        VertFormatIter::new(self.rows.len())
    }

    /// Reads the mask identifier off the format row and starts the walk over
    /// the data modules with that mask. It fails with `Truncated` where the
    /// format row holds no identifier, and with `UnsupportedMask` where the
    /// identifier names no supported mask.
    pub fn bit_iter<'a>(&'a self, img: &'a image::DynamicImage) -> (walk: Result<
        DataBitIter<'a>,
        DecodeError,
    >)
        requires
            self.grid().fits(*img),
        ensures
            match walk {
                Ok(iter) => {
                    &&& format_mask_id(self.grid(), *img) matches Some(id)
                    &&& mask_for(id) == Some(iter.mask())
                    &&& iter.wf()
                    &&& iter.code() == *self
                    &&& iter.image() == *img
                    &&& iter.remaining() == walk_outputs(*self, *img, iter.mask())
                    &&& iter.failure() == if whole_run(*self).broken {
                        Some(DecodeError::TraversalInvariantBroken)
                    } else {
                        None
                    }
                },
                Err(e) => match format_mask_id(self.grid(), *img) {
                    None => e == DecodeError::Truncated,
                    Some(id) => mask_for(id) is None && e == DecodeError::UnsupportedMask,
                },
            },
    {
        proof {
            use_type_invariant(self);
        }
        if self.rows.len() <= 8 {
            return Err(DecodeError::Truncated);
        }
        let mut format = self.horiz_format_iter();
        let ghost row = format.remaining();
        match format.take_or_err(2) {
            Ok(_) => {},
            Err(e) => {
                return Err(e);
            },
        }
        let modules = match format.take_or_err(3) {
            Ok(modules) => modules,
            Err(e) => {
                return Err(e);
            },
        };
        let mut mask_val: u8 = 0;
        let mut weight: u8 = 1;
        let mut i: usize = 0;
        let ghost grid = self.grid();
        while i < 3
            invariant
                grid == self.grid(),
                grid.bounded(),
                grid.fits(*img),
                grid.height() > 8,
                row == format_row_from(grid.width(), 0),
                row.len() >= 5,
                modules@ == row.skip(2).take(3),
                i <= 3,
                weight == if i == 0 {
                    1int
                } else if i == 1 {
                    2int
                } else if i == 2 {
                    4int
                } else {
                    8int
                },
                mask_val == mask_bits(
                    i > 0 && grid.module_white(*img, row[2].x as int, 8),
                    i > 1 && grid.module_white(*img, row[3].x as int, 8),
                    i > 2 && grid.module_white(*img, row[4].x as int, 8),
                ),
            decreases 3 - i,
        {
            proof {
                lemma_format_row_members(grid.width(), 0, 2 + i);
                assert(modules@[i as int] == row[2 + i]);
            }
            let module = modules[i];
            let bit = sample_module(img, self.columns.as_slice(), self.rows.as_slice(), module.x, module.y);
            if bit {
                mask_val += weight;
            }
            weight *= 2;
            i += 1;
        }
        match get_mask_fn(mask_val) {
            Some(mask_fn) => Ok(DataBitIter::new(self, mask_fn, img)),
            None => Err(DecodeError::UnsupportedMask),
        }
    }

    /// Starts the walk over the data modules and reads the header off it.
    /// It fails as `bit_iter` does, and where the walk holds fewer than
    /// twelve bits: with the walk's own error if it breaks, else with
    /// `Truncated`.
    pub fn data_iter<'a>(&'a self, img: &'a image::DynamicImage) -> (bytes: Result<
        DataByteIter<'a>,
        DecodeError,
    >)
        requires
            self.grid().fits(*img),
        ensures
            match bytes {
                Ok(bytes) => {
                    &&& format_mask_id(self.grid(), *img) matches Some(id)
                    &&& mask_for(id) matches Some(mask)
                    &&& {
                        let bits = bits_of(walk_outputs(*self, *img, mask));
                        &&& bits.len() >= 12
                        &&& bytes.wf()
                        &&& bytes.header_encoding() == bits_value(bits.take(4))
                        &&& bytes.header_length() == bits_value(bits.skip(4).take(8))
                        &&& bytes.bits() == bits.skip(12)
                        &&& bytes.bytes_read() == 0
                        &&& bytes.walk_failure() == if whole_run(*self).broken {
                            Some(DecodeError::TraversalInvariantBroken)
                        } else {
                            None
                        }
                    }
                },
                Err(e) => match format_mask_id(self.grid(), *img) {
                    None => e == DecodeError::Truncated,
                    Some(id) => match mask_for(id) {
                        None => e == DecodeError::UnsupportedMask,
                        Some(mask) => {
                            &&& walk_outputs(*self, *img, mask).len() < 12
                            &&& e == short_walk_error(*self)
                        },
                    },
                },
            },
    {
        match self.bit_iter(img) {
            Ok(iter) => DataByteIter::new(iter),
            Err(e) => Err(e),
        }
    }

    /// Number of module columns.
    pub fn num_horiz_elems(&self) -> (n: usize)
        ensures
            n == self.grid().width(),
            self.grid().bounded(),
    {
        proof {
            use_type_invariant(self);
        }
        self.columns.len()
    }

    /// Number of module rows.
    pub fn num_vert_elems(&self) -> (n: usize)
        ensures
            n == self.grid().height(),
            self.grid().bounded(),
    {
        proof {
            use_type_invariant(self);
        }
        self.rows.len()
    }
}

impl<'a> AlignmentPatternIter<'a> {
    /// Starts a scan of a symbol for alignment patterns.
    pub fn for_code(code: &'a Code, img: &'a image::DynamicImage) -> (iter: AlignmentPatternIter<
        'a,
    >)
        requires
            code.grid().fits(*img),
        ensures
            iter.wf(),
            iter.grid() == code.grid(),
            iter.image() == *img,
            iter.cursor() == (GridPoint { x: 0, y: 0 }),
    {
        proof {
            use_type_invariant(code);
        }
        AlignmentPatternIter::new(code.columns.as_slice(), code.rows.as_slice(), img)
    }
}

} // verus!
