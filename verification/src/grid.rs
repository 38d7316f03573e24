//! The module grid of a symbol, as the pixel spans of its columns and rows.

use vstd::prelude::*;
use crate::img::{image_height, image_width, is_white_module, module_is_white, Raster};

verus! {

/// The pixels that one column (or row) of modules covers along its axis:
/// `start..end`.
#[derive(Debug, Clone, Copy, PartialEq, Eq, Structural)]
pub struct Span {
    pub start: u32,
    pub end: u32,
}

impl Span {
    /// The span is empty or ends inside an axis that is `limit` pixels long.
    pub open spec fn fits(self, limit: int) -> bool {
        self.start < self.end ==> self.end <= limit
    }
}

/// The largest number of columns, or of rows, that a grid may have: every
/// module index and its neighbours then fit each integer type that reads them.
pub const MAX_GRID_SIDE: usize = 0x4000_0000;

/// The mathematical model of a grid: the spans of its columns and rows.
pub struct Grid {
    pub columns: Seq<Span>,
    pub rows: Seq<Span>,
}

impl Grid {
    /// Number of module columns.
    pub open spec fn width(self) -> int {
        self.columns.len() as int
    }

    /// Number of module rows.
    pub open spec fn height(self) -> int {
        self.rows.len() as int
    }

    /// Whether column `x` of row `y` is a module of the grid.
    pub open spec fn contains(self, x: int, y: int) -> bool {
        0 <= x < self.width() && 0 <= y < self.height()
    }

    /// The pixels of the module at column `x` of row `y`.
    pub open spec fn raster(self, x: int, y: int) -> Raster {
        Raster {
            start_x: self.columns[x].start,
            end_x: self.columns[x].end,
            start_y: self.rows[y].start,
            end_y: self.rows[y].end,
        }
    }

    /// Whether the module at column `x` of row `y` is white in `img`.
    pub open spec fn module_white(self, img: image::DynamicImage, x: int, y: int) -> bool {
        module_is_white(img, self.raster(x, y))
    }

    /// Neither side is longer than `MAX_GRID_SIDE`.
    pub open spec fn bounded(self) -> bool {
        self.width() <= MAX_GRID_SIDE && self.height() <= MAX_GRID_SIDE
    }

    /// Every span lies inside the image along its axis.
    pub open spec fn fits(self, img: image::DynamicImage) -> bool {
        &&& forall|x: int|
            0 <= x < self.width() ==> (#[trigger] self.columns[x]).fits(image_width(img) as int)
        &&& forall|y: int|
            0 <= y < self.height() ==> (#[trigger] self.rows[y]).fits(image_height(img) as int)
    }
}

/// Whether every span lies inside an axis that is `limit` pixels long.
pub fn spans_fit(spans: &[Span], limit: u32) -> (ok: bool)
    ensures
        ok == (forall|i: int| 0 <= i < spans@.len() ==> (#[trigger] spans@[i]).fits(limit as int)),
{
    let mut i: usize = 0;
    while i < spans.len()
        invariant
            i <= spans@.len(),
            forall|k: int| 0 <= k < i ==> (#[trigger] spans@[k]).fits(limit as int),
        decreases spans@.len() - i,
    {
        if spans[i].start < spans[i].end && spans[i].end > limit {
            return false;
        }
        i += 1;
    }
    true
}

/// The pixels of the module at column `x` of row `y` of a grid.
pub fn idx_to_module(columns: &[Span], rows: &[Span], x: usize, y: usize) -> (raster: Raster)
    requires
        x < columns@.len(),
        y < rows@.len(),
    ensures
        raster == (Grid { columns: columns@, rows: rows@ }).raster(x as int, y as int),
{
    Raster {
        start_x: columns[x].start,
        end_x: columns[x].end,
        start_y: rows[y].start,
        end_y: rows[y].end,
    }
}

/// Samples the module at column `x` of row `y`: whether it is white.
pub(crate) fn sample_module(
    img: &image::DynamicImage,
    columns: &[Span],
    rows: &[Span],
    x: usize,
    y: usize,
) -> (white: bool)
    requires
        x < columns@.len(),
        y < rows@.len(),
        (Grid { columns: columns@, rows: rows@ }).fits(*img),
    ensures
        white == (Grid { columns: columns@, rows: rows@ }).module_white(*img, x as int, y as int),
{
    let raster = idx_to_module(columns, rows, x, y);
    assert(columns@[x as int].fits(image_width(*img) as int));
    assert(rows@[y as int].fits(image_height(*img) as int));
    is_white_module(img, &raster)
}

} // verus!
