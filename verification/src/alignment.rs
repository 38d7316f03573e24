//! Location of alignment patterns by their 5x5 signature.

use vstd::prelude::*;
use crate::grid::{sample_module, Grid, Span};
use crate::util::GridPoint;

verus! {

/// Number of modules along a side of an alignment pattern.
pub const ALIGNMENT_PATTERN_NUM_ELEMS: usize = 5;

/// Whether the module at offset `(dx, dy)` of an alignment pattern is white:
/// the ring between the dark border and the dark centre.
pub open spec fn expected_white(dx: int, dy: int) -> bool {
    ((dy == 1 || dy == 3) && 0 < dx < 4) || ((dx == 1 || dx == 3) && 0 < dy < 4)
}

/// Whether the 5x5 block whose top-left module is column `x` of row `y`
/// shows the alignment signature in `img`.
pub open spec fn is_alignment_at(img: image::DynamicImage, grid: Grid, x: int, y: int) -> bool {
    forall|dx: int, dy: int|
        0 <= dx < 5 && 0 <= dy < 5 ==> #[trigger] grid.module_white(img, x + dx, y + dy)
            == expected_white(dx, dy)
}

/// Whether a 5x5 block with top-left module `p` lies inside the grid.
pub open spec fn in_scan(grid: Grid, p: GridPoint) -> bool {
    p.x + 5 <= grid.width() && p.y + 5 <= grid.height()
}

/// Scan order: rows from the top, each from the left.
pub open spec fn scanned_before(p: GridPoint, q: GridPoint) -> bool {
    p.y < q.y || (p.y == q.y && p.x < q.x)
}

/// A detected alignment pattern, named by its top-left module.
#[derive(Debug, Clone, Copy, PartialEq, Eq, Structural)]
pub struct AlignmentPattern {
    pub x: usize,
    pub y: usize,
}

/// Walks the grid in scan order and stops at each block that shows the
/// alignment signature.
pub struct AlignmentPatternIter<'a> {
    columns: &'a [Span],
    rows: &'a [Span],
    img: &'a image::DynamicImage,
    x: usize,
    y: usize,
}

impl<'a> AlignmentPatternIter<'a> {
    /// The grid that is scanned.
    pub closed spec fn grid(&self) -> Grid {
        Grid { columns: self.columns@, rows: self.rows@ }
    }

    /// The image that is sampled.
    pub closed spec fn image(&self) -> image::DynamicImage {
        *self.img
    }

    /// The block that is examined next.
    pub closed spec fn cursor(&self) -> GridPoint {
        GridPoint { x: self.x, y: self.y }
    }

    /// Whether the block at `p` is still to be examined.
    pub open spec fn pending(&self, p: GridPoint) -> bool {
        in_scan(self.grid(), p) && !scanned_before(p, self.cursor())
    }

    /// The grid is bounded and fits the image, and the cursor is a block of
    /// the scan or lies behind the last one.
    pub closed spec fn wf(&self) -> bool {
        &&& self.grid().bounded()
        &&& self.grid().fits(*self.img)
        &&& self.y <= self.rows@.len()
        &&& self.x + 5 <= self.columns@.len() || self.x == 0
    }

    /// Starts a scan at the top-left block of the grid.
    pub fn new(columns: &'a [Span], rows: &'a [Span], img: &'a image::DynamicImage) -> (iter: Self)
        requires
            (Grid { columns: columns@, rows: rows@ }).bounded(),
            (Grid { columns: columns@, rows: rows@ }).fits(*img),
        ensures
            iter.wf(),
            iter.grid() == (Grid { columns: columns@, rows: rows@ }),
            iter.image() == *img,
            iter.cursor() == (GridPoint { x: 0, y: 0 }),
    {
        AlignmentPatternIter { columns, rows, img, x: 0, y: 0 }
    }

    /// Whether the block at the cursor shows the alignment signature.
    fn is_alignment_element(&self) -> (found: bool)
        requires
            self.wf(),
            in_scan(self.grid(), self.cursor()),
        ensures
            found == is_alignment_at(self.image(), self.grid(), self.x as int, self.y as int),
    {
        let ghost grid = self.grid();
        let mut y_off: usize = 0;
        while y_off < ALIGNMENT_PATTERN_NUM_ELEMS
            invariant
                self.wf(),
                in_scan(self.grid(), self.cursor()),
                grid == self.grid(),
                y_off <= 5,
                forall|dx: int, dy: int|
                    0 <= dx < 5 && 0 <= dy < y_off ==> #[trigger] grid.module_white(
                        *self.img,
                        self.x + dx,
                        self.y + dy,
                    ) == expected_white(dx, dy),
            decreases 5 - y_off,
        {
            let mut x_off: usize = 0;
            while x_off < ALIGNMENT_PATTERN_NUM_ELEMS
                invariant
                    self.wf(),
                    in_scan(self.grid(), self.cursor()),
                    grid == self.grid(),
                    y_off < 5,
                    x_off <= 5,
                    forall|dx: int, dy: int|
                        0 <= dx < 5 && 0 <= dy < y_off ==> #[trigger] grid.module_white(
                            *self.img,
                            self.x + dx,
                            self.y + dy,
                        ) == expected_white(dx, dy),
                    forall|dx: int|
                        0 <= dx < x_off ==> #[trigger] grid.module_white(
                            *self.img,
                            self.x + dx,
                            self.y + y_off,
                        ) == expected_white(dx, y_off as int),
                decreases 5 - x_off,
            {
                let x = self.x + x_off;
                let y = self.y + y_off;
                let is_white = sample_module(self.img, self.columns, self.rows, x, y);
                let should_be_white = ((y_off == 1 || y_off == 3) && (x_off > 0 && x_off
                    < ALIGNMENT_PATTERN_NUM_ELEMS - 1)) || ((x_off == 1 || x_off == 3) && (y_off
                    > 0 && y_off < ALIGNMENT_PATTERN_NUM_ELEMS - 1));
                if is_white != should_be_white {
                    assert(grid.module_white(*self.img, self.x + x_off, self.y + y_off)
                        != expected_white(x_off as int, y_off as int));
                    return false;
                }
                x_off += 1;
            }
            y_off += 1;
        }
        true
    }

    /// Finds the next block, in scan order, that shows the alignment
    /// signature, and leaves the cursor behind it; `None` once no pending
    /// block shows it, which ends the scan.
    pub fn next(&mut self) -> (found: Option<AlignmentPattern>)
        requires
            old(self).wf(),
        ensures
            final(self).wf(),
            final(self).grid() == old(self).grid(),
            final(self).image() == old(self).image(),
            final(self).cursor().x <= final(self).grid().width(),
            final(self).cursor().y <= final(self).grid().height(),
            match found {
                Some(pattern) => {
                    let p = GridPoint { x: pattern.x, y: pattern.y };
                    &&& scanned_before(old(self).cursor(), final(self).cursor())
                    &&& scanned_before(p, final(self).cursor())
                    &&& old(self).pending(p)
                    &&& is_alignment_at(old(self).image(), old(self).grid(), p.x as int, p.y as int)
                    &&& forall|q: GridPoint|
                        old(self).pending(q) && scanned_before(q, p) ==> !is_alignment_at(
                            old(self).image(),
                            old(self).grid(),
                            q.x as int,
                            q.y as int,
                        )
                    &&& forall|q: GridPoint|
                        final(self).pending(q) <==> old(self).pending(q) && scanned_before(p, q)
                },
                None => {
                    &&& forall|q: GridPoint|
                        old(self).pending(q) ==> !is_alignment_at(
                            old(self).image(),
                            old(self).grid(),
                            q.x as int,
                            q.y as int,
                        )
                    &&& forall|q: GridPoint| !final(self).pending(q)
                },
            },
    {
        let width = self.columns.len();
        let height = self.rows.len();
        loop
            invariant
                self.wf(),
                self.grid() == old(self).grid(),
                self.image() == old(self).image(),
                width == self.columns@.len(),
                height == self.rows@.len(),
                self.cursor() == old(self).cursor() || scanned_before(
                    old(self).cursor(),
                    self.cursor(),
                ),
                forall|q: GridPoint| self.pending(q) ==> old(self).pending(q),
                forall|q: GridPoint|
                    old(self).pending(q) && !self.pending(q) ==> !is_alignment_at(
                        self.image(),
                        self.grid(),
                        q.x as int,
                        q.y as int,
                    ),
            decreases height - self.y, width - self.x,
        {
            if width < ALIGNMENT_PATTERN_NUM_ELEMS || self.y + ALIGNMENT_PATTERN_NUM_ELEMS
                > height {
                self.y = height;
                self.x = 0;
                return None;
            }
            let here = AlignmentPattern { x: self.x, y: self.y };
            let ghost p = GridPoint { x: self.x, y: self.y };
            let ghost before = *self;
            let found_align = self.is_alignment_element();
            self.x += 1;
            if self.x + ALIGNMENT_PATTERN_NUM_ELEMS > width {
                self.x = 0;
                self.y += 1;
            }
            assert forall|q: GridPoint| self.pending(q) <==> before.pending(q) && scanned_before(
                p,
                q,
            ) by {}
            if found_align {
                return Some(here);
            }
        }
    }
}

/// `found` lists, in scan order and each once, the blocks of the grid that
/// show the alignment signature in `img`.
pub open spec fn lists_alignment_patterns(
    found: Seq<GridPoint>,
    img: image::DynamicImage,
    grid: Grid,
) -> bool {
    &&& forall|k: int|
        0 <= k < found.len() ==> in_scan(grid, #[trigger] found[k]) && is_alignment_at(
            img,
            grid,
            found[k].x as int,
            found[k].y as int,
        )
    &&& forall|q: GridPoint|
        in_scan(grid, q) && is_alignment_at(img, grid, q.x as int, q.y as int)
            ==> #[trigger] found.contains(q)
    &&& forall|i: int, j: int|
        0 <= i < j < found.len() ==> scanned_before(#[trigger] found[i], #[trigger] found[j])
}

/// Scans the whole grid and collects the top-left modules of the blocks that
/// show the alignment signature.
pub fn find_alignment_patterns(
    img: &image::DynamicImage,
    columns: &[Span],
    rows: &[Span],
) -> (found: Vec<GridPoint>)
    requires
        (Grid { columns: columns@, rows: rows@ }).bounded(),
        (Grid { columns: columns@, rows: rows@ }).fits(*img),
    ensures
        lists_alignment_patterns(found@, *img, Grid { columns: columns@, rows: rows@ }),
{
    let ghost grid = Grid { columns: columns@, rows: rows@ };
    let mut iter = AlignmentPatternIter::new(columns, rows, img);
    let mut found: Vec<GridPoint> = Vec::new();
    loop
        invariant
            grid == (Grid { columns: columns@, rows: rows@ }),
            iter.wf(),
            iter.grid() == grid,
            iter.image() == *img,
            iter.cursor().x <= grid.width(),
            iter.cursor().y <= grid.height(),
            forall|k: int|
                0 <= k < found@.len() ==> in_scan(grid, #[trigger] found@[k]) && is_alignment_at(
                    *img,
                    grid,
                    found@[k].x as int,
                    found@[k].y as int,
                ),
            forall|k: int|
                0 <= k < found@.len() ==> scanned_before(#[trigger] found@[k], iter.cursor()),
            forall|q: GridPoint|
                in_scan(grid, q) && !iter.pending(q) && is_alignment_at(
                    *img,
                    grid,
                    q.x as int,
                    q.y as int,
                ) ==> #[trigger] found@.contains(q),
            forall|i: int, j: int|
                0 <= i < j < found@.len() ==> scanned_before(
                    #[trigger] found@[i],
                    #[trigger] found@[j],
                ),
        decreases grid.height() - iter.cursor().y, grid.width() - iter.cursor().x,
    {
        let ghost before = iter;
        let ghost listed = found@;
        match iter.next() {
            None => {
                proof {
                    assert forall|q: GridPoint|
                        in_scan(grid, q) && is_alignment_at(
                            *img,
                            grid,
                            q.x as int,
                            q.y as int,
                        ) implies #[trigger] found@.contains(q) by {
                        assert(!before.pending(q));
                    }
                }
                return found;
            },
            Some(pattern) => {
                let p = GridPoint { x: pattern.x, y: pattern.y };
                found.push(p);
                proof {
                    assert(found@[listed.len() as int] == p);
                    assert forall|q: GridPoint|
                        in_scan(grid, q) && !iter.pending(q) && is_alignment_at(
                            *img,
                            grid,
                            q.x as int,
                            q.y as int,
                        ) implies #[trigger] found@.contains(q) by {
                        if before.pending(q) {
                            assert(!scanned_before(p, q) && !scanned_before(q, p));
                            assert(q.x == p.x && q.y == p.y);
                            assert(q == p);
                        } else {
                            assert(listed.contains(q));
                            let k = choose|k: int| 0 <= k < listed.len() && listed[k] == q;
                            assert(found@[k] == q);
                        }
                    }
                }
            },
        }
    }
}

} // verus!
