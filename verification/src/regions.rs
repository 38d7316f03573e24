//! Walks over the functional regions of a symbol: the timing patterns and
//! the format modules. They are pure geometry over module indices.

use vstd::prelude::*;
use crate::error::DecodeError;
use crate::traversal::{FINDER_NUM_ELEMS, TIMER_PATTERN_OFFSET};
use crate::util::{GridPoint, IteratorExt};

verus! {

/// Index of the first module of a timing pattern behind a finder pattern.
pub const TIMER_PATTERN_START: usize = FINDER_NUM_ELEMS;

/// Index of the row, and of the column, that holds the format modules.
pub const FORMAT_PATTERN_OFFSET: usize = FINDER_NUM_ELEMS + 1;

/// The modules of the timing row from column `x` on, in a grid `width`
/// modules wide: the columns up to the right finder pattern.
pub open spec fn timing_row_from(width: int, x: int) -> Seq<GridPoint> {
    Seq::new(
        if x + 7 < width {
            (width - 7 - x) as nat
        } else {
            0
        },
        |i: int| GridPoint { x: (x + i) as usize, y: 6 },
    )
}

/// The modules of the timing column from row `y` on, in a grid `height`
/// modules high: the rows down to the bottom finder pattern.
pub open spec fn timing_column_from(height: int, y: int) -> Seq<GridPoint> {
    Seq::new(
        if y + 7 < height {
            (height - 7 - y) as nat
        } else {
            0
        },
        |i: int| GridPoint { x: 6, y: (y + i) as usize },
    )
}

/// Whether column `x` of the format row holds a format module: the columns
/// 0 to 7 and the last eight, without the timing column.
pub open spec fn is_format_column(width: int, x: int) -> bool {
    0 <= x < width && x != 6 && (x <= 7 || x >= width - 8)
}

/// Whether row `y` of the format column holds a format module: the rows 0 to
/// 7 and the last eight, without the timing row.
pub open spec fn is_format_row(height: int, y: int) -> bool {
    0 <= y < height && y != 6 && (y <= 7 || y >= height - 8)
}

/// The format modules of the format row from column `x` on, left to right.
pub open spec fn format_row_from(width: int, x: int) -> Seq<GridPoint>
    decreases width - x,
{
    if x >= width || x < 0 {
        Seq::empty()
    } else if is_format_column(width, x) {
        seq![GridPoint { x: x as usize, y: 8 }] + format_row_from(width, x + 1)
    } else {
        format_row_from(width, x + 1)
    }
}

/// The format modules of the format column above row `y`, bottom to top.
pub open spec fn format_column_above(height: int, y: int) -> Seq<GridPoint>
    decreases y,
{
    if y <= 0 {
        Seq::empty()
    } else if is_format_row(height, y - 1) {
        seq![GridPoint { x: 8, y: (y - 1) as usize }] + format_column_above(height, y - 1)
    } else {
        format_column_above(height, y - 1)
    }
}

/// Between the eight leading columns and the eight trailing ones the format
/// row holds no format module.
proof fn lemma_format_row_gap(width: int, from: int, to: int)
    requires
        8 <= from <= to <= width - 8,
    ensures
        format_row_from(width, from) == format_row_from(width, to),
    decreases to - from,
{
    if from < to {
        lemma_format_row_gap(width, from + 1, to);
    }
}

/// Between the eight trailing rows and the eight leading ones the format
/// column holds no format module.
proof fn lemma_format_column_gap(height: int, from: int, to: int)
    requires
        8 <= to <= from <= height - 8,
    ensures
        format_column_above(height, from) == format_column_above(height, to),
    decreases from - to,
{
    if to < from {
        lemma_format_column_gap(height, from - 1, to);
    }
}

/// Every module of the format row lies in row 8 and inside the grid.
pub proof fn lemma_format_row_members(width: int, x: int, k: int)
    requires
        0 <= x,
        width <= usize::MAX,
        0 <= k < format_row_from(width, x).len(),
    ensures
        format_row_from(width, x)[k].y == 8,
        x <= format_row_from(width, x)[k].x < width,
        is_format_column(width, format_row_from(width, x)[k].x as int),
    decreases width - x,
{
    if x < width {
        if is_format_column(width, x) {
            if k > 0 {
                lemma_format_row_members(width, x + 1, k - 1);
            }
        } else {
            lemma_format_row_members(width, x + 1, k);
        }
    }
}

/// Walks the timing row from left to right.
pub struct HorizTimingIter {
    num_horiz_elems: usize,
    x: usize,
}

impl HorizTimingIter {
    /// A walk over the timing row of a grid `num_horiz_elems` modules wide.
    pub fn new(num_horiz_elems: usize) -> (iter: Self)
        ensures
            iter.wf(),
            iter.remaining() == timing_row_from(num_horiz_elems as int, 7),
            iter.failure() is None,
    {
        Self { num_horiz_elems, x: TIMER_PATTERN_START }
    }
}

impl IteratorExt for HorizTimingIter {
    type Item = GridPoint;

    open spec fn wf(&self) -> bool {
        true
    }

    closed spec fn remaining(&self) -> Seq<GridPoint> {
        timing_row_from(self.num_horiz_elems as int, self.x as int)
    }

    open spec fn failure(&self) -> Option<DecodeError> {
        None
    }

    fn next(&mut self) -> (item: Result<Option<GridPoint>, DecodeError>) {
        if self.num_horiz_elems < TIMER_PATTERN_START || self.x >= self.num_horiz_elems
            - TIMER_PATTERN_START {
            return Ok(None);
        }
        let timing = GridPoint { x: self.x, y: TIMER_PATTERN_OFFSET };
        let ghost before = self.remaining();
        self.x += 1;
        assert(self.remaining() =~= before.skip(1));
        Ok(Some(timing))
    }
}

/// Walks the timing column from top to bottom.
pub struct VertTimingIter {
    num_vert_elems: usize,
    y: usize,
}

impl VertTimingIter {
    /// A walk over the timing column of a grid `num_vert_elems` modules high.
    pub fn new(num_vert_elems: usize) -> (iter: Self)
        ensures
            iter.wf(),
            iter.remaining() == timing_column_from(num_vert_elems as int, 7),
            iter.failure() is None,
    {
        Self { num_vert_elems, y: TIMER_PATTERN_START }
    }
}

impl IteratorExt for VertTimingIter {
    type Item = GridPoint;

    open spec fn wf(&self) -> bool {
        true
    }

    closed spec fn remaining(&self) -> Seq<GridPoint> {
        timing_column_from(self.num_vert_elems as int, self.y as int)
    }

    open spec fn failure(&self) -> Option<DecodeError> {
        None
    }

    fn next(&mut self) -> (item: Result<Option<GridPoint>, DecodeError>) {
        if self.num_vert_elems < TIMER_PATTERN_START || self.y >= self.num_vert_elems
            - TIMER_PATTERN_START {
            return Ok(None);
        }
        let timing = GridPoint { x: TIMER_PATTERN_OFFSET, y: self.y };
        let ghost before = self.remaining();
        self.y += 1;
        assert(self.remaining() =~= before.skip(1));
        Ok(Some(timing))
    }
}

/// Walks the format modules of the format row from left to right.
pub struct HorizFormatIter {
    num_horiz_elems: usize,
    x: usize,
}

impl HorizFormatIter {
    /// A walk over the format row of a grid `num_horiz_elems` modules wide.
    pub fn new(num_horiz_elems: usize) -> (iter: Self)
        ensures
            iter.wf(),
            iter.remaining() == format_row_from(num_horiz_elems as int, 0),
            iter.failure() is None,
    {
        Self { num_horiz_elems, x: 0 }
    }
}

impl IteratorExt for HorizFormatIter {
    type Item = GridPoint;

    /// The cursor stands outside the gap between the two groups of format
    /// modules.
    closed spec fn wf(&self) -> bool {
        self.x <= 7 || self.x >= self.num_horiz_elems - 8
    }

    closed spec fn remaining(&self) -> Seq<GridPoint> {
        format_row_from(self.num_horiz_elems as int, self.x as int)
    }

    open spec fn failure(&self) -> Option<DecodeError> {
        None
    }

    fn next(&mut self) -> (item: Result<Option<GridPoint>, DecodeError>) {
        loop
            invariant
                self.wf(),
                self.num_horiz_elems == old(self).num_horiz_elems,
                self.remaining() == old(self).remaining(),
            decreases self.num_horiz_elems - self.x,
        {
            if self.x >= self.num_horiz_elems {
                return Ok(None);
            }
            let prev_x = self.x;
            let ghost before = self.remaining();
            self.x += 1;
            if self.x >= FINDER_NUM_ELEMS + 1 && self.num_horiz_elems >= FINDER_NUM_ELEMS + 1
                && self.x < self.num_horiz_elems - FINDER_NUM_ELEMS - 1 {
                proof {
                    lemma_format_row_gap(
                        self.num_horiz_elems as int,
                        self.x as int,
                        self.num_horiz_elems - 8,
                    );
                }
                self.x = self.num_horiz_elems - FINDER_NUM_ELEMS - 1;
            }
            if prev_x == TIMER_PATTERN_OFFSET {
                continue ;
            }
            assert(self.remaining() =~= before.skip(1));
            return Ok(Some(GridPoint { x: prev_x, y: FORMAT_PATTERN_OFFSET }));
        }
    }
}

/// Walks the format modules of the format column from bottom to top.
pub struct VertFormatIter {
    num_vert_elems: usize,
    y: usize,
}

impl VertFormatIter {
    /// A walk over the format column of a grid `num_vert_elems` modules high.
    pub fn new(num_vert_elems: usize) -> (iter: Self)
        ensures
            iter.wf(),
            iter.remaining() == format_column_above(num_vert_elems as int, num_vert_elems as int),
            iter.failure() is None,
    {
        Self { num_vert_elems, y: num_vert_elems }
    }
}

impl IteratorExt for VertFormatIter {
    type Item = GridPoint;

    /// The cursor stands outside the gap between the two groups of format
    /// modules.
    closed spec fn wf(&self) -> bool {
        self.y <= self.num_vert_elems && (self.y <= 8 || self.y >= self.num_vert_elems - 8)
    }

    closed spec fn remaining(&self) -> Seq<GridPoint> {
        format_column_above(self.num_vert_elems as int, self.y as int)
    }

    open spec fn failure(&self) -> Option<DecodeError> {
        None
    }

    fn next(&mut self) -> (item: Result<Option<GridPoint>, DecodeError>) {
        loop
            invariant
                self.wf(),
                self.num_vert_elems == old(self).num_vert_elems,
                self.remaining() == old(self).remaining(),
            decreases self.y,
        {
            if self.y == 0 {
                return Ok(None);
            }
            let ghost before = self.remaining();
            self.y -= 1;
            if self.y > FINDER_NUM_ELEMS && self.num_vert_elems - self.y > FINDER_NUM_ELEMS + 1 {
                proof {
                    lemma_format_column_gap(self.num_vert_elems as int, self.y + 1, 8);
                }
                self.y = FINDER_NUM_ELEMS;
            }
            if self.y == TIMER_PATTERN_OFFSET {
                continue ;
            }
            assert(self.remaining() =~= before.skip(1));
            return Ok(Some(GridPoint { x: FORMAT_PATTERN_OFFSET, y: self.y }));
        }
    }
}

} // verus!
