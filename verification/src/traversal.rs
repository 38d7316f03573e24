//! The zig-zag walk over the data modules of a symbol.

use vstd::prelude::*;
use crate::alignment::ALIGNMENT_PATTERN_NUM_ELEMS;
use crate::error::DecodeError;
use crate::grid::{Grid, MAX_GRID_SIDE};
use crate::img::{is_white_module, Raster};
use crate::mask::MaskFn;
use crate::qr::Code;
use crate::util::{GridPoint, IteratorExt};

verus! {

/// Number of modules along a side of a finder pattern.
pub const FINDER_NUM_ELEMS: usize = 7;

/// Index of the row, and of the column, that holds a timing pattern.
pub const TIMER_PATTERN_OFFSET: usize = FINDER_NUM_ELEMS - 1;

/// What the walk needs to know of a symbol: the size of its grid and the
/// top-left modules of its alignment patterns.
pub struct Layout {
    pub width: int,
    pub height: int,
    pub alignment: Seq<GridPoint>,
}

/// The state of the walk: a position, which half-step comes next, and the
/// vertical sense of travel.
pub struct Cursor {
    pub x: int,
    pub y: int,
    pub moving_vertically: bool,
    pub upward: bool,
}

/// What the walk does at a position.
#[derive(Debug, Clone, Copy, PartialEq, Eq, Structural)]
pub enum IterationAction {
    /// Skip the module with another half-step.
    ContinueZigZag,
    /// Step once more along the axis of the last half-step.
    ContinueStraight,
    /// Begin the next pair of columns in the opposite vertical sense.
    TurnAround,
    /// The walk has left the grid on the left: it ends.
    Finish,
    /// The module is a data module.
    Yield,
}

/// The modules of a walk, in order, and whether the walk ended because it had
/// to turn around after a horizontal half-step.
pub struct Run {
    pub yields: Seq<Cursor>,
    pub broken: bool,
}

/// The region of the top-left finder pattern, its separator and format
/// modules.
pub open spec fn tl_finder_region(x: int, y: int) -> bool {
    x < 9 && y < 9
}

/// The region of the top-right finder pattern in a grid `width` modules wide.
pub open spec fn tr_finder_region(x: int, y: int, width: int) -> bool {
    x > width - 8 && y < 9
}

/// The region of the bottom-left finder pattern in a grid `height` modules
/// high.
pub open spec fn bl_finder_region(x: int, y: int, height: int) -> bool {
    x < 9 && y >= height - 8
}

/// The timing row and the timing column.
pub open spec fn timing_pattern(x: int, y: int) -> bool {
    x == 6 || y == 6
}

/// Whether `(x, y)` lies in the 5x5 block whose top-left module is `corner`.
pub open spec fn in_block(x: int, y: int, corner: GridPoint) -> bool {
    corner.x <= x < corner.x + 5 && corner.y <= y < corner.y + 5
}

/// Whether `(x, y)` lies in the footprint of one of the alignment patterns.
pub open spec fn alignment_footprint(x: int, y: int, alignment: Seq<GridPoint>) -> bool {
    exists|i: int| 0 <= i < alignment.len() && in_block(x, y, #[trigger] alignment[i])
}

impl Cursor {
    /// The vertical sense of travel: -1 upward, +1 downward.
    pub open spec fn direction(self) -> int {
        if self.upward {
            -1
        } else {
            1
        }
    }

    /// The right column of the pair of columns that the walk is in.
    pub open spec fn pair_column(self) -> int {
        if self.moving_vertically {
            self.x + 1
        } else {
            self.x
        }
    }

    /// Where the walk begins: below the bottom-right corner, about to step
    /// diagonally into it, travelling upward.
    pub open spec fn initial(l: Layout) -> Cursor {
        Cursor { x: l.width - 2, y: l.height, moving_vertically: true, upward: true }
    }

    /// One half-step: diagonally to the next row of the pair, or left within
    /// the pair.
    pub open spec fn zig_zag(self) -> Cursor {
        if self.moving_vertically {
            Cursor {
                x: self.x + 1,
                y: self.y + self.direction(),
                moving_vertically: false,
                upward: self.upward,
            }
        } else {
            Cursor { x: self.x - 1, y: self.y, moving_vertically: true, upward: self.upward }
        }
    }

    /// One step along the axis of the last half-step.
    pub open spec fn straight(self, last_vertical: bool) -> Cursor {
        if last_vertical {
            Cursor { y: self.y + self.direction(), ..self }
        } else {
            Cursor { x: self.x - 1, ..self }
        }
    }

    /// The move to the next pair of columns: two columns left, one row back,
    /// the sense flipped, a horizontal half-step next.
    pub open spec fn turn_around(self) -> Cursor {
        Cursor {
            x: self.x - 2,
            y: self.y - self.direction(),
            moving_vertically: false,
            upward: !self.upward,
        }
    }

    /// The classification of the position: the first row of the action table
    /// that applies.
    pub open spec fn action(self, l: Layout) -> IterationAction {
        if self.x < 0 {
            IterationAction::Finish
        } else if self.y >= l.height || self.y < 0 {
            IterationAction::TurnAround
        } else if tr_finder_region(self.x, self.y, l.width) {
            IterationAction::TurnAround
        } else if tl_finder_region(self.x, self.y) {
            if self.upward {
                IterationAction::TurnAround
            } else {
                IterationAction::ContinueZigZag
            }
        } else if bl_finder_region(self.x, self.y, l.height) {
            if self.upward {
                IterationAction::ContinueZigZag
            } else {
                IterationAction::TurnAround
            }
        } else if timing_pattern(self.x, self.y) {
            IterationAction::ContinueStraight
        } else if alignment_footprint(self.x, self.y, l.alignment) {
            IterationAction::ContinueZigZag
        } else {
            IterationAction::Yield
        }
    }

    /// First component of the measure by which every move of the walk makes
    /// progress: the pair of columns.
    pub open spec fn column_rank(self) -> nat {
        if self.pair_column() + 3 < 0 {
            0
        } else {
            (self.pair_column() + 3) as nat
        }
    }

    /// Second component: the rows left in the sense of travel.
    pub open spec fn row_rank(self, l: Layout) -> nat {
        let left = if self.upward {
            self.y + 1
        } else {
            l.height - self.y
        };
        if left < 0 {
            0
        } else {
            left as nat
        }
    }

    /// Third component: whether the horizontal half-step of the row is still
    /// to come.
    pub open spec fn step_rank(self) -> nat {
        if self.moving_vertically {
            0
        } else {
            1
        }
    }
}

/// The walk from a position that a move has just reached: the position is
/// classified and the action taken, until the walk finishes or breaks.
/// `last_vertical` says whether the last half-step was the diagonal one; a
/// turn-around counts as a horizontal move.
pub open spec fn run_from(c: Cursor, last_vertical: bool, l: Layout) -> Run
    decreases c.column_rank(), c.row_rank(l), c.step_rank(),
{
    match c.action(l) {
        IterationAction::Finish => Run { yields: Seq::empty(), broken: false },
        IterationAction::Yield => {
            let rest = run_from(c.zig_zag(), c.moving_vertically, l);
            Run { yields: seq![c] + rest.yields, broken: rest.broken }
        },
        IterationAction::ContinueZigZag => run_from(c.zig_zag(), c.moving_vertically, l),
        IterationAction::ContinueStraight => run_from(
            c.straight(last_vertical),
            last_vertical,
            l,
        ),
        IterationAction::TurnAround => if last_vertical {
            run_from(c.turn_around(), false, l)
        } else {
            Run { yields: Seq::empty(), broken: true }
        },
    }
}

/// A data module as the walk hands it out: its pixels, its indices and the
/// data bit it stands for. Black is 1 before the mask is removed.
#[derive(Debug, Clone, Copy, PartialEq, Eq, Structural)]
pub struct Output {
    pub module: Raster,
    pub bit: bool,
    pub x: isize,
    pub y: isize,
}

/// The data module at a position of a walk: the module is sampled, dark
/// counting as 1, and the mask removed.
pub open spec fn sampled_output(
    grid: Grid,
    img: image::DynamicImage,
    mask: MaskFn,
    c: Cursor,
) -> Output {
    Output {
        module: grid.raster(c.x, c.y),
        bit: mask.unmasked(!grid.module_white(img, c.x, c.y), c.x, c.y),
        x: c.x as isize,
        y: c.y as isize,
    }
}

/// The size of a symbol's grid and its alignment patterns.
pub open spec fn layout_of(code: Code) -> Layout {
    Layout {
        width: code.grid().width(),
        height: code.grid().height(),
        alignment: code.alignment(),
    }
}

/// The whole walk over a symbol, from its start.
pub open spec fn whole_run(code: Code) -> Run {
    run_from(Cursor::initial(layout_of(code)).zig_zag(), true, layout_of(code))
}

/// The data modules of a symbol in the order of the walk, sampled in `img`
/// and with `mask` removed.
pub open spec fn walk_outputs(code: Code, img: image::DynamicImage, mask: MaskFn) -> Seq<Output> {
    whole_run(code).yields.map_values(|c: Cursor| sampled_output(code.grid(), img, mask, c))
}

/// The walk over the data modules of a symbol, one module at a time.
pub struct DataBitIter<'a> {
    code: &'a Code,
    x: isize,
    y: isize,
    moving_vertically: bool,
    movement_direction: isize,
    mask_fn: MaskFn,
    img: &'a image::DynamicImage,
    finished: bool,
}

/// The classifier of the walk for one position: it answers, one question at
/// a time, what the action table asks of the position.
pub struct IterationActionMachine<'a> {
    x: isize,
    y: isize,
    width: isize,
    height: isize,
    x_right_of_right_finder: bool,
    y_above_top_finder: bool,
    x_left_of_left_finder: bool,
    y_below_bottom_finder: bool,
    alignment_patterns: &'a [GridPoint],
}

impl<'a> IterationActionMachine<'a> {
    /// The cached answers agree with the position and the grid's size.
    #[verifier::type_invariant]
    spec fn cache_is_consistent(self) -> bool {
        &&& self.y_above_top_finder == (self.y < 9)
        &&& self.x_right_of_right_finder == (self.x > self.width - 8)
        &&& self.x_left_of_left_finder == (self.x < 9)
        &&& self.y_below_bottom_finder == (self.y >= self.height - 8)
    }

    /// Column of the position.
    pub closed spec fn x(&self) -> int {
        self.x as int
    }

    /// Row of the position.
    pub closed spec fn y(&self) -> int {
        self.y as int
    }

    /// The grid's size and alignment patterns.
    pub closed spec fn layout(&self) -> Layout {
        Layout {
            width: self.width as int,
            height: self.height as int,
            alignment: self.alignment_patterns@,
        }
    }

    /// The classifier for column `x` of row `y` of a grid of the given size
    /// and alignment patterns.
    pub fn at(
        x: isize,
        y: isize,
        width: usize,
        height: usize,
        alignment_patterns: &'a [GridPoint],
    ) -> (machine: Self)
        requires
            width <= MAX_GRID_SIDE,
            height <= MAX_GRID_SIDE,
        ensures
            machine.x() == x,
            machine.y() == y,
            machine.layout() == (Layout {
                width: width as int,
                height: height as int,
                alignment: alignment_patterns@,
            }),
    {
        let finder_num_elems = FINDER_NUM_ELEMS as isize;
        let width = width as isize;
        let height = height as isize;
        let y_above_top_finder = y < finder_num_elems + 2;
        let x_right_of_right_finder = x > width - finder_num_elems - 1;
        let x_left_of_left_finder = x < finder_num_elems + 2;
        let y_below_bottom_finder = y >= height - finder_num_elems - 1;
        Self {
            x,
            y,
            width,
            height,
            x_right_of_right_finder,
            y_above_top_finder,
            x_left_of_left_finder,
            y_below_bottom_finder,
            alignment_patterns,
        }
    }

    /// The classifier for the position at which a walk stands.
    pub fn new(iter: &'a DataBitIter) -> (machine: Self)
        ensures
            machine.x() == iter.cursor().x,
            machine.y() == iter.cursor().y,
            machine.layout() == iter.layout(),
    {
        let width = iter.code.num_horiz_elems();
        let height = iter.code.num_vert_elems();
        Self::at(iter.x, iter.y, width, height, iter.code.alignment_positions())
    }

    /// The action table: what a walk that travels upward, or downward, does
    /// at the position.
    pub fn action(&self, upward: bool) -> (action: IterationAction)
        ensures
            action == (Cursor {
                x: self.x(),
                y: self.y(),
                moving_vertically: false,
                upward,
            }).action(self.layout()),
    {
        if self.is_finished() {
            return IterationAction::Finish;
        }
        if self.is_out_of_bounds_y() {
            return IterationAction::TurnAround;
        }
        if self.in_tr_finder() {
            return IterationAction::TurnAround;
        }
        if self.in_tl_finder() {
            if upward {
                return IterationAction::TurnAround;
            } else {
                return IterationAction::ContinueZigZag;
            }
        }
        if self.in_bl_finder() {
            if upward {
                return IterationAction::ContinueZigZag;
            } else {
                return IterationAction::TurnAround;
            }
        }
        if self.is_in_timing_pattern() {
            return IterationAction::ContinueStraight;
        }
        if self.is_in_alignment_pattern() {
            return IterationAction::ContinueZigZag;
        }
        IterationAction::Yield
    }

    /// Whether the walk has left the grid on the left.
    pub fn is_finished(&self) -> (finished: bool)
        ensures
            finished == (self.x() < 0),
    {
        self.x < 0
    }

    /// Whether the row lies outside the grid.
    pub fn is_out_of_bounds_y(&self) -> (outside: bool)
        ensures
            outside == (self.y() >= self.layout().height || self.y() < 0),
    {
        self.y >= self.height || self.y < 0
    }

    /// Whether the position lies in the region of the top-right finder.
    pub fn in_tr_finder(&self) -> (inside: bool)
        ensures
            inside == tr_finder_region(self.x(), self.y(), self.layout().width),
    {
        proof {
            use_type_invariant(self);
        }
        self.x_right_of_right_finder && self.y_above_top_finder
    }

    /// Whether the position lies in the region of the top-left finder.
    pub fn in_tl_finder(&self) -> (inside: bool)
        ensures
            inside == tl_finder_region(self.x(), self.y()),
    {
        proof {
            use_type_invariant(self);
        }
        self.x_left_of_left_finder && self.y_above_top_finder
    }

    /// Whether the position lies in the region of the bottom-left finder.
    pub fn in_bl_finder(&self) -> (inside: bool)
        ensures
            inside == bl_finder_region(self.x(), self.y(), self.layout().height),
    {
        proof {
            use_type_invariant(self);
        }
        self.x_left_of_left_finder && self.y_below_bottom_finder
    }

    /// Whether the position lies on the timing row or the timing column.
    pub fn is_in_timing_pattern(&self) -> (inside: bool)
        ensures
            inside == timing_pattern(self.x(), self.y()),
    {
        self.x == TIMER_PATTERN_OFFSET as isize || self.y == TIMER_PATTERN_OFFSET as isize
    }

    /// Whether the position lies in the footprint of an alignment pattern.
    pub fn is_in_alignment_pattern(&self) -> (inside: bool)
        ensures
            inside == alignment_footprint(self.x(), self.y(), self.layout().alignment),
    {
        if self.x < 0 || self.y < 0 {
            return false;
        }
        let x = self.x as usize;
        let y = self.y as usize;
        let mut i: usize = 0;
        while i < self.alignment_patterns.len()
            invariant
                i <= self.alignment_patterns@.len(),
                x == self.x,
                y == self.y,
                forall|k: int|
                    0 <= k < i ==> !in_block(
                        self.x as int,
                        self.y as int,
                        #[trigger] self.alignment_patterns@[k],
                    ),
            decreases self.alignment_patterns@.len() - i,
        {
            let tl = &self.alignment_patterns[i];
            let x_in_alignment = x >= tl.x && x - tl.x < ALIGNMENT_PATTERN_NUM_ELEMS;
            let y_in_alignment = y >= tl.y && y - tl.y < ALIGNMENT_PATTERN_NUM_ELEMS;
            if x_in_alignment && y_in_alignment {
                assert(in_block(self.x as int, self.y as int, self.alignment_patterns@[i as int]));
                return true;
            }
            i += 1;
        }
        false
    }
}

impl<'a> DataBitIter<'a> {
    /// The symbol that is walked.
    pub closed spec fn code(&self) -> Code {
        *self.code
    }

    /// The image that is sampled.
    pub closed spec fn image(&self) -> image::DynamicImage {
        *self.img
    }

    /// The mask that is removed from the modules.
    pub closed spec fn mask(&self) -> MaskFn {
        self.mask_fn
    }

    /// The state of the walk.
    pub closed spec fn cursor(&self) -> Cursor {
        Cursor {
            x: self.x as int,
            y: self.y as int,
            moving_vertically: self.moving_vertically,
            upward: self.movement_direction == -1,
        }
    }

    /// Whether the walk has finished or broken.
    pub closed spec fn ended(&self) -> bool {
        self.finished
    }

    /// The size of the symbol's grid and its alignment patterns.
    pub open spec fn layout(&self) -> Layout {
        layout_of(self.code())
    }

    /// What is left of the walk.
    pub open spec fn run(&self) -> Run {
        if self.ended() {
            Run { yields: Seq::empty(), broken: false }
        } else {
            run_from(self.cursor().zig_zag(), self.cursor().moving_vertically, self.layout())
        }
    }

    /// The data module at a position of the walk.
    pub open spec fn output_at(&self, c: Cursor) -> Output {
        sampled_output(self.code().grid(), self.image(), self.mask(), c)
    }

    /// A walk at its start.
    pub fn new(code: &'a Code, mask_fn: MaskFn, img: &'a image::DynamicImage) -> (iter: Self)
        requires
            code.grid().fits(*img),
        ensures
            iter.wf(),
            iter.code() == *code,
            iter.image() == *img,
            iter.mask() == mask_fn,
            !iter.ended(),
            iter.cursor() == Cursor::initial(iter.layout()),
            iter.remaining() == walk_outputs(*code, *img, mask_fn),
            iter.failure() == if whole_run(*code).broken {
                Some(DecodeError::TraversalInvariantBroken)
            } else {
                None
            },
    {
        let width = code.num_horiz_elems();
        let height = code.num_vert_elems();
        Self {
            code,
            x: width as isize - 2,
            y: height as isize,
            moving_vertically: true,
            movement_direction: -1,
            mask_fn,
            img,
            finished: false,
        }
    }

    /// The cursor stays within reach of the grid, so that no move overflows.
    spec fn in_reach(&self, last_vertical: bool) -> bool {
        &&& self.code.grid().bounded()
        &&& self.code.grid().fits(*self.img)
        &&& self.movement_direction == 1 || self.movement_direction == -1
        &&& -3 <= self.x
        &&& self.cursor().pair_column() <= self.layout().width - 1
        &&& -2 <= self.y <= self.layout().height + 1
        &&& last_vertical ==> -1 <= self.y <= self.layout().height
    }

    /// Takes one half-step and says whether it was the diagonal one.
    fn do_zig_zag(&mut self) -> (vertical: bool)
        requires
            -3 <= old(self).x <= MAX_GRID_SIDE,
            -2 <= old(self).y <= MAX_GRID_SIDE,
            old(self).movement_direction == 1 || old(self).movement_direction == -1,
        ensures
            final(self).cursor() == old(self).cursor().zig_zag(),
            vertical == old(self).cursor().moving_vertically,
            final(self).code == old(self).code,
            final(self).img == old(self).img,
            final(self).mask_fn == old(self).mask_fn,
            final(self).finished == old(self).finished,
            final(self).movement_direction == old(self).movement_direction,
    {
        if self.moving_vertically {
            self.x += 1;
            self.y += self.movement_direction;
        } else {
            self.x -= 1;
        }
        self.moving_vertically = !self.moving_vertically;
        !self.moving_vertically
    }

    /// Takes one step along the axis of the last half-step.
    fn do_continue(&mut self, last_move_vertical: bool)
        requires
            -3 <= old(self).x <= MAX_GRID_SIDE,
            -2 <= old(self).y <= MAX_GRID_SIDE,
            old(self).movement_direction == 1 || old(self).movement_direction == -1,
        ensures
            final(self).cursor() == old(self).cursor().straight(last_move_vertical),
            final(self).code == old(self).code,
            final(self).img == old(self).img,
            final(self).mask_fn == old(self).mask_fn,
            final(self).finished == old(self).finished,
            final(self).movement_direction == old(self).movement_direction,
    {
        if last_move_vertical {
            self.y += self.movement_direction;
        } else {
            self.x -= 1;
        }
    }

    /// Moves to the next pair of columns and flips the sense of travel.
    fn do_turn_around(&mut self)
        requires
            -3 <= old(self).x <= MAX_GRID_SIDE,
            -2 <= old(self).y <= MAX_GRID_SIDE,
            old(self).movement_direction == 1 || old(self).movement_direction == -1,
        ensures
            final(self).cursor() == old(self).cursor().turn_around(),
            final(self).code == old(self).code,
            final(self).img == old(self).img,
            final(self).mask_fn == old(self).mask_fn,
            final(self).finished == old(self).finished,
            final(self).movement_direction == -old(self).movement_direction,
    {
        self.x -= 2;
        self.y -= self.movement_direction;
        self.movement_direction = -self.movement_direction;
        self.moving_vertically = false;
    }

    /// Classifies the position at which the walk stands.
    pub fn check_next_action(&self) -> (action: IterationAction)
        ensures
            action == self.cursor().action(self.layout()),
    {
        let action_machine = IterationActionMachine::new(self);
        action_machine.action(self.movement_direction == -1)
    }

    /// Moves the cursor to the next data module. `Ok(false)` when it rests on
    /// one, `Ok(true)` when the walk has finished, and the error when it had
    /// to turn around after a horizontal half-step.
    fn update_pos(&mut self) -> (moved: Result<bool, DecodeError>)
        requires
            old(self).wf(),
            !old(self).finished,
        ensures
            final(self).code == old(self).code,
            final(self).img == old(self).img,
            final(self).mask_fn == old(self).mask_fn,
            !final(self).finished,
            final(self).code.grid().bounded(),
            final(self).code.grid().fits(*final(self).img),
            final(self).movement_direction == 1 || final(self).movement_direction == -1,
            match moved {
                Ok(false) => {
                    &&& final(self).wf()
                    &&& old(self).run().yields.len() > 0
                    &&& old(self).run().yields[0] == final(self).cursor()
                    &&& final(self).cursor().action(final(self).layout()) == IterationAction::Yield
                    &&& final(self).run().yields == old(self).run().yields.skip(1)
                    &&& final(self).run().broken == old(self).run().broken
                },
                Ok(true) => old(self).run().yields.len() == 0 && !old(self).run().broken,
                Err(e) => {
                    &&& e == DecodeError::TraversalInvariantBroken
                    &&& old(self).run().yields.len() == 0
                    &&& old(self).run().broken
                },
            },
    {
        let ghost whole = self.run();
        let ghost l = self.layout();
        let mut last_move_vert = self.do_zig_zag();
        loop
            invariant
                !self.finished,
                self.in_reach(last_move_vert),
                self.code == old(self).code,
                self.img == old(self).img,
                self.mask_fn == old(self).mask_fn,
                l == self.layout(),
                whole == old(self).run(),
                run_from(self.cursor(), last_move_vert, l) == whole,
            decreases self.cursor().column_rank(), self.cursor().row_rank(l), self.cursor().step_rank(),
        {
            let next_action = self.check_next_action();
            match next_action {
                IterationAction::ContinueZigZag => {
                    last_move_vert = self.do_zig_zag();
                },
                IterationAction::ContinueStraight => {
                    self.do_continue(last_move_vert);
                },
                IterationAction::TurnAround => {
                    if !last_move_vert {
                        return Err(DecodeError::TraversalInvariantBroken);
                    }
                    self.do_turn_around();
                    last_move_vert = false;
                },
                IterationAction::Finish => {
                    return Ok(true);
                },
                IterationAction::Yield => {
                    proof {
                        let rest = run_from(
                            self.cursor().zig_zag(),
                            self.cursor().moving_vertically,
                            l,
                        );
                        assert((seq![self.cursor()] + rest.yields).skip(1) =~= rest.yields);
                    }
                    return Ok(false);
                },
            }
        }
    }

}

impl<'a> IteratorExt for DataBitIter<'a> {
    type Item = Output;

    /// The symbol is well formed and fits the image, and the cursor rests on
    /// the walk's start or on a module that was handed out.
    closed spec fn wf(&self) -> bool {
        &&& self.code.grid().bounded()
        &&& self.code.grid().fits(*self.img)
        &&& self.movement_direction == 1 || self.movement_direction == -1
        &&& !self.finished ==> {
            &&& -2 <= self.x
            &&& self.cursor().pair_column() <= self.layout().width - 1
            &&& 0 <= self.y <= self.layout().height
            &&& self.movement_direction == 1 ==> self.y < self.layout().height
        }
    }

    /// The data modules that are left of the walk.
    open spec fn remaining(&self) -> Seq<Output> {
        self.run().yields.map_values(|c: Cursor| self.output_at(c))
    }

    /// The walk fails where it has to turn around after a horizontal
    /// half-step.
    open spec fn failure(&self) -> Option<DecodeError> {
        if self.run().broken {
            Some(DecodeError::TraversalInvariantBroken)
        } else {
            None
        }
    }

    /// Hands out the next data module of the walk; `Ok(None)` once the walk
    /// has finished, and `TraversalInvariantBroken` where it had to turn
    /// around after a horizontal half-step, after which it has ended.
    fn next(&mut self) -> (item: Result<Option<Output>, DecodeError>)
        ensures
            final(self).code() == old(self).code(),
            final(self).image() == old(self).image(),
            final(self).mask() == old(self).mask(),
    {
        if self.finished {
            return Ok(None);
        }
        let ghost before = *self;
        match self.update_pos() {
            Err(e) => {
                self.finished = true;
                Err(e)
            },
            Ok(true) => {
                self.finished = true;
                Ok(None)
            },
            Ok(false) => {
                let module = self.code.idx_to_module(self.x as usize, self.y as usize);
                let is_dark = !is_white_module(self.img, &module);
                proof {
                    let f = |c: Cursor| before.output_at(c);
                    let g = |c: Cursor| self.output_at(c);
                    assert(f =~= g);
                    assert(before.run().yields.skip(1).map_values(f) =~= before.run().yields.map_values(
                        f,
                    ).skip(1));
                }
                Ok(
                    Some(
                        Output {
                            module,
                            x: self.x,
                            y: self.y,
                            bit: self.mask_fn.demask(is_dark, self.x as u32, self.y as u32),
                        },
                    ),
                )
            },
        }
    }
}

} // verus!
