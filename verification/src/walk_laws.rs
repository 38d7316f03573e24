//! What holds of every walk over the data modules.

use vstd::prelude::*;
use crate::traversal::{
    alignment_footprint, run_from, timing_pattern, Cursor, IterationAction, Layout, Run,
};

verus! {

/// No reserved-region intrusion: every module that a walk hands out lies in
/// the grid's rows, at a column that is not negative, outside the three
/// finder regions, off the timing patterns and outside every alignment
/// pattern. This is what the classification `Yield` says of a position.
pub proof fn lemma_walk_yields_data_modules(c: Cursor, last_vertical: bool, l: Layout, i: int)
    requires
        0 <= i < run_from(c, last_vertical, l).yields.len(),
    ensures
        run_from(c, last_vertical, l).yields[i].action(l) == IterationAction::Yield,
    decreases c.column_rank(), c.row_rank(l), c.step_rank(),
{
    match c.action(l) {
        IterationAction::Finish => {},
        IterationAction::Yield => {
            if i > 0 {
                lemma_walk_yields_data_modules(c.zig_zag(), c.moving_vertically, l, i - 1);
            }
        },
        IterationAction::ContinueZigZag => {
            lemma_walk_yields_data_modules(c.zig_zag(), c.moving_vertically, l, i);
        },
        IterationAction::ContinueStraight => {
            lemma_walk_yields_data_modules(c.straight(last_vertical), last_vertical, l, i);
        },
        IterationAction::TurnAround => {
            if last_vertical {
                lemma_walk_yields_data_modules(c.turn_around(), false, l, i);
            }
        },
    }
}

/// A walk never moves to a pair of columns further right: every module it
/// hands out lies in the pair of columns it started in or left of it.
pub proof fn lemma_walk_stays_left(c: Cursor, last_vertical: bool, l: Layout, i: int)
    requires
        0 <= i < run_from(c, last_vertical, l).yields.len(),
    ensures
        run_from(c, last_vertical, l).yields[i].x <= c.pair_column(),
        run_from(c, last_vertical, l).yields[i].pair_column() <= c.pair_column(),
    decreases c.column_rank(), c.row_rank(l), c.step_rank(),
{
    match c.action(l) {
        IterationAction::Finish => {},
        IterationAction::Yield => {
            if i > 0 {
                lemma_walk_stays_left(c.zig_zag(), c.moving_vertically, l, i - 1);
            }
        },
        IterationAction::ContinueZigZag => {
            lemma_walk_stays_left(c.zig_zag(), c.moving_vertically, l, i);
        },
        IterationAction::ContinueStraight => {
            lemma_walk_stays_left(c.straight(last_vertical), last_vertical, l, i);
        },
        IterationAction::TurnAround => {
            if last_vertical {
                lemma_walk_stays_left(c.turn_around(), false, l, i);
            }
        },
    }
}

/// A walk from its start hands out modules of the grid only, and none of a
/// reserved region.
pub proof fn lemma_walk_stays_in_grid(l: Layout, i: int)
    requires
        0 <= i < run_from(Cursor::initial(l).zig_zag(), true, l).yields.len(),
    ensures
        ({
            let module = run_from(Cursor::initial(l).zig_zag(), true, l).yields[i];
            &&& 0 <= module.x < l.width
            &&& 0 <= module.y < l.height
            &&& module.action(l) == IterationAction::Yield
        }),
{
    let first = Cursor::initial(l).zig_zag();
    lemma_walk_yields_data_modules(first, true, l, i);
    lemma_walk_stays_left(first, true, l, i);
}

/// What holds of a position `c` that a walk reaches after it has rested on
/// `rest`: it is in no pair of columns further right, and as long as it has
/// not turned around it travels in the same sense and has not come back
/// behind the row of `rest`; where it is in that row again, it has made only
/// horizontal steps.
pub open spec fn is_behind(rest: Cursor, c: Cursor) -> bool {
    &&& c.pair_column() <= rest.pair_column()
    &&& c.pair_column() >= rest.pair_column() - 1 ==> {
        &&& c.upward == rest.upward
        &&& if rest.upward {
            c.y <= rest.y
        } else {
            c.y >= rest.y
        }
        &&& c.y == rest.y ==> !rest.moving_vertically && (c.pair_column() == rest.pair_column()
            ==> c.moving_vertically)
    }
}

/// A position behind a resting position is another module.
pub proof fn lemma_behind_is_elsewhere(rest: Cursor, c: Cursor)
    requires
        is_behind(rest, c),
    ensures
        c.x != rest.x || c.y != rest.y,
{
}

/// Every module that a walk hands out from a position behind `rest` is
/// behind `rest` too.
proof fn lemma_yields_are_behind(rest: Cursor, c: Cursor, last_vertical: bool, l: Layout, i: int)
    requires
        is_behind(rest, c),
        0 <= i < run_from(c, last_vertical, l).yields.len(),
    ensures
        is_behind(rest, run_from(c, last_vertical, l).yields[i]),
    decreases c.column_rank(), c.row_rank(l), c.step_rank(),
{
    match c.action(l) {
        IterationAction::Finish => {},
        IterationAction::Yield => {
            if i > 0 {
                lemma_yields_are_behind(rest, c.zig_zag(), c.moving_vertically, l, i - 1);
            }
        },
        IterationAction::ContinueZigZag => {
            lemma_yields_are_behind(rest, c.zig_zag(), c.moving_vertically, l, i);
        },
        IterationAction::ContinueStraight => {
            lemma_yields_are_behind(rest, c.straight(last_vertical), last_vertical, l, i);
        },
        IterationAction::TurnAround => {
            if last_vertical {
                lemma_yields_are_behind(rest, c.turn_around(), false, l, i);
            }
        },
    }
}

/// What a walk hands out behind its module number `i` is the walk from that
/// module's next half-step.
proof fn lemma_rest_of_walk(c: Cursor, last_vertical: bool, l: Layout, i: int)
    requires
        0 <= i < run_from(c, last_vertical, l).yields.len(),
    ensures
        ({
            let module = run_from(c, last_vertical, l).yields[i];
            run_from(module.zig_zag(), module.moving_vertically, l).yields == run_from(
                c,
                last_vertical,
                l,
            ).yields.skip(i + 1)
        }),
    decreases c.column_rank(), c.row_rank(l), c.step_rank(),
{
    let whole = run_from(c, last_vertical, l).yields;
    match c.action(l) {
        IterationAction::Finish => {},
        IterationAction::Yield => {
            let rest = run_from(c.zig_zag(), c.moving_vertically, l).yields;
            if i > 0 {
                lemma_rest_of_walk(c.zig_zag(), c.moving_vertically, l, i - 1);
                assert(rest.skip(i) =~= whole.skip(i + 1));
            } else {
                assert(rest =~= whole.skip(1));
            }
        },
        IterationAction::ContinueZigZag => {
            lemma_rest_of_walk(c.zig_zag(), c.moving_vertically, l, i);
        },
        IterationAction::ContinueStraight => {
            lemma_rest_of_walk(c.straight(last_vertical), last_vertical, l, i);
        },
        IterationAction::TurnAround => {
            if last_vertical {
                lemma_rest_of_walk(c.turn_around(), false, l, i);
            }
        },
    }
}

/// No duplicates: a walk hands out no module twice, whatever the grid and
/// wherever the walk starts.
pub proof fn lemma_walk_has_no_duplicates(c: Cursor, last_vertical: bool, l: Layout, i: int, j: int)
    requires
        0 <= i < j < run_from(c, last_vertical, l).yields.len(),
    ensures
        ({
            let yields = run_from(c, last_vertical, l).yields;
            yields[i].x != yields[j].x || yields[i].y != yields[j].y
        }),
{
    let yields = run_from(c, last_vertical, l).yields;
    let rest = yields[i];
    lemma_rest_of_walk(c, last_vertical, l, i);
    let next = rest.zig_zag();
    assert(is_behind(rest, next));
    assert(yields.skip(i + 1)[j - i - 1] == yields[j]);
    lemma_yields_are_behind(rest, next, rest.moving_vertically, l, j - i - 1);
    lemma_behind_is_elsewhere(rest, yields[j]);
}

/// Whether column `x` of row `y` is a data module of a grid: it lies in the
/// grid, outside the three finder patterns with their separators and format
/// modules, off the timing patterns and outside every alignment pattern.
pub open spec fn is_data_module(l: Layout, x: int, y: int) -> bool {
    &&& 0 <= x < l.width
    &&& 0 <= y < l.height
    &&& !(x < 9 && y < 9)
    &&& !(x >= l.width - 8 && y < 9)
    &&& !(x < 9 && y >= l.height - 8)
    &&& !timing_pattern(x, y)
    &&& !alignment_footprint(x, y, l.alignment)
}

/// Whether a walk hands out the module at column `x` of row `y`.
pub open spec fn hands_out(run: Run, x: int, y: int) -> bool {
    exists|i: int| 0 <= i < run.yields.len() && (#[trigger] run.yields[i]).x == x && run.yields[i].y == y
}

/// A grid on which the walk is shown to cover the data modules: its width is
/// odd, so that the pairs of columns meet the timing column, and the finder
/// regions do not touch.
pub open spec fn is_regular(l: Layout) -> bool {
    l.width % 2 == 1 && l.width >= 17 && l.height >= 18
}

/// Where a walk that has just turned around, or has stepped off the timing
/// column, stands: on the first row of its pair of columns that can hold
/// data.
spec fn has_landed(c: Cursor, l: Layout) -> bool {
    let r = c.pair_column();
    if c.upward {
        (c.y == l.height - 1 && r >= 8) || (c.y == l.height - 9 && r <= 6)
    } else {
        (c.y == 0 && 8 <= r <= l.width - 10) || (c.y == 9 && (r <= 6 || r >= l.width - 7))
    }
}

/// The states that a walk from the start of a regular grid passes through.
spec fn on_course(c: Cursor, last_vertical: bool, l: Layout) -> bool {
    let r = c.pair_column();
    &&& r <= l.width - 1
    &&& -1 <= c.y <= l.height
    &&& if c.upward {
        c.y < l.height
    } else {
        0 <= c.y
    }
    &&& (r >= 8 && r % 2 == 0) || r == 5 || r == 3 || r == 1 || r == -1 || (r == 6
        && !c.moving_vertically && !last_vertical)
    &&& r >= 8 ==> (c.upward <==> (l.width - 1 - r) % 4 == 0)
    &&& last_vertical ==> !c.moving_vertically
    &&& c.upward && (r > l.width - 8 || r < 9) ==> c.y >= 8
    &&& !c.upward && r > l.width - 8 ==> c.y >= 9
    &&& !c.upward && r < 9 ==> c.y <= l.height - 8
    &&& c.moving_vertically ==> {
        let right = Cursor { x: r, y: c.y, moving_vertically: false, upward: c.upward };
        &&& 0 <= c.y < l.height
        &&& right.action(l) == IterationAction::Yield || right.action(l)
            == IterationAction::ContinueZigZag
    }
    &&& !last_vertical && !c.moving_vertically ==> has_landed(c, l)
}

/// The modules that a walk in state `c` has still before it: those of the
/// pairs of columns further left, those of its own pair in the rows further
/// on, and those of its own row that it has not passed.
spec fn is_ahead(c: Cursor, x: int, y: int) -> bool {
    let r = c.pair_column();
    ||| x <= r - 2
    ||| (x == r || x == r - 1) && if c.upward {
        y < c.y
    } else {
        y > c.y
    }
    ||| y == c.y && (x == r - 1 || (x == r && !c.moving_vertically))
}

/// The state to which a walk moves from a state in which it does not finish.
spec fn moved(c: Cursor, last_vertical: bool, l: Layout) -> (Cursor, bool) {
    match c.action(l) {
        IterationAction::Yield | IterationAction::ContinueZigZag => (
            c.zig_zag(),
            c.moving_vertically,
        ),
        IterationAction::ContinueStraight => (c.straight(last_vertical), last_vertical),
        _ => (c.turn_around(), false),
    }
}

/// One move of a walk on course: it turns around after a vertical step only,
/// it stays on course, it hands out data modules only, and it leaves no data
/// module behind.
proof fn lemma_move_on_course(c: Cursor, last_vertical: bool, l: Layout)
    requires
        is_regular(l),
        on_course(c, last_vertical, l),
        c.action(l) != IterationAction::Finish,
    ensures
        c.action(l) == IterationAction::TurnAround ==> last_vertical,
        on_course(moved(c, last_vertical, l).0, moved(c, last_vertical, l).1, l),
        c.action(l) == IterationAction::Yield ==> is_data_module(l, c.x, c.y),
        forall|x: int, y: int|
            #[trigger] is_data_module(l, x, y) && is_ahead(c, x, y) && !(c.action(l)
                == IterationAction::Yield && x == c.x && y == c.y) ==> is_ahead(
                moved(c, last_vertical, l).0,
                x,
                y,
            ),
{
}

/// A walk on course on a regular grid does not break, hands out data modules
/// only, and hands out every data module that it has before it.
proof fn lemma_course_covers(c: Cursor, last_vertical: bool, l: Layout)
    requires
        is_regular(l),
        on_course(c, last_vertical, l),
    ensures
        !run_from(c, last_vertical, l).broken,
        forall|i: int|
            0 <= i < run_from(c, last_vertical, l).yields.len() ==> is_data_module(
                l,
                (#[trigger] run_from(c, last_vertical, l).yields[i]).x,
                run_from(c, last_vertical, l).yields[i].y,
            ),
        forall|x: int, y: int|
            #[trigger] is_data_module(l, x, y) && is_ahead(c, x, y) ==> hands_out(
                run_from(c, last_vertical, l),
                x,
                y,
            ),
    decreases c.column_rank(), c.row_rank(l), c.step_rank(),
{
    let run = run_from(c, last_vertical, l);
    if c.action(l) != IterationAction::Finish {
        lemma_move_on_course(c, last_vertical, l);
        let (next, next_last) = moved(c, last_vertical, l);
        lemma_course_covers(next, next_last, l);
        let rest = run_from(next, next_last, l);
        if c.action(l) == IterationAction::Yield {
            assert(run.yields == seq![c] + rest.yields);
            assert forall|i: int| 0 <= i < run.yields.len() implies is_data_module(
                l,
                (#[trigger] run.yields[i]).x,
                run.yields[i].y,
            ) by {
                if i > 0 {
                    assert(run.yields[i] == rest.yields[i - 1]);
                }
            }
            assert forall|x: int, y: int| #[trigger]
                is_data_module(l, x, y) && is_ahead(c, x, y) implies hands_out(run, x, y) by {
                if x == c.x && y == c.y {
                    assert(run.yields[0] == c);
                } else {
                    assert(is_ahead(next, x, y));
                    let i = choose|i: int|
                        0 <= i < rest.yields.len() && (#[trigger] rest.yields[i]).x == x
                            && rest.yields[i].y == y;
                    assert(run.yields[i + 1] == rest.yields[i]);
                }
            }
        } else {
            assert(run == rest);
        }
    }
}

/// Traversal coverage: on a symbol of a version, of 4 * version + 17 modules
/// a side, the walk over the data modules does not break and hands out
/// exactly the data modules, each of them once.
pub proof fn lemma_walk_covers_data_modules(l: Layout, version: int)
    requires
        version >= 1,
        l.width == 4 * version + 17,
        l.height == l.width,
    ensures
        ({
            let run = run_from(Cursor::initial(l).zig_zag(), true, l);
            &&& !run.broken
            &&& forall|x: int, y: int| #[trigger] hands_out(run, x, y) <==> is_data_module(l, x, y)
            &&& forall|i: int, j: int|
                0 <= i < j < run.yields.len() ==> (#[trigger] run.yields[i]).x != (
                #[trigger] run.yields[j]).x || run.yields[i].y != run.yields[j].y
        }),
{
    let first = Cursor::initial(l).zig_zag();
    let run = run_from(first, true, l);
    assert(is_regular(l));
    assert(on_course(first, true, l));
    lemma_course_covers(first, true, l);
    assert forall|x: int, y: int| #[trigger] hands_out(run, x, y) <==> is_data_module(l, x, y) by {
        if is_data_module(l, x, y) {
            assert(is_ahead(first, x, y));
        }
    }
    assert forall|i: int, j: int| 0 <= i < j < run.yields.len() implies (#[trigger] run.yields[i]).x
        != (#[trigger] run.yields[j]).x || run.yields[i].y != run.yields[j].y by {
        lemma_walk_has_no_duplicates(first, true, l, i, j);
    }
}

} // verus!
