//! Counting of the modules along a timing pattern.

use vstd::prelude::*;
use crate::grid::Grid;
use crate::img::{image_height, image_width, is_white_module, is_white_pixel, white_at};
use crate::qr::Code;
use crate::traversal::FINDER_NUM_ELEMS;
use crate::util::{GridPoint, IteratorExt};

verus! {

/// Whether pixel `t` of a line is white: the line is row `line` where
/// `along_row` holds, else column `line`.
pub open spec fn white_along(img: image::DynamicImage, along_row: bool, line: int, t: int) -> bool {
    if along_row {
        white_at(img, t, line)
    } else {
        white_at(img, line, t)
    }
}

/// Number of colour changes between neighbouring pixels among the pixels
/// `from..to` of a line.
pub open spec fn transitions(
    img: image::DynamicImage,
    along_row: bool,
    line: int,
    from: int,
    to: int,
) -> nat
    decreases to - from,
{
    if to <= from + 1 {
        0
    } else {
        transitions(img, along_row, line, from, to - 1) + if white_along(
            img,
            along_row,
            line,
            to - 1,
        ) != white_along(img, along_row, line, to - 2) {
            1nat
        } else {
            0nat
        }
    }
}

/// Whether pixel `t` of a line lies inside the image.
pub open spec fn on_line(img: image::DynamicImage, along_row: bool, line: int, t: int) -> bool {
    if along_row {
        0 <= t < image_width(img) && 0 <= line < image_height(img)
    } else {
        0 <= t < image_height(img) && 0 <= line < image_width(img)
    }
}

/// Counts the modules along a timing pattern: the thirteen that the two
/// finder patterns account for, and one more for every colour change
/// between neighbouring pixels among the pixels `from..to` of the line.
///
/// The pixel `from` is read in any case, so it must lie inside the image, as
/// must all pixels up to `to`.
pub fn find_elem_count(
    img: &image::DynamicImage,
    along_row: bool,
    line: u32,
    from: u32,
    to: u32,
) -> (count: u64)
    requires
        on_line(*img, along_row, line as int, from as int),
        from < to ==> on_line(*img, along_row, line as int, to - 1),
    ensures
        count == 2 * FINDER_NUM_ELEMS - 1 + transitions(
            *img,
            along_row,
            line as int,
            from as int,
            to as int,
        ),
{
    let mut last_is_white = read_along(img, along_row, line, from);
    let mut num_elems: u64 = 2 * (FINDER_NUM_ELEMS as u64) - 1;
    let mut t: u32 = from;
    if from >= to {
        return num_elems;
    }
    t += 1;
    while t < to
        invariant
            from < t <= to,
            on_line(*img, along_row, line as int, from as int),
            on_line(*img, along_row, line as int, to - 1),
            last_is_white == white_along(*img, along_row, line as int, t - 1),
            num_elems == 13 + transitions(*img, along_row, line as int, from as int, t as int),
            num_elems <= 13 + (t - from),
        decreases to - t,
    {
        let is_white = read_along(img, along_row, line, t);
        if is_white != last_is_white {
            num_elems += 1;
        }
        last_is_white = is_white;
        t += 1;
    }
    num_elems
}

/// Reads pixel `t` of a line.
fn read_along(img: &image::DynamicImage, along_row: bool, line: u32, t: u32) -> (white: bool)
    requires
        on_line(*img, along_row, line as int, t as int),
    ensures
        white == white_along(*img, along_row, line as int, t as int),
{
    if along_row {
        is_white_pixel(img, t, line)
    } else {
        is_white_pixel(img, line, t)
    }
}

/// Whether module number `k` of a timing pattern is as a timing pattern
/// asks: it is a module of the grid, and it is white where `k` is even and
/// dark where `k` is odd.
pub open spec fn is_timing_module(
    grid: Grid,
    img: image::DynamicImage,
    module: GridPoint,
    k: int,
) -> bool {
    grid.contains(module.x as int, module.y as int) && grid.module_white(
        img,
        module.x as int,
        module.y as int,
    ) == (k % 2 == 0)
}

/// The first of the modules from number `from` on that is not as a timing
/// pattern asks.
pub open spec fn first_timing_fault(
    grid: Grid,
    img: image::DynamicImage,
    modules: Seq<GridPoint>,
    from: int,
) -> Option<GridPoint>
    decreases modules.len() - from,
{
    if from < 0 || from >= modules.len() {
        None
    } else if is_timing_module(grid, img, modules[from], from) {
        first_timing_fault(grid, img, modules, from + 1)
    } else {
        Some(modules[from])
    }
}

/// Checks that the modules of a walk alternate as a timing pattern does,
/// beginning with a white one, and hands back the first that does not.
pub fn inspect_timing<I: IteratorExt<Item = GridPoint>>(
    code: &Code,
    img: &image::DynamicImage,
    iter: &mut I,
) -> (fault: Option<GridPoint>)
    requires
        old(iter).wf(),
        code.grid().fits(*img),
    ensures
        final(iter).wf(),
        fault == first_timing_fault(code.grid(), *img, old(iter).remaining(), 0),
{
    let ghost modules = iter.remaining();
    let mut expected = true;
    let ghost mut k: int = 0;
    loop
        invariant
            iter.wf(),
            code.grid().fits(*img),
            modules == old(iter).remaining(),
            0 <= k <= modules.len(),
            iter.remaining() == modules.skip(k),
            expected == (k % 2 == 0),
            first_timing_fault(code.grid(), *img, modules, 0) == first_timing_fault(
                code.grid(),
                *img,
                modules,
                k,
            ),
        decreases modules.len() - k,
    {
        let module = match iter.next() {
            Ok(Some(module)) => module,
            _ => {
                return None;
            },
        };
        assert(module == modules[k]);
        if module.x >= code.num_horiz_elems() || module.y >= code.num_vert_elems() {
            return Some(module);
        }
        let raster = code.idx_to_module(module.x, module.y);
        if is_white_module(img, &raster) != expected {
            return Some(module);
        }
        expected = !expected;
        proof {
            assert(modules.skip(k).skip(1) =~= modules.skip(k + 1));
            k = k + 1;
        }
    }
}

} // verus!
