//! Location of the finder patterns by their 1:1:3:1:1 run-length signature.

use vstd::prelude::*;
use vstd::laws_eq::obeys_concrete_eq;
use vstd::pervasive::unreached;
use crate::error::DecodeError;
use crate::img::{column_scan, height, image_height, image_width, row_scan, width, ToHoriz, ToVert};
use crate::rle::{run_length_encode, run_length_encoding, RleItem};
use crate::util::IteratorExt;

verus! {

/// The tolerance of the signature test: `a` is almost `b` when `|a/b - 1|` is
/// below 0.2, that is when five times their difference is below `b`.
pub open spec fn almost_same(a: int, b: int) -> bool {
    b > 0 && 5 * (if a >= b {
        a - b
    } else {
        b - a
    }) < b
}

/// Whether `a` is almost `b`, for numbers as wide as three run lengths.
fn is_almost_same_wide(a: u64, b: u64) -> (same: bool)
    requires
        a <= 3 * u32::MAX,
        b <= 3 * u32::MAX,
    ensures
        same == almost_same(a as int, b as int),
{
    let diff = if a >= b {
        a - b
    } else {
        b - a
    };
    b > 0 && 5 * diff < b
}

/// Whether the run length `a` is almost the run length `b`.
pub fn is_almost_same(a: u32, b: u32) -> (same: bool)
    ensures
        same == almost_same(a as int, b as int),
{
    is_almost_same_wide(a as u64, b as u64)
}

/// A finder-pattern candidate on one scan: twice its centre along the scan,
/// so that half pixels are whole numbers, and its length in pixels.
#[derive(Debug, Clone, Copy, PartialEq, Eq, Structural)]
pub struct FinderCandidate1D {
    pub twice_center: u64,
    pub length: i64,
}

/// Whether the five runs from run `i` on show the 1:1:3:1:1 signature: the
/// third is almost three times the first, the others almost the first.
pub open spec fn is_finder_window(rle: Seq<RleItem>, i: int) -> bool {
    let reference = rle[i].len as int;
    &&& almost_same(rle[i + 1].len as int, reference)
    &&& almost_same(rle[i + 2].len as int, 3 * reference)
    &&& almost_same(rle[i + 3].len as int, reference)
    &&& almost_same(rle[i + 4].len as int, reference)
}

/// The candidate that the window from run `i` on gives: centred on the third
/// run, as long as the five runs together.
pub open spec fn candidate_at(rle: Seq<RleItem>, i: int) -> FinderCandidate1D {
    FinderCandidate1D {
        twice_center: (2 * rle[i + 2].start + rle[i + 2].len) as u64,
        length: (rle[i + 4].start + rle[i + 4].len - rle[i].start) as i64,
    }
}

/// The candidates of the first `n` windows, in scan order.
pub open spec fn candidates_of_windows(rle: Seq<RleItem>, n: int) -> Seq<FinderCandidate1D>
    decreases n,
{
    if n <= 0 {
        Seq::empty()
    } else if is_finder_window(rle, n - 1) {
        candidates_of_windows(rle, n - 1).push(candidate_at(rle, n - 1))
    } else {
        candidates_of_windows(rle, n - 1)
    }
}

/// The candidates of all windows of five runs, in scan order.
pub open spec fn finder_candidates(rle: Seq<RleItem>) -> Seq<FinderCandidate1D> {
    candidates_of_windows(rle, rle.len() - 4)
}

/// Tests every window of five runs for the finder signature and collects
/// the candidates.
pub fn find_candidates(rle: &[RleItem]) -> (found: Vec<FinderCandidate1D>)
    ensures
        found@ == finder_candidates(rle@),
{
    let mut res: Vec<FinderCandidate1D> = Vec::new();
    if rle.len() < 5 {
        return res;
    }
    let end = rle.len() - 4;
    let mut i: usize = 0;
    while i < end
        invariant
            i <= end,
            end == rle@.len() - 4,
            res@ == candidates_of_windows(rle@, i as int),
        decreases end - i,
    {
        let reference = rle[i].len as u64;
        if is_almost_same_wide(rle[i + 1].len as u64, reference) && is_almost_same_wide(
            rle[i + 2].len as u64,
            reference * 3,
        ) && is_almost_same_wide(rle[i + 3].len as u64, reference) && is_almost_same_wide(
            rle[i + 4].len as u64,
            reference,
        ) {
            let length = (rle[i + 4].start as i64 + rle[i + 4].len as i64) - rle[i].start as i64;
            res.push(
                FinderCandidate1D {
                    twice_center: 2 * (rle[i + 2].start as u64) + rle[i + 2].len as u64,
                    length,
                },
            );
        }
        i += 1;
    }
    res
}

/// A finder-pattern candidate in the image: twice the coordinates of its
/// centre, and its length in pixels along the scan that found it.
#[derive(Debug, Clone, Copy, PartialEq, Eq, Structural)]
pub struct FinderCandidate2D {
    pub twice_cx: u64,
    pub twice_cy: u64,
    pub length: i64,
}

/// A candidate of the scan of column `x`: it is centred on the middle of the
/// column.
pub open spec fn on_column(c: FinderCandidate1D, x: int) -> FinderCandidate2D {
    FinderCandidate2D { twice_cx: (2 * x + 1) as u64, twice_cy: c.twice_center, length: c.length }
}

/// A candidate of the scan of row `y`: it is centred on the middle of the
/// row.
pub open spec fn on_row(c: FinderCandidate1D, y: int) -> FinderCandidate2D {
    FinderCandidate2D { twice_cx: c.twice_center, twice_cy: (2 * y + 1) as u64, length: c.length }
}

/// The candidates of one scan.
pub open spec fn scan_candidates(scan: Seq<bool>) -> Seq<FinderCandidate1D> {
    finder_candidates(run_length_encoding(scan))
}

/// The candidates of the scans of the first `n` columns, column by column.
pub open spec fn column_candidates_upto(img: image::DynamicImage, n: int) -> Seq<
    FinderCandidate2D,
>
    decreases n,
{
    if n <= 0 {
        Seq::empty()
    } else {
        column_candidates_upto(img, n - 1) + scan_candidates(
            column_scan(img, n - 1),
        ).map_values(|c: FinderCandidate1D| on_column(c, n - 1))
    }
}

/// The candidates of the scans of the first `n` rows, row by row.
pub open spec fn row_candidates_upto(img: image::DynamicImage, n: int) -> Seq<FinderCandidate2D>
    decreases n,
{
    if n <= 0 {
        Seq::empty()
    } else {
        row_candidates_upto(img, n - 1) + scan_candidates(row_scan(img, n - 1)).map_values(
            |c: FinderCandidate1D| on_row(c, n - 1),
        )
    }
}

/// Scans a line for candidates: the line is run-length encoded and every
/// window of five runs tested.
fn candidates_of_scan(scan: &Vec<bool>) -> (found: Vec<FinderCandidate1D>)
    requires
        scan@.len() <= u32::MAX,
    ensures
        found@ == scan_candidates(scan@),
{
    proof {
        assert(obeys_concrete_eq::<bool>()) by {
            reveal(obeys_concrete_eq);
        }
    }
    let encoding = run_length_encode(scan.as_slice());
    find_candidates(encoding.as_slice())
}

/// The candidates of the vertical scans of all columns, from the left.
pub fn column_candidates(img: &image::DynamicImage) -> (found: Vec<FinderCandidate2D>)
    ensures
        found@ == column_candidates_upto(*img, image_width(*img) as int),
{
    let mut found: Vec<FinderCandidate2D> = Vec::new();
    let columns = width(img);
    let mut x: u32 = 0;
    while x < columns
        invariant
            x <= columns,
            columns == image_width(*img),
            found@ == column_candidates_upto(*img, x as int),
        decreases columns - x,
    {
        let mut scan_iter = img.to_vert(x);
        let scan = match scan_iter.collect() {
            Ok(scan) => scan,
            Err(_) => unreached(),
        };
        let candidates = candidates_of_scan(&scan);
        let ghost before = found@;
        let ghost lifted = candidates@.map_values(|c: FinderCandidate1D| on_column(c, x as int));
        let mut i: usize = 0;
        while i < candidates.len()
            invariant
                i <= candidates@.len(),
                lifted == candidates@.map_values(|c: FinderCandidate1D| on_column(c, x as int)),
                found@ == before + lifted.take(i as int),
            decreases candidates@.len() - i,
        {
            let c = candidates[i];
            found.push(
                FinderCandidate2D { twice_cx: 2 * (x as u64) + 1, twice_cy: c.twice_center, length: c.length },
            );
            proof {
                assert(lifted.take(i + 1) =~= lifted.take(i as int).push(lifted[i as int]));
                assert(found@ =~= before + lifted.take(i + 1));
            }
            i += 1;
        }
        assert(lifted.take(candidates@.len() as int) =~= lifted);
        x += 1;
    }
    found
}

/// The candidates of the horizontal scans of all rows, from the top.
pub fn row_candidates(img: &image::DynamicImage) -> (found: Vec<FinderCandidate2D>)
    ensures
        found@ == row_candidates_upto(*img, image_height(*img) as int),
{
    let mut found: Vec<FinderCandidate2D> = Vec::new();
    let rows = height(img);
    let mut y: u32 = 0;
    while y < rows
        invariant
            y <= rows,
            rows == image_height(*img),
            found@ == row_candidates_upto(*img, y as int),
        decreases rows - y,
    {
        let mut scan_iter = img.to_horiz(y);
        let scan = match scan_iter.collect() {
            Ok(scan) => scan,
            Err(_) => unreached(),
        };
        let candidates = candidates_of_scan(&scan);
        let ghost before = found@;
        let ghost lifted = candidates@.map_values(|c: FinderCandidate1D| on_row(c, y as int));
        let mut i: usize = 0;
        while i < candidates.len()
            invariant
                i <= candidates@.len(),
                lifted == candidates@.map_values(|c: FinderCandidate1D| on_row(c, y as int)),
                found@ == before + lifted.take(i as int),
            decreases candidates@.len() - i,
        {
            let c = candidates[i];
            found.push(
                FinderCandidate2D { twice_cx: c.twice_center, twice_cy: 2 * (y as u64) + 1, length: c.length },
            );
            proof {
                assert(lifted.take(i + 1) =~= lifted.take(i as int).push(lifted[i as int]));
                assert(found@ =~= before + lifted.take(i + 1));
            }
            i += 1;
        }
        assert(lifted.take(candidates@.len() as int) =~= lifted);
        y += 1;
    }
    found
}

/// Whether two coordinates differ by `tolerance` at most.
pub open spec fn within(a: int, b: int, tolerance: int) -> bool {
    a - b <= tolerance && b - a <= tolerance
}

/// Whether the centres of a row candidate and a column candidate agree
/// within one pixel on both axes.
pub open spec fn centers_agree(v: FinderCandidate2D, h: FinderCandidate2D) -> bool {
    within(v.twice_cx as int, h.twice_cx as int, 2) && within(
        v.twice_cy as int,
        h.twice_cy as int,
        2,
    )
}

/// A finder pattern seen by a row scan and a column scan: four times the
/// coordinates of its centre, so that quarter pixels are whole numbers, and
/// its size in pixels.
#[derive(Debug, Clone, Copy, PartialEq, Eq, Structural)]
pub struct FinderRect {
    pub four_cx: u64,
    pub four_cy: u64,
    pub width: i64,
    pub height: i64,
}

/// The rect of a row candidate and a column candidate that agree: its centre
/// is the mean of theirs, its width the length on the row, its height the
/// length on the column.
pub open spec fn combined(v: FinderCandidate2D, h: FinderCandidate2D) -> FinderRect {
    FinderRect {
        four_cx: (v.twice_cx + h.twice_cx) as u64,
        four_cy: (v.twice_cy + h.twice_cy) as u64,
        width: v.length,
        height: h.length,
    }
}

/// The rects of one row candidate with those of the first `m` column
/// candidates that agree with it.
pub open spec fn fused_with(v: FinderCandidate2D, columns: Seq<FinderCandidate2D>, m: int) -> Seq<
    FinderRect,
>
    decreases m,
{
    if m <= 0 {
        Seq::empty()
    } else if centers_agree(v, columns[m - 1]) {
        fused_with(v, columns, m - 1).push(combined(v, columns[m - 1]))
    } else {
        fused_with(v, columns, m - 1)
    }
}

/// The rects of the first `n` row candidates, each with every column
/// candidate that agrees with it.
pub open spec fn fused(rows: Seq<FinderCandidate2D>, columns: Seq<FinderCandidate2D>, n: int) -> Seq<
    FinderRect,
>
    decreases n,
{
    if n <= 0 {
        Seq::empty()
    } else {
        fused(rows, columns, n - 1) + fused_with(rows[n - 1], columns, columns.len() as int)
    }
}

/// Whether the centres of two rects agree within ten pixels on both axes.
pub open spec fn near(a: FinderRect, b: FinderRect) -> bool {
    within(a.four_cx as int, b.four_cx as int, 40) && within(a.four_cy as int, b.four_cy as int, 40)
}

/// Whether a bucket takes a rect: the rect is near one of the bucket's.
pub open spec fn bucket_takes(bucket: Seq<FinderRect>, rect: FinderRect) -> bool {
    exists|k: int| 0 <= k < bucket.len() && near(#[trigger] bucket[k], rect)
}

/// The index of the first bucket, from `from` on, that takes the rect; the
/// number of buckets where none does.
pub open spec fn first_taking(buckets: Seq<Seq<FinderRect>>, rect: FinderRect, from: int) -> int
    decreases buckets.len() - from,
{
    if from >= buckets.len() {
        buckets.len() as int
    } else if bucket_takes(buckets[from], rect) {
        from
    } else {
        first_taking(buckets, rect, from + 1)
    }
}

/// The buckets with one more rect: it joins the first bucket that takes it,
/// or opens a bucket of its own.
pub open spec fn with_rect(buckets: Seq<Seq<FinderRect>>, rect: FinderRect) -> Seq<
    Seq<FinderRect>,
> {
    let i = first_taking(buckets, rect, 0);
    if 0 <= i < buckets.len() {
        buckets.update(i, buckets[i].push(rect))
    } else {
        buckets.push(seq![rect])
    }
}

/// The buckets of the first `n` rects, added one after the other.
pub open spec fn bucketed(rects: Seq<FinderRect>, n: int) -> Seq<Seq<FinderRect>>
    decreases n,
{
    if n <= 0 {
        Seq::empty()
    } else {
        with_rect(bucketed(rects, n - 1), rects[n - 1])
    }
}

/// The contents of a list of buckets.
pub open spec fn bucket_views(buckets: Seq<Vec<FinderRect>>) -> Seq<Seq<FinderRect>> {
    buckets.map_values(|bucket: Vec<FinderRect>| bucket@)
}

/// Combines every row candidate with every column candidate that agrees
/// with it, row candidate by row candidate.
fn fuse_candidates(rows: &Vec<FinderCandidate2D>, columns: &Vec<FinderCandidate2D>) -> (rects:
    Vec<FinderRect>)
    requires
        forall|i: int| 0 <= i < rows@.len() ==> (#[trigger] rows@[i]).twice_cx <= u64::MAX / 2
            && rows@[i].twice_cy <= u64::MAX / 2,
        forall|i: int|
            0 <= i < columns@.len() ==> (#[trigger] columns@[i]).twice_cx <= u64::MAX / 2
                && columns@[i].twice_cy <= u64::MAX / 2,
    ensures
        rects@ == fused(rows@, columns@, rows@.len() as int),
{
    let mut rects: Vec<FinderRect> = Vec::new();
    let mut n: usize = 0;
    while n < rows.len()
        invariant
            n <= rows@.len(),
            rects@ == fused(rows@, columns@, n as int),
            forall|i: int| 0 <= i < rows@.len() ==> (#[trigger] rows@[i]).twice_cx <= u64::MAX / 2
                && rows@[i].twice_cy <= u64::MAX / 2,
            forall|i: int|
                0 <= i < columns@.len() ==> (#[trigger] columns@[i]).twice_cx <= u64::MAX / 2
                    && columns@[i].twice_cy <= u64::MAX / 2,
        decreases rows@.len() - n,
    {
        let v = rows[n];
        let ghost before = rects@;
        let mut m: usize = 0;
        while m < columns.len()
            invariant
                m <= columns@.len(),
                n < rows@.len(),
                v == rows@[n as int],
                v.twice_cx <= u64::MAX / 2,
                v.twice_cy <= u64::MAX / 2,
                rects@ == before + fused_with(v, columns@, m as int),
                forall|i: int|
                    0 <= i < columns@.len() ==> (#[trigger] columns@[i]).twice_cx <= u64::MAX / 2
                        && columns@[i].twice_cy <= u64::MAX / 2,
            decreases columns@.len() - m,
        {
            let h = columns[m];
            if is_within(v.twice_cx, h.twice_cx, 2) && is_within(v.twice_cy, h.twice_cy, 2) {
                rects.push(
                    FinderRect {
                        four_cx: v.twice_cx + h.twice_cx,
                        four_cy: v.twice_cy + h.twice_cy,
                        width: v.length,
                        height: h.length,
                    },
                );
                assert(rects@ =~= before + fused_with(v, columns@, m + 1));
            }
            m += 1;
        }
        n += 1;
    }
    rects
}

/// Whether two coordinates differ by `tolerance` at most.
fn is_within(a: u64, b: u64, tolerance: u64) -> (close: bool)
    ensures
        close == within(a as int, b as int, tolerance as int),
{
    if a >= b {
        a - b <= tolerance
    } else {
        b - a <= tolerance
    }
}

/// Whether a bucket takes a rect.
fn bucket_takes_rect(bucket: &Vec<FinderRect>, rect: &FinderRect) -> (takes: bool)
    ensures
        takes == bucket_takes(bucket@, *rect),
{
    let mut k: usize = 0;
    while k < bucket.len()
        invariant
            k <= bucket@.len(),
            forall|j: int| 0 <= j < k ==> !near(#[trigger] bucket@[j], *rect),
        decreases bucket@.len() - k,
    {
        let bucket_rect = &bucket[k];
        if is_within(bucket_rect.four_cx, rect.four_cx, 40) && is_within(
            bucket_rect.four_cy,
            rect.four_cy,
            40,
        ) {
            return true;
        }
        k += 1;
    }
    false
}

/// Adds a rect to the first bucket that holds a rect near it, or opens a
/// bucket for it.
pub fn add_rect_to_bucket(buckets: &mut Vec<Vec<FinderRect>>, rect: FinderRect)
    ensures
        bucket_views(final(buckets)@) == with_rect(bucket_views(old(buckets)@), rect),
{
    let ghost views = bucket_views(buckets@);
    let mut i: usize = 0;
    while i < buckets.len()
        invariant
            i <= buckets@.len(),
            buckets@ == old(buckets)@,
            views == bucket_views(buckets@),
            first_taking(views, rect, 0) == first_taking(views, rect, i as int),
        decreases buckets@.len() - i,
    {
        if bucket_takes_rect(&buckets[i], &rect) {
            buckets[i].push(rect);
            assert(bucket_views(buckets@) =~= views.update(i as int, views[i as int].push(rect)));
            return ;
        }
        i += 1;
    }
    let mut bucket: Vec<FinderRect> = Vec::new();
    bucket.push(rect);
    buckets.push(bucket);
    assert(bucket_views(buckets@) =~= views.push(seq![rect]));
}

/// Buckets the rects one after the other.
fn bucket_rects(rects: &Vec<FinderRect>) -> (buckets: Vec<Vec<FinderRect>>)
    ensures
        bucket_views(buckets@) == bucketed(rects@, rects@.len() as int),
{
    let mut buckets: Vec<Vec<FinderRect>> = Vec::new();
    let mut n: usize = 0;
    assert(bucket_views(buckets@) =~= bucketed(rects@, 0));
    while n < rects.len()
        invariant
            n <= rects@.len(),
            bucket_views(buckets@) == bucketed(rects@, n as int),
        decreases rects@.len() - n,
    {
        add_rect_to_bucket(&mut buckets, rects[n]);
        n += 1;
    }
    buckets
}

/// A cluster of rects that stand for one finder pattern: the sums of their
/// centres, four times over, and of their sizes, and their number. The finder
/// pattern is the arithmetic mean: each sum over the count.
#[derive(Debug, Clone, Copy, PartialEq, Eq, Structural)]
pub struct Finder {
    pub four_cx_sum: u128,
    pub four_cy_sum: u128,
    pub width_sum: i128,
    pub height_sum: i128,
    pub count: usize,
}

/// The sum of a quantity over the first `n` rects of a bucket.
pub open spec fn sum_over(bucket: Seq<FinderRect>, quantity: spec_fn(FinderRect) -> int, n: int) -> int
    decreases n,
{
    if n <= 0 {
        0
    } else {
        sum_over(bucket, quantity, n - 1) + quantity(bucket[n - 1])
    }
}

/// The cluster of a bucket.
pub open spec fn cluster_of(bucket: Seq<FinderRect>) -> Finder {
    let n = bucket.len() as int;
    Finder {
        four_cx_sum: sum_over(bucket, |r: FinderRect| r.four_cx as int, n) as u128,
        four_cy_sum: sum_over(bucket, |r: FinderRect| r.four_cy as int, n) as u128,
        width_sum: sum_over(bucket, |r: FinderRect| r.width as int, n) as i128,
        height_sum: sum_over(bucket, |r: FinderRect| r.height as int, n) as i128,
        count: bucket.len() as usize,
    }
}

/// The clusters that the finder locator makes of an image: the row and the
/// column candidates are fused, the rects bucketed, and each bucket summed.
pub open spec fn finder_clusters(img: image::DynamicImage) -> Seq<Finder> {
    let rows = row_candidates_upto(img, image_height(img) as int);
    let columns = column_candidates_upto(img, image_width(img) as int);
    let rects = fused(rows, columns, rows.len() as int);
    bucketed(rects, rects.len() as int).map_values(|bucket: Seq<FinderRect>| cluster_of(bucket))
}

/// Sums a bucket into its cluster.
fn collapse_bucket(bucket: &Vec<FinderRect>) -> (cluster: Finder)
    ensures
        cluster == cluster_of(bucket@),
{
    let mut four_cx_sum: u128 = 0;
    let mut four_cy_sum: u128 = 0;
    let mut width_sum: i128 = 0;
    let mut height_sum: i128 = 0;
    let mut i: usize = 0;
    while i < bucket.len()
        invariant
            i <= bucket@.len(),
            four_cx_sum == sum_over(bucket@, |r: FinderRect| r.four_cx as int, i as int),
            four_cy_sum == sum_over(bucket@, |r: FinderRect| r.four_cy as int, i as int),
            width_sum == sum_over(bucket@, |r: FinderRect| r.width as int, i as int),
            height_sum == sum_over(bucket@, |r: FinderRect| r.height as int, i as int),
            four_cx_sum <= i * u64::MAX,
            four_cy_sum <= i * u64::MAX,
            i * i64::MIN <= width_sum <= i * i64::MAX,
            i * i64::MIN <= height_sum <= i * i64::MAX,
        decreases bucket@.len() - i,
    {
        let rect = &bucket[i];
        assert(i * u64::MAX + u64::MAX <= u128::MAX) by (nonlinear_arith)
            requires
                0 <= i < u64::MAX,
        ;
        assert(i * i64::MAX + i64::MAX <= i128::MAX && i * i64::MIN + i64::MIN >= i128::MIN)
            by (nonlinear_arith)
            requires
                0 <= i < u64::MAX,
        ;
        assert((i + 1) * u64::MAX == i * u64::MAX + u64::MAX && (i + 1) * i64::MAX == i * i64::MAX
            + i64::MAX && (i + 1) * i64::MIN == i * i64::MIN + i64::MIN) by (nonlinear_arith);
        four_cx_sum += rect.four_cx as u128;
        four_cy_sum += rect.four_cy as u128;
        width_sum += rect.width as i128;
        height_sum += rect.height as i128;
        i += 1;
    }
    Finder { four_cx_sum, four_cy_sum, width_sum, height_sum, count: bucket.len() }
}

/// Finds the finder patterns of an image by the signature 1:1:3:1:1: every
/// column and every row is scanned, the candidates of the two directions are
/// fused where their centres agree, and the fused rects are clustered. It
/// fails with `WrongFinderCount` unless exactly three clusters remain.
pub fn find_patterns(img: &image::DynamicImage) -> (finders: Result<Vec<Finder>, DecodeError>)
    ensures
        match finders {
            Ok(found) => found@ == finder_clusters(*img) && found@.len() == 3,
            Err(e) => e == DecodeError::WrongFinderCount && finder_clusters(*img).len() != 3,
        },
{
    let columns = column_candidates(img);
    let rows = row_candidates(img);
    proof {
        assert forall|i: int| 0 <= i < rows@.len() implies (#[trigger] rows@[i]).twice_cx
            <= u64::MAX / 2 && rows@[i].twice_cy <= u64::MAX / 2 by {
            lemma_row_candidates_bounded(*img, image_height(*img) as int, i);
        }
        assert forall|i: int| 0 <= i < columns@.len() implies (#[trigger] columns@[i]).twice_cx
            <= u64::MAX / 2 && columns@[i].twice_cy <= u64::MAX / 2 by {
            lemma_column_candidates_bounded(*img, image_width(*img) as int, i);
        }
    }
    let rects = fuse_candidates(&rows, &columns);
    let buckets = bucket_rects(&rects);
    let mut finders: Vec<Finder> = Vec::new();
    let mut i: usize = 0;
    let ghost views = bucket_views(buckets@);
    while i < buckets.len()
        invariant
            i <= buckets@.len(),
            views == bucket_views(buckets@),
            finders@ == views.take(i as int).map_values(|bucket: Seq<FinderRect>| cluster_of(bucket)),
        decreases buckets@.len() - i,
    {
        let cluster = collapse_bucket(&buckets[i]);
        finders.push(cluster);
        assert(finders@ =~= views.take(i + 1).map_values(
            |bucket: Seq<FinderRect>| cluster_of(bucket),
        ));
        i += 1;
    }
    assert(views.take(buckets@.len() as int) =~= views);
    if finders.len() != 3 {
        return Err(DecodeError::WrongFinderCount);
    }
    Ok(finders)
}

/// The centre of a candidate of one scan is at most three times the largest
/// run position.
proof fn lemma_candidates_bounded(rle: Seq<RleItem>, n: int, i: int)
    requires
        0 <= i < candidates_of_windows(rle, n).len(),
        n <= rle.len() - 4,
    ensures
        candidates_of_windows(rle, n)[i].twice_center <= 3 * u32::MAX,
    decreases n,
{
    if n > 0 {
        if i < candidates_of_windows(rle, n - 1).len() {
            lemma_candidates_bounded(rle, n - 1, i);
        }
    }
}

/// Twice the coordinates of a row candidate stay far below the largest
/// number that can be doubled.
proof fn lemma_row_candidates_bounded(img: image::DynamicImage, n: int, i: int)
    requires
        0 <= i < row_candidates_upto(img, n).len(),
        n <= u32::MAX,
    ensures
        row_candidates_upto(img, n)[i].twice_cx <= u64::MAX / 2,
        row_candidates_upto(img, n)[i].twice_cy <= u64::MAX / 2,
    decreases n,
{
    if n > 0 {
        let head = row_candidates_upto(img, n - 1);
        if i < head.len() {
            lemma_row_candidates_bounded(img, n - 1, i);
        } else {
            let rle = run_length_encoding(row_scan(img, n - 1));
            lemma_candidates_bounded(rle, rle.len() - 4, i - head.len());
        }
    }
}

/// Twice the coordinates of a column candidate stay far below the largest
/// number that can be doubled.
proof fn lemma_column_candidates_bounded(img: image::DynamicImage, n: int, i: int)
    requires
        0 <= i < column_candidates_upto(img, n).len(),
        n <= u32::MAX,
    ensures
        column_candidates_upto(img, n)[i].twice_cx <= u64::MAX / 2,
        column_candidates_upto(img, n)[i].twice_cy <= u64::MAX / 2,
    decreases n,
{
    if n > 0 {
        let head = column_candidates_upto(img, n - 1);
        if i < head.len() {
            lemma_column_candidates_bounded(img, n - 1, i);
        } else {
            let rle = run_length_encoding(column_scan(img, n - 1));
            lemma_candidates_bounded(rle, rle.len() - 4, i - head.len());
        }
    }
}

} // verus!
