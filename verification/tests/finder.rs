use image::{DynamicImage, GrayImage, Luma};
use qr_decoder::finder::{
    add_rect_to_bucket, column_candidates, row_candidates, FinderCandidate2D, FinderRect,
};
use qr_decoder::timing::find_elem_count;

fn rect(four_cx: u64, four_cy: u64) -> FinderRect {
    FinderRect { four_cx, four_cy, width: 56, height: 56 }
}

#[test]
fn a_rect_joins_the_first_bucket_with_a_rect_within_ten_pixels() {
    let mut buckets: Vec<Vec<FinderRect>> = Vec::new();
    add_rect_to_bucket(&mut buckets, rect(400, 400));
    assert_eq!(buckets, vec![vec![rect(400, 400)]]);
    // 10 pixels away on both axes: the same bucket
    add_rect_to_bucket(&mut buckets, rect(440, 360));
    assert_eq!(buckets, vec![vec![rect(400, 400), rect(440, 360)]]);
    // a quarter pixel more than 10 pixels from both: a bucket of its own
    add_rect_to_bucket(&mut buckets, rect(481, 400));
    assert_eq!(buckets.len(), 2);
    // near the second member of the first bucket and near the second bucket:
    // the first bucket wins
    add_rect_to_bucket(&mut buckets, rect(470, 380));
    assert_eq!(
        buckets,
        vec![vec![rect(400, 400), rect(440, 360), rect(470, 380)], vec![rect(481, 400)]]
    );
    // near on one axis only
    add_rect_to_bucket(&mut buckets, rect(400, 441));
    assert_eq!(buckets.len(), 3);
    assert_eq!(buckets[2], vec![rect(400, 441)]);
}

/// A 40x3 image whose rows show quiet, 1:1:3:1:1 in units of 4 pixels from
/// pixel 6 on, and quiet.
fn striped() -> DynamicImage {
    DynamicImage::ImageLuma8(GrayImage::from_fn(40, 3, |x, _| {
        let dark = (6..10).contains(&x) || (14..26).contains(&x) || (30..34).contains(&x);
        Luma([if dark { 0u8 } else { 255u8 }])
    }))
}

#[test]
fn the_candidates_of_the_rows_are_centred_on_their_rows() {
    let found = row_candidates(&striped());
    assert_eq!(
        found,
        vec![
            FinderCandidate2D { twice_cx: 40, twice_cy: 1, length: 28 },
            FinderCandidate2D { twice_cx: 40, twice_cy: 3, length: 28 },
            FinderCandidate2D { twice_cx: 40, twice_cy: 5, length: 28 },
        ]
    );
    assert!(column_candidates(&striped()).is_empty());
}

#[test]
fn the_candidates_of_the_columns_are_centred_on_their_columns() {
    let img = striped().rotate90();
    let found = column_candidates(&img);
    assert_eq!(
        found,
        vec![
            FinderCandidate2D { twice_cx: 1, twice_cy: 40, length: 28 },
            FinderCandidate2D { twice_cx: 3, twice_cy: 40, length: 28 },
            FinderCandidate2D { twice_cx: 5, twice_cy: 40, length: 28 },
        ]
    );
    assert!(row_candidates(&img).is_empty());
}

#[test]
fn the_timing_count_is_thirteen_and_one_for_each_colour_change() {
    let img = striped();
    // from pixel 8 (dark) to pixel 32: changes at 10, 14, 26 and 30
    assert_eq!(find_elem_count(&img, true, 1, 8, 32), 17);
    assert_eq!(find_elem_count(&img, true, 1, 8, 30), 16);
    assert_eq!(find_elem_count(&img, true, 1, 8, 31), 17);
    assert_eq!(find_elem_count(&img, true, 1, 8, 10), 13);
    assert_eq!(find_elem_count(&img, true, 1, 8, 11), 14);
    assert_eq!(find_elem_count(&img, true, 0, 0, 40), 19);
    // an empty span
    assert_eq!(find_elem_count(&img, true, 2, 8, 8), 13);
    assert_eq!(find_elem_count(&img, true, 2, 8, 3), 13);
    // along a column nothing changes
    assert_eq!(find_elem_count(&img, false, 8, 0, 3), 13);
    let turned = img.rotate90();
    assert_eq!(find_elem_count(&turned, false, 1, 8, 32), 17);
}
