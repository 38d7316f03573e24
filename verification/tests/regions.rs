use qr_decoder::error::DecodeError;
use qr_decoder::regions::{HorizFormatIter, HorizTimingIter, VertFormatIter, VertTimingIter};
use qr_decoder::util::{GridPoint, IteratorExt};

fn columns(points: &[GridPoint]) -> Vec<usize> {
    points.iter().map(|p| p.x).collect()
}

fn rows(points: &[GridPoint]) -> Vec<usize> {
    points.iter().map(|p| p.y).collect()
}

#[test]
fn the_timing_row_runs_between_the_finder_patterns() {
    let modules = HorizTimingIter::new(21).collect().unwrap();
    assert_eq!(columns(&modules), vec![7, 8, 9, 10, 11, 12, 13]);
    assert!(modules.iter().all(|p| p.y == 6));
    let modules = VertTimingIter::new(25).collect().unwrap();
    assert_eq!(rows(&modules), (7..18).collect::<Vec<_>>());
    assert!(modules.iter().all(|p| p.x == 6));
}

#[test]
fn a_narrow_grid_has_no_timing_modules() {
    for n in 0..15 {
        assert_eq!(HorizTimingIter::new(n).collect(), Ok(vec![]));
        assert_eq!(VertTimingIter::new(n).collect(), Ok(vec![]));
    }
    assert_eq!(columns(&HorizTimingIter::new(15).collect().unwrap()), vec![7]);
}

#[test]
fn the_format_row_holds_the_leading_and_the_trailing_eight_without_the_timing_column() {
    let modules = HorizFormatIter::new(21).collect().unwrap();
    assert_eq!(columns(&modules), vec![0, 1, 2, 3, 4, 5, 7, 13, 14, 15, 16, 17, 18, 19, 20]);
    assert!(modules.iter().all(|p| p.y == 8));
    let modules = HorizFormatIter::new(177).collect().unwrap();
    assert_eq!(
        columns(&modules),
        vec![0, 1, 2, 3, 4, 5, 7, 169, 170, 171, 172, 173, 174, 175, 176]
    );
}

#[test]
fn the_format_column_is_read_from_the_bottom() {
    let modules = VertFormatIter::new(21).collect().unwrap();
    assert_eq!(rows(&modules), vec![20, 19, 18, 17, 16, 15, 14, 13, 7, 5, 4, 3, 2, 1, 0]);
    assert!(modules.iter().all(|p| p.x == 8));
    let modules = VertFormatIter::new(25).collect().unwrap();
    assert_eq!(rows(&modules), vec![24, 23, 22, 21, 20, 19, 18, 17, 7, 5, 4, 3, 2, 1, 0]);
}

#[test]
fn the_format_modules_of_a_small_grid_are_all_but_the_timing_module() {
    assert_eq!(columns(&HorizFormatIter::new(0).collect().unwrap()), Vec::<usize>::new());
    assert_eq!(columns(&HorizFormatIter::new(5).collect().unwrap()), vec![0, 1, 2, 3, 4]);
    assert_eq!(columns(&HorizFormatIter::new(8).collect().unwrap()), vec![0, 1, 2, 3, 4, 5, 7]);
    assert_eq!(
        columns(&HorizFormatIter::new(16).collect().unwrap()),
        vec![0, 1, 2, 3, 4, 5, 7, 8, 9, 10, 11, 12, 13, 14, 15]
    );
    assert_eq!(
        columns(&HorizFormatIter::new(17).collect().unwrap()),
        vec![0, 1, 2, 3, 4, 5, 7, 9, 10, 11, 12, 13, 14, 15, 16]
    );
    assert_eq!(rows(&VertFormatIter::new(8).collect().unwrap()), vec![7, 5, 4, 3, 2, 1, 0]);
    assert_eq!(
        rows(&VertFormatIter::new(16).collect().unwrap()),
        vec![15, 14, 13, 12, 11, 10, 9, 8, 7, 5, 4, 3, 2, 1, 0]
    );
    assert_eq!(
        rows(&VertFormatIter::new(17).collect().unwrap()),
        vec![16, 15, 14, 13, 12, 11, 10, 9, 7, 5, 4, 3, 2, 1, 0]
    );
}

#[test]
fn taking_hands_out_the_next_items_in_order() {
    let mut format = HorizFormatIter::new(21);
    assert_eq!(columns(&format.take_or_err(2).unwrap()), vec![0, 1]);
    assert_eq!(columns(&format.take_or_err(3).unwrap()), vec![2, 3, 4]);
    assert_eq!(columns(&format.take_or_err(0).unwrap()), Vec::<usize>::new());
    assert_eq!(format.next(), Ok(Some(GridPoint { x: 5, y: 8 })));
    assert_eq!(columns(&format.take_or_err(9).unwrap()), vec![7, 13, 14, 15, 16, 17, 18, 19, 20]);
    assert_eq!(format.next(), Ok(None));
    assert_eq!(format.take_or_err(0), Ok(vec![]));
}

#[test]
fn taking_more_than_is_left_is_truncated() {
    let mut format = HorizFormatIter::new(21);
    assert_eq!(format.take_or_err(16), Err(DecodeError::Truncated));
    assert_eq!(format.next(), Ok(None));
    let mut timing = VertTimingIter::new(21);
    assert_eq!(rows(&timing.take_or_err(7).unwrap()), vec![7, 8, 9, 10, 11, 12, 13]);
    assert_eq!(timing.take_or_err(1), Err(DecodeError::Truncated));
    let mut format = HorizFormatIter::new(4);
    assert_eq!(format.take_or_err(5), Err(DecodeError::Truncated));
}
