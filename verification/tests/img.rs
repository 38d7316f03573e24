use image::{DynamicImage, GrayImage, Luma, Rgb, RgbImage};
use qr_decoder::img::{
    is_white, is_white_module, is_white_pixel, HorizIterator, Raster, ToHoriz, ToVert, VertIterator,
};
use qr_decoder::util::IteratorExt;

/// A 6x4 image whose pixel (x, y) has luminance 40 * x + 10 * y.
fn ramp() -> DynamicImage {
    DynamicImage::ImageLuma8(GrayImage::from_fn(6, 4, |x, y| Luma([(40 * x + 10 * y) as u8])))
}

#[test]
fn white_begins_above_128() {
    assert!(!is_white(0));
    assert!(!is_white(127));
    assert!(!is_white(128));
    assert!(is_white(129));
    assert!(is_white(255));
}

#[test]
fn pixels_are_read_at_their_coordinates() {
    let img = ramp();
    // luminance 120 + 0, 120 + 10, 160
    assert!(!is_white_pixel(&img, 3, 0));
    assert!(is_white_pixel(&img, 3, 1));
    assert!(is_white_pixel(&img, 4, 0));
    assert!(!is_white_pixel(&img, 0, 3));
    assert!(is_white_pixel(&img, 5, 3));
}

#[test]
fn colour_pixels_are_judged_by_their_luminance() {
    let mut rgb = RgbImage::from_pixel(3, 1, Rgb([0, 255, 0]));
    rgb.put_pixel(1, 0, Rgb([0, 0, 255]));
    rgb.put_pixel(2, 0, Rgb([255, 0, 0]));
    let img = DynamicImage::ImageRgb8(rgb);
    assert!(is_white_pixel(&img, 0, 0));
    assert!(!is_white_pixel(&img, 1, 0));
    assert!(!is_white_pixel(&img, 2, 0));
}

#[test]
fn luminance_weighs_green_most_and_rounds_down() {
    let mut rgb = RgbImage::from_pixel(4, 1, Rgb([129, 129, 129]));
    // (2126 * 180 + 7152 * 128) / 10000 = 129.8...
    rgb.put_pixel(1, 0, Rgb([180, 128, 0]));
    // (2126 * 170 + 7152 * 128) / 10000 = 127.6...
    rgb.put_pixel(2, 0, Rgb([170, 128, 0]));
    // (2126 * 128 + 7152 * 128 + 722 * 255) / 10000 = 137.1...
    rgb.put_pixel(3, 0, Rgb([128, 128, 255]));
    let img = DynamicImage::ImageRgb8(rgb);
    assert!(is_white_pixel(&img, 0, 0));
    assert!(is_white_pixel(&img, 1, 0));
    assert!(!is_white_pixel(&img, 2, 0));
    assert!(is_white_pixel(&img, 3, 0));
    let gray = DynamicImage::ImageLuma8(GrayImage::from_fn(3, 1, |x, _| Luma([127 + x as u8])));
    assert!(!is_white_pixel(&gray, 0, 0));
    assert!(!is_white_pixel(&gray, 1, 0));
    assert!(is_white_pixel(&gray, 2, 0));
}

#[test]
fn a_row_scan_runs_from_the_left_edge_to_the_right_edge() {
    let img = ramp();
    let mut scan = img.to_horiz(0);
    assert_eq!(scan.collect(), Ok(vec![false, false, false, false, true, true]));
    assert_eq!(scan.next(), Ok(None));
    let mut scan = img.to_horiz(1);
    assert_eq!(scan.next(), Ok(Some(false)));
    assert_eq!(scan.next(), Ok(Some(false)));
    assert_eq!(scan.next(), Ok(Some(false)));
    assert_eq!(scan.next(), Ok(Some(true)));
    assert_eq!(scan.next(), Ok(Some(true)));
    assert_eq!(scan.next(), Ok(Some(true)));
    assert_eq!(scan.next(), Ok(None));
    assert_eq!(scan.next(), Ok(None));
}

#[test]
fn a_column_scan_runs_from_the_top_edge_to_the_bottom_edge() {
    let img = ramp();
    let mut scan = img.to_vert(3);
    assert_eq!(scan.collect(), Ok(vec![false, true, true, true]));
    let mut scan = img.to_vert(0);
    assert_eq!(scan.collect(), Ok(vec![false, false, false, false]));
    let mut scan = HorizIterator::new(&img, 3).unwrap();
    assert_eq!(scan.take_or_err(6), Ok(vec![false, false, false, true, true, true]));
    let mut scan = VertIterator::new(&img, 5).unwrap();
    assert_eq!(scan.take_or_err(4), Ok(vec![true, true, true, true]));
}

#[test]
fn a_scan_outside_the_image_is_empty() {
    let img = ramp();
    assert_eq!(img.to_horiz(4).collect(), Ok(vec![]));
    assert_eq!(img.to_horiz(u32::MAX).next(), Ok(None));
    assert_eq!(img.to_vert(6).collect(), Ok(vec![]));
    assert!(HorizIterator::new(&img, 3).is_some());
    assert!(HorizIterator::new(&img, 4).is_none());
    assert!(VertIterator::new(&img, 5).is_some());
    assert!(VertIterator::new(&img, 6).is_none());
}

#[test]
fn the_scan_of_a_line_holds_as_many_items_as_the_line_has_pixels() {
    let img = DynamicImage::ImageLuma8(GrayImage::from_pixel(1, 5, Luma([255u8])));
    assert_eq!(img.to_horiz(2).collect(), Ok(vec![true]));
    assert_eq!(img.to_vert(0).collect(), Ok(vec![true; 5]));
    let empty = DynamicImage::ImageLuma8(GrayImage::new(0, 0));
    assert_eq!(empty.to_horiz(0).collect(), Ok(vec![]));
    assert_eq!(empty.to_vert(0).collect(), Ok(vec![]));
}

#[test]
fn a_module_is_white_by_a_strict_majority() {
    // columns 0..3 dark, 4..5 white
    let img = ramp();
    let all = Raster { start_x: 0, end_x: 6, start_y: 0, end_y: 4 };
    // white: column 3 in rows 1..3, columns 4 and 5 everywhere: 3 + 8 of 24
    assert!(!is_white_module(&img, &all));
    let right = Raster { start_x: 3, end_x: 6, start_y: 0, end_y: 4 };
    // 11 of 12
    assert!(is_white_module(&img, &right));
    let tie = Raster { start_x: 2, end_x: 4, start_y: 1, end_y: 2 };
    // pixel (2, 1) is dark, pixel (3, 1) white: exactly half
    assert!(!is_white_module(&img, &tie));
    let three = Raster { start_x: 2, end_x: 5, start_y: 1, end_y: 2 };
    assert!(is_white_module(&img, &three));
}

#[test]
fn a_module_in_a_uniform_region_has_its_colour() {
    let white = DynamicImage::ImageLuma8(GrayImage::from_pixel(9, 9, Luma([200u8])));
    let dark = DynamicImage::ImageLuma8(GrayImage::from_pixel(9, 9, Luma([20u8])));
    for raster in [
        Raster { start_x: 0, end_x: 9, start_y: 0, end_y: 9 },
        Raster { start_x: 3, end_x: 4, start_y: 8, end_y: 9 },
        Raster { start_x: 2, end_x: 7, start_y: 1, end_y: 3 },
    ] {
        assert!(raster.fits_image(&white));
        assert!(is_white_module(&white, &raster));
        assert!(!is_white_module(&dark, &raster));
    }
}

#[test]
fn an_empty_raster_is_dark() {
    let white = DynamicImage::ImageLuma8(GrayImage::from_pixel(9, 9, Luma([200u8])));
    for raster in [
        Raster { start_x: 4, end_x: 4, start_y: 0, end_y: 9 },
        Raster { start_x: 5, end_x: 4, start_y: 0, end_y: 9 },
        Raster { start_x: 0, end_x: 9, start_y: 7, end_y: 7 },
        Raster { start_x: 50, end_x: 40, start_y: 70, end_y: 80 },
    ] {
        assert!(raster.fits_image(&white));
        assert!(!is_white_module(&white, &raster));
    }
}

#[test]
fn a_raster_fits_an_image_that_holds_its_pixels() {
    let img = ramp();
    assert!(Raster { start_x: 0, end_x: 6, start_y: 0, end_y: 4 }.fits_image(&img));
    assert!(!Raster { start_x: 0, end_x: 7, start_y: 0, end_y: 4 }.fits_image(&img));
    assert!(!Raster { start_x: 0, end_x: 6, start_y: 0, end_y: 5 }.fits_image(&img));
    assert!(!Raster { start_x: 6, end_x: 7, start_y: 0, end_y: 1 }.fits_image(&img));
}
