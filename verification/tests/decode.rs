use image::{DynamicImage, GrayImage, Luma};
use qr_decoder::alignment::AlignmentPatternIter;
use qr_decoder::decode::{decode, Decoded};
use qr_decoder::error::DecodeError;
use qr_decoder::finder::find_patterns;
use qr_decoder::grid::Span;
use qr_decoder::qr::Code;
use qr_decoder::timing::{find_elem_count, inspect_timing};
use qr_decoder::util::{GridPoint, IteratorExt};

const MODULE_PX: u32 = 8;
const QUIET_MODULES: u32 = 4;

/// A symbol under construction: `dark[y][x]` for each module.
struct Symbol {
    size: usize,
    dark: Vec<Vec<bool>>,
    alignment: Vec<(usize, usize)>,
}

fn put_finder(symbol: &mut Symbol, x0: usize, y0: usize) {
    for dy in 0..7 {
        for dx in 0..7 {
            let border = dx == 0 || dx == 6 || dy == 0 || dy == 6;
            let core = (2..=4).contains(&dx) && (2..=4).contains(&dy);
            symbol.dark[y0 + dy][x0 + dx] = border || core;
        }
    }
}

fn put_alignment(symbol: &mut Symbol, x0: usize, y0: usize) {
    for dy in 0..5 {
        for dx in 0..5 {
            let border = dx == 0 || dx == 4 || dy == 0 || dy == 4;
            symbol.dark[y0 + dy][x0 + dx] = border || (dx == 2 && dy == 2);
        }
    }
    symbol.alignment.push((x0, y0));
}

fn reserved(symbol: &Symbol, x: usize, y: usize) -> bool {
    let size = symbol.size;
    (x < 9 && y < 9)
        || (x + 8 >= size && y < 9)
        || (x < 9 && y + 8 >= size)
        || x == 6
        || y == 6
        || symbol
            .alignment
            .iter()
            .any(|&(ax, ay)| x >= ax && x < ax + 5 && y >= ay && y < ay + 5)
}

/// The data modules in the order in which a symbol is read: pairs of columns
/// from the right, alternately upward and downward, the right column of a
/// pair first.
fn data_positions(symbol: &Symbol) -> Vec<(usize, usize)> {
    let size = symbol.size;
    let mut out = Vec::new();
    let mut right = size as isize - 1;
    let mut upward = true;
    while right > 0 {
        if right == 6 {
            right -= 1;
        }
        let rows: Vec<usize> = if upward {
            (0..size).rev().collect()
        } else {
            (0..size).collect()
        };
        for y in rows {
            for dx in 0..2 {
                let x = (right - dx) as usize;
                if !reserved(symbol, x, y) {
                    out.push((x, y));
                }
            }
        }
        right -= 2;
        upward = !upward;
    }
    out
}

fn mask_covers(mask_id: u8, x: usize, y: usize) -> bool {
    match mask_id {
        0b000 => x % 3 == 0,
        0b010 => (x + y) % 2 == 0,
        _ => false,
    }
}

/// Lays out a symbol of `size` modules a side with the given mask identifier
/// in its format row and the given bits in its data modules.
fn build(size: usize, mask_id: u8, bits: &[bool], alignment: &[(usize, usize)]) -> Symbol {
    let mut symbol = Symbol { size, dark: vec![vec![false; size]; size], alignment: Vec::new() };
    put_finder(&mut symbol, 0, 0);
    put_finder(&mut symbol, size - 7, 0);
    put_finder(&mut symbol, 0, size - 7);
    for i in 8..size - 8 {
        symbol.dark[6][i] = i % 2 == 0;
        symbol.dark[i][6] = i % 2 == 0;
    }
    for &(x, y) in alignment {
        put_alignment(&mut symbol, x, y);
    }
    // a white format module is a 1; the identifier is spelled by the third,
    // fourth and fifth module of the format row, least significant bit first
    for i in 0..3 {
        symbol.dark[8][2 + i] = (mask_id >> i) & 1 == 0;
    }
    let positions = data_positions(&symbol);
    for (i, &(x, y)) in positions.iter().enumerate() {
        let bit = bits.get(i).copied().unwrap_or(false);
        symbol.dark[y][x] = bit != mask_covers(mask_id, x, y);
    }
    symbol
}

fn render(symbol: &Symbol) -> DynamicImage {
    let side = (symbol.size as u32 + 2 * QUIET_MODULES) * MODULE_PX;
    let mut img = GrayImage::from_pixel(side, side, Luma([255u8]));
    for y in 0..symbol.size {
        for x in 0..symbol.size {
            if symbol.dark[y][x] {
                for py in 0..MODULE_PX {
                    for px in 0..MODULE_PX {
                        img.put_pixel(
                            (x as u32 + QUIET_MODULES) * MODULE_PX + px,
                            (y as u32 + QUIET_MODULES) * MODULE_PX + py,
                            Luma([0u8]),
                        );
                    }
                }
            }
        }
    }
    DynamicImage::ImageLuma8(img)
}

fn header_and_payload(encoding: u8, length: u8, payload: &[u8]) -> Vec<bool> {
    let mut bits = Vec::new();
    for i in (0..4).rev() {
        bits.push((encoding >> i) & 1 == 1);
    }
    for i in (0..8).rev() {
        bits.push((length >> i) & 1 == 1);
    }
    for byte in payload {
        for i in (0..8).rev() {
            bits.push((byte >> i) & 1 == 1);
        }
    }
    bits
}

/// The geometry of the symbol in an image: the pixel spans of its module
/// columns and rows, recovered from the finder patterns and the timing
/// patterns.
fn spans(img: &DynamicImage) -> Result<(Vec<Span>, Vec<Span>), DecodeError> {
    let finders = find_patterns(img)?;
    let mut finder_width = 0.0f32;
    let mut finder_height = 0.0f32;
    let mut top = f32::MAX;
    let mut bottom = 0.0f32;
    let mut left = f32::MAX;
    let mut right = 0.0f32;
    for finder in finders.iter() {
        let n = finder.count as f32;
        let cx = finder.four_cx_sum as f32 / 4.0 / n;
        let cy = finder.four_cy_sum as f32 / 4.0 / n;
        let width = finder.width_sum as f32 / n;
        let height = finder.height_sum as f32 / n;
        finder_width += width;
        finder_height += height;
        top = top.min(cy - height / 2.0);
        bottom = bottom.max(cy + height / 2.0);
        left = left.min(cx - width / 2.0);
        right = right.max(cx + width / 2.0);
    }
    finder_width /= finders.len() as f32;
    finder_height /= finders.len() as f32;
    let estimated_elem_width = finder_width / 7.0;
    let estimated_elem_height = finder_height / 7.0;
    let timing_row_center_px = (top + 6.5 * estimated_elem_height) as u32;
    let timing_col_center_px = (left + 6.5 * estimated_elem_width) as u32;
    let timing_iter_row_end = (right - finder_width + estimated_elem_width / 2.0) as u32;
    let timing_iter_col_end = (bottom - finder_height + estimated_elem_height / 2.0) as u32;
    let across =
        find_elem_count(img, true, timing_row_center_px, timing_col_center_px, timing_iter_row_end);
    let down =
        find_elem_count(img, false, timing_col_center_px, timing_row_center_px, timing_iter_col_end);
    let elem_width = (right - left) / across as f32;
    let elem_height = (bottom - top) / down as f32;
    let num_horiz_elems = ((right - left) / elem_width) as usize;
    let num_vert_elems = ((bottom - top) / elem_height) as usize;
    let columns = (0..num_horiz_elems)
        .map(|x| {
            let start = x as f32 * elem_width + left;
            Span { start: start.ceil() as u32, end: (start + elem_width).floor() as u32 }
        })
        .collect();
    let rows = (0..num_vert_elems)
        .map(|y| {
            let start = y as f32 * elem_height + top;
            Span { start: start.ceil() as u32, end: (start + elem_height).floor() as u32 }
        })
        .collect();
    Ok((columns, rows))
}

fn locate(img: &DynamicImage) -> Code {
    let (columns, rows) = spans(img).expect("three finder patterns");
    Code::new(img, columns, rows).expect("a grid inside the image")
}

fn decode_image(img: &DynamicImage) -> Result<Decoded, DecodeError> {
    let code = locate(img);
    decode(&code, img)
}

#[test]
fn finder_patterns_are_found_at_their_centres() {
    let symbol = build(21, 0b000, &header_and_payload(0b0100, 5, b"HELLO"), &[]);
    let img = render(&symbol);
    let finders = find_patterns(&img).expect("three finder patterns");
    assert_eq!(finders.len(), 3);
    let corner = |module: u32| ((module + QUIET_MODULES) * MODULE_PX) as f64 + 3.5 * MODULE_PX as f64;
    let truth = [(corner(0), corner(0)), (corner(14), corner(0)), (corner(0), corner(14))];
    for (tx, ty) in truth {
        let hits = finders
            .iter()
            .filter(|f| {
                let n = f.count as f64;
                let cx = f.four_cx_sum as f64 / 4.0 / n;
                let cy = f.four_cy_sum as f64 / 4.0 / n;
                (cx - tx).abs() <= 1.0 && (cy - ty).abs() <= 1.0
            })
            .count();
        assert_eq!(hits, 1);
    }
    // two rows and two columns of pixels pass within a pixel of each centre
    for finder in finders.iter() {
        assert_eq!(finder.count, 4);
        assert_eq!(finder.width_sum, 4 * 7 * MODULE_PX as i128);
        assert_eq!(finder.height_sum, 4 * 7 * MODULE_PX as i128);
    }
    // the finder patterns come in the order in which the rows meet them; the
    // first has its centre at pixel 60 on both axes
    assert_eq!(finders[0].four_cx_sum, 4 * 4 * 60);
    assert_eq!(finders[0].four_cy_sum, 4 * 4 * 60);
    assert_eq!(finders[1].four_cx_sum, 4 * 4 * (60 + 14 * 8));
    assert_eq!(finders[1].four_cy_sum, 4 * 4 * 60);
    assert_eq!(finders[2].four_cx_sum, 4 * 4 * 60);
    assert_eq!(finders[2].four_cy_sum, 4 * 4 * (60 + 14 * 8));
}

#[test]
fn a_blank_image_has_the_wrong_finder_count() {
    let img = DynamicImage::ImageLuma8(GrayImage::from_pixel(40, 30, Luma([255u8])));
    assert_eq!(find_patterns(&img), Err(DecodeError::WrongFinderCount));
}

#[test]
fn an_image_with_two_finders_has_the_wrong_finder_count() {
    let mut symbol = Symbol { size: 21, dark: vec![vec![false; 21]; 21], alignment: Vec::new() };
    put_finder(&mut symbol, 0, 0);
    put_finder(&mut symbol, 14, 0);
    let img = render(&symbol);
    assert_eq!(find_patterns(&img), Err(DecodeError::WrongFinderCount));
}

#[test]
fn geometry_of_a_version_one_symbol() {
    let symbol = build(21, 0b000, &header_and_payload(0b0100, 5, b"HELLO"), &[]);
    let img = render(&symbol);
    let (columns, rows) = spans(&img).unwrap();
    assert_eq!(columns.len(), 21);
    assert_eq!(rows.len(), 21);
    for (i, span) in columns.iter().enumerate() {
        let start = (i as u32 + QUIET_MODULES) * MODULE_PX;
        assert_eq!(*span, Span { start, end: start + MODULE_PX });
    }
    assert_eq!(columns, rows);
    let code = Code::new(&img, columns, rows).unwrap();
    assert_eq!(code.num_horiz_elems(), 21);
    assert_eq!(code.num_vert_elems(), 21);
    assert!(code.fits_image(&img));
    assert!(code.alignment_positions().is_empty());
}

#[test]
fn the_timing_patterns_of_a_symbol_alternate() {
    let mut symbol = build(25, 0b000, &[], &[(16, 16)]);
    let img = render(&symbol);
    let code = locate(&img);
    assert_eq!(inspect_timing(&code, &img, &mut code.horiz_timing_iter()), None);
    assert_eq!(inspect_timing(&code, &img, &mut code.vert_timing_iter()), None);
    // a dark module on an even place of the timing row, a light one on an
    // odd place of the timing column
    symbol.dark[6][11] = true;
    symbol.dark[12][6] = false;
    symbol.dark[14][6] = false;
    let img = render(&symbol);
    assert_eq!(
        inspect_timing(&code, &img, &mut code.horiz_timing_iter()),
        Some(GridPoint { x: 11, y: 6 })
    );
    let mut timing = code.vert_timing_iter();
    assert_eq!(inspect_timing(&code, &img, &mut timing), Some(GridPoint { x: 6, y: 12 }));
    assert_eq!(timing.next(), Ok(Some(GridPoint { x: 6, y: 13 })));
}

#[test]
fn version_one_hello_in_byte_mode_with_mask_0() {
    let symbol = build(21, 0b000, &header_and_payload(0b0100, 5, b"HELLO"), &[]);
    let decoded = decode_image(&render(&symbol)).unwrap();
    assert_eq!(decoded.encoding, 0b0100);
    assert_eq!(decoded.length, 5);
    assert_eq!(decoded.data, vec![0x48, 0x45, 0x4C, 0x4C, 0x4F]);
    let ascii: String = decoded.data.iter().map(|&b| b as char).collect();
    assert_eq!(ascii, "HELLO");
}

#[test]
fn alphanumeric_mode_with_mask_2_surfaces_the_raw_bytes() {
    // "AC-42" in alphanumeric packing: 11 bits for each pair, 6 for the last
    let packed: [u8; 4] = [0b0011_1001, 0b1101_1100, 0b1110_0100, 0b0010_0000];
    let symbol = build(21, 0b010, &header_and_payload(0b0010, 4, &packed), &[]);
    let decoded = decode_image(&render(&symbol)).unwrap();
    assert_eq!(decoded.encoding, 0b0010);
    assert_eq!(decoded.length, 4);
    assert_eq!(decoded.data, packed.to_vec());
}

#[test]
fn an_unsupported_mask_is_refused_before_any_byte() {
    for mask_id in [0b100u8, 0b001, 0b011, 0b101, 0b110, 0b111] {
        let symbol = build(21, mask_id, &header_and_payload(0b0100, 5, b"HELLO"), &[]);
        let img = render(&symbol);
        assert_eq!(decode_image(&img), Err(DecodeError::UnsupportedMask));
        let code = locate(&img);
        assert!(matches!(code.bit_iter(&img), Err(DecodeError::UnsupportedMask)));
        assert!(matches!(code.data_iter(&img), Err(DecodeError::UnsupportedMask)));
    }
}

#[test]
fn an_unsupported_encoding_is_refused() {
    for encoding in [0b0000u8, 0b0001, 0b0011, 0b0111, 0b1000, 0b1111] {
        let symbol = build(21, 0b000, &header_and_payload(encoding, 1, b"A"), &[]);
        assert_eq!(decode_image(&render(&symbol)), Err(DecodeError::UnsupportedEncoding));
    }
}

#[test]
fn a_length_beyond_the_symbol_is_truncated() {
    // a version-1 symbol holds 208 data bits: 12 of header and 24 whole bytes
    let symbol = build(21, 0b000, &header_and_payload(0b0100, 25, &[0xA5; 25]), &[]);
    assert_eq!(decode_image(&render(&symbol)), Err(DecodeError::Truncated));
    let symbol = build(21, 0b000, &header_and_payload(0b0100, 24, &[0xA5; 24]), &[]);
    let decoded = decode_image(&render(&symbol)).unwrap();
    assert_eq!(decoded.data, vec![0xA5; 24]);
}

#[test]
fn an_empty_payload_decodes_to_no_bytes() {
    let symbol = build(21, 0b010, &header_and_payload(0b0100, 0, &[]), &[]);
    let decoded = decode_image(&render(&symbol)).unwrap();
    assert_eq!(decoded, Decoded { encoding: 0b0100, length: 0, data: vec![] });
}

fn walk(code: &Code, img: &DynamicImage) -> Vec<(usize, usize, bool)> {
    let mut iter = code.bit_iter(img).unwrap();
    let mut out = Vec::new();
    while let Some(output) = iter.next().unwrap() {
        out.push((output.x as usize, output.y as usize, output.bit));
    }
    assert!(iter.next().unwrap().is_none());
    out
}

#[test]
fn the_walk_covers_the_data_modules_of_version_one() {
    let bits: Vec<bool> = (0..208).map(|i| i % 5 == 0 || i % 7 == 3).collect();
    let symbol = build(21, 0b010, &bits, &[]);
    let img = render(&symbol);
    let code = locate(&img);
    let walked = walk(&code, &img);
    let expected = data_positions(&symbol);
    assert_eq!(expected.len(), 208);
    assert_eq!(walked.len(), 208);
    for (i, &(x, y, bit)) in walked.iter().enumerate() {
        assert_eq!((x, y), expected[i]);
        assert_eq!(bit, bits[i]);
        assert!(!reserved(&symbol, x, y));
    }
    let mut seen = walked.iter().map(|&(x, y, _)| (x, y)).collect::<Vec<_>>();
    seen.sort();
    seen.dedup();
    assert_eq!(seen.len(), 208);
    assert_eq!(walked[0], (20, 20, bits[0]));
    assert_eq!(walked[1], (19, 20, bits[1]));
    assert_eq!(walked[207], (0, 12, bits[207]));
}

#[test]
fn the_walk_covers_the_data_modules_of_version_two() {
    let bits: Vec<bool> = (0..359).map(|i| i % 3 == 1 || i % 11 == 0).collect();
    let symbol = build(25, 0b000, &bits, &[(16, 16)]);
    let img = render(&symbol);
    let code = locate(&img);
    assert_eq!(code.num_horiz_elems(), 25);
    assert_eq!(code.alignment_positions(), &[GridPoint { x: 16, y: 16 }]);
    let walked = walk(&code, &img);
    let expected = data_positions(&symbol);
    assert_eq!(expected.len(), 359);
    assert_eq!(walked.len(), 359);
    for (i, &(x, y, bit)) in walked.iter().enumerate() {
        assert_eq!((x, y), expected[i]);
        assert_eq!(bit, bits[i]);
    }
}

#[test]
fn the_walk_covers_the_data_modules_of_version_seven() {
    // six alignment patterns, two of them on the timing patterns
    let alignment = [(20, 4), (4, 20), (20, 20), (36, 20), (20, 36), (36, 36)];
    let symbol = build(45, 0b010, &[], &alignment);
    let img = render(&symbol);
    let code = locate(&img);
    assert_eq!(code.num_horiz_elems(), 45);
    assert_eq!(code.num_vert_elems(), 45);
    let found: Vec<(usize, usize)> =
        code.alignment_positions().iter().map(|p| (p.x, p.y)).collect();
    assert_eq!(found, vec![(20, 4), (4, 20), (20, 20), (36, 20), (20, 36), (36, 36)]);
    let walked = walk(&code, &img);
    let expected = data_positions(&symbol);
    assert_eq!(walked.len(), expected.len());
    // 45 * 45 modules without the finder regions of 81, 72 and 72, the 28
    // and 28 timing modules between them, and the alignment patterns: four
    // whole ones and two that share five modules with a timing pattern
    assert_eq!(expected.len(), 2025 - 225 - 56 - 4 * 25 - 2 * 20);
    for (i, &(x, y, bit)) in walked.iter().enumerate() {
        assert_eq!((x, y), expected[i]);
        assert!(!bit);
    }
}

#[test]
fn the_alignment_scan_finds_the_pattern_once() {
    let symbol = build(25, 0b000, &[], &[(16, 16)]);
    let img = render(&symbol);
    let code = locate(&img);
    let mut iter = AlignmentPatternIter::for_code(&code, &img);
    let first = iter.next().unwrap();
    assert_eq!((first.x, first.y), (16, 16));
    assert!(iter.next().is_none());
    assert!(iter.next().is_none());
}

#[test]
fn version_two_decodes_around_its_alignment_pattern() {
    let payload: Vec<u8> = (0..40u8).map(|i| i.wrapping_mul(37).wrapping_add(11)).collect();
    let symbol = build(25, 0b010, &header_and_payload(0b0100, 40, &payload), &[(16, 16)]);
    let decoded = decode_image(&render(&symbol)).unwrap();
    assert_eq!(decoded.encoding, 0b0100);
    assert_eq!(decoded.length, 40);
    assert_eq!(decoded.data, payload);
}

#[test]
fn the_byte_stream_hands_out_the_header_and_then_each_byte() {
    let symbol = build(21, 0b000, &header_and_payload(0b0100, 3, &[0x01, 0x80, 0xFF]), &[]);
    let img = render(&symbol);
    let code = locate(&img);
    let mut bytes = code.data_iter(&img).unwrap();
    assert_eq!(bytes.encoding(), 0b0100);
    assert_eq!(bytes.length(), 3);
    assert_eq!(bytes.next(), Ok(Some(0x01)));
    assert_eq!(bytes.next(), Ok(Some(0x80)));
    assert_eq!(bytes.next(), Ok(Some(0xFF)));
    assert_eq!(bytes.next(), Ok(None));
    assert_eq!(bytes.next(), Ok(None));
}

#[test]
fn a_grid_outside_the_image_is_no_symbol() {
    let img = DynamicImage::ImageLuma8(GrayImage::from_pixel(16, 16, Luma([255u8])));
    let inside = vec![Span { start: 0, end: 8 }, Span { start: 8, end: 16 }];
    let outside = vec![Span { start: 0, end: 8 }, Span { start: 8, end: 17 }];
    assert!(Code::new(&img, inside.clone(), inside.clone()).is_some());
    assert!(Code::new(&img, outside.clone(), inside.clone()).is_none());
    assert!(Code::new(&img, inside.clone(), outside).is_none());
    let empty = vec![Span { start: 30, end: 30 }, Span { start: 40, end: 20 }];
    assert!(Code::new(&img, empty, inside).is_some());
}

#[test]
fn a_grid_without_a_format_row_is_truncated() {
    let img = DynamicImage::ImageLuma8(GrayImage::from_pixel(16, 16, Luma([255u8])));
    let spans: Vec<Span> = (0..8).map(|i| Span { start: 2 * i, end: 2 * i + 2 }).collect();
    let code = Code::new(&img, spans.clone(), spans).unwrap();
    assert_eq!(decode(&code, &img), Err(DecodeError::Truncated));
}
