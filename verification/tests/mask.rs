use qr_decoder::mask::{get_mask_fn, MaskFn};

#[test]
fn mask_0_is_every_third_column() {
    let mask = get_mask_fn(0b000).unwrap();
    assert_eq!(mask, MaskFn::EveryThirdColumn);
    assert!(mask.call(0, 0));
    assert!(mask.call(0, 7));
    assert!(!mask.call(1, 0));
    assert!(!mask.call(2, 5));
    assert!(mask.call(3, 1));
    assert!(mask.call(18, 20));
    assert!(!mask.call(20, 20));
    assert!(mask.call(u32::MAX, 0));
}

#[test]
fn mask_2_is_the_checkerboard() {
    let mask = get_mask_fn(0b010).unwrap();
    assert_eq!(mask, MaskFn::Checkerboard);
    assert!(mask.call(0, 0));
    assert!(!mask.call(1, 0));
    assert!(!mask.call(0, 1));
    assert!(mask.call(1, 1));
    assert!(mask.call(20, 20));
    assert!(!mask.call(19, 20));
    assert!(mask.call(u32::MAX, u32::MAX));
    assert!(!mask.call(u32::MAX, 0));
}

#[test]
fn other_mask_identifiers_select_nothing() {
    for id in 0..=255u8 {
        assert_eq!(get_mask_fn(id).is_some(), id == 0b000 || id == 0b010);
    }
}

#[test]
fn demasking_inverts_the_covered_modules_only() {
    let mask = MaskFn::EveryThirdColumn;
    assert!(!mask.demask(true, 3, 4));
    assert!(mask.demask(false, 3, 4));
    assert!(mask.demask(true, 4, 4));
    assert!(!mask.demask(false, 4, 4));
}

#[test]
fn demasking_twice_gives_the_bit_back() {
    for id in [0b000u8, 0b010] {
        let mask = get_mask_fn(id).unwrap();
        for x in 0..25 {
            for y in 0..25 {
                for bit in [false, true] {
                    assert_eq!(mask.demask(mask.demask(bit, x, y), x, y), bit);
                }
            }
        }
    }
}
