use embedded_graphics_gba::packing::{extract, insert, replicate, Depth};

#[test]
fn depth_parameters() {
    assert_eq!(Depth::Four.bits_per_pixel(), 4);
    assert_eq!(Depth::Four.pixels_per_word(), 8);
    assert_eq!(Depth::Four.field_mask(), 0xF);
    assert_eq!(Depth::Eight.bits_per_pixel(), 8);
    assert_eq!(Depth::Eight.pixels_per_word(), 4);
    assert_eq!(Depth::Eight.field_mask(), 0xFF);
}

#[test]
fn shift_of_each_slot() {
    assert_eq!(Depth::Four.shift(0), 0);
    assert_eq!(Depth::Four.shift(1), 4);
    assert_eq!(Depth::Four.shift(7), 28);
    assert_eq!(Depth::Four.shift(8), 0);
    assert_eq!(Depth::Four.shift(63), 28);
    assert_eq!(Depth::Eight.shift(0), 0);
    assert_eq!(Depth::Eight.shift(3), 24);
    assert_eq!(Depth::Eight.shift(4), 0);
    assert_eq!(Depth::Eight.shift(62), 16);
}

#[test]
fn extract_reads_nibbles() {
    let w: u32 = 0x7654_3210;
    for slot in 0..8u32 {
        assert_eq!(extract(w, Depth::Four, slot), slot);
    }
    assert_eq!(extract(w, Depth::Four, 13), 5);
}

#[test]
fn extract_reads_bytes() {
    let w: u32 = 0xDDCC_BBAA;
    assert_eq!(extract(w, Depth::Eight, 0), 0xAA);
    assert_eq!(extract(w, Depth::Eight, 1), 0xBB);
    assert_eq!(extract(w, Depth::Eight, 2), 0xCC);
    assert_eq!(extract(w, Depth::Eight, 3), 0xDD);
    assert_eq!(extract(w, Depth::Eight, 6), 0xCC);
}

#[test]
fn insert_replaces_one_nibble() {
    assert_eq!(insert(0x3333_3333, Depth::Four, 0, 9), 0x3333_3339);
    assert_eq!(insert(0x3333_3333, Depth::Four, 7, 9), 0x9333_3333);
    assert_eq!(insert(0xFFFF_FFFF, Depth::Four, 3, 0), 0xFFFF_0FFF);
    assert_eq!(insert(0, Depth::Four, 10, 0xA), 0x0000_0A00);
}

#[test]
fn insert_truncates_to_the_field_width() {
    assert_eq!(insert(0x3333_3333, Depth::Four, 1, 0x19), 0x3333_3393);
    assert_eq!(insert(0, Depth::Four, 0, 0xFFFF_FFFF), 0xF);
    assert_eq!(insert(0, Depth::Eight, 1, 0x1AB), 0x0000_AB00);
}

#[test]
fn insert_replaces_one_byte() {
    assert_eq!(insert(0x0303_0303, Depth::Eight, 0, 0xAB), 0x0303_03AB);
    assert_eq!(insert(0x0303_0303, Depth::Eight, 3, 0xAB), 0xAB03_0303);
    assert_eq!(insert(0xFFFF_FFFF, Depth::Eight, 2, 0), 0xFF00_FFFF);
}

#[test]
fn insert_then_extract_for_every_slot_and_value() {
    for slot in 0..64u32 {
        for value in 0..16u32 {
            let w = insert(0x5A5A_5A5A, Depth::Four, slot, value);
            assert_eq!(extract(w, Depth::Four, slot), value);
            for other in 0..8u32 {
                if other != slot % 8 {
                    assert_eq!(extract(w, Depth::Four, other), extract(0x5A5A_5A5A, Depth::Four, other));
                }
            }
        }
        for value in 0..256u32 {
            let w = insert(0x1234_5678, Depth::Eight, slot, value);
            assert_eq!(extract(w, Depth::Eight, slot), value);
            for other in 0..4u32 {
                if other != slot % 4 {
                    assert_eq!(extract(w, Depth::Eight, other), extract(0x1234_5678, Depth::Eight, other));
                }
            }
        }
    }
}

#[test]
fn replicate_fills_every_field() {
    assert_eq!(replicate(Depth::Four, 3), 0x3333_3333);
    assert_eq!(replicate(Depth::Four, 0xF), 0xFFFF_FFFF);
    assert_eq!(replicate(Depth::Four, 0x12), 0x2222_2222);
    assert_eq!(replicate(Depth::Eight, 3), 0x0303_0303);
    assert_eq!(replicate(Depth::Eight, 0xFF), 0xFFFF_FFFF);
    assert_eq!(replicate(Depth::Eight, 0x1AB), 0xABAB_ABAB);
    assert_eq!(replicate(Depth::Four, 0), 0);
}
