use dth::collections::PackedIntVec;

#[test]
fn max_items() {
    let p = PackedIntVec::new(1);
    assert_eq!(0x01, p.max_item());

    let p = PackedIntVec::new(2);
    assert_eq!(0x03, p.max_item());

    let p = PackedIntVec::new(4);
    assert_eq!(0x0F, p.max_item());

    let p = PackedIntVec::new(5);
    assert_eq!(0x1F, p.max_item());

    let p = PackedIntVec::new(64);
    assert_eq!(0xFFFF_FFFF_FFFF_FFFF, p.max_item());
}

#[test]
fn pushes() {
    let mut p = PackedIntVec::new(4);
    p.push(0x3);
    assert_eq!(0x0000_0000_0000_0003, p.storage()[0]);
    p.push(0xF);
    assert_eq!(0x0000_0000_0000_00F3, p.storage()[0]);
    p.push(0xA);
    assert_eq!(0x0000_0000_0000_0AF3, p.storage()[0]);
    p.push(0xD);
    assert_eq!(0x0000_0000_0000_DAF3, p.storage()[0]);
}

#[test]
fn pushes_overflow() {
    let mut p = PackedIntVec::new(5);
    for i in 0..16 {
        p.push(i);
    }
    assert_eq!(0x05A9_2839_8A41_8820, p.storage()[0]);
    assert_eq!(0x0000_0000_0007_B9AC, p.storage()[1]);
}

#[test]
fn sets() {
    let mut p = PackedIntVec::new(4);
    for i in 0..16 {
        p.push(i);
    }
    assert_eq!(0xFEDC_BA98_7654_3210, p.storage()[0]);

    p.set(0, 0xF);
    assert_eq!(0xFEDC_BA98_7654_321F, p.storage()[0]);
    p.set(1, 0xE);
    assert_eq!(0xFEDC_BA98_7654_32EF, p.storage()[0]);
    p.set(2, 0xE);
    assert_eq!(0xFEDC_BA98_7654_3EEF, p.storage()[0]);
    p.set(3, 0xB);
    assert_eq!(0xFEDC_BA98_7654_BEEF, p.storage()[0]);
}

#[test]
fn gets() {
    let mut p = PackedIntVec::new(4);
    for i in 0..16 {
        p.push(i);
    }
    assert_eq!(0xFEDC_BA98_7654_3210, p.storage()[0]);

    for i in 0..16 {
        assert_eq!(i as u64, p.get(i));
    }

    let mut iter = p.iter();
    let mut i = 0;
    while let Some(item) = iter.next() {
        assert_eq!(i as u64, item);
        i += 1;
    }
    assert_eq!(16, i);
}

#[test]
fn resized_copies() {
    let mut p = PackedIntVec::new(4);
    for i in 0..16 {
        p.push(i);
    }
    assert_eq!(0xFEDC_BA98_7654_3210, p.storage()[0]);

    let p = p.resized_copy(5);
    assert_eq!(0x05A9_2839_8A41_8820, p.storage()[0]);
    assert_eq!(0x0000_0000_0007_B9AC, p.storage()[1]);
}

fn pushed(width: u32, values: &[u64]) -> PackedIntVec {
    let mut p = PackedIntVec::new(width);
    for value in values {
        p.push(*value);
    }
    p
}

#[test]
fn new_vec_is_empty() {
    let p = PackedIntVec::new(9);
    assert_eq!(0, p.len());
    assert!(p.is_empty());
    assert_eq!(0, p.storage().len());
    assert_eq!(0x1FF, p.max_item());
}

#[test]
fn with_capacity_holds_nothing_yet() {
    let p = PackedIntVec::with_capacity(3, 1000);
    assert_eq!(0, p.len());
    assert!(p.is_empty());
    assert_eq!(7, p.max_item());
}

#[test]
fn max_item_of_every_width() {
    for width in 1..64u32 {
        let p = PackedIntVec::new(width);
        assert_eq!((1u64 << width) - 1, p.max_item());
    }
    assert_eq!(u64::MAX, PackedIntVec::new(64).max_item());
}

#[test]
fn seven_bit_items_go_nine_to_a_cell() {
    let mut p = PackedIntVec::new(7);
    assert_eq!(0b111_1111, p.max_item());
    p.push(42);
    assert_eq!(42, p.get(0));
    for i in 1..9 {
        p.push(i);
    }
    assert_eq!(9, p.len());
    assert_eq!(1, p.storage().len());
    // The ninth item ends at bit 63: the top bit of the cell stays unused.
    assert_eq!(0, p.storage()[0] >> 63);
    p.push(0x7F);
    assert_eq!(10, p.len());
    assert_eq!(2, p.storage().len());
    assert_eq!(0x7F, p.storage()[1]);
    assert_eq!(0x7F, p.get(9));
}

#[test]
fn full_width_items_use_a_cell_each() {
    let mut p = PackedIntVec::new(64);
    p.push(u64::MAX);
    p.push(0);
    p.push(0x0123_4567_89AB_CDEF);
    assert_eq!(3, p.storage().len());
    assert_eq!(u64::MAX, p.get(0));
    assert_eq!(0, p.get(1));
    assert_eq!(0x0123_4567_89AB_CDEF, p.get(2));
    p.set(0, 7);
    assert_eq!(7, p.storage()[0]);
}

#[test]
fn one_bit_items_go_64_to_a_cell() {
    let mut p = PackedIntVec::new(1);
    for i in 0..65u64 {
        p.push(i % 2);
    }
    assert_eq!(2, p.storage().len());
    assert_eq!(0xAAAA_AAAA_AAAA_AAAA, p.storage()[0]);
    assert_eq!(0, p.storage()[1]);
}

#[test]
fn get_returns_the_last_value_set() {
    let mut p = PackedIntVec::filled(6, 40, 0);
    let writes: [(usize, u64); 8] =
        [(0, 63), (39, 1), (10, 17), (0, 5), (21, 63), (10, 0), (20, 33), (39, 62)];
    let mut expected = vec![0u64; 40];
    for (index, value) in writes.iter() {
        p.set(*index, *value);
        expected[*index] = *value;
        for i in 0..40 {
            assert_eq!(expected[i], p.get(i));
        }
    }
    assert_eq!(5, p.get(0));
    assert_eq!(0, p.get(10));
    assert_eq!(62, p.get(39));
}

#[test]
fn set_holds_every_value_of_the_width() {
    for width in [1u32, 3, 5, 8, 13] {
        let mut p = PackedIntVec::filled(width, 3, 0);
        let max = p.max_item();
        for value in [0, 1, max / 2, max] {
            p.set(1, value);
            assert_eq!(value, p.get(1));
            assert_eq!(0, p.get(0));
            assert_eq!(0, p.get(2));
        }
    }
}

#[test]
fn filled_repeats_the_value() {
    let p = PackedIntVec::filled(4, 18, 0xA);
    assert_eq!(18, p.len());
    assert_eq!(2, p.storage().len());
    assert_eq!(0xAAAA_AAAA_AAAA_AAAA, p.storage()[0]);
    assert_eq!(0xAA, p.storage()[1]);
    for i in 0..18 {
        assert_eq!(0xA, p.get(i));
    }
}

#[test]
fn filled_with_nothing_is_empty() {
    let p = PackedIntVec::filled(4, 0, 3);
    assert!(p.is_empty());
    assert_eq!(0, p.storage().len());
}

#[test]
fn fill_replaces_what_was_there() {
    let mut p = pushed(5, &[1, 2, 3, 4, 5, 6, 7]);
    p.fill(3, 31);
    assert_eq!(3, p.len());
    assert_eq!(31, p.max_item());
    assert_eq!(1, p.storage().len());
    assert_eq!(0x7FFF, p.storage()[0]);
}

#[test]
fn clear_keeps_the_width() {
    let mut p = pushed(5, &[1, 2, 3]);
    p.clear();
    assert!(p.is_empty());
    assert_eq!(0, p.storage().len());
    assert_eq!(31, p.max_item());
    p.push(9);
    assert_eq!(9, p.get(0));
    assert_eq!(9, p.storage()[0]);
}

#[test]
fn from_iter_takes_the_items_in_order() {
    let p = PackedIntVec::from_iter(5, (0..16u64).into_iter());
    assert_eq!(16, p.len());
    assert_eq!(0x05A9_2839_8A41_8820, p.storage()[0]);
    assert_eq!(0x0000_0000_0007_B9AC, p.storage()[1]);
    let empty = PackedIntVec::from_iter(5, Vec::new().into_iter());
    assert!(empty.is_empty());
}

#[test]
fn resized_copy_keeps_every_value() {
    let values: Vec<u64> = (0..100u64).map(|i| (i * 7) % 16).collect();
    let p = pushed(4, &values);
    for width in [4u32, 5, 7, 16, 33, 64] {
        let copy = p.resized_copy(width);
        assert_eq!(p.len(), copy.len());
        for i in 0..values.len() {
            assert_eq!(p.get(i), copy.get(i));
        }
        let direct = pushed(width, &values);
        assert_eq!(direct.storage(), copy.storage());
    }
}

#[test]
fn resized_copy_keeps_a_partly_filled_cell() {
    let p = pushed(4, &[1, 2, 3]);
    let copy = p.resized_copy(8);
    assert_eq!(3, copy.len());
    assert_eq!(1, copy.storage().len());
    assert_eq!(0x03_02_01, copy.storage()[0]);
}

#[test]
fn resized_copy_to_a_narrower_width_that_fits() {
    let p = pushed(8, &[1, 0, 1, 1]);
    let copy = p.resized_copy(1);
    assert_eq!(4, copy.len());
    assert_eq!(0b1101, copy.storage()[0]);
}

#[test]
fn iter_stops_at_the_last_item() {
    let p = pushed(4, &[7, 8, 9]);
    let mut iter = p.iter();
    assert_eq!((0, Some(3)), iter.size_hint());
    assert_eq!(Some(7), iter.next());
    assert_eq!((0, Some(2)), iter.size_hint());
    assert_eq!(Some(8), iter.next());
    assert_eq!(Some(9), iter.next());
    assert_eq!((0, Some(0)), iter.size_hint());
    assert_eq!(None, iter.next());
    assert_eq!(None, iter.next());
}

#[test]
fn iter_crosses_cells() {
    let values: Vec<u64> = (0..30u64).collect();
    let p = pushed(5, &values);
    let mut iter = p.iter();
    let mut seen = Vec::new();
    while let Some(value) = iter.next() {
        seen.push(value);
    }
    assert_eq!(values, seen);
}

#[test]
fn two_iterators_walk_independently() {
    let p = pushed(4, &[1, 2, 3]);
    let mut first = p.iter();
    let mut second = p.iter();
    assert_eq!(Some(1), first.next());
    assert_eq!(Some(2), first.next());
    assert_eq!(Some(1), second.next());
    assert_eq!(Some(3), first.next());
    assert_eq!(Some(2), second.next());
}
