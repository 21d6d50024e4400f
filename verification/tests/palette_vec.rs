use dth::collections::PaletteVec;

#[test]
fn sanity_tests() {
    let mut p = PaletteVec::default();
    for i in 0..2 {
        p.push(i);
    }
    assert_eq!(2, p.palette_len());
    assert_eq!(3, p.max_index());

    for i in 2..18 {
        p.push(i);
    }
    assert_eq!(18, p.palette_len());
    assert_eq!(0x1F, p.max_index());
}

#[test]
fn default_has_two_bit_indices() {
    let p: PaletteVec<u8> = PaletteVec::default();
    assert!(p.is_empty());
    assert_eq!(0, p.len());
    assert_eq!(0, p.palette_len());
    assert_eq!(3, p.max_index());
}

#[test]
fn with_capacity_starts_at_four_bits_at_least() {
    for hint in [0usize, 1, 2, 3, 4, 15, 16] {
        let p: PaletteVec<u32> = PaletteVec::with_capacity(hint, 8);
        assert_eq!(15, p.max_index());
        assert!(p.is_empty());
        assert_eq!(0, p.palette_len());
    }
    let p: PaletteVec<u32> = PaletteVec::with_capacity(17, 8);
    assert_eq!(31, p.max_index());
    let p: PaletteVec<u32> = PaletteVec::with_capacity(256, 8);
    assert_eq!(255, p.max_index());
    let p: PaletteVec<u32> = PaletteVec::with_capacity(257, 8);
    assert_eq!(511, p.max_index());
}

#[test]
fn with_index_width_takes_the_width_given() {
    let p: PaletteVec<u32> = PaletteVec::with_index_width(1, 0);
    assert_eq!(1, p.max_index());
    let p: PaletteVec<u32> = PaletteVec::with_index_width(64, 0);
    assert_eq!(u64::MAX, p.max_index());
}

#[test]
fn filled_takes_one_palette_entry() {
    let p = PaletteVec::filled(16, 4096, 'a');
    assert_eq!(4096, p.len());
    assert_eq!(1, p.palette_len());
    assert_eq!(15, p.max_index());
    assert_eq!('a', *p.get(0));
    assert_eq!('a', *p.get(4095));
}

#[test]
fn the_same_value_in_two_slots_is_one_palette_entry() {
    let mut p: PaletteVec<u32> = PaletteVec::default();
    p.push(7);
    p.push(7);
    assert_eq!(2, p.len());
    assert_eq!(1, p.palette_len());

    let mut forward = PaletteVec::filled(4, 10, 0u32);
    forward.set(2, 9);
    forward.set(8, 9);
    let mut backward = PaletteVec::filled(4, 10, 0u32);
    backward.set(8, 9);
    backward.set(2, 9);
    assert_eq!(2, forward.palette_len());
    assert_eq!(2, backward.palette_len());
    for i in 0..10 {
        assert_eq!(forward.get(i), backward.get(i));
    }
}

#[test]
fn writing_into_an_empty_palette_twice() {
    let mut p: PaletteVec<&str> = PaletteVec::with_capacity(4, 2);
    p.push("stone");
    p.push("air");
    p.set(1, "stone");
    p.set(0, "stone");
    assert_eq!(2, p.palette_len());
    assert_eq!("stone", *p.get(0));
    assert_eq!("stone", *p.get(1));
}

#[test]
fn set_changes_one_slot() {
    let mut p = PaletteVec::filled(16, 100, 0u64);
    p.set(40, 11);
    p.set(41, 12);
    p.set(40, 13);
    for i in 0..100 {
        let expected = match i {
            40 => 13,
            41 => 12,
            _ => 0,
        };
        assert_eq!(expected, *p.get(i));
    }
    // The value that slot 40 held first stays in the palette.
    assert_eq!(4, p.palette_len());
}

#[test]
fn the_palette_only_grows() {
    let mut p = PaletteVec::filled(16, 4, 1u8);
    p.set(0, 2);
    p.set(1, 2);
    p.set(2, 2);
    p.set(3, 2);
    assert_eq!(2, p.palette_len());
    p.set(0, 1);
    assert_eq!(2, p.palette_len());
}

#[test]
fn indices_widen_when_the_palette_outgrows_them() {
    for width in 1..7u32 {
        let mut p: PaletteVec<u64> = PaletteVec::with_index_width(width, 0);
        let full = 1u64 << width;
        for value in 0..full {
            p.push(value * 3);
            assert_eq!(full - 1, p.max_index());
        }
        assert_eq!(full as usize, p.palette_len());
        for slot in 0..full {
            assert_eq!(slot * 3, *p.get(slot as usize));
        }
        p.push(full * 3);
        assert_eq!(2 * full - 1, p.max_index());
        assert_eq!(full as usize + 1, p.palette_len());
        for slot in 0..=full {
            assert_eq!(slot * 3, *p.get(slot as usize));
        }
    }
}

#[test]
fn set_widens_as_push_does() {
    let mut p = PaletteVec::filled(16, 40, 0u32);
    assert_eq!(15, p.max_index());
    for i in 1..16 {
        p.set(i, i as u32);
        assert_eq!(15, p.max_index());
    }
    assert_eq!(16, p.palette_len());
    p.set(16, 16);
    assert_eq!(31, p.max_index());
    assert_eq!(17, p.palette_len());
    for i in 0..40 {
        let expected = if i <= 16 { i as u32 } else { 0 };
        assert_eq!(expected, *p.get(i));
    }
}

#[test]
fn a_known_value_never_widens() {
    let mut p: PaletteVec<u32> = PaletteVec::with_index_width(2, 0);
    for value in 0..4 {
        p.push(value);
    }
    for value in 0..4 {
        p.push(value);
        p.set(value as usize, 3 - value);
    }
    assert_eq!(3, p.max_index());
    assert_eq!(4, p.palette_len());
    assert_eq!(8, p.len());
}

#[test]
fn get_palette_mut_changes_every_slot_of_the_value() {
    let mut p = PaletteVec::filled(16, 6, 10u32);
    p.set(1, 20);
    p.set(4, 20);
    *p.get_palette_mut(1) = 21;
    assert_eq!(10, *p.get(0));
    assert_eq!(21, *p.get(1));
    assert_eq!(21, *p.get(4));
    assert_eq!(2, p.palette_len());
    *p.get_palette_mut(0) += 5;
    for i in [0, 2, 3, 5] {
        assert_eq!(15, *p.get(i));
    }
    assert_eq!(21, *p.get(1));
}

#[test]
fn get_palette_mut_can_leave_a_duplicate() {
    let mut p = PaletteVec::filled(16, 2, 1u32);
    p.set(1, 2);
    *p.get_palette_mut(1) = 1;
    assert_eq!(2, p.palette_len());
    assert_eq!(1, *p.get(0));
    assert_eq!(1, *p.get(1));
    // A later write finds the first entry that holds the value.
    p.set(1, 1);
    assert_eq!(2, p.palette_len());
    *p.get_palette_mut(0) = 7;
    assert_eq!(7, *p.get(0));
    assert_eq!(7, *p.get(1));
}

#[test]
fn clear_empties_slots_and_palette() {
    let mut p = PaletteVec::filled(16, 5, 1u32);
    p.set(0, 2);
    p.clear();
    assert!(p.is_empty());
    assert_eq!(0, p.palette_len());
    assert_eq!(15, p.max_index());
    p.push(3);
    assert_eq!(3, *p.get(0));
    assert_eq!(1, p.palette_len());
}

#[test]
fn fill_resets_the_palette() {
    let mut p: PaletteVec<u32> = PaletteVec::with_index_width(2, 0);
    for value in 0..9 {
        p.push(value);
    }
    assert_eq!(15, p.max_index());
    p.fill(3, 42);
    assert_eq!(3, p.len());
    assert_eq!(1, p.palette_len());
    assert_eq!(15, p.max_index());
    for i in 0..3 {
        assert_eq!(42, *p.get(i));
    }
}

#[test]
fn palette_vec_iter_gives_the_slots_in_order() {
    let mut p: PaletteVec<char> = PaletteVec::default();
    for c in "abracadabra".chars() {
        p.push(c);
    }
    assert_eq!(5, p.palette_len());
    let mut iter = p.iter();
    let mut seen = String::new();
    while let Some(c) = iter.next() {
        seen.push(*c);
    }
    assert_eq!("abracadabra", seen);
    assert!(iter.next().is_none());
}

#[test]
fn palette_vec_from_iter_keeps_first_seen_order() {
    let values = vec![5u32, 3, 5, 9, 3, 1];
    let mut p = PaletteVec::from_iter(values.clone().into_iter());
    assert_eq!(6, p.len());
    assert_eq!(4, p.palette_len());
    assert_eq!(15, p.max_index());
    for (i, value) in values.iter().enumerate() {
        assert_eq!(value, p.get(i));
    }
    // The palette holds 5, 3, 9, 1 in that order: the entry of slot 3 is the third.
    *p.get_palette_mut(3) = 90;
    let mut iter = p.iter();
    let mut seen = Vec::new();
    while let Some(value) = iter.next() {
        seen.push(*value);
    }
    assert_eq!(vec![5, 3, 5, 90, 3, 1], seen);
}
