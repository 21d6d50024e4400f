use dth::math::clamp;

#[test]
fn clamp_holds_a_value_to_its_range() {
    assert_eq!(5, clamp(5, 0, 10));
    assert_eq!(0, clamp(-1, 0, 10));
    assert_eq!(10, clamp(11, 0, 10));
    assert_eq!(0, clamp(0, 0, 10));
    assert_eq!(10, clamp(10, 0, 10));
    assert_eq!(7u8, clamp(200u8, 7, 7));
}

#[test]
fn clamp_of_an_empty_range_gives_its_upper_end() {
    assert_eq!(0, clamp(5, 10, 0));
    assert_eq!(0, clamp(-5, 10, 0));
    assert_eq!(0, clamp(50, 10, 0));
}

#[test]
fn clamp_of_floats() {
    assert_eq!(0.5, clamp(0.5, 0.0, 1.0));
    assert_eq!(0.0, clamp(-0.5, 0.0, 1.0));
    assert_eq!(1.0, clamp(1.5, 0.0, 1.0));
    // Nothing compares with a number that is none: it passes through.
    assert!(clamp(f32::NAN, 0.0, 1.0).is_nan());
}
