use naia_shared::wrapping_number::{
    sequence_equal_or_less_than, sequence_greater_than, sequence_less_than, try_wrapping_diff, wrapping_diff,
};

#[test]
fn greater_is_greater() {
    assert!(sequence_greater_than(2, 1));
}

#[test]
fn greater_is_not_equal() {
    assert!(!sequence_greater_than(2, 2));
}

#[test]
fn greater_is_not_less() {
    assert!(!sequence_greater_than(1, 2));
}

#[test]
fn less_is_less() {
    assert!(sequence_less_than(1, 2));
}

#[test]
fn less_is_not_equal() {
    assert!(!sequence_less_than(2, 2));
}

#[test]
fn less_is_not_greater() {
    assert!(!sequence_less_than(2, 1));
}

#[test]
fn simple() {
    let a: u16 = 10;
    let b: u16 = 12;
    let result = wrapping_diff(a, b);
    assert_eq!(result, 2);
}

#[test]
fn simple_backwards() {
    let a: u16 = 10;
    let b: u16 = 12;
    let result = wrapping_diff(b, a);
    assert_eq!(result, -2);
}

#[test]
fn max_wrap() {
    let a: u16 = std::u16::MAX;
    let b: u16 = a.wrapping_add(2);
    let result = wrapping_diff(a, b);
    assert_eq!(result, 2);
}

#[test]
fn min_wrap() {
    let a: u16 = 0;
    let b: u16 = a.wrapping_sub(2);
    let result = wrapping_diff(a, b);
    assert_eq!(result, -2);
}

#[test]
fn max_wrap_backwards() {
    let a: u16 = std::u16::MAX;
    let b: u16 = a.wrapping_add(2);
    let result = wrapping_diff(b, a);
    assert_eq!(result, -2);
}

#[test]
fn min_wrap_backwards() {
    let a: u16 = 0;
    let b: u16 = a.wrapping_sub(2);
    let result = wrapping_diff(b, a);
    assert_eq!(result, 2);
}

#[test]
fn medium_min_wrap() {
    let diff: u16 = std::u16::MAX / 2;
    let a: u16 = 0;
    let b: u16 = a.wrapping_sub(diff);
    let result = i32::from(wrapping_diff(a, b));
    assert_eq!(result, -i32::from(diff));
}

#[test]
fn medium_min_wrap_backwards() {
    let diff: u16 = std::u16::MAX / 2;
    let a: u16 = 0;
    let b: u16 = a.wrapping_sub(diff);
    let result = i32::from(wrapping_diff(b, a));
    assert_eq!(result, i32::from(diff));
}

#[test]
fn medium_max_wrap() {
    let diff: u16 = std::u16::MAX / 2;
    let a: u16 = std::u16::MAX;
    let b: u16 = a.wrapping_add(diff);
    let result = i32::from(wrapping_diff(a, b));
    assert_eq!(result, i32::from(diff));
}

#[test]
fn medium_max_wrap_backwards() {
    let diff: u16 = std::u16::MAX / 2;
    let a: u16 = std::u16::MAX;
    let b: u16 = a.wrapping_add(diff);
    let result = i32::from(wrapping_diff(b, a));
    assert_eq!(result, -i32::from(diff));
}

#[test]
fn half_turn_goes_to_the_larger_number() {
    // 0 and 32768 are exactly half a turn apart: the larger one is ahead.
    assert!(sequence_greater_than(32768, 0));
    assert!(!sequence_greater_than(0, 32768));
    assert!(sequence_less_than(0, 32768));
    assert!(sequence_equal_or_less_than(5, 5));
    assert!(sequence_equal_or_less_than(4, 5));
    assert!(!sequence_equal_or_less_than(6, 5));
}

#[test]
fn try_wrapping_diff_always_succeeds() {
    assert_eq!(try_wrapping_diff(65535, 1).unwrap(), 2);
    assert_eq!(try_wrapping_diff(1, 65535).unwrap(), -2);
}

#[test]
fn comparison_is_asymmetric_across_the_wrap() {
    assert!(sequence_greater_than(1, 65535));
    assert!(sequence_less_than(65535, 1));
    assert!(!sequence_greater_than(65535, 1));
}
