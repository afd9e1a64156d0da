//! Comparison and distance of `u16` sequence numbers that wrap around.
use vstd::prelude::*;

verus! {

/// Errors that can occur during wrapping number operations.
#[derive(Debug, Clone, PartialEq, Eq)]
pub enum WrappingNumberError {
    /// Integer overflow occurred during wrapping difference calculation.
    /// This is mathematically impossible with `u16` inputs.
    IntegerOverflow { a: u16, b: u16 },
}

/// Forward distance from `s2` to `s1` on the 16-bit circle, in `0..65536`.
pub open spec fn forward_distance(s2: int, s1: int) -> int {
    (s1 - s2) % 65536
}

/// `s1` is ahead of `s2` on the circle: it lies less than half a turn
/// forward of `s2`, or exactly half a turn, in which case the numerically
/// larger one is ahead.
pub open spec fn spec_sequence_greater_than(s1: u16, s2: u16) -> bool {
    let d = forward_distance(s2 as int, s1 as int);
    (0 < d < 32768) || (d == 32768 && s1 > s2)
}

/// The signed distance from `a` to `b`: the unique value in `-32768..=32767`
/// congruent to `b - a` modulo 65536.
pub open spec fn spec_wrapping_diff(a: u16, b: u16) -> int {
    let d = forward_distance(a as int, b as int);
    if d <= 32767 {
        d
    } else {
        d - 65536
    }
}

/// Returns whether or not a wrapping number is greater than another.
/// `sequence_greater_than(2, 1)` is true, `sequence_greater_than(1, 2)` and
/// `sequence_greater_than(1, 1)` are false.
pub fn sequence_greater_than(s1: u16, s2: u16) -> (r: bool)
    ensures
        r == spec_sequence_greater_than(s1, s2),
{
    ((s1 > s2) && (s1 - s2 <= 32768)) || ((s1 < s2) && (s2 - s1 > 32768))
}

/// Returns whether or not a wrapping number is less than another.
/// `sequence_less_than(1, 2)` is true, `sequence_less_than(2, 1)` and
/// `sequence_less_than(1, 1)` are false.
pub fn sequence_less_than(s1: u16, s2: u16) -> (r: bool)
    ensures
        r == spec_sequence_greater_than(s2, s1),
{
    sequence_greater_than(s2, s1)
}

/// `s1` equals `s2` or lies behind it on the circle.
pub fn sequence_equal_or_less_than(s1: u16, s2: u16) -> (r: bool)
    ensures
        r == (s1 == s2 || spec_sequence_greater_than(s2, s1)),
{
    s1 == s2 || sequence_less_than(s1, s2)
}

/// Retrieves the wrapping difference between 2 `u16` values: the signed
/// number of steps that lead from `a` to `b`.
///
/// `try_wrapping_diff(1, 2) == Ok(1)`, `try_wrapping_diff(65535, 0) == Ok(1)`.
pub fn try_wrapping_diff(a: u16, b: u16) -> (r: Result<i16, WrappingNumberError>)
    ensures
        r matches Ok(v) && v as int == spec_wrapping_diff(a, b),
{
    let max: i32 = 32767;
    let min: i32 = -32768;
    let adjust: i32 = 65536;

    let a_i32: i32 = a as i32;
    let b_i32: i32 = b as i32;

    let mut result: i32 = b_i32 - a_i32;
    if min <= result && result <= max {
        Ok(result as i16)
    } else if b_i32 > a_i32 {
        result = b_i32 - (a_i32 + adjust);
        if min <= result && result <= max {
            Ok(result as i16)
        } else {
            Err(WrappingNumberError::IntegerOverflow { a, b })
        }
    } else {
        result = (b_i32 + adjust) - a_i32;
        if min <= result && result <= max {
            Ok(result as i16)
        } else {
            Err(WrappingNumberError::IntegerOverflow { a, b })
        }
    }
}

/// Retrieves the wrapping difference between 2 `u16` values.
///
/// `wrapping_diff(1, 2) == 1`, `wrapping_diff(2, 1) == -1`,
/// `wrapping_diff(65535, 0) == 1`, `wrapping_diff(0, 65535) == -1`.
pub fn wrapping_diff(a: u16, b: u16) -> (r: i16)
    ensures
        r as int == spec_wrapping_diff(a, b),
{
    match try_wrapping_diff(a, b) {
        Ok(v) => v,
        Err(_) => 0,
    }
}

/// No number is ahead of itself.
pub proof fn lemma_sequence_greater_than_irreflexive(s: u16)
    ensures
        !spec_sequence_greater_than(s, s),
{
}

/// Of two numbers, at most one is ahead of the other.
pub proof fn lemma_sequence_greater_than_asymmetric(s1: u16, s2: u16)
    ensures
        spec_sequence_greater_than(s1, s2) ==> !spec_sequence_greater_than(s2, s1),
{
}

/// Of two distinct numbers, one is ahead of the other.
pub proof fn lemma_sequence_greater_than_total(s1: u16, s2: u16)
    requires
        s1 != s2,
    ensures
        spec_sequence_greater_than(s1, s2) || spec_sequence_greater_than(s2, s1),
{
}

/// Stepping `wrapping_diff(a, b)` times forward from `a` lands on `b`.
pub proof fn lemma_wrapping_diff_round_trip(a: u16, b: u16)
    ensures
        (a as int + spec_wrapping_diff(a, b)) % 65536 == b as int,
        -32768 <= spec_wrapping_diff(a, b) <= 32767,
{
}

/// The distance back is the negated distance forth, except at half a turn.
pub proof fn lemma_wrapping_diff_antisymmetric(a: u16, b: u16)
    requires
        spec_wrapping_diff(a, b) != -32768,
    ensures
        spec_wrapping_diff(b, a) == -spec_wrapping_diff(a, b),
{
}

/// Away from half a turn, `b` is ahead of `a` exactly when the distance from
/// `a` to `b` is positive.
pub proof fn lemma_wrapping_diff_sign(a: u16, b: u16)
    requires
        spec_wrapping_diff(a, b) != -32768,
    ensures
        spec_sequence_greater_than(b, a) <==> spec_wrapping_diff(a, b) > 0,
        spec_sequence_greater_than(a, b) <==> spec_wrapping_diff(a, b) < 0,
{
}

} // verus!
