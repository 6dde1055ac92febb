//! Floating-point numbers as plain integers.
//!
//! Samples, scores and probabilities pass through this crate as IEEE 754 bit
//! patterns: a `u32` holds a single-precision number, a `u64` a double-precision
//! one. The functions here compare such numbers, and place them in the total
//! order that also covers NaN and signed zeros, without computing with them.
use vstd::prelude::*;

verus! {

/// Sign bit of a double-precision pattern.
pub const SIGN_64: u64 = 0x8000_0000_0000_0000;

/// Pattern of positive zero in double precision.
pub const ZERO_64: u64 = 0;

/// Pattern of positive infinity in double precision.
pub const INFINITY_64: u64 = 0x7ff0_0000_0000_0000;

/// Pattern of the default NaN in double precision.
pub const NAN_64: u64 = 0x7ff8_0000_0000_0000;

/// Sign bit of a single-precision pattern.
pub const SIGN_32: u32 = 0x8000_0000;

/// Pattern of positive infinity in single precision.
pub const INFINITY_32: u32 = 0x7f80_0000;

/// Pattern of negative infinity in single precision.
pub const NEG_INFINITY_32: u32 = 0xff80_0000;

/// An integer that orders the double-precision numbers other than NaN: the
/// magnitude bits, negated for a negative number. Both zeros have rank 0.
pub open spec fn rank_64(bits: u64) -> int {
    if bits < SIGN_64 {
        bits as int
    } else {
        SIGN_64 - bits
    }
}

/// Whether a double-precision pattern is a NaN.
pub open spec fn nan_64(bits: u64) -> bool {
    rank_64(bits) > INFINITY_64 || rank_64(bits) < -INFINITY_64
}

/// The number `a` is greater than the number `b`. A NaN is never greater nor smaller.
pub open spec fn greater_64(a: u64, b: u64) -> bool {
    !nan_64(a) && !nan_64(b) && rank_64(a) > rank_64(b)
}

/// As [`rank_64`], for single precision.
pub open spec fn rank_32(bits: u32) -> int {
    if bits < SIGN_32 {
        bits as int
    } else {
        SIGN_32 - bits
    }
}

/// Whether a single-precision pattern is a NaN.
pub open spec fn nan_32(bits: u32) -> bool {
    rank_32(bits) > INFINITY_32 || rank_32(bits) < -INFINITY_32
}

/// As [`greater_64`], for single precision.
pub open spec fn greater_32(a: u32, b: u32) -> bool {
    !nan_32(a) && !nan_32(b) && rank_32(a) > rank_32(b)
}

/// Place of a single-precision pattern in the IEEE 754 total order: negative
/// patterns below positive ones, negative zero just below positive zero, and
/// NaNs outermost on either side.
pub open spec fn total_rank_32(bits: u32) -> int {
    if bits < SIGN_32 {
        bits as int
    } else {
        SIGN_32 - bits - 1
    }
}

/// The signed magnitude of a double-precision pattern.
fn signed_magnitude_64(bits: u64) -> (r: i64)
    ensures
        r == rank_64(bits),
{
    if bits < SIGN_64 {
        bits as i64
    } else {
        -((bits - SIGN_64) as i64)
    }
}

/// Whether a double-precision pattern is a NaN.
pub fn is_nan_64(bits: u64) -> (r: bool)
    ensures
        r == nan_64(bits),
{
    let rank: i64 = signed_magnitude_64(bits);
    let infinity: i64 = INFINITY_64 as i64;
    rank > infinity || rank < -infinity
}

/// Compares two double-precision numbers as `a > b`.
pub fn is_greater_64(a: u64, b: u64) -> (r: bool)
    ensures
        r == greater_64(a, b),
{
    !is_nan_64(a) && !is_nan_64(b) && signed_magnitude_64(a) > signed_magnitude_64(b)
}

/// The signed magnitude of a single-precision pattern.
fn signed_magnitude_32(bits: u32) -> (r: i32)
    ensures
        r == rank_32(bits),
{
    if bits < SIGN_32 {
        bits as i32
    } else {
        -((bits - SIGN_32) as i32)
    }
}

/// Whether a single-precision pattern is a NaN.
pub fn is_nan_32(bits: u32) -> (r: bool)
    ensures
        r == nan_32(bits),
{
    let rank: i32 = signed_magnitude_32(bits);
    let infinity: i32 = INFINITY_32 as i32;
    rank > infinity || rank < -infinity
}

/// Compares two single-precision numbers as `a > b`.
pub fn is_greater_32(a: u32, b: u32) -> (r: bool)
    ensures
        r == greater_32(a, b),
{
    !is_nan_32(a) && !is_nan_32(b) && signed_magnitude_32(a) > signed_magnitude_32(b)
}

/// An integer key that orders single-precision patterns by the IEEE 754 total order.
pub fn total_key_32(bits: u32) -> (r: i32)
    ensures
        r == total_rank_32(bits),
{
    if bits < SIGN_32 {
        bits as i32
    } else {
        -1 - ((bits - SIGN_32) as i32)
    }
}

/// Of two double-precision numbers, neither of them a NaN, the greater has the higher
/// pattern if both are without the sign bit and the lower one if both are with it. If one
/// is, it is the lesser, unless both are zero.
pub proof fn greater_64_by_pattern(a: u64, b: u64)
    ensures
        greater_64(a, b) <==> if a < 0x8000_0000_0000_0000 && b < 0x8000_0000_0000_0000 {
            b < a <= 0x7ff0_0000_0000_0000
        } else if a >= 0x8000_0000_0000_0000 && b >= 0x8000_0000_0000_0000 {
            a < b <= 0xfff0_0000_0000_0000
        } else {
            &&& a <= 0x7ff0_0000_0000_0000
            &&& 0x8000_0000_0000_0000 <= b <= 0xfff0_0000_0000_0000
            &&& a > 0 || b > 0x8000_0000_0000_0000
        },
{
}

/// As [`greater_64_by_pattern`], for single precision.
pub proof fn greater_32_by_pattern(a: u32, b: u32)
    ensures
        greater_32(a, b) <==> if a < 0x8000_0000 && b < 0x8000_0000 {
            b < a <= 0x7f80_0000
        } else if a >= 0x8000_0000 && b >= 0x8000_0000 {
            a < b <= 0xff80_0000
        } else {
            &&& a <= 0x7f80_0000
            &&& 0x8000_0000 <= b <= 0xff80_0000
            &&& a > 0 || b > 0x8000_0000
        },
{
}

/// In the total order patterns without the sign bit go upwards, above those with it, which
/// go downwards.
pub proof fn total_rank_by_pattern(a: u32, b: u32)
    ensures
        total_rank_32(a) < total_rank_32(b) <==> if a < 0x8000_0000 && b < 0x8000_0000 {
            a < b
        } else if a >= 0x8000_0000 && b >= 0x8000_0000 {
            a > b
        } else {
            a >= 0x8000_0000
        },
{
}

/// The total order tells any two distinct patterns apart.
pub proof fn total_rank_is_injective(a: u32, b: u32)
    requires
        total_rank_32(a) == total_rank_32(b),
    ensures
        a == b,
{
}

/// On numbers other than NaN the total order refines the usual one: a number
/// that is greater also stands higher in the total order.
pub proof fn total_rank_refines_greater(a: u32, b: u32)
    requires
        greater_32(a, b),
    ensures
        total_rank_32(a) > total_rank_32(b),
{
}

} // verus!
