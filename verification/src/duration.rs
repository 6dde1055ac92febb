//! The length of a chunk: from seconds, in double precision, to samples.
use vstd::prelude::*;

use crate::ieee;

verus! {

/// One second, the shortest chunk.
pub const ONE_SECOND: u64 = 0x3ff0_0000_0000_0000;

/// Ten seconds, the usual chunk.
pub const TEN_SECONDS: u64 = 0x4024_0000_0000_0000;

/// Thirty seconds, the longest chunk: no more fits the window of the encoder.
pub const THIRTY_SECONDS: u64 = 0x403e_0000_0000_0000;

/// Weight of the lowest exponent bit in a double-precision pattern.
pub const EXPONENT_UNIT: u64 = 0x0010_0000_0000_0000;

/// The nearest length between one and thirty seconds, and thirty for a NaN.
pub open spec fn clamped(seconds: u64) -> u64 {
    if ieee::nan_64(seconds) || ieee::rank_64(seconds) > THIRTY_SECONDS {
        THIRTY_SECONDS
    } else if ieee::rank_64(seconds) < ONE_SECOND {
        ONE_SECOND
    } else {
        seconds
    }
}

/// Brings a length between one and thirty seconds.
pub fn clamp_seconds(seconds: u64) -> (r: u64)
    ensures
        r == clamped(seconds),
        ONE_SECOND <= r <= THIRTY_SECONDS,
{
    if ieee::is_nan_64(seconds) || ieee::is_greater_64(seconds, THIRTY_SECONDS) {
        THIRTY_SECONDS
    } else if ieee::is_greater_64(ONE_SECOND, seconds) {
        ONE_SECOND
    } else {
        seconds
    }
}

/// The multiple of `unit` nearest to `p`, and the even multiple of two equally near.
pub open spec fn round_half_even(p: int, unit: int) -> int {
    let multiple = p / unit;
    let rest = p % unit;
    if 2 * rest < unit || (2 * rest == unit && multiple % 2 == 0) {
        multiple * unit
    } else {
        (multiple + 1) * unit
    }
}

/// The significand of a normal double-precision number, as an integer of 53 bits.
pub open spec fn significand(bits: u64) -> int {
    EXPONENT_UNIT + bits % EXPONENT_UNIT
}

/// Two to the power of 45 less the binary exponent of a number from 1 to below 32.
pub open spec fn scale(bits: u64) -> int {
    let biased = bits / EXPONENT_UNIT;
    if biased == 1023 {
        0x2000_0000_0000
    } else if biased == 1024 {
        0x1000_0000_0000
    } else if biased == 1025 {
        0x800_0000_0000
    } else if biased == 1026 {
        0x400_0000_0000
    } else {
        0x200_0000_0000
    }
}

/// The number of whole samples, at 16 kHz, in a length from one to thirty seconds:
/// the product in double precision, cut off at the point.
///
/// The exact product is `125 * significand / scale`, as 16000 is `125 << 7`. In double
/// precision it is rounded to 53 significant bits, and so to a multiple of 64 or 128
/// of these fractions, 59 or 60 bits being significant before.
pub open spec fn samples_in(seconds: u64) -> int {
    let product = 125 * significand(seconds);
    let unit = if product < 0x800_0000_0000_0000 {
        64int
    } else {
        128int
    };
    round_half_even(product, unit) / scale(seconds)
}

/// The number of whole samples in a length from one to thirty seconds.
pub fn samples_in_seconds(seconds: u64) -> (r: usize)
    requires
        ONE_SECOND <= seconds <= THIRTY_SECONDS,
    ensures
        r == samples_in(seconds),
        16000 <= r <= 480000,
{
    let product: u64 = 125 * (EXPONENT_UNIT + seconds % EXPONENT_UNIT);
    let unit: u64 = if product < 0x800_0000_0000_0000 {
        64
    } else {
        128
    };
    let multiple: u64 = product / unit;
    let rest: u64 = product % unit;
    let rounded: u64 = if 2 * rest < unit || (2 * rest == unit && multiple % 2 == 0) {
        multiple * unit
    } else {
        (multiple + 1) * unit
    };
    let biased: u64 = seconds / EXPONENT_UNIT;
    let scale: u64 = if biased == 1023 {
        0x2000_0000_0000
    } else if biased == 1024 {
        0x1000_0000_0000
    } else if biased == 1025 {
        0x800_0000_0000
    } else if biased == 1026 {
        0x400_0000_0000
    } else {
        0x200_0000_0000
    };
    (rounded / scale) as usize
}

/// Lengths from one to thirty seconds stay as they are. Shorter ones, negative ones among
/// them, become one second, and longer ones, and what is no number, thirty.
pub proof fn lengths_are_kept_in_range(seconds: u64)
    ensures
        0x3ff0_0000_0000_0000 <= seconds <= 0x403e_0000_0000_0000 ==> clamped(seconds) == seconds,
        seconds < 0x3ff0_0000_0000_0000 || 0x8000_0000_0000_0000 <= seconds <= 0xfff0_0000_0000_0000
            ==> clamped(seconds) == 0x3ff0_0000_0000_0000,
        0x403e_0000_0000_0000 < seconds < 0x8000_0000_0000_0000 || seconds > 0xfff0_0000_0000_0000
            ==> clamped(seconds) == 0x403e_0000_0000_0000,
{
}

/// The number of samples is 16000 for each second, cut off at the point, up to the
/// rounding of the product: with `n` for the significand and `2^e` for the second, it is
/// `125 * n / 2^(45 - e)`, and `125 * n` is off by no more than half of the last place.
pub proof fn samples_are_the_product(seconds: u64)
    requires
        ONE_SECOND <= seconds <= THIRTY_SECONDS,
    ensures
        ({
            let n = 0x10_0000_0000_0000 + seconds % 0x10_0000_0000_0000;
            let biased = seconds / 0x10_0000_0000_0000;
            let unit = if biased == 1023 {
                0x2000_0000_0000int
            } else if biased == 1024 {
                0x1000_0000_0000int
            } else if biased == 1025 {
                0x800_0000_0000int
            } else if biased == 1026 {
                0x400_0000_0000int
            } else {
                0x200_0000_0000int
            };
            &&& samples_in(seconds) * unit <= 125 * n + 64
            &&& 125 * n - 64 < (samples_in(seconds) + 1) * unit
            &&& (125 * n) % 128 == 0 ==> samples_in(seconds) * unit <= 125 * n < (samples_in(
                seconds,
            ) + 1) * unit
        }),
{
}

/// The product of a length with 16000, rounded as in double precision.
spec fn rounded(seconds: u64) -> int {
    let product = 125 * significand(seconds);
    round_half_even(
        product,
        if product < 0x800_0000_0000_0000 {
            64int
        } else {
            128int
        },
    )
}

/// Rounding to multiples of 64 or 128 keeps the order, and moves nothing across a
/// multiple of 128.
proof fn rounding_keeps_order(p: int, q: int, bound: int)
    requires
        0 <= p <= q,
        bound % 128 == 0,
    ensures
        round_half_even(p, 64) <= round_half_even(q, 64),
        round_half_even(p, 128) <= round_half_even(q, 128),
        p <= bound ==> round_half_even(p, 64) <= bound && round_half_even(p, 128) <= bound,
        bound <= p ==> bound <= round_half_even(p, 64) && bound <= round_half_even(p, 128),
{
}

/// A longer chunk has no fewer samples.
pub proof fn longer_chunks_have_more_samples(a: u64, b: u64)
    requires
        ONE_SECOND <= a <= b <= THIRTY_SECONDS,
    ensures
        samples_in(a) <= samples_in(b),
{
    let p = 125 * significand(a);
    let q = 125 * significand(b);
    rounding_keeps_order(p, p, 0x800_0000_0000_0000);
    rounding_keeps_order(q, q, 0x800_0000_0000_0000);
    if a / EXPONENT_UNIT == b / EXPONENT_UNIT {
        assert(p <= q);
        rounding_keeps_order(p, q, 0x800_0000_0000_0000);
        assert(rounded(a) <= rounded(b));
        let scale = scale(a);
        assert(rounded(a) / scale <= rounded(b) / scale) by (nonlinear_arith)
            requires
                rounded(a) <= rounded(b),
                scale > 0,
        ;
    } else {
        // Twice the length for each exponent: one ends where the next one starts.
        let low: int = 125 * 0x10_0000_0000_0000int;
        rounding_keeps_order(p, p, 2 * low);
        rounding_keeps_order(q, q, low);
        assert(rounded(a) <= 2 * low);
        assert(low <= rounded(b));
        let (coarse, fine) = (scale(a), scale(b));
        assert(coarse >= 2 * fine);
        assert(samples_in(a) == rounded(a) / coarse);
        assert(samples_in(b) == rounded(b) / fine);
        assert(rounded(a) / coarse <= rounded(b) / fine) by (nonlinear_arith)
            requires
                0 <= rounded(a) <= 2 * low,
                low <= rounded(b),
                coarse >= 2 * fine,
                fine > 0,
        ;
    }
}

} // verus!
