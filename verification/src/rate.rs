//! Rate calculator: turns two cumulative byte counters and an elapsed
//! duration into an instantaneous bits-per-second figure.
use vstd::prelude::*;

verus! {

/// Mathematical value of the rate: the two counters summed, times 8 bits per
/// byte, scaled from milliseconds to seconds, divided by the elapsed time and
/// truncated. Zero whenever the elapsed time is zero or negative.
pub open spec fn rate_spec(a: u64, b: u64, elapsed_millis: i64) -> int {
    if elapsed_millis <= 0 {
        0
    } else {
        (a + b) * 8 * 1000 / (elapsed_millis as int)
    }
}

/// The rate as the `u64` the calculator hands out: the mathematical value,
/// saturated at `u64::MAX`.
pub open spec fn rate_sat(a: u64, b: u64, elapsed_millis: i64) -> u64 {
    if rate_spec(a, b, elapsed_millis) <= u64::MAX {
        rate_spec(a, b, elapsed_millis) as u64
    } else {
        u64::MAX
    }
}

/// Bits-per-second throughput from two cumulative byte counters `a` and `b`
/// and an elapsed duration in milliseconds. Elapsed times that are zero or
/// negative (degenerate clock conditions) yield 0 rather than a division
/// error; a mathematical result beyond `u64::MAX` saturates.
pub fn rate(a: u64, b: u64, elapsed_millis: i64) -> (r: u64)
    ensures
        r == rate_sat(a, b, elapsed_millis),
        elapsed_millis <= 0 ==> r == 0,
        a == 0 && b == 0 ==> r == 0,
{
    if elapsed_millis <= 0 {
        return 0;
    }
    let total_bits: u128 = (a as u128 + b as u128) * 8 * 1000;
    let q: u128 = total_bits / (elapsed_millis as u128);
    proof {
        assert(elapsed_millis as u128 == elapsed_millis as int);
        assert(q == rate_spec(a, b, elapsed_millis));
        if a == 0 && b == 0 {
            assert(total_bits == 0);
        }
    }
    if q > u64::MAX as u128 {
        u64::MAX
    } else {
        q as u64
    }
}

} // verus!
