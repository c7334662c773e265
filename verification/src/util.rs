//! Fixed-point rounding and unit conversions.
use vstd::prelude::*;

verus! {

/// `n / d` rounded to the nearest integer, halves away from zero
/// (what `f64::round` does to a non-negative quotient).
pub open spec fn round_half_away(n: int, d: int) -> int {
    (2 * n + d) / (2 * d)
}

/// `n / d` rounded to the nearest integer, halves to the even neighbour.
/// This is the rounding of the exact rational value; a binary float that
/// only approximates the same tie may round the other way.
pub open spec fn round_half_even(n: int, d: int) -> int {
    let q = n / d;
    let r = n % d;
    if 2 * r < d {
        q
    } else if 2 * r > d {
        q + 1
    } else if q % 2 == 0 {
        q
    } else {
        q + 1
    }
}

/// Law: `round_half_away` gives the integer nearest to `n / d`, a half
/// going up: the distance from `r * d` to `n` is at most half of `d`, and
/// exactly half only when `r * d` lies above `n`.
pub proof fn lemma_round_half_away_nearest(n: int, d: int)
    requires
        d > 0,
    ensures
        2 * (n - d * round_half_away(n, d)) < d,
        2 * (d * round_half_away(n, d) - n) <= d,
{
    let r = round_half_away(n, d);
    assert(2 * d * r <= 2 * n + d && 2 * n + d < 2 * d * (r + 1)) by (nonlinear_arith)
        requires
            d > 0,
            r == (2 * n + d) / (2 * d),
    ;
    assert(2 * (n - d * r) < d && 2 * (d * r - n) <= d) by (nonlinear_arith)
        requires
            2 * d * r <= 2 * n + d,
            2 * n + d < 2 * d * (r + 1),
    ;
}

/// Law: `round_half_even` gives the integer nearest to `n / d`: the
/// distance from `r * d` to `n` is at most half of `d`, and when it is
/// exactly half, `r` is even.
pub proof fn lemma_round_half_even_nearest(n: int, d: int)
    requires
        d > 0,
    ensures
        2 * (n - d * round_half_even(n, d)) <= d,
        2 * (d * round_half_even(n, d) - n) <= d,
        2 * (n - d * round_half_even(n, d)) == d || 2 * (d * round_half_even(n, d) - n) == d
            ==> round_half_even(n, d) % 2 == 0,
{
    let q = n / d;
    let rem = n % d;
    assert(n == d * q + rem && 0 <= rem < d) by (nonlinear_arith)
        requires
            d > 0,
            q == n / d,
            rem == n % d,
    ;
    let r = round_half_even(n, d);
    if 2 * rem < d {
        assert(r == q);
    } else if 2 * rem > d {
        assert(r == q + 1);
        assert(d * (q + 1) == d * q + d) by (nonlinear_arith);
    } else {
        assert(d * (q + 1) == d * q + d) by (nonlinear_arith);
    }
}

/// Bytes per mebibyte.
pub const BYTES_PER_MIB: u64 = 1_048_576;

/// Converts a duration in microseconds into hundredths of a millisecond,
/// rounding halves up: the millisecond value rounded to two decimals.
pub fn micros_to_centi_ms(us: u64) -> (r: u64)
    ensures
        r == round_half_away(us as int, 10),
{
    let q = us / 10;
    assert(round_half_away(us as int, 10) == q + if us % 10 >= 5 { 1int } else { 0int })
        by (nonlinear_arith)
        requires
            q == us / 10,
    ;
    if us % 10 >= 5 {
        q + 1
    } else {
        q
    }
}

/// Throughput in hundredths of a megabit per second of `bytes` moved in
/// `elapsed_us` microseconds: `bytes * 8 / seconds / 1_000_000`, rounded to
/// two decimals. No time elapsed gives `0`; a rate beyond what a `u64` holds
/// gives `u64::MAX`.
pub fn bytes_to_centi_mbps(bytes: u64, elapsed_us: u64) -> (r: u64)
    ensures
        elapsed_us == 0 ==> r == 0,
        elapsed_us > 0 ==> r == if round_half_away(bytes * 800, elapsed_us as int) <= u64::MAX {
            round_half_away(bytes * 800, elapsed_us as int)
        } else {
            u64::MAX as int
        },
{
    if elapsed_us == 0 {
        return 0;
    }
    let n: u128 = bytes as u128 * 1600 + elapsed_us as u128;
    let d: u128 = elapsed_us as u128 * 2;
    let q: u128 = n / d;
    if q <= u64::MAX as u128 {
        q as u64
    } else {
        u64::MAX
    }
}

/// `bytes` in hundredths of a mebibyte, rounded to two decimals with halves
/// up.
pub fn bytes_to_centi_mib(bytes: u64) -> (r: u64)
    ensures
        r == round_half_away(bytes * 100, BYTES_PER_MIB as int),
{
    let n: u128 = bytes as u128 * 200 + BYTES_PER_MIB as u128;
    let d: u128 = BYTES_PER_MIB as u128 * 2;
    assert(n / d <= u64::MAX) by (nonlinear_arith)
        requires
            n == bytes as u128 * 200 + 1_048_576,
            d == 2_097_152,
            bytes <= u64::MAX,
    ;
    (n / d) as u64
}

/// `bytes` in tenths of a mebibyte: the exact mebibyte count rounded to
/// one decimal with halves to even.
pub fn bytes_to_deci_mib(bytes: u64) -> (r: u64)
    ensures
        r == round_half_even(bytes * 10, BYTES_PER_MIB as int),
{
    let n: u128 = bytes as u128 * 10;
    let d: u128 = BYTES_PER_MIB as u128;
    let q: u128 = n / d;
    let rem: u128 = n % d;
    assert(q <= u64::MAX / 10) by (nonlinear_arith)
        requires
            n == bytes as u128 * 10,
            d == 1_048_576,
            q == n / d,
            bytes <= u64::MAX,
    ;
    let q64 = q as u64;
    if 2 * rem < d {
        q64
    } else if 2 * rem > d {
        q64 + 1
    } else if q64 % 2 == 0 {
        q64
    } else {
        q64 + 1
    }
}

} // verus!
