//! Basis-point fee arithmetic.
//!
//! A fee rate is an integer number of basis points in `[0, 10000]`; the fee
//! owed on a base amount is `floor(base * rate / 10000)`.  The executable
//! functions compute this without ever overflowing their machine types,
//! even for the largest representable base amounts.

use vstd::prelude::*;

verus! {

use vstd::arithmetic::div_mod::{
    lemma_fundamental_div_mod, lemma_hoist_over_denominator,
};
use vstd::arithmetic::mul::{
    lemma_mul_inequality, lemma_mul_is_distributive_add_other_way,
    lemma_mul_is_commutative,
};

/// Number of basis points that make up the whole: a rate of `BPS_DENOMINATOR`
/// is 100 percent.
pub const BPS_DENOMINATOR: u32 = 10000;

/// The fee owed on `base` at `rate_bps` basis points.
pub open spec fn fee_spec(base: int, rate_bps: int) -> int {
    base * rate_bps / (BPS_DENOMINATOR as int)
}

/// A fee never exceeds its base amount while the rate is at most 100 percent.
pub proof fn lemma_fee_le_base(base: int, rate_bps: int)
    requires
        0 <= base,
        0 <= rate_bps <= BPS_DENOMINATOR,
    ensures
        0 <= fee_spec(base, rate_bps) <= base,
{
    let d = BPS_DENOMINATOR as int;
    lemma_mul_inequality(rate_bps, d, base);
    lemma_mul_is_commutative(base, rate_bps);
    assert(base * rate_bps <= base * d);
    vstd::arithmetic::div_mod::lemma_div_is_ordered(base * rate_bps, base * d, d);
    vstd::arithmetic::div_mod::lemma_div_by_multiple(base, d);
    vstd::arithmetic::div_mod::lemma_div_pos_is_pos(base * rate_bps, d);
    vstd::arithmetic::mul::lemma_mul_nonnegative(base, rate_bps);
}

/// A rate of zero basis points yields a zero fee on every base amount.
pub proof fn lemma_fee_zero_rate(base: int)
    ensures
        fee_spec(base, 0) == 0,
{
    assert(base * 0 == 0) by (nonlinear_arith);
}

/// Splitting the base at the denominator preserves the quotient:
/// `floor(base * r / d) == (base / d) * r + floor((base % d) * r / d)`.
proof fn lemma_fee_split(base: int, rate_bps: int)
    requires
        0 <= base,
        0 <= rate_bps,
    ensures
        fee_spec(base, rate_bps) == (base / (BPS_DENOMINATOR as int)) * rate_bps + (base
            % (BPS_DENOMINATOR as int)) * rate_bps / (BPS_DENOMINATOR as int),
{
    let d = BPS_DENOMINATOR as int;
    let q = base / d;
    let rem = base % d;
    lemma_fundamental_div_mod(base, d);
    assert(base == d * q + rem);
    assert(base * rate_bps == (d * q + rem) * rate_bps);
    lemma_mul_is_distributive_add_other_way(rate_bps, d * q, rem);
    assert((d * q + rem) * rate_bps == (d * q) * rate_bps + rem * rate_bps);
    assert((d * q) * rate_bps == (q * rate_bps) * d) by (nonlinear_arith);
    lemma_hoist_over_denominator(rem * rate_bps, q * rate_bps, BPS_DENOMINATOR as nat);
    assert(rem * rate_bps / d + q * rate_bps == (rem * rate_bps + (q * rate_bps) * d) / d);
}

/// Computes `floor(base * rate_bps / 10000)` for an unsigned base amount.
///
/// The product `base * rate_bps` may exceed `u128`, so the base is split at
/// the denominator first; the result itself always fits, because it is
/// bounded by `base`.
pub fn fee(base: u128, rate_bps: u32) -> (r: u128)
    requires
        rate_bps <= BPS_DENOMINATOR,
    ensures
        r == fee_spec(base as int, rate_bps as int),
        r <= base,
{
    let q: u128 = base / (BPS_DENOMINATOR as u128);
    let rem: u128 = base % (BPS_DENOMINATOR as u128);
    proof {
        let d = BPS_DENOMINATOR as int;
        lemma_fee_split(base as int, rate_bps as int);
        lemma_fee_le_base(base as int, rate_bps as int);
        lemma_fundamental_div_mod(base as int, d);
        lemma_mul_inequality(rate_bps as int, d, q as int);
        lemma_mul_is_commutative(q as int, rate_bps as int);
        assert(q * d <= base) by (nonlinear_arith)
            requires q == base as int / d && d == 10000 && 0 <= base;
        assert((q as int) * (rate_bps as int) <= (q as int) * d);
        assert((rem as int) * (rate_bps as int) < 100000000int) by (nonlinear_arith)
            requires 0 <= rem < 10000 && 0 <= rate_bps <= 10000;
        vstd::arithmetic::mul::lemma_mul_nonnegative(rem as int, rate_bps as int);
        vstd::arithmetic::div_mod::lemma_div_pos_is_pos((rem as int) * (rate_bps as int), d);
        vstd::arithmetic::div_mod::lemma_div_is_ordered(
            (rem as int) * (rate_bps as int),
            100000000int,
            d,
        );
    }
    let head: u128 = q * (rate_bps as u128);
    let tail: u128 = (rem * (rate_bps as u128)) / (BPS_DENOMINATOR as u128);
    head + tail
}

/// Computes the commission on a strictly positive signed amount.
///
/// This is the same quotient as [`fee`], carried out in the unsigned domain
/// so that the widened intermediate never overflows `i128`.
pub fn fee_on_amount(total: i128, rate_bps: u32) -> (r: i128)
    requires
        0 < total,
        rate_bps <= BPS_DENOMINATOR,
    ensures
        r == fee_spec(total as int, rate_bps as int),
        0 <= r <= total,
{
    proof {
        lemma_fee_le_base(total as int, rate_bps as int);
    }
    let unsigned: u128 = total as u128;
    let f: u128 = fee(unsigned, rate_bps);
    f as i128
}

} // verus!
