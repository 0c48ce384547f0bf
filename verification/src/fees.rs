//! The protocol fee taken from tips.
use vstd::prelude::*;
use vstd::arithmetic::div_mod::{lemma_hoist_over_denominator, lemma_div_is_ordered, lemma_fundamental_div_mod};

verus! {

/// Basis points in one whole: a fee of `BPS_DENOMINATOR` basis points is 100%.
pub const BPS_DENOMINATOR: u32 = 10_000;

/// Largest fee rate at which tips go through, in basis points (100%).
pub const MAX_FEE_BPS: u32 = 10_000;

/// The protocol's share of a tip of `amount` at `fee_bps` basis points,
/// rounded down.
pub open spec fn fee_share(amount: int, fee_bps: int) -> int {
    amount * fee_bps / (BPS_DENOMINATOR as int)
}

/// Splits a tip into the protocol fee and what the author receives.
/// The fee is `amount * fee_bps / 10_000`, rounded down; the author gets
/// the rest. The product is never formed, so no amount can overflow.
pub fn split_tip(amount: i128, fee_bps: u32) -> (r: (i128, i128))
    requires
        amount >= 0,
        fee_bps <= MAX_FEE_BPS,
    ensures
        r.0 == fee_share(amount as int, fee_bps as int),
        r.1 == amount - r.0,
        0 <= r.0 <= amount,
{
    let whole: i128 = amount / 10_000;
    let rest: i128 = amount % 10_000;
    let bps: i128 = fee_bps as i128;
    proof {
        let a = amount as int;
        let b = bps as int;
        let q = whole as int;
        let m = rest as int;
        lemma_fundamental_div_mod(a, 10_000);
        assert(a == 10_000 * q + m);
        assert(0 <= q * b <= q * 10_000) by (nonlinear_arith)
            requires 0 <= q, 0 <= b <= 10_000;
        assert(0 <= m * b <= 9_999 * 10_000) by (nonlinear_arith)
            requires 0 <= m < 10_000, 0 <= b <= 10_000;
        assert(a * b == m * b + (q * b) * 10_000) by (nonlinear_arith)
            requires a == 10_000 * q + m;
        lemma_hoist_over_denominator(m * b, q * b, 10_000);
        assert(a * b <= a * 10_000) by (nonlinear_arith)
            requires 0 <= a, 0 <= b <= 10_000;
        lemma_div_is_ordered(a * b, a * 10_000, 10_000);
        assert((a * 10_000) / 10_000 == a) by (nonlinear_arith);
        assert(0 <= (m * b) / 10_000) by (nonlinear_arith)
            requires 0 <= m * b;
    }
    let fee: i128 = whole * bps + rest * bps / 10_000;
    (fee, amount - fee)
}

} // verus!
