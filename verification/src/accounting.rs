//! The release engine's arithmetic: a payee's pro-rata entitlement over
//! everything the pool has ever received, and the laws it obeys.

use vstd::prelude::*;

use vstd::arithmetic::div_mod::{
    lemma_div_is_ordered, lemma_div_multiples_vanish, lemma_fundamental_div_mod,
    lemma_hoist_over_denominator, lemma_mod_bound,
};
use vstd::arithmetic::mul::{
    lemma_mul_inequality, lemma_mul_is_commutative, lemma_mul_upper_bound,
};

verus! {

/// A payee's full pro-rata entitlement: the truncating share of everything
/// ever received, `floor(total_received * shares / total_shares)`.
pub open spec fn spec_entitlement(total_received: int, shares: int, total_shares: int) -> int {
    total_received * shares / total_shares
}

/// Compute the entitlement without overflowing, by splitting the dividend
/// into its quotient and remainder by `total_shares`. Because no payee holds
/// more shares than the total, the result fits alongside `total_received`.
pub fn entitlement(total_received: u128, shares: u64, total_shares: u64) -> (r: u128)
    requires
        1 <= total_shares,
        shares <= total_shares,
    ensures
        r == spec_entitlement(total_received as int, shares as int, total_shares as int),
        r <= total_received,
{
    let t: u128 = total_shares as u128;
    let s: u128 = shares as u128;
    let q: u128 = total_received / t;
    let rem: u128 = total_received % t;
    proof {
        let tri = total_received as int;
        let ti = t as int;
        let si = s as int;
        let qi = q as int;
        let remi = rem as int;
        lemma_fundamental_div_mod(tri, ti);
        lemma_mod_bound(tri, ti);
        // q * s fits: q * s <= q * t <= total_received
        lemma_mul_inequality(si, ti, qi);
        lemma_mul_is_commutative(si, qi);
        lemma_mul_is_commutative(ti, qi);
        assert(qi * si <= qi * ti);
        assert(ti * qi <= tri);
        // rem * s fits below 2^128
        lemma_mul_upper_bound(remi, u64::MAX as int, si, u64::MAX as int);
    }
    let q_s: u128 = q * s;
    let rem_s: u128 = rem * s;
    proof {
        let tri = total_received as int;
        let ti = t as int;
        let si = s as int;
        let qi = q as int;
        let remi = rem as int;
        // (rem * s) / t <= rem, because s <= t
        lemma_mul_inequality(si, ti, remi);
        lemma_mul_is_commutative(si, remi);
        lemma_mul_is_commutative(ti, remi);
        lemma_div_is_ordered(remi * si, remi * ti, ti);
        lemma_div_multiples_vanish(remi, ti);
        assert(remi * si / ti <= remi);
        // the two pieces recombine into the entitlement
        assert((ti * qi + remi) * si == qi * si * ti + remi * si) by (nonlinear_arith);
        lemma_hoist_over_denominator(remi * si, qi * si, ti as nat);
        assert(remi * si / ti + qi * si == (remi * si + qi * si * ti) / ti);
        assert(tri * si / ti == qi * si + remi * si / ti);
    }
    q_s + rem_s / t
}

/// A payee's entitlement never exceeds the pool's lifetime receipts.
pub proof fn lemma_entitlement_le_received(total_received: int, shares: int, total_shares: int)
    requires
        0 <= total_received,
        0 <= shares <= total_shares,
        1 <= total_shares,
    ensures
        spec_entitlement(total_received, shares, total_shares) <= total_received,
{
    lemma_mul_inequality(shares, total_shares, total_received);
    lemma_mul_is_commutative(shares, total_received);
    lemma_mul_is_commutative(total_shares, total_received);
    lemma_div_is_ordered(total_received * shares, total_received * total_shares, total_shares);
    lemma_div_multiples_vanish(total_received, total_shares);
}

/// Entitlements never shrink as the pool's lifetime receipts grow.
pub proof fn lemma_entitlement_monotonic(r0: int, r1: int, shares: int, total_shares: int)
    requires
        0 <= r0 <= r1,
        0 <= shares,
        1 <= total_shares,
    ensures
        spec_entitlement(r0, shares, total_shares) <= spec_entitlement(r1, shares, total_shares),
{
    lemma_mul_inequality(r0, r1, shares);
    lemma_div_is_ordered(r0 * shares, r1 * shares, total_shares);
}

/// No over-payment is stable under deposits: a released amount within the
/// entitlement at lifetime receipts `r0` stays within it at any later
/// lifetime receipts `r1 >= r0`, since deposits only add.
pub proof fn lemma_no_overpayment_preserved(
    released: int,
    shares: int,
    total_shares: int,
    r0: int,
    r1: int,
)
    requires
        0 <= shares,
        1 <= total_shares,
        0 <= r0 <= r1,
        released <= spec_entitlement(r0, shares, total_shares),
    ensures
        released <= spec_entitlement(r1, shares, total_shares),
{
    lemma_entitlement_monotonic(r0, r1, shares, total_shares);
}

} // verus!
