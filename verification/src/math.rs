use vstd::prelude::*;
use candid::Nat;
use crate::bignat::{nat_value, nat_from_u64, nat_clone, nat_add, nat_sub, nat_mul, nat_div, nat_lt, nat_eq};
use vstd::arithmetic::div_mod::{lemma_remainder_lower, lemma_remainder_upper, lemma_div_multiples_vanish};

verus! {

/// Input amount after the 0.3% swap fee is taken on the input side.
pub open spec fn fee_adjusted(amount_in: nat) -> nat {
    amount_in * 997 / 1000
}

/// Constant-product output: the fee-adjusted input priced against the
/// current reserves.
pub open spec fn swap_output(reserve_in: nat, reserve_out: nat, amount_in: nat) -> nat {
    reserve_out * fee_adjusted(amount_in) / (reserve_in + fee_adjusted(amount_in))
}

/// Shares minted against a non-empty pool for a contribution on one side.
pub open spec fn proportional_mint(amount: nat, total_lp: nat, reserve: nat) -> nat {
    amount * total_lp / reserve
}

/// One side's payout for burning `lp_amount` of `total_lp` shares.
pub open spec fn proportional_out(lp_amount: nat, reserve: nat, total_lp: nat) -> nat {
    lp_amount * reserve / total_lp
}

pub open spec fn min_nat(a: nat, b: nat) -> nat {
    if a <= b {
        a
    } else {
        b
    }
}

/// Floor-division bounds: `(x / d) * d <= x < (x / d + 1) * d`.
pub proof fn lemma_div_bounds(x: nat, d: nat)
    requires
        d > 0,
    ensures
        (x / d) * d <= x,
        x < ((x / d) + 1) * d,
{
    lemma_remainder_lower(x as int, d as int);
    lemma_remainder_upper(x as int, d as int);
    assert(((x / d) + 1) * d == (x / d) * d + d) by (nonlinear_arith);
}

/// A quotient is bounded by any multiple that bounds the dividend.
pub proof fn lemma_div_le(x: nat, a: nat, d: nat)
    requires
        d > 0,
        x <= a * d,
    ensures
        x / d <= a,
{
    lemma_div_bounds(x, d);
    if x / d > a {
        assert((a + 1) * d <= (x / d) * d) by (nonlinear_arith)
            requires
                a + 1 <= x / d,
                d > 0,
        ;
        assert(a * d + d == (a + 1) * d) by (nonlinear_arith);
    }
}

/// Law: a swap against positive reserves pays out strictly less than the
/// outgoing reserve, and strictly increases the product of the reserves:
/// `(reserve_in + amount_in) * (reserve_out - out) > reserve_in * reserve_out`.
pub proof fn lemma_swap_product_increases(reserve_in: nat, reserve_out: nat, amount_in: nat)
    ensures
        reserve_in > 0 && reserve_out > 0 && amount_in > 0 ==> {
            let out = swap_output(reserve_in, reserve_out, amount_in);
            &&& out < reserve_out
            &&& (reserve_in + amount_in) * (reserve_out - out) > reserve_in * reserve_out
        },
{
    if reserve_in > 0 && reserve_out > 0 && amount_in > 0 {
        let f = fee_adjusted(amount_in);
        let s = reserve_in + f;
        let out = swap_output(reserve_in, reserve_out, amount_in);
        lemma_div_bounds(reserve_out * f, s);
        assert(out * s <= reserve_out * f);
        lemma_div_bounds(amount_in * 997, 1000);
        assert(f < amount_in) by (nonlinear_arith)
            requires
                f * 1000 <= amount_in * 997,
                amount_in > 0,
        ;
        assert(reserve_out * f < reserve_out * s) by (nonlinear_arith)
            requires
                f < s,
                reserve_out > 0,
        ;
        assert(out < reserve_out) by (nonlinear_arith)
            requires
                out * s < reserve_out * s,
                s > 0,
        ;
        assert(out * (reserve_in + amount_in) < reserve_out * amount_in) by (nonlinear_arith)
            requires
                out * s <= reserve_out * f,
                out + 1 <= reserve_out,
                f < amount_in,
                s == reserve_in + f,
        ;
        assert((reserve_in + amount_in) * (reserve_out - out) > reserve_in * reserve_out) by (nonlinear_arith)
            requires
                out * (reserve_in + amount_in) < reserve_out * amount_in,
                out < reserve_out,
        ;
    }
}

/// Law: burning exactly the shares a liquidity deposit minted pays back at
/// most the deposited amounts, and the supply returns to its prior value.
/// On an empty pool the payouts are exact; against a non-empty pool the
/// mint is the proportional minimum, and integer rounding can only lose.
pub proof fn lemma_liquidity_round_trip(
    amount_a: nat,
    amount_b: nat,
    reserve_a: nat,
    reserve_b: nat,
    total_lp: nat,
    mint: nat,
)
    requires
        amount_a > 0,
        amount_b > 0,
        mint > 0,
        total_lp == 0 ==> reserve_a == 0 && reserve_b == 0,
        total_lp > 0 ==> reserve_a > 0 && reserve_b > 0 && mint == min_nat(
            proportional_mint(amount_a, total_lp, reserve_a),
            proportional_mint(amount_b, total_lp, reserve_b),
        ),
    ensures
        proportional_out(mint, reserve_a + amount_a, total_lp + mint) <= amount_a,
        proportional_out(mint, reserve_b + amount_b, total_lp + mint) <= amount_b,
        total_lp + mint - mint == total_lp,
{
    if total_lp == 0 {
        lemma_div_multiples_vanish(amount_a as int, mint as int);
        assert(mint * amount_a == mint as int * amount_a as int);
        lemma_div_multiples_vanish(amount_b as int, mint as int);
    } else {
        lemma_round_trip_side(amount_a, reserve_a, total_lp, mint);
        lemma_round_trip_side(amount_b, reserve_b, total_lp, mint);
    }
}

/// One side of the round trip: when `mint` is at most the proportional
/// mint for this side, burning it pays out at most the contribution.
proof fn lemma_round_trip_side(amount: nat, reserve: nat, total_lp: nat, mint: nat)
    requires
        reserve > 0,
        total_lp > 0,
        mint <= proportional_mint(amount, total_lp, reserve),
    ensures
        proportional_out(mint, reserve + amount, total_lp + mint) <= amount,
{
    lemma_div_bounds(amount * total_lp, reserve);
    assert(mint * reserve <= amount * total_lp) by (nonlinear_arith)
        requires
            mint <= (amount * total_lp) / reserve,
            ((amount * total_lp) / reserve) * reserve <= amount * total_lp,
            reserve > 0,
    ;
    assert(mint * (reserve + amount) <= amount * (total_lp + mint)) by (nonlinear_arith)
        requires
            mint * reserve <= amount * total_lp,
    ;
    lemma_div_le(mint * (reserve + amount), amount, total_lp + mint);
}

/// Law: the largest integer whose square does not exceed the argument.
/// `r * r <= n < (r + 1) * (r + 1)` pins the result exactly.
pub fn integer_sqrt(n: &Nat) -> (r: Nat)
    ensures
        nat_value(r) * nat_value(r) <= nat_value(*n),
        nat_value(*n) < (nat_value(r) + 1) * (nat_value(r) + 1),
{
    let zero = nat_from_u64(0);
    let one = nat_from_u64(1);
    if nat_eq(n, &zero) || nat_eq(n, &one) {
        let r = nat_clone(n);
        proof {
            let nv = nat_value(*n);
            assert(nv * nv <= nv && nv < (nv + 1) * (nv + 1)) by (nonlinear_arith)
                requires
                    nv == 0 || nv == 1,
            ;
        }
        return r;
    }
    let two = nat_from_u64(2);
    let mut low = nat_from_u64(1);
    let mut high = nat_add(&nat_div(n, &two), &one);
    proof {
        let nv = nat_value(*n);
        lemma_div_bounds(nv, 2);
        assert(nv < (nv / 2 + 2) * (nv / 2 + 2)) by (nonlinear_arith)
            requires
                nv < (nv / 2 + 1) * 2,
        ;
    }
    loop
        invariant
            nat_value(one) == 1,
            nat_value(two) == 2,
            1 <= nat_value(low),
            nat_value(low) <= nat_value(high),
            nat_value(low) * nat_value(low) <= nat_value(*n),
            nat_value(*n) < (nat_value(high) + 1) * (nat_value(high) + 1),
        ensures
            nat_value(low) * nat_value(low) <= nat_value(*n),
            nat_value(*n) < (nat_value(low) + 1) * (nat_value(low) + 1),
        decreases nat_value(high) - nat_value(low),
    {
        if !nat_lt(&low, &high) {
            break;
        }
        let mid = nat_add(&nat_div(&nat_add(&low, &high), &two), &one);
        proof {
            let l = nat_value(low);
            let h = nat_value(high);
            lemma_div_bounds(l + h, 2);
            assert(l + 1 <= nat_value(mid));
            assert(nat_value(mid) <= h);
        }
        let mm = nat_mul(&mid, &mid);
        if nat_lt(n, &mm) {
            high = nat_sub(&mid, &one);
        } else {
            low = mid;
        }
    }
    low
}

} // verus!
