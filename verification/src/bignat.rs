use vstd::prelude::*;
use candid::Nat;

verus! {

#[verifier::external_type_specification]
#[verifier::external_body]
pub struct ExNat(Nat);

/// The numeric value of an arbitrary-precision unsigned integer.
pub uninterp spec fn nat_value(n: Nat) -> nat;

/// Relies on candid::Nat::from(u64): wraps the given numeric value unchanged.
#[verifier::external_body]
pub fn nat_from_u64(x: u64) -> (r: Nat)
    ensures
        nat_value(r) == x as nat,
{
    Nat::from(x)
}

/// Relies on candid::Nat::clone: the copy holds the same numeric value.
#[verifier::external_body]
pub fn nat_clone(a: &Nat) -> (r: Nat)
    ensures
        nat_value(r) == nat_value(*a),
{
    a.clone()
}

/// Relies on Add for candid::Nat, which adds the underlying big integers.
#[verifier::external_body]
pub fn nat_add(a: &Nat, b: &Nat) -> (r: Nat)
    ensures
        nat_value(r) == nat_value(*a) + nat_value(*b),
{
    a.clone() + b.clone()
}

/// Relies on Sub for candid::Nat, which subtracts the underlying big
/// integers and panics on underflow; the precondition rules that out.
#[verifier::external_body]
pub fn nat_sub(a: &Nat, b: &Nat) -> (r: Nat)
    requires
        nat_value(*b) <= nat_value(*a),
    ensures
        nat_value(r) == nat_value(*a) - nat_value(*b),
{
    a.clone() - b.clone()
}

/// Relies on Mul for candid::Nat, which multiplies the underlying big
/// integers.
#[verifier::external_body]
pub fn nat_mul(a: &Nat, b: &Nat) -> (r: Nat)
    ensures
        nat_value(r) == nat_value(*a) * nat_value(*b),
{
    a.clone() * b.clone()
}

/// Relies on Div for candid::Nat: floor division of the underlying big
/// integers, which panics on a zero divisor; the precondition rules that out.
#[verifier::external_body]
pub fn nat_div(a: &Nat, b: &Nat) -> (r: Nat)
    requires
        nat_value(*b) > 0,
    ensures
        nat_value(r) == nat_value(*a) / nat_value(*b),
{
    a.clone() / b.clone()
}

/// Relies on the derived PartialOrd for candid::Nat, which orders by the
/// numeric value of the underlying big integers.
#[verifier::external_body]
pub fn nat_lt(a: &Nat, b: &Nat) -> (r: bool)
    ensures
        r == (nat_value(*a) < nat_value(*b)),
{
    a < b
}

/// Relies on the derived PartialEq for candid::Nat: equal exactly when the
/// underlying big integers hold the same numeric value.
#[verifier::external_body]
pub fn nat_eq(a: &Nat, b: &Nat) -> (r: bool)
    ensures
        r == (nat_value(*a) == nat_value(*b)),
{
    a == b
}

} // verus!
