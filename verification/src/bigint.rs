//! Trusted layer over `num_bigint::BigInt`.
//!
//! `BigInt` is opaque to the verifier; `int_of` names the mathematical
//! integer a `BigInt` holds, and each wrapper below states what one
//! arithmetic operation of the crate does to that value.

use vstd::prelude::*;

verus! {

#[verifier::external_type_specification]
#[verifier::external_body]
pub struct ExBigInt(num_bigint::BigInt);

/// The mathematical integer that a `BigInt` holds.
pub uninterp spec fn int_of(b: num_bigint::BigInt) -> int;

/// Relies on `BigInt: From<u32>`: the result holds exactly the given value.
#[verifier::external_body]
pub fn big_from_u32(v: u32) -> (r: num_bigint::BigInt)
    ensures
        int_of(r) == v as int,
{
    num_bigint::BigInt::from(v)
}

/// Relies on `BigInt: From<i32>`: the result holds exactly the given value.
#[verifier::external_body]
pub fn big_from_i32(v: i32) -> (r: num_bigint::BigInt)
    ensures
        int_of(r) == v as int,
{
    num_bigint::BigInt::from(v)
}

/// Relies on `Add for &BigInt`: exact addition, no overflow.
#[verifier::external_body]
pub fn big_add(a: &num_bigint::BigInt, b: &num_bigint::BigInt) -> (r: num_bigint::BigInt)
    ensures
        int_of(r) == int_of(*a) + int_of(*b),
{
    a + b
}

/// Relies on `Mul for &BigInt`: exact multiplication, no overflow.
#[verifier::external_body]
pub fn big_mul(a: &num_bigint::BigInt, b: &num_bigint::BigInt) -> (r: num_bigint::BigInt)
    ensures
        int_of(r) == int_of(*a) * int_of(*b),
{
    a * b
}

/// Relies on `Div for &BigInt`: the quotient, with the remainder discarded.
/// num_bigint truncates the quotient toward zero; on a non-negative dividend
/// and a positive divisor that is the same as the flooring division used in
/// specifications, so the inputs are restricted to that range (which also
/// rules out the division-by-zero panic).
#[verifier::external_body]
pub fn big_div(a: &num_bigint::BigInt, b: &num_bigint::BigInt) -> (r: num_bigint::BigInt)
    requires
        int_of(*a) >= 0,
        int_of(*b) >= 1,
    ensures
        int_of(r) == int_of(*a) / int_of(*b),
{
    a / b
}

/// Relies on `PartialEq for BigInt`: representations are canonical, so two
/// values compare equal exactly when they hold the same integer.
#[verifier::external_body]
pub fn big_eq(a: &num_bigint::BigInt, b: &num_bigint::BigInt) -> (r: bool)
    ensures
        r == (int_of(*a) == int_of(*b)),
{
    a == b
}

/// Relies on `Clone for BigInt`: the copy holds the same integer.
#[verifier::external_body]
pub fn big_clone(a: &num_bigint::BigInt) -> (r: num_bigint::BigInt)
    ensures
        int_of(r) == int_of(*a),
{
    a.clone()
}

} // verus!
