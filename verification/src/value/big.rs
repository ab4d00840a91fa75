//! Trusted boundary to `num`'s arbitrary-precision integers. Each wrapper
//! makes one call into `num`; its contract speaks of `big_int_value`, the
//! integer a `BigInt` stands for.
use vstd::prelude::*;
use num::BigInt;
use num::Integer;
use num::ToPrimitive;
use crate::value::kinds::trunc_div;
use crate::value::kinds::trunc_rem;
use crate::value::numstr::dec_str_int;
use crate::value::numstr::is_dec_int_str;
use crate::value::numstr::parse_int_str;

verus! {

#[verifier::external_type_specification]
#[verifier::external_body]
pub struct ExBigInt(BigInt);

/// The integer a `BigInt` stands for.
pub uninterp spec fn big_int_value(b: BigInt) -> int;

/// Relies on `<BigInt as From<i128>>::from`: exact conversion.
#[verifier::external_body]
pub fn big_from_i128(x: i128) -> (r: BigInt)
    ensures
        big_int_value(r) == x,
{
    BigInt::from(x)
}

/// Relies on `<BigInt as From<u128>>::from`: exact conversion.
#[verifier::external_body]
pub fn big_from_u128(x: u128) -> (r: BigInt)
    ensures
        big_int_value(r) == x,
{
    BigInt::from(x)
}

/// Relies on `<&BigInt as Add>::add`: exact integer addition.
#[verifier::external_body]
pub fn big_add(a: &BigInt, b: &BigInt) -> (r: BigInt)
    ensures
        big_int_value(r) == big_int_value(*a) + big_int_value(*b),
{
    a + b
}

/// Relies on `<&BigInt as Sub>::sub`: exact integer subtraction.
#[verifier::external_body]
pub fn big_sub(a: &BigInt, b: &BigInt) -> (r: BigInt)
    ensures
        big_int_value(r) == big_int_value(*a) - big_int_value(*b),
{
    a - b
}

/// Relies on `<&BigInt as Mul>::mul`: exact integer multiplication.
#[verifier::external_body]
pub fn big_mul(a: &BigInt, b: &BigInt) -> (r: BigInt)
    ensures
        big_int_value(r) == big_int_value(*a) * big_int_value(*b),
{
    a * b
}

/// Relies on `<&BigInt as Div>::div`: quotient truncated toward zero. The
/// division panics on a zero divisor, which `requires` rules out.
#[verifier::external_body]
pub fn big_div(a: &BigInt, b: &BigInt) -> (r: BigInt)
    requires
        big_int_value(*b) != 0,
    ensures
        big_int_value(r) == trunc_div(big_int_value(*a), big_int_value(*b)),
{
    a / b
}

/// Relies on `<&BigInt as Rem>::rem`: remainder with the dividend's sign.
/// Panics on a zero divisor, which `requires` rules out.
#[verifier::external_body]
pub fn big_rem(a: &BigInt, b: &BigInt) -> (r: BigInt)
    requires
        big_int_value(*b) != 0,
    ensures
        big_int_value(r) == trunc_rem(big_int_value(*a), big_int_value(*b)),
{
    a % b
}

/// Relies on `num::Integer::mod_floor` for `BigInt`: with a positive
/// divisor the result is the Euclidean remainder, in `[0, m)`.
#[verifier::external_body]
pub fn big_mod_floor(a: &BigInt, m: &BigInt) -> (r: BigInt)
    requires
        big_int_value(*m) > 0,
    ensures
        big_int_value(r) == big_int_value(*a) % big_int_value(*m),
{
    a.mod_floor(m)
}

/// Relies on `<BigInt as PartialEq>::eq`: `BigInt`s are kept normalised,
/// so representation equality is value equality.
#[verifier::external_body]
pub fn big_eq(a: &BigInt, b: &BigInt) -> (r: bool)
    ensures
        r == (big_int_value(*a) == big_int_value(*b)),
{
    a == b
}

/// Relies on `<BigInt as PartialOrd>::lt`: order matches integer order.
#[verifier::external_body]
pub fn big_lt(a: &BigInt, b: &BigInt) -> (r: bool)
    ensures
        r == (big_int_value(*a) < big_int_value(*b)),
{
    a < b
}

/// Relies on `num::ToPrimitive::to_u128` for `BigInt`: `Some` exactly on
/// values in the 128-bit unsigned range.
#[verifier::external_body]
pub fn big_to_u128(a: &BigInt) -> (r: Option<u128>)
    ensures
        match r {
            Some(x) => x as int == big_int_value(*a),
            None => !(0 <= big_int_value(*a) <= u128::MAX),
        },
{
    a.to_u128()
}

/// Relies on `<BigInt as FromStr>::from_str`: an optional sign followed by
/// decimal digits parses to that integer.
#[verifier::external_body]
pub fn big_parse(s: &str) -> (r: Option<BigInt>)
    ensures
        match r {
            Some(b) => is_dec_int_str(s@) ==> Some(big_int_value(b)) == parse_int_str(s@),
            None => !is_dec_int_str(s@),
        },
{
    s.parse::<BigInt>().ok()
}

/// Relies on `<BigInt as Display>::fmt`: plain decimal digits, with a
/// leading `-` on negative values.
#[verifier::external_body]
pub fn big_to_string(a: &BigInt) -> (r: String)
    ensures
        r@ == dec_str_int(big_int_value(*a)),
{
    a.to_string()
}

/// Relies on `<BigInt as Clone>::clone`: the copy stands for the same
/// integer.
#[verifier::external_body]
pub fn big_dup(a: &BigInt) -> (r: BigInt)
    ensures
        big_int_value(r) == big_int_value(*a),
{
    a.clone()
}

} // verus!
