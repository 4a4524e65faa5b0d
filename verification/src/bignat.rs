//! Arbitrary-precision natural numbers for exact ratio arithmetic.
//!
//! A `BigNat` holds its value as little-endian base-2^32 digits. All
//! arithmetic is carried out by `num_bigint::BigUint`; the functions here
//! only move digits in and out of it.
use num_bigint::BigUint;
use vstd::prelude::*;

verus! {

/// The value of a little-endian sequence of base-2^32 digits.
pub open spec fn digits_value(d: Seq<u32>) -> nat
    decreases d.len(),
{
    if d.len() == 0 {
        0
    } else {
        d[0] as nat + 4294967296 * digits_value(d.drop_first())
    }
}

/// `10^e`.
pub open spec fn pow10(e: nat) -> nat
    decreases e,
{
    if e == 0 {
        1
    } else {
        10 * pow10((e - 1) as nat)
    }
}

/// A natural number of any size.
#[derive(Debug, PartialEq, Eq)]
pub struct BigNat {
    digits: Vec<u32>,
}

impl View for BigNat {
    type V = nat;

    closed spec fn view(&self) -> nat {
        digits_value(self.digits@)
    }
}

impl BigNat {
    /// The number `x`.
    pub fn from_u128(x: u128) -> (r: BigNat)
        ensures
            r@ == x as nat,
    {
        big_from_u128(x)
    }

    /// A copy of this number.
    pub fn duplicate(&self) -> (r: BigNat)
        ensures
            r@ == self@,
    {
        BigNat { digits: self.digits.clone() }
    }
}

/// The number `x` (`BigUint::from(u128)`).
#[verifier::external_body]
pub(crate) fn big_from_u128(x: u128) -> (r: BigNat)
    ensures
        r@ == x as nat,
{
    BigNat { digits: BigUint::from(x).to_u32_digits() }
}

/// `10^exponent` (`BigUint::pow`).
#[verifier::external_body]
pub(crate) fn big_pow10(exponent: u32) -> (r: BigNat)
    ensures
        r@ == pow10(exponent as nat),
{
    BigNat { digits: BigUint::from(10_u8).pow(exponent).to_u32_digits() }
}

/// The product `a * b` (`<BigUint as Mul>::mul`).
#[verifier::external_body]
pub(crate) fn big_mul(a: &BigNat, b: &BigNat) -> (r: BigNat)
    ensures
        r@ == a@ * b@,
{
    BigNat { digits: (BigUint::from_slice(&a.digits) * BigUint::from_slice(&b.digits)).to_u32_digits() }
}

/// The sum `a + b` (`<BigUint as Add>::add`).
#[verifier::external_body]
pub(crate) fn big_add(a: &BigNat, b: &BigNat) -> (r: BigNat)
    ensures
        r@ == a@ + b@,
{
    BigNat { digits: (BigUint::from_slice(&a.digits) + BigUint::from_slice(&b.digits)).to_u32_digits() }
}

/// The truncated quotient `a / b` (`<BigUint as Div>::div`, which panics on a zero divisor).
#[verifier::external_body]
pub(crate) fn big_div(a: &BigNat, b: &BigNat) -> (r: BigNat)
    requires
        b@ > 0,
    ensures
        r@ == a@ / b@,
{
    BigNat { digits: (BigUint::from_slice(&a.digits) / BigUint::from_slice(&b.digits)).to_u32_digits() }
}

/// The remainder `a % b` (`<BigUint as Rem>::rem`, which panics on a zero divisor).
#[verifier::external_body]
pub(crate) fn big_rem(a: &BigNat, b: &BigNat) -> (r: BigNat)
    requires
        b@ > 0,
    ensures
        r@ == a@ % b@,
{
    BigNat { digits: (BigUint::from_slice(&a.digits) % BigUint::from_slice(&b.digits)).to_u32_digits() }
}

/// Whether `a == b` (`<BigUint as PartialEq>::eq`).
#[verifier::external_body]
pub(crate) fn big_eq(a: &BigNat, b: &BigNat) -> (r: bool)
    ensures
        r == (a@ == b@),
{
    BigUint::from_slice(&a.digits) == BigUint::from_slice(&b.digits)
}

/// Whether `a < b` (`<BigUint as PartialOrd>::lt`).
#[verifier::external_body]
pub(crate) fn big_lt(a: &BigNat, b: &BigNat) -> (r: bool)
    ensures
        r == (a@ < b@),
{
    BigUint::from_slice(&a.digits) < BigUint::from_slice(&b.digits)
}

/// Whether bit 0 of `a` is set (`BigUint::bit(0)`), that is whether `a` is odd.
#[verifier::external_body]
pub(crate) fn big_is_odd(a: &BigNat) -> (r: bool)
    ensures
        r == (a@ % 2 == 1),
{
    BigUint::from_slice(&a.digits).bit(0)
}

/// `a` as a `u128` when it fits (`<u128 as TryFrom<&BigUint>>::try_from`).
#[verifier::external_body]
pub(crate) fn big_to_u128(a: &BigNat) -> (r: Option<u128>)
    ensures
        r matches Some(v) ==> v as nat == a@,
        r is None <==> a@ > u128::MAX,
{
    u128::try_from(&BigUint::from_slice(&a.digits)).ok()
}

} // verus!
