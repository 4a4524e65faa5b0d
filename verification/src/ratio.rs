//! Greatest common divisors, ratio reduction and round-half-to-even
//! division into the decimal range, over arbitrary-precision naturals.
use crate::bignat::{
    big_add, big_div, big_eq, big_from_u128, big_is_odd, big_lt, big_mul, big_pow10, big_rem,
    big_to_u128, pow10, BigNat,
};
use crate::decimal::{dec_same, normalize_spec, Dec, MAX_MANTISSA, MAX_SCALE};
use vstd::prelude::*;

verus! {

/// Euclid's greatest common divisor (`gcd(a, 0) == a`).
pub open spec fn gcd(a: nat, b: nat) -> nat
    decreases b,
{
    if b == 0 {
        a
    } else {
        gcd(b, a % b)
    }
}

/// Whether `d` divides `n`.
pub open spec fn divides(d: nat, n: nat) -> bool {
    exists|k: nat| #[trigger] (d * k) == n
}

/// `n / d` rounded to the nearest integer, ties to the even neighbour.
pub open spec fn round_half_even(n: nat, d: nat) -> nat {
    let q = n / d;
    let r = n % d;
    if 2 * r > d || (2 * r == d && q % 2 == 1) {
        q + 1
    } else {
        q
    }
}

/// The largest scale `s' <= s` at which `n / d` rounded to `s'` fractional
/// digits fits the 96-bit mantissa.
pub open spec fn fitting_scale(n: nat, d: nat, s: nat) -> Option<nat>
    decreases s,
{
    if round_half_even(n * pow10(s), d) <= MAX_MANTISSA as nat {
        Some(s)
    } else if s == 0 {
        None
    } else {
        fitting_scale(n, d, (s - 1) as nat)
    }
}

/// Why an exact ratio could not be brought into the decimal range.
#[derive(Debug, Clone, Copy, PartialEq, Eq, Structural)]
pub enum AdjustmentError {
    /// The ratio rounds to zero at the finest scale.
    Underflow,
    /// The ratio does not fit the mantissa even at scale 0.
    Overflow,
}

/// The decimal nearest to `n / d` (negated when `negative`) with as many
/// fractional digits as fit, ties to even, in normal form.
pub open spec fn rounded_ratio(n: nat, d: nat, negative: bool) -> Result<(int, nat), AdjustmentError> {
    if n == 0 {
        Ok((0int, 0nat))
    } else {
        match fitting_scale(n, d, MAX_SCALE as nat) {
            None => Err(AdjustmentError::Overflow),
            Some(s) => {
                let q = round_half_even(n * pow10(s), d);
                if q == 0 {
                    Err(AdjustmentError::Underflow)
                } else {
                    Ok(normalize_spec((if negative { -(q as int) } else { q as int }, s)))
                }
            },
        }
    }
}

/// Whether an executable decimal result matches a result over `(mantissa, scale)` pairs.
pub open spec fn result_matches(r: Result<Dec, AdjustmentError>, s: Result<(int, nat), AdjustmentError>) -> bool {
    match r {
        Ok(d) => s == Ok::<(int, nat), AdjustmentError>(d@),
        Err(e) => s == Err::<(int, nat), AdjustmentError>(e),
    }
}

proof fn lemma_gcd_positive(a: nat, b: nat)
    requires
        a > 0 || b > 0,
    ensures
        gcd(a, b) > 0,
    decreases b,
{
    if b > 0 {
        assert(a % b < b);
        lemma_gcd_positive(b, a % b);
    }
}

/// The greatest common divisor divides both arguments.
pub proof fn lemma_gcd_divides(a: nat, b: nat)
    ensures
        divides(gcd(a, b), a),
        divides(gcd(a, b), b),
    decreases b,
{
    if b == 0 {
        assert(a * 1 == a);
        assert(a * 0 == 0);
        assert(divides(a, a));
        assert(divides(a, 0));
    } else {
        let r = a % b;
        let q = a / b;
        lemma_gcd_divides(b, r);
        let g = gcd(b, r);
        let x = choose|k: nat| #[trigger] (g * k) == b;
        let y = choose|k: nat| #[trigger] (g * k) == r;
        assert(a == q * b + r) by (nonlinear_arith)
            requires
                b > 0,
                q == a / b,
                r == a % b,
        ;
        let z = (q * x + y) as nat;
        assert(g * z == a) by (nonlinear_arith)
            requires
                g * x == b,
                g * y == r,
                a == q * b + r,
                z == q * x + y,
        ;
        assert(divides(g, a));
    }
}

/// Every common divisor divides the greatest common divisor.
pub proof fn lemma_gcd_greatest(a: nat, b: nat, d: nat)
    requires
        divides(d, a),
        divides(d, b),
    ensures
        divides(d, gcd(a, b)),
    decreases b,
{
    if b > 0 {
        let r = a % b;
        let q = a / b;
        let x = choose|k: nat| #[trigger] (d * k) == a;
        let y = choose|k: nat| #[trigger] (d * k) == b;
        assert(a == q * b + r) by (nonlinear_arith)
            requires
                b > 0,
                q == a / b,
                r == a % b,
        ;
        assert(d * x - d * (q * y) == r) by (nonlinear_arith)
            requires
                d * x == a,
                d * y == b,
                a == q * b + r,
        ;
        assert(x >= q * y) by (nonlinear_arith)
            requires
                d * x - d * (q * y) == r,
                r >= 0,
                d * x == a,
                d * y == b,
                b > 0,
        {
            if d == 0 {
                assert(b == 0);
            }
        }
        let z = (x - q * y) as nat;
        assert(d * z == r) by (nonlinear_arith)
            requires
                d * x - d * (q * y) == r,
                z == x - q * y,
        ;
        assert(divides(d, r));
        lemma_gcd_greatest(b, r, d);
    }
}

/// Euclid's algorithm: the greatest common divisor of `left` and `right`.
pub fn greatest_common_divisor(left: BigNat, right: BigNat) -> (g: BigNat)
    ensures
        g@ == gcd(left@, right@),
{
    let zero = big_from_u128(0);
    let mut left = left;
    let mut right = right;
    let ghost a = left@;
    let ghost b = right@;
    while !big_eq(&right, &zero)
        invariant
            zero@ == 0,
            gcd(left@, right@) == gcd(a, b),
        decreases right@,
    {
        let remainder = big_rem(&left, &right);
        proof {
            assert(remainder@ < right@);
        }
        left = right;
        right = remainder;
    }
    left
}

/// Divides `numerator` and `denominator` by their greatest common divisor.
pub fn reduce_ratio(numerator: &mut BigNat, denominator: &mut BigNat)
    requires
        old(denominator)@ > 0,
    ensures
        final(numerator)@ == old(numerator)@ / gcd(old(numerator)@, old(denominator)@),
        final(denominator)@ == old(denominator)@ / gcd(old(numerator)@, old(denominator)@),
        final(numerator)@ * gcd(old(numerator)@, old(denominator)@) == old(numerator)@,
        final(denominator)@ * gcd(old(numerator)@, old(denominator)@) == old(denominator)@,
        final(denominator)@ > 0,
{
    let ghost n = numerator@;
    let ghost d = denominator@;
    let divisor = greatest_common_divisor(numerator.duplicate(), denominator.duplicate());
    proof {
        lemma_gcd_positive(n, d);
        lemma_gcd_divides(n, d);
        let g = gcd(n, d);
        let x = choose|k: nat| #[trigger] (g * k) == n;
        let y = choose|k: nat| #[trigger] (g * k) == d;
        lemma_exact_div(n, g, x);
        lemma_exact_div(d, g, y);
        assert(y > 0) by (nonlinear_arith)
            requires
                g * y == d,
                d > 0,
        ;
    }
    *numerator = big_div(numerator, &divisor);
    *denominator = big_div(denominator, &divisor);
}

proof fn lemma_exact_div(n: nat, g: nat, k: nat)
    requires
        g > 0,
        g * k == n,
    ensures
        n / g == k,
        (n / g) * g == n,
{
    assert(n == k * g + 0) by (nonlinear_arith)
        requires
            g * k == n,
    ;
    vstd::arithmetic::div_mod::lemma_fundamental_div_mod_converse(n as int, g as int, k as int, 0);
    assert(k * g == n) by (nonlinear_arith)
        requires
            g * k == n,
    ;
}

/// `n / d` rounds the same way as `n2 / d2` when the two fractions are equal.
pub proof fn lemma_round_half_even_same_ratio(n: nat, d: nat, n2: nat, d2: nat)
    requires
        d > 0,
        d2 > 0,
        n * d2 == n2 * d,
    ensures
        round_half_even(n, d) == round_half_even(n2, d2),
{
    let q = n / d;
    let r = n % d;
    vstd::arithmetic::div_mod::lemma_fundamental_div_mod(n as int, d as int);
    assert(n == d * q + r);
    assert(0 <= r < d);
    let r2: int = n2 - q * d2;
    assert(r * d2 == d * r2) by (nonlinear_arith)
        requires
            n == d * q + r,
            n * d2 == n2 * d,
            r2 == n2 - q * d2,
    ;
    assert(0 <= r2) by (nonlinear_arith)
        requires
            r * d2 == d * r2,
            r >= 0,
            d2 > 0,
            d > 0,
    ;
    assert(r2 < d2) by (nonlinear_arith)
        requires
            r * d2 == d * r2,
            r < d,
            d2 > 0,
            d > 0,
    ;
    assert(n2 == q * d2 + r2);
    vstd::arithmetic::div_mod::lemma_fundamental_div_mod_converse(n2 as int, d2 as int, q as int, r2);
    assert((2 * r > d) == (2 * r2 > d2)) by (nonlinear_arith)
        requires
            r * d2 == d * r2,
            d2 > 0,
            d > 0,
    ;
    assert((2 * r == d) == (2 * r2 == d2)) by (nonlinear_arith)
        requires
            r * d2 == d * r2,
            d2 > 0,
            d > 0,
    ;
}

proof fn lemma_fitting_scale_same_ratio(n: nat, d: nat, n2: nat, d2: nat, s: nat)
    requires
        d > 0,
        d2 > 0,
        n * d2 == n2 * d,
    ensures
        fitting_scale(n, d, s) == fitting_scale(n2, d2, s),
        fitting_scale(n, d, s) matches Some(t) ==> round_half_even(n * pow10(t), d)
            == round_half_even(n2 * pow10(t), d2),
    decreases s,
{
    lemma_scaled_same_ratio(n, d, n2, d2, s);
    if s > 0 {
        lemma_fitting_scale_same_ratio(n, d, n2, d2, (s - 1) as nat);
    }
}

proof fn lemma_scaled_same_ratio(n: nat, d: nat, n2: nat, d2: nat, s: nat)
    requires
        d > 0,
        d2 > 0,
        n * d2 == n2 * d,
    ensures
        round_half_even(n * pow10(s), d) == round_half_even(n2 * pow10(s), d2),
{
    let p = pow10(s);
    assert((n * p) * d2 == (n2 * p) * d) by (nonlinear_arith)
        requires
            n * d2 == n2 * d,
    ;
    lemma_round_half_even_same_ratio(n * p, d, n2 * p, d2);
}

/// Rounding a ratio into the decimal range depends only on the ratio,
/// not on the numerator and denominator that spell it.
pub proof fn lemma_rounded_ratio_same_ratio(n: nat, d: nat, n2: nat, d2: nat, negative: bool)
    requires
        d > 0,
        d2 > 0,
        n * d2 == n2 * d,
    ensures
        rounded_ratio(n, d, negative) == rounded_ratio(n2, d2, negative),
{
    if n == 0 {
        assert(n2 * d == 0);
        assert(n2 == 0) by (nonlinear_arith)
            requires
                n2 * d == 0,
                d > 0,
        ;
    } else {
        assert(n2 != 0) by (nonlinear_arith)
            requires
                n * d2 == n2 * d,
                n != 0,
                d2 > 0,
        ;
        lemma_fitting_scale_same_ratio(n, d, n2, d2, MAX_SCALE as nat);
    }
}

proof fn lemma_exact_round(n: nat, d: nat, q: nat)
    requires
        d > 0,
        n == q * d,
    ensures
        round_half_even(n, d) == q,
{
    vstd::arithmetic::div_mod::lemma_fundamental_div_mod_converse(n as int, d as int, q as int, 0);
}

proof fn lemma_exact_at_finer_scale(n: nat, d: nat, m: nat, s: nat, t: nat)
    requires
        d > 0,
        s <= t,
        n * pow10(s) == m * d,
    ensures
        round_half_even(n * pow10(t), d) == m * pow10((t - s) as nat),
{
    let k = (t - s) as nat;
    crate::decimal::lemma_pow10_add(s, k);
    assert(s + k == t);
    assert(n * pow10(t) == (m * pow10(k)) * d) by (nonlinear_arith)
        requires
            pow10(t) == pow10(s) * pow10(k),
            n * pow10(s) == m * d,
    ;
    lemma_exact_round(n * pow10(t), d, m * pow10(k));
}

proof fn lemma_fitting_scale_reaches_exact(n: nat, d: nat, m: nat, s: nat, t: nat)
    requires
        d > 0,
        s <= t,
        n * pow10(s) == m * d,
        m <= MAX_MANTISSA,
    ensures
        fitting_scale(n, d, t) matches Some(u) && s <= u <= t,
    decreases t - s,
{
    lemma_exact_at_finer_scale(n, d, m, s, t);
    if round_half_even(n * pow10(t), d) <= MAX_MANTISSA as nat {
    } else {
        if t == s {
            assert(pow10(0) == 1);
            assert(m * pow10(0) == m) by (nonlinear_arith)
                requires
                    pow10(0) == 1,
            ;
            assert(false);
        }
        lemma_fitting_scale_reaches_exact(n, d, m, s, (t - 1) as nat);
    }
}

/// A ratio that some decimal in range spells exactly is not rounded: when
/// `n / d == m / 10^s` with `m` a nonzero mantissa in range and `s <= 28`,
/// the result is that decimal (possibly written with another scale).
pub proof fn lemma_exact_ratio_not_rounded(n: nat, d: nat, m: nat, s: nat, negative: bool)
    requires
        d > 0,
        0 < m <= MAX_MANTISSA,
        s <= MAX_SCALE,
        n * pow10(s) == m * d,
    ensures
        rounded_ratio(n, d, negative) matches Ok(v) && dec_same(
            v,
            (if negative { -(m as int) } else { m as int }, s),
        ),
{
    assert(n > 0) by (nonlinear_arith)
        requires
            n * pow10(s) == m * d,
            m > 0,
            d > 0,
    ;
    lemma_fitting_scale_reaches_exact(n, d, m, s, MAX_SCALE as nat);
    let u = fitting_scale(n, d, MAX_SCALE as nat)->0;
    lemma_exact_at_finer_scale(n, d, m, s, u);
    let k = (u - s) as nat;
    let q = m * pow10(k);
    crate::decimal::lemma_pow10_positive(k);
    assert(q > 0) by (nonlinear_arith)
        requires
            q == m * pow10(k),
            m > 0,
            pow10(k) > 0,
    ;
    let sq: int = if negative { -(q as int) } else { q as int };
    let sm: int = if negative { -(m as int) } else { m as int };
    crate::decimal::lemma_pow10_add(s, k);
    assert(s + k == u);
    assert(sq * pow10(s) == sm * pow10(u)) by (nonlinear_arith)
        requires
            q == m * pow10(k),
            pow10(u) == pow10(s) * pow10(k),
            sq == (if negative { -(q as int) } else { q as int }),
            sm == (if negative { -(m as int) } else { m as int }),
    ;
    crate::decimal::lemma_normalize_same((sq, u));
    crate::decimal::lemma_dec_same_transitive(normalize_spec((sq, u)), (sq, u), (sm, s));
}

/// Rounding is symmetric in the sign: the negative result is the negation
/// of the positive one, and errors do not depend on the sign.
pub proof fn lemma_rounded_ratio_sign_symmetric(n: nat, d: nat)
    ensures
        match (rounded_ratio(n, d, false), rounded_ratio(n, d, true)) {
            (Ok(p), Ok(q)) => q == (-p.0, p.1),
            (Err(e), Err(f)) => e == f,
            _ => false,
        },
{
    if n != 0 {
        if let Some(s) = fitting_scale(n, d, MAX_SCALE as nat) {
            let q = round_half_even(n * pow10(s), d);
            if q != 0 {
                crate::decimal::lemma_normalize_negate((q as int, s));
            }
        }
    }
}

/// `numerator / denominator`, negated when `negative`, rounded half to even
/// at the finest scale (28 down to 0) whose mantissa fits 96 bits, in normal form.
pub fn rounded_decimal_ratio(numerator: &BigNat, denominator: &BigNat, negative: bool) -> (r: Result<
    Dec,
    AdjustmentError,
>)
    requires
        denominator@ > 0,
    ensures
        result_matches(r, rounded_ratio(numerator@, denominator@, negative)),
{
    let zero = big_from_u128(0);
    if big_eq(numerator, &zero) {
        return Ok(Dec::zero());
    }
    let maximum = big_from_u128(MAX_MANTISSA);
    let one = big_from_u128(1);
    let two = big_from_u128(2);
    let mut scale: u32 = MAX_SCALE;
    loop
        invariant
            numerator@ > 0,
            denominator@ > 0,
            zero@ == 0,
            one@ == 1,
            two@ == 2,
            maximum@ == MAX_MANTISSA,
            scale <= MAX_SCALE,
            fitting_scale(numerator@, denominator@, MAX_SCALE as nat) == fitting_scale(
                numerator@,
                denominator@,
                scale as nat,
            ),
        decreases scale,
    {
        let power = big_pow10(scale);
        let scaled = big_mul(numerator, &power);
        let quotient = big_div(&scaled, denominator);
        let remainder = big_rem(&scaled, denominator);
        let twice_remainder = big_mul(&remainder, &two);
        let odd = big_is_odd(&quotient);
        let mut rounded = quotient.duplicate();
        if big_lt(denominator, &twice_remainder) || (big_eq(&twice_remainder, denominator) && odd) {
            rounded = big_add(&quotient, &one);
        }
        proof {
            assert(rounded@ == round_half_even(numerator@ * pow10(scale as nat), denominator@));
        }
        if !big_lt(&maximum, &rounded) {
            if big_eq(&rounded, &zero) {
                return Err(AdjustmentError::Underflow);
            }
            match big_to_u128(&rounded) {
                None => {
                    return Err(AdjustmentError::Overflow);
                },
                Some(magnitude) => {
                    let value = Dec::from_parts(negative, magnitude, scale);
                    return Ok(value.normalize());
                },
            }
        }
        if scale == 0 {
            return Err(AdjustmentError::Overflow);
        }
        scale = scale - 1;
    }
}

/// Rounding half to even lands within half a unit: the rounded quotient
/// times `d` is at most `d / 2` away from `n`.
pub proof fn lemma_round_half_even_nearest(n: nat, d: nat)
    requires
        d > 0,
    ensures
        2 * (round_half_even(n, d) * d - n) <= d,
        2 * (n - round_half_even(n, d) * d) <= d,
{
    let q = n / d;
    let r = n % d;
    vstd::arithmetic::div_mod::lemma_fundamental_div_mod(n as int, d as int);
    assert(n == d * q + r);
    assert((q + 1) * d == q * d + d) by (nonlinear_arith);
    assert(q * d == d * q) by (nonlinear_arith);
}

} // verus!
