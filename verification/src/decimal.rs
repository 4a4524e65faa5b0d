//! Fixed-point decimal numbers: a 96-bit mantissa with a power-of-ten scale
//! between 0 and 28, the value range of the provider's decimal prices.
use crate::bignat::pow10;
use crate::ratio::round_half_even;
use vstd::prelude::*;

verus! {

/// The largest mantissa magnitude, `2^96 - 1`.
pub const MAX_MANTISSA: u128 = 79228162514264337593543950335u128;

/// The largest scale (number of fractional decimal digits).
pub const MAX_SCALE: u32 = 28u32;

/// Whether `(mantissa, scale)` lies within the representable range.
pub open spec fn dec_in_range(v: (int, nat)) -> bool {
    &&& -(MAX_MANTISSA as int) <= v.0 <= MAX_MANTISSA as int
    &&& v.1 <= MAX_SCALE as nat
}

/// Whether two `(mantissa, scale)` pairs denote the same number:
/// `a.0 / 10^a.1 == b.0 / 10^b.1`.
pub open spec fn dec_same(a: (int, nat), b: (int, nat)) -> bool {
    a.0 * pow10(b.1) == b.0 * pow10(a.1)
}

/// The representation without trailing zeros in the mantissa; zero becomes `(0, 0)`.
pub open spec fn normalize_spec(v: (int, nat)) -> (int, nat)
    decreases v.1,
{
    if v.0 == 0 {
        (0, 0)
    } else if v.1 > 0 && v.0 % 10 == 0 {
        normalize_spec((v.0 / 10, (v.1 - 1) as nat))
    } else {
        v
    }
}

/// Whether a representation has no trailing zeros (and zero has scale 0).
pub open spec fn is_normalized(v: (int, nat)) -> bool {
    &&& v.0 == 0 ==> v.1 == 0
    &&& (v.0 != 0 && v.1 > 0) ==> v.0 % 10 != 0
}

/// A decimal number `mantissa / 10^scale`.
#[derive(Clone, Copy, Debug)]
pub struct Dec {
    negative: bool,
    magnitude: u128,
    scale: u32,
}

impl View for Dec {
    type V = (int, nat);

    closed spec fn view(&self) -> (int, nat) {
        (if self.negative { -(self.magnitude as int) } else { self.magnitude as int }, self.scale as nat)
    }
}

impl Dec {
    #[verifier::type_invariant]
    closed spec fn inv(self) -> bool {
        &&& self.magnitude <= MAX_MANTISSA
        &&& self.scale <= MAX_SCALE
        &&& self.negative ==> self.magnitude > 0
    }

    /// The number `mantissa / 10^scale`, or `None` when the mantissa exceeds
    /// `2^96 - 1` in magnitude or the scale exceeds 28.
    pub fn try_from_i128_with_scale(mantissa: i128, scale: u32) -> (r: Option<Dec>)
        ensures
            r is Some <==> dec_in_range((mantissa as int, scale as nat)),
            r matches Some(d) ==> d@ == (mantissa as int, scale as nat),
    {
        if scale > MAX_SCALE {
            return None;
        }
        if mantissa < 0 {
            if mantissa < -(MAX_MANTISSA as i128) {
                return None;
            }
            Some(Dec { negative: true, magnitude: (-mantissa) as u128, scale })
        } else {
            if mantissa > MAX_MANTISSA as i128 {
                return None;
            }
            Some(Dec { negative: false, magnitude: mantissa as u128, scale })
        }
    }

    /// The number `magnitude / 10^scale`, negated when `negative` holds.
    pub(crate) fn from_parts(negative: bool, magnitude: u128, scale: u32) -> (r: Dec)
        requires
            magnitude <= MAX_MANTISSA,
            scale <= MAX_SCALE,
        ensures
            r@ == (if negative { -(magnitude as int) } else { magnitude as int }, scale as nat),
    {
        Dec { negative: negative && magnitude > 0, magnitude, scale }
    }

    /// Zero.
    pub fn zero() -> (r: Dec)
        ensures
            r@ == (0int, 0nat),
    {
        Dec { negative: false, magnitude: 0, scale: 0 }
    }

    /// The number `n` (scale 0).
    pub fn from_u32(n: u32) -> (r: Dec)
        ensures
            r@ == (n as int, 0nat),
    {
        Dec { negative: false, magnitude: n as u128, scale: 0 }
    }

    /// The signed mantissa.
    pub fn mantissa(&self) -> (m: i128)
        ensures
            m as int == self@.0,
            dec_in_range(self@),
    {
        proof {
            use_type_invariant(self);
        }
        if self.negative {
            -(self.magnitude as i128)
        } else {
            self.magnitude as i128
        }
    }

    /// The absolute value of the mantissa.
    pub fn magnitude(&self) -> (m: u128)
        ensures
            m as int == (if self@.0 < 0 { -self@.0 } else { self@.0 }),
            m <= MAX_MANTISSA,
            dec_in_range(self@),
    {
        proof {
            use_type_invariant(self);
        }
        self.magnitude
    }

    /// The number of fractional decimal digits.
    pub fn scale(&self) -> (s: u32)
        ensures
            s as nat == self@.1,
            s <= MAX_SCALE,
    {
        proof {
            use_type_invariant(self);
        }
        self.scale
    }

    /// Whether the number is zero.
    pub fn is_zero(&self) -> (b: bool)
        ensures
            b == (self@.0 == 0),
    {
        self.magnitude == 0
    }

    /// Whether the number is below zero.
    pub fn is_sign_negative(&self) -> (b: bool)
        ensures
            b == (self@.0 < 0),
    {
        proof {
            use_type_invariant(self);
        }
        self.negative
    }

    /// The same number without trailing zeros in its mantissa.
    pub fn normalize(&self) -> (r: Dec)
        ensures
            r@ == normalize_spec(self@),
    {
        proof {
            use_type_invariant(self);
        }
        if self.magnitude == 0 {
            return Dec { negative: false, magnitude: 0, scale: 0 };
        }
        let mut magnitude = self.magnitude;
        let mut scale = self.scale;
        while scale > 0 && magnitude % 10 == 0
            invariant
                0 < magnitude <= MAX_MANTISSA,
                scale <= MAX_SCALE,
                normalize_spec(self@) == normalize_spec(
                    (if self.negative { -(magnitude as int) } else { magnitude as int }, scale as nat),
                ),
            decreases scale,
        {
            proof {
                let m = if self.negative { -(magnitude as int) } else { magnitude as int };
                if self.negative {
                    assert(m % 10 == 0) by (nonlinear_arith)
                        requires
                            m == -(magnitude as int),
                            magnitude % 10 == 0,
                    ;
                    assert(m / 10 == -((magnitude / 10) as int)) by (nonlinear_arith)
                        requires
                            m == -(magnitude as int),
                            magnitude % 10 == 0,
                    ;
                }
            }
            magnitude = magnitude / 10;
            scale = scale - 1;
        }
        Dec { negative: self.negative, magnitude, scale }
    }

    /// Whether `self` and `other` denote the same number, whatever their scales
    /// (`1.0` and `1.00` are the same number).
    pub fn same_value(&self, other: &Dec) -> (b: bool)
        ensures
            b == dec_same(self@, other@),
    {
        let a = self.normalize();
        let b = other.normalize();
        proof {
            use_type_invariant(&a);
            use_type_invariant(&b);
            lemma_normalize_same(self@);
            lemma_normalize_same(other@);
            lemma_normalize_is_normalized(self@);
            lemma_normalize_is_normalized(other@);
            if dec_same(self@, other@) {
                lemma_dec_same_transitive(a@, self@, other@);
                lemma_dec_same_transitive(a@, other@, b@);
                lemma_normalized_unique(a@, b@);
            }
            if a@ == b@ {
                lemma_dec_same_transitive(self@, a@, other@);
            }
        }
        a.negative == b.negative && a.magnitude == b.magnitude && a.scale == b.scale
    }
}

impl PartialEq for Dec {
    /// Numeric equality: `1.0 == 1.00`.
    fn eq(&self, other: &Dec) -> (r: bool) {
        self.same_value(other)
    }
}

impl vstd::std_specs::cmp::PartialEqSpecImpl for Dec {
    open spec fn obeys_eq_spec() -> bool {
        true
    }

    open spec fn eq_spec(&self, other: &Dec) -> bool {
        dec_same(self@, other@)
    }
}

/// `v` rounded to `dp` fractional digits, ties to the even neighbour
/// (`Decimal::round_dp`): unchanged when it has at most `dp` of them.
pub open spec fn round_dp_spec(v: (int, nat), dp: nat) -> (int, nat) {
    if v.1 <= dp {
        v
    } else {
        let a: nat = if v.0 < 0 {
            (-v.0) as nat
        } else {
            v.0 as nat
        };
        let m = round_half_even(a, pow10((v.1 - dp) as nat));
        (if v.0 < 0 {
            -(m as int)
        } else {
            m as int
        }, dp)
    }
}

/// `10^28`, the largest power of ten a scale can denote.
proof fn lemma_pow10_28()
    ensures
        pow10(28) == 10000000000000000000000000000nat,
{
    assert(pow10(0) == 1nat);
    assert(pow10(1) == 10nat);
    assert(pow10(2) == 100nat);
    assert(pow10(3) == 1000nat);
    assert(pow10(4) == 10000nat);
    assert(pow10(5) == 100000nat);
    assert(pow10(6) == 1000000nat);
    assert(pow10(7) == 10000000nat);
    assert(pow10(8) == 100000000nat);
    assert(pow10(9) == 1000000000nat);
    assert(pow10(10) == 10000000000nat);
    assert(pow10(11) == 100000000000nat);
    assert(pow10(12) == 1000000000000nat);
    assert(pow10(13) == 10000000000000nat);
    assert(pow10(14) == 100000000000000nat);
    assert(pow10(15) == 1000000000000000nat);
    assert(pow10(16) == 10000000000000000nat);
    assert(pow10(17) == 100000000000000000nat);
    assert(pow10(18) == 1000000000000000000nat);
    assert(pow10(19) == 10000000000000000000nat);
    assert(pow10(20) == 100000000000000000000nat);
    assert(pow10(21) == 1000000000000000000000nat);
    assert(pow10(22) == 10000000000000000000000nat);
    assert(pow10(23) == 100000000000000000000000nat);
    assert(pow10(24) == 1000000000000000000000000nat);
    assert(pow10(25) == 10000000000000000000000000nat);
    assert(pow10(26) == 100000000000000000000000000nat);
    assert(pow10(27) == 1000000000000000000000000000nat);
    assert(pow10(28) == 10000000000000000000000000000nat);
}

proof fn lemma_pow10_le_28(k: nat)
    requires
        k <= 28,
    ensures
        pow10(k) <= 10000000000000000000000000000,
{
    lemma_pow10_add(k, (28 - k) as nat);
    lemma_pow10_positive((28 - k) as nat);
    lemma_pow10_28();
    let x = pow10(k);
    let y = pow10((28 - k) as nat);
    assert(x <= x * y) by (nonlinear_arith)
        requires
            y >= 1,
    ;
}

/// `10^e` for `e <= 28`.
pub fn pow10_u128(e: u32) -> (p: u128)
    requires
        e <= 28,
    ensures
        p == pow10(e as nat),
{
    let mut p: u128 = 1;
    let mut k: u32 = 0;
    while k < e
        invariant
            k <= e <= 28,
            p == pow10(k as nat),
        decreases e - k,
    {
        proof {
            lemma_pow10_le_28((k + 1) as nat);
        }
        p = p * 10;
        k = k + 1;
    }
    p
}

impl Dec {
    /// The number rounded to `dp` fractional digits, ties to even
    /// ([`round_dp_spec`]).
    pub fn round_dp(&self, dp: u32) -> (r: Dec)
        ensures
            r@ == round_dp_spec(self@, dp as nat),
    {
        proof {
            use_type_invariant(self);
        }
        if self.scale <= dp {
            return *self;
        }
        let e = self.scale - dp;
        let p = pow10_u128(e);
        proof {
            lemma_pow10_positive(e as nat);
            lemma_pow10_le_28(e as nat);
            assert(pow10(e as nat) >= 10) by {
                assert(pow10(e as nat) == 10 * pow10((e - 1) as nat));
                lemma_pow10_positive((e - 1) as nat);
            }
        }
        let q = self.magnitude / p;
        let rem = self.magnitude % p;
        proof {
            assert(q <= self.magnitude / 10) by (nonlinear_arith)
                requires
                    p >= 10,
                    q == self.magnitude / p,
            ;
        }
        let m = if 2 * rem > p || (2 * rem == p && q % 2 == 1) {
            q + 1
        } else {
            q
        };
        Dec::from_parts(self.negative, m, dp)
    }
}

pub proof fn lemma_pow10_positive(e: nat)
    ensures
        pow10(e) > 0,
    decreases e,
{
    if e > 0 {
        lemma_pow10_positive((e - 1) as nat);
    }
}

pub proof fn lemma_pow10_add(a: nat, b: nat)
    ensures
        pow10(a + b) == pow10(a) * pow10(b),
    decreases b,
{
    if b > 0 {
        let b1 = (b - 1) as nat;
        lemma_pow10_add(a, b1);
        let s = a + b;
        assert(s > 0);
        assert(pow10(s) == 10 * pow10((s - 1) as nat));
        assert((s - 1) as nat == a + b1);
        assert(pow10(b) == 10 * pow10(b1));
        let x = pow10(a);
        let y = pow10(b1);
        assert(x * (10 * y) == 10 * (x * y)) by (nonlinear_arith);
    } else {
        assert(a + b == a);
        assert(pow10(b) == 1);
        let x = pow10(a);
        assert(x * 1 == x) by (nonlinear_arith);
    }
}

/// `dec_same` is symmetric.
pub proof fn lemma_dec_same_symmetric(a: (int, nat), b: (int, nat))
    ensures
        dec_same(a, b) == dec_same(b, a),
{
}

/// `dec_same` is transitive.
pub proof fn lemma_dec_same_transitive(a: (int, nat), b: (int, nat), c: (int, nat))
    requires
        dec_same(a, b) || dec_same(b, a),
        dec_same(b, c) || dec_same(c, b),
    ensures
        dec_same(a, c),
{
    lemma_pow10_positive(a.1);
    lemma_pow10_positive(b.1);
    lemma_pow10_positive(c.1);
    let pa = pow10(a.1);
    let pb = pow10(b.1);
    let pc = pow10(c.1);
    assert(a.0 * pc == c.0 * pa) by (nonlinear_arith)
        requires
            a.0 * pb == b.0 * pa,
            b.0 * pc == c.0 * pb,
            pb > 0,
    {
        assert(a.0 * pc * pb == a.0 * pb * pc);
        assert(a.0 * pb * pc == b.0 * pa * pc);
        assert(b.0 * pa * pc == b.0 * pc * pa);
        assert(b.0 * pc * pa == c.0 * pb * pa);
        assert(c.0 * pb * pa == c.0 * pa * pb);
    }
}

/// Normalizing keeps the number.
pub proof fn lemma_normalize_same(v: (int, nat))
    ensures
        dec_same(v, normalize_spec(v)),
    decreases v.1,
{
    lemma_pow10_positive(v.1);
    if v.0 == 0 {
        assert(normalize_spec(v) == (0int, 0nat));
        assert(pow10(0) == 1);
        assert(v.0 * pow10(0) == 0 * pow10(v.1)) by (nonlinear_arith)
            requires
                v.0 == 0,
        ;
    } else if v.1 > 0 && v.0 % 10 == 0 {
        let w = (v.0 / 10, (v.1 - 1) as nat);
        assert(normalize_spec(v) == normalize_spec(w));
        lemma_normalize_same(w);
        assert(v.0 == 10 * w.0) by (nonlinear_arith)
            requires
                v.0 % 10 == 0,
                w.0 == v.0 / 10,
        ;
        assert(pow10(v.1) == 10 * pow10(w.1));
        assert(v.0 * pow10(w.1) == w.0 * pow10(v.1)) by (nonlinear_arith)
            requires
                pow10(v.1) == 10 * pow10(w.1),
                v.0 == 10 * w.0,
        ;
        assert(dec_same(v, w));
        lemma_dec_same_transitive(v, w, normalize_spec(w));
    } else {
        assert(normalize_spec(v) == v);
    }
}

/// Normalizing commutes with negation.
pub proof fn lemma_normalize_negate(v: (int, nat))
    ensures
        normalize_spec((-v.0, v.1)) == ((-normalize_spec(v).0) as int, normalize_spec(v).1),
    decreases v.1,
{
    if v.0 == 0 {
    } else if v.1 > 0 && v.0 % 10 == 0 {
        assert((-v.0) % 10 == 0) by (nonlinear_arith)
            requires
                v.0 % 10 == 0,
        ;
        assert((-v.0) / 10 == -(v.0 / 10)) by (nonlinear_arith)
            requires
                v.0 % 10 == 0,
        ;
        lemma_normalize_negate((v.0 / 10, (v.1 - 1) as nat));
    } else {
        if v.1 > 0 {
            assert((-v.0) % 10 != 0) by (nonlinear_arith)
                requires
                    v.0 % 10 != 0,
            ;
        }
    }
}

/// The normal form has no trailing zeros.
pub proof fn lemma_normalize_is_normalized(v: (int, nat))
    ensures
        is_normalized(normalize_spec(v)),
    decreases v.1,
{
    if v.0 == 0 {
    } else if v.1 > 0 && v.0 % 10 == 0 {
        let w = (v.0 / 10, (v.1 - 1) as nat);
        assert(w.0 != 0) by {
            assert(v.0 == 10 * w.0);
        }
        lemma_normalize_is_normalized(w);
    } else {
    }
}

/// Two normal forms of the same number are identical.
pub proof fn lemma_normalized_unique(a: (int, nat), b: (int, nat))
    requires
        is_normalized(a),
        is_normalized(b),
        dec_same(a, b),
    ensures
        a == b,
{
    if a.1 <= b.1 {
        lemma_normalized_unique_ordered(a, b);
    } else {
        lemma_normalized_unique_ordered(b, a);
    }
}

proof fn lemma_normalized_unique_ordered(a: (int, nat), b: (int, nat))
    requires
        is_normalized(a),
        is_normalized(b),
        dec_same(a, b) || dec_same(b, a),
        a.1 <= b.1,
    ensures
        a == b,
{
    let k = (b.1 - a.1) as nat;
    lemma_pow10_add(a.1, k);
    assert(a.1 + k == b.1);
    lemma_pow10_positive(a.1);
    lemma_pow10_positive(k);
    let pa = pow10(a.1);
    let pk = pow10(k);
    assert(pow10(b.1) == pa * pk);
    assert(a.0 * (pa * pk) == b.0 * pa);
    assert(b.0 == a.0 * pk) by (nonlinear_arith)
        requires
            a.0 * (pa * pk) == b.0 * pa,
            pa > 0,
    {
        assert(a.0 * (pa * pk) == (a.0 * pk) * pa);
        assert((a.0 * pk - b.0) * pa == 0);
    }
    if k > 0 {
        let pk1 = pow10((k - 1) as nat);
        assert(pk == 10 * pk1);
        assert(b.0 == 10 * (a.0 * pk1)) by (nonlinear_arith)
            requires
                b.0 == a.0 * pk,
                pk == 10 * pk1,
        ;
        assert(b.0 % 10 == 0) by (nonlinear_arith)
            requires
                b.0 == 10 * (a.0 * pk1),
        ;
        assert(b.1 > 0);
        if b.0 != 0 {
            assert(false);
        } else {
            assert(false);
        }
    } else {
        assert(pk == 1);
        assert(b.0 == a.0) by (nonlinear_arith)
            requires
                b.0 == a.0 * pk,
                pk == 1,
        ;
        assert(b.1 == a.1);
    }
}

/// Rounding to `dp` fractional digits leaves a number with at most `dp` of
/// them as it is; any other number it moves by at most half a unit of the
/// last digit kept, to a number with exactly `dp` of them. Rounding twice
/// changes nothing more.
pub proof fn lemma_round_dp_nearest(v: (int, nat), dp: nat)
    ensures
        v.1 <= dp ==> round_dp_spec(v, dp) == v,
        v.1 > dp ==> ({
            let r = round_dp_spec(v, dp);
            let p = pow10((v.1 - dp) as nat);
            &&& r.1 == dp
            &&& 2 * (r.0 * p - v.0) <= p
            &&& 2 * (v.0 - r.0 * p) <= p
        }),
        round_dp_spec(round_dp_spec(v, dp), dp) == round_dp_spec(v, dp),
{
    if v.1 > dp {
        let p = pow10((v.1 - dp) as nat);
        lemma_pow10_positive((v.1 - dp) as nat);
        let a: nat = if v.0 < 0 {
            (-v.0) as nat
        } else {
            v.0 as nat
        };
        crate::ratio::lemma_round_half_even_nearest(a, p);
        let m = round_half_even(a, p);
        if v.0 < 0 {
            assert((-(m as int)) * p == -(m * p)) by (nonlinear_arith);
        }
    }
}

} // verus!
