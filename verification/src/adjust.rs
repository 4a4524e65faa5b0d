//! Exact price adjustment factors for splits and provider-adjusted closes.
//!
//! A factor is an exact ratio of naturals. Applying it to a decimal price is
//! exact arithmetic followed by a single round-half-to-even step into the
//! decimal range.
use crate::bignat::{big_from_u128, big_mul, big_pow10, pow10, BigNat};
use crate::decimal::{dec_same, Dec, MAX_MANTISSA, MAX_SCALE};
use crate::ratio::{
    gcd, lemma_rounded_ratio_same_ratio, reduce_ratio, rounded_decimal_ratio, rounded_ratio,
    result_matches, AdjustmentError,
};
use vstd::prelude::*;

verus! {

impl AdjustmentError {
    /// The diagnostic label under which a failed adjustment is reported.
    pub fn diagnostic_target(self) -> (r: &'static str)
        ensures
            r@ == (match self {
                AdjustmentError::Underflow => "adjusted candle prices (Decimal underflow)"@,
                AdjustmentError::Overflow => "adjusted candle prices (Decimal overflow)"@,
            }),
    {
        match self {
            AdjustmentError::Underflow => "adjusted candle prices (Decimal underflow)",
            AdjustmentError::Overflow => "adjusted candle prices (Decimal overflow)",
        }
    }
}

/// A stock split `numerator : denominator` (new shares per old shares),
/// both components nonzero.
#[derive(Debug, Clone, Copy, PartialEq, Eq)]
pub struct SplitRatio {
    numerator: u32,
    denominator: u32,
}

impl View for SplitRatio {
    type V = (nat, nat);

    closed spec fn view(&self) -> (nat, nat) {
        (self.numerator as nat, self.denominator as nat)
    }
}

/// The split `numerator : denominator` as a value.
pub closed spec fn split_ratio_of(numerator: u32, denominator: u32) -> SplitRatio {
    SplitRatio { numerator, denominator }
}

/// The split [`split_ratio_of`] names has the given components.
pub proof fn lemma_split_ratio_of_view(numerator: u32, denominator: u32)
    ensures
        split_ratio_of(numerator, denominator)@ == (numerator as nat, denominator as nat),
{
}

impl SplitRatio {
    #[verifier::type_invariant]
    closed spec fn inv(self) -> bool {
        self.numerator > 0 && self.denominator > 0
    }

    /// The split `numerator : denominator`.
    pub fn new(numerator: u32, denominator: u32) -> (r: SplitRatio)
        requires
            numerator > 0,
            denominator > 0,
        ensures
            r@ == (numerator as nat, denominator as nat),
    {
        SplitRatio { numerator, denominator }
    }

    /// The split `numerator : denominator`, or `None` when a component is zero.
    pub fn try_new(numerator: u32, denominator: u32) -> (r: Option<SplitRatio>)
        ensures
            r is Some <==> (numerator > 0 && denominator > 0),
            r matches Some(s) ==> s@ == (numerator as nat, denominator as nat),
            r matches Some(s) ==> s == split_ratio_of(numerator, denominator),
    {
        if numerator > 0 && denominator > 0 {
            Some(SplitRatio { numerator, denominator })
        } else {
            None
        }
    }

    /// New shares per block.
    pub fn numerator(&self) -> (n: u32)
        ensures
            n as nat == self@.0,
            n > 0,
    {
        proof {
            use_type_invariant(self);
        }
        self.numerator
    }

    /// Old shares per block.
    pub fn denominator(&self) -> (d: u32)
        ensures
            d as nat == self@.1,
            d > 0,
    {
        proof {
            use_type_invariant(self);
        }
        self.denominator
    }
}

/// The absolute value of a mantissa.
pub open spec fn abs(x: int) -> nat {
    if x < 0 {
        (-x) as nat
    } else {
        x as nat
    }
}

/// An exact multiplicative adjustment `numerator / denominator`, optionally
/// pinned to map one provider close to its provider-adjusted close exactly.
#[derive(Debug, PartialEq)]
pub struct AdjustmentFactor {
    numerator: BigNat,
    denominator: BigNat,
    exact_close: Option<(Dec, Dec)>,
}

impl View for AdjustmentFactor {
    /// `(numerator, denominator, (close, adjusted close))`.
    type V = (nat, nat, Option<(Dec, Dec)>);

    closed spec fn view(&self) -> (nat, nat, Option<(Dec, Dec)>) {
        (self.numerator@, self.denominator@, self.exact_close)
    }
}

/// What applying a factor `(n, d, exact)` to a decimal `v` gives: the pinned
/// adjusted close when `v` is the pinned close, zero for zero, `v` itself
/// for a factor equal to one, and otherwise `v * n / d` rounded once.
pub open spec fn apply_spec(f: (nat, nat, Option<(Dec, Dec)>), v: (int, nat)) -> Result<
    (int, nat),
    AdjustmentError,
> {
    let pinned = match f.2 {
        Some(p) => if dec_same(v, p.0@) { Some(p.1@) } else { None },
        None => None,
    };
    if pinned is Some {
        Ok(pinned->0)
    } else if v.0 == 0 {
        Ok((0int, 0nat))
    } else if f.0 == f.1 {
        Ok(v)
    } else {
        rounded_ratio(abs(v.0) * f.0, pow10(v.1) * f.1, v.0 < 0)
    }
}

/// Whether `(num, den)` spells the fraction `a / b`.
pub open spec fn same_ratio(num: nat, den: nat, a: nat, b: nat) -> bool {
    num * b == den * a
}

impl AdjustmentFactor {
    #[verifier::type_invariant]
    closed spec fn inv(self) -> bool {
        self.denominator@ > 0
    }

    /// The denominator of every factor is positive.
    pub fn denominator_is_positive(&self)
        ensures
            self@.1 > 0,
    {
        proof {
            use_type_invariant(self);
        }
    }

    /// The factor mapping the provider close `denominator` to the provider-adjusted
    /// close `numerator`: the ratio `numerator / denominator`, reduced, pinned so
    /// that applying it to `denominator` gives `numerator` exactly.
    ///
    /// `None` when `denominator` is zero, or when `numerator` is nonzero and the
    /// two signs differ.
    pub fn new(numerator: Dec, denominator: Dec) -> (r: Option<AdjustmentFactor>)
        ensures
            r is None <==> (denominator@.0 == 0 || (numerator@.0 != 0 && (numerator@.0 < 0)
                != (denominator@.0 < 0))),
            r matches Some(f) ==> {
                let a = abs(numerator@.0) * pow10(denominator@.1);
                let b = abs(denominator@.0) * pow10(numerator@.1);
                &&& f@.0 == a / gcd(a, b)
                &&& f@.1 == b / gcd(a, b)
                &&& same_ratio(f@.0, f@.1, a, b)
                &&& f@.2 == Some((denominator, numerator))
            },
            match r {
                Some(f) => factor_of(numerator, denominator) == Some(f@),
                None => factor_of(numerator, denominator) is None,
            },
    {
        if denominator.is_zero() || (!numerator.is_zero() && numerator.is_sign_negative()
            != denominator.is_sign_negative()) {
            return None;
        }
        let exact_numerator = big_mul(&big_from_u128(numerator.magnitude()), &big_pow10(denominator.scale()));
        let exact_denominator = big_mul(&big_from_u128(denominator.magnitude()), &big_pow10(numerator.scale()));
        proof {
            crate::decimal::lemma_pow10_positive(numerator@.1);
            assert(exact_denominator@ > 0) by (nonlinear_arith)
                requires
                    exact_denominator@ == abs(denominator@.0) * pow10(numerator@.1),
                    abs(denominator@.0) > 0,
                    pow10(numerator@.1) > 0,
            ;
        }
        let factor = Self::from_ratio(exact_numerator, exact_denominator);
        match factor {
            None => None,
            Some(f) => Some({
                proof {
                    use_type_invariant(&f);
                }
                AdjustmentFactor {
                numerator: f.numerator,
                denominator: f.denominator,
                exact_close: Some((denominator, numerator)),
            }
            }),
        }
    }

    /// The factor `1 / 1`.
    pub fn identity() -> (r: AdjustmentFactor)
        ensures
            r@ == (1nat, 1nat, None::<(Dec, Dec)>),
    {
        AdjustmentFactor { numerator: big_from_u128(1), denominator: big_from_u128(1), exact_close: None }
    }

    /// The factor undoing a split: `denominator / numerator` of the split.
    fn from_split(ratio: SplitRatio) -> (r: AdjustmentFactor)
        ensures
            same_ratio(r@.0, r@.1, ratio@.1, ratio@.0),
            r@.2 is None,
    {
        let n = ratio.numerator();
        let d = ratio.denominator();
        let f = Self::from_ratio(big_from_u128(d as u128), big_from_u128(n as u128));
        match f {
            Some(f) => f,
            None => {
                proof {
                    assert(false);
                }
                Self::identity()
            },
        }
    }

    /// The reduced factor `numerator / denominator`, or `None` for a zero denominator.
    fn from_ratio(numerator: BigNat, denominator: BigNat) -> (r: Option<AdjustmentFactor>)
        ensures
            r is None <==> denominator@ == 0,
            r matches Some(f) ==> {
                &&& f@.0 == numerator@ / gcd(numerator@, denominator@)
                &&& f@.1 == denominator@ / gcd(numerator@, denominator@)
                &&& same_ratio(f@.0, f@.1, numerator@, denominator@)
                &&& f@.2 is None
            },
    {
        let zero = big_from_u128(0);
        if crate::bignat::big_eq(&denominator, &zero) {
            return None;
        }
        let mut numerator = numerator;
        let mut denominator = denominator;
        let ghost n = numerator@;
        let ghost d = denominator@;
        reduce_ratio(&mut numerator, &mut denominator);
        proof {
            let g = gcd(n, d);
            assert(numerator@ * d == denominator@ * n) by (nonlinear_arith)
                requires
                    numerator@ * g == n,
                    denominator@ * g == d,
            ;
        }
        Some(AdjustmentFactor { numerator, denominator, exact_close: None })
    }

    /// Composes a further split into this factor: the ratio is multiplied by
    /// `denominator / numerator` of the split, and the pinned close is dropped.
    fn compose_split(&mut self, ratio: SplitRatio)
        ensures
            final(self)@.0 * (old(self)@.1 * ratio@.0) == final(self)@.1 * (old(self)@.0 * ratio@.1),
            final(self)@.2 is None,
    {
        proof {
            use_type_invariant(&*self);
            use_type_invariant(&ratio);
        }
        let factor = Self::from_split(ratio);
        proof {
            use_type_invariant(&factor);
        }
        let mut incoming_numerator = factor.numerator;
        let mut incoming_denominator = factor.denominator;
        let mut own_numerator = self.numerator.duplicate();
        let mut own_denominator = self.denominator.duplicate();
        let ghost a = own_numerator@;
        let ghost b = own_denominator@;
        let ghost c = incoming_numerator@;
        let ghost e = incoming_denominator@;
        reduce_ratio(&mut own_numerator, &mut incoming_denominator);
        reduce_ratio(&mut incoming_numerator, &mut own_denominator);
        let numerator = big_mul(&own_numerator, &incoming_numerator);
        let denominator = big_mul(&incoming_denominator, &own_denominator);
        proof {
            let g1 = gcd(a, e);
            let g2 = gcd(c, b);
            let a1 = own_numerator@;
            let e1 = incoming_denominator@;
            let c1 = incoming_numerator@;
            let b1 = own_denominator@;
            assert(denominator@ > 0) by (nonlinear_arith)
                requires
                    denominator@ == e1 * b1,
                    e1 > 0,
                    b1 > 0,
            ;
            // numerator / denominator == (a * c) / (e * b)
            assert(numerator@ * (e * b) == denominator@ * (a * c)) by (nonlinear_arith)
                requires
                    numerator@ == a1 * c1,
                    denominator@ == e1 * b1,
                    a1 * g1 == a,
                    e1 * g1 == e,
                    c1 * g2 == c,
                    b1 * g2 == b,
            ;
            // the split contributes c / e == ratio.1 / ratio.0
            assert(numerator@ * (b * ratio@.0) == denominator@ * (a * ratio@.1)) by (nonlinear_arith)
                requires
                    numerator@ * (e * b) == denominator@ * (a * c),
                    c * ratio@.0 == e * ratio@.1,
                    e > 0,
                    ratio@.0 > 0,
            {
                assert(numerator@ * (e * b) * ratio@.0 == denominator@ * (a * c) * ratio@.0);
                assert(numerator@ * (b * ratio@.0) * e == numerator@ * (e * b) * ratio@.0);
                assert(denominator@ * (a * c) * ratio@.0 == denominator@ * (a * ratio@.1) * e);
            }
        }
        *self = AdjustmentFactor { numerator, denominator, exact_close: None };
    }

    /// Applies the factor to a price (see [`apply_spec`]).
    pub fn apply(&self, value: Dec) -> (r: Result<Dec, AdjustmentError>)
        ensures
            result_matches(r, apply_spec(self@, value@)),
    {
        proof {
            use_type_invariant(self);
        }
        if let Some((close, adjusted_close)) = self.exact_close {
            if value.same_value(&close) {
                return Ok(adjusted_close);
            }
        }
        if value.is_zero() {
            return Ok(Dec::zero());
        }
        if self.is_identity() {
            return Ok(value);
        }
        let mut value_numerator = big_from_u128(value.magnitude());
        let mut factor_numerator = self.numerator.duplicate();
        let mut decimal_denominator = big_pow10(value.scale());
        let mut factor_denominator = self.denominator.duplicate();
        let ghost n0 = value_numerator@ * factor_numerator@;
        let ghost d0 = decimal_denominator@ * factor_denominator@;
        proof {
            crate::decimal::lemma_pow10_positive(value@.1);
        }
        let ghost v1 = value_numerator@;
        let ghost dd1 = decimal_denominator@;
        reduce_ratio(&mut value_numerator, &mut decimal_denominator);
        let ghost g1 = gcd(v1, dd1);
        let ghost v2 = value_numerator@;
        let ghost fd2 = factor_denominator@;
        reduce_ratio(&mut value_numerator, &mut factor_denominator);
        let ghost g2 = gcd(v2, fd2);
        let ghost fn3 = factor_numerator@;
        let ghost dd3 = decimal_denominator@;
        reduce_ratio(&mut factor_numerator, &mut decimal_denominator);
        let ghost g3 = gcd(fn3, dd3);
        let numerator = big_mul(&value_numerator, &factor_numerator);
        let denominator = big_mul(&decimal_denominator, &factor_denominator);
        proof {
            let v4 = value_numerator@;
            let fn4 = factor_numerator@;
            let dd4 = decimal_denominator@;
            let fd4 = factor_denominator@;
            assert(denominator@ > 0) by (nonlinear_arith)
                requires
                    denominator@ == dd4 * fd4,
                    dd4 > 0,
                    fd4 > 0,
            ;
            assert(d0 > 0) by (nonlinear_arith)
                requires
                    d0 == dd1 * self@.1,
                    dd1 > 0,
                    self@.1 > 0,
            ;
            // every reduction divides one numerator and one denominator by the same divisor
            let f0 = self@.0;
            let f1 = self@.1;
            assert(dd3 > 0) by (nonlinear_arith)
                requires
                    dd3 * g1 == dd1,
                    dd1 > 0,
            ;
            assert(fd4 * g2 == f1);
            lemma_same_ratio_scaled(v2 * f0, dd3 * f1, g1);
            assert((v2 * f0) * g1 == v1 * f0 && (dd3 * f1) * g1 == dd1 * f1) by (nonlinear_arith)
                requires
                    v2 * g1 == v1,
                    dd3 * g1 == dd1,
            ;
            lemma_same_ratio_scaled(v4 * f0, dd3 * fd4, g2);
            assert((v4 * f0) * g2 == v2 * f0 && (dd3 * fd4) * g2 == dd3 * f1) by (nonlinear_arith)
                requires
                    v4 * g2 == v2,
                    fd4 * g2 == f1,
            ;
            lemma_same_ratio_scaled(v4 * fn4, dd4 * fd4, g3);
            assert((v4 * fn4) * g3 == v4 * f0 && (dd4 * fd4) * g3 == dd3 * fd4) by (nonlinear_arith)
                requires
                    fn4 * g3 == f0,
                    dd4 * g3 == dd3,
            ;
            assert(dd3 * f1 > 0 && dd3 * fd4 > 0) by (nonlinear_arith)
                requires
                    dd3 > 0,
                    f1 > 0,
                    fd4 > 0,
            ;
            lemma_same_ratio_transitive(v4 * fn4, dd4 * fd4, v4 * f0, dd3 * fd4, v2 * f0, dd3 * f1);
            lemma_same_ratio_transitive(v4 * fn4, dd4 * fd4, v2 * f0, dd3 * f1, v1 * f0, dd1 * f1);
            assert(numerator@ * d0 == denominator@ * n0);
            lemma_rounded_ratio_same_ratio(numerator@, denominator@, n0, d0, value@.0 < 0);
        }
        rounded_decimal_ratio(&numerator, &denominator, value.is_sign_negative())
    }

    /// Whether the factor is exactly one.
    pub fn is_identity(&self) -> (b: bool)
        ensures
            b == (self@.0 == self@.1),
    {
        crate::bignat::big_eq(&self.numerator, &self.denominator)
    }

    /// A copy of this factor.
    pub fn duplicate(&self) -> (r: AdjustmentFactor)
        ensures
            r@ == self@,
    {
        proof {
            use_type_invariant(self);
        }
        AdjustmentFactor {
            numerator: self.numerator.duplicate(),
            denominator: self.denominator.duplicate(),
            exact_close: self.exact_close,
        }
    }
}

proof fn lemma_same_ratio_scaled(a: nat, b: nat, g: nat)
    ensures
        same_ratio(a, b, a * g, b * g),
{
    assert(a * (b * g) == b * (a * g)) by (nonlinear_arith);
}

proof fn lemma_same_ratio_transitive(a: nat, b: nat, c: nat, d: nat, e: nat, f: nat)
    requires
        same_ratio(a, b, c, d),
        same_ratio(c, d, e, f),
        d > 0,
    ensures
        same_ratio(a, b, e, f),
{
    assert(a * f == b * e) by (nonlinear_arith)
        requires
            a * d == b * c,
            c * f == d * e,
            d > 0,
    {
        assert(a * f * d == b * c * f);
        assert(b * c * f == b * d * e);
        assert((a * f - b * e) * d == 0);
    }
}

/// A provider factor gives back the provider-adjusted close exactly when
/// applied to the close it was built from.
pub proof fn lemma_pinned_close_is_exact(f: (nat, nat, Option<(Dec, Dec)>), close: Dec, adjusted: Dec)
    requires
        f.2 == Some((close, adjusted)),
    ensures
        apply_spec(f, close@) == Ok::<(int, nat), AdjustmentError>(adjusted@),
{
    crate::decimal::lemma_pow10_positive(close@.1);
    assert(close@.0 * pow10(close@.1) == close@.0 * pow10(close@.1));
}

/// The factor one leaves every price unchanged (the same number).
pub proof fn lemma_identity_keeps_price(v: (int, nat))
    ensures
        apply_spec((1nat, 1nat, None::<(Dec, Dec)>), v) matches Ok(w) && dec_same(w, v),
{
    if v.0 == 0 {
        assert(0 * pow10(v.1) == v.0 * pow10(0)) by (nonlinear_arith)
            requires
                v.0 == 0,
        ;
    }
}

/// Applying a factor never rounds a product that a decimal in range spells
/// exactly: when `|v| * n / d == m / 10^s` with `m` a nonzero mantissa in range,
/// the result is that number, signed like `v` (outside the pinned close).
pub proof fn lemma_apply_exact_when_representable(
    f: (nat, nat, Option<(Dec, Dec)>),
    v: (int, nat),
    m: nat,
    s: nat,
)
    requires
        f.1 > 0,
        f.2 is None,
        0 < m <= MAX_MANTISSA,
        s <= MAX_SCALE,
        abs(v.0) * f.0 * pow10(s) == m * (pow10(v.1) * f.1),
    ensures
        apply_spec(f, v) matches Ok(w) && dec_same(w, (if v.0 < 0 { -(m as int) } else { m as int }, s)),
{
    crate::decimal::lemma_pow10_positive(v.1);
    crate::decimal::lemma_pow10_positive(s);
    let pv = pow10(v.1);
    let ps = pow10(s);
    if v.0 == 0 {
        assert(abs(v.0) * f.0 * ps == 0) by (nonlinear_arith)
            requires
                abs(v.0) == 0,
        ;
        assert(m * (pv * f.1) > 0) by (nonlinear_arith)
            requires
                m > 0,
                pv > 0,
                f.1 > 0,
        ;
    } else if f.0 == f.1 {
        let sm: int = if v.0 < 0 { -(m as int) } else { m as int };
        assert(v.0 * ps == sm * pv) by (nonlinear_arith)
            requires
                abs(v.0) * f.0 * ps == m * (pv * f.1),
                f.0 == f.1,
                f.1 > 0,
                sm == (if v.0 < 0 { -(m as int) } else { m as int }),
                abs(v.0) == (if v.0 < 0 { -v.0 } else { v.0 }),
        {
            assert((abs(v.0) * ps - m * pv) * f.1 == 0);
        }
    } else {
        assert((abs(v.0) * f.0) * ps == m * (pv * f.1)) by (nonlinear_arith)
            requires
                abs(v.0) * f.0 * ps == m * (pv * f.1),
        ;
        assert(pv * f.1 > 0) by (nonlinear_arith)
            requires
                pv > 0,
                f.1 > 0,
        ;
        crate::ratio::lemma_exact_ratio_not_rounded(abs(v.0) * f.0, pv * f.1, m, s, v.0 < 0);
    }
}

/// For factors without a pinned close, adjusting `-v` gives the negation of
/// adjusting `v`, and the same error where `v` fails.
pub proof fn lemma_apply_sign_symmetric(f: (nat, nat, Option<(Dec, Dec)>), m: nat, s: nat)
    requires
        f.2 is None,
        m > 0,
    ensures
        match (apply_spec(f, (m as int, s)), apply_spec(f, (-(m as int), s))) {
            (Ok(p), Ok(q)) => dec_same(q, (-p.0, p.1)),
            (Err(e), Err(g)) => e == g,
            _ => false,
        },
{
    crate::ratio::lemma_rounded_ratio_sign_symmetric(m * f.0, pow10(s) * f.1);
    crate::decimal::lemma_pow10_positive(s);
    assert(-(m as int) * pow10(s) == -(m as int) * pow10(s));
}

/// Where a bar's split pointer stands after bars `i..` have been processed:
/// starting from all events, each bar (from the last down) releases the
/// events just before the pointer whose time is later than the bar's.
pub open spec fn pending_splits(ts: Seq<i64>, events: Seq<(i64, SplitRatio)>, i: int) -> nat
    decreases ts.len() - i,
{
    if i >= ts.len() || i < 0 {
        events.len()
    } else {
        release_after(events, pending_splits(ts, events, i + 1), ts[i])
    }
}

/// Moves the pointer `k` down past every event just before it later than `t`.
pub open spec fn release_after(events: Seq<(i64, SplitRatio)>, k: nat, t: i64) -> nat
    decreases k,
{
    if k > 0 && k <= events.len() && events[k - 1].0 > t {
        release_after(events, (k - 1) as nat, t)
    } else {
        k
    }
}

/// The product of the split numerators of `events[k..]`.
pub open spec fn split_numerators(events: Seq<(i64, SplitRatio)>, k: int) -> nat
    decreases events.len() - k,
{
    if k >= events.len() || k < 0 {
        1
    } else {
        events[k].1@.0 * split_numerators(events, k + 1)
    }
}

/// The product of the split denominators of `events[k..]`.
pub open spec fn split_denominators(events: Seq<(i64, SplitRatio)>, k: int) -> nat
    decreases events.len() - k,
{
    if k >= events.len() || k < 0 {
        1
    } else {
        events[k].1@.1 * split_denominators(events, k + 1)
    }
}

/// Whether `f` is the factor undoing the splits `events[k..]`.
pub open spec fn undoes_splits_from(f: (nat, nat, Option<(Dec, Dec)>), events: Seq<(i64, SplitRatio)>, k: int) -> bool {
    &&& same_ratio(f.0, f.1, split_denominators(events, k), split_numerators(events, k))
    &&& f.2 is None
}

proof fn lemma_release_after_bounded(events: Seq<(i64, SplitRatio)>, k: nat, t: i64)
    ensures
        release_after(events, k, t) <= k,
    decreases k,
{
    if k > 0 && k <= events.len() && events[k - 1].0 > t {
        lemma_release_after_bounded(events, (k - 1) as nat, t);
    }
}

proof fn lemma_pending_bounded(ts: Seq<i64>, events: Seq<(i64, SplitRatio)>, i: int)
    ensures
        pending_splits(ts, events, i) <= events.len(),
    decreases ts.len() - i,
{
    if !(i >= ts.len() || i < 0) {
        lemma_pending_bounded(ts, events, i + 1);
        lemma_release_after_bounded(events, pending_splits(ts, events, i + 1), ts[i]);
    }
}

/// The split adjustment for each bar: bar `i` gets the factor undoing the
/// splits `split_events[pending_splits(ts, split_events, i)..]`. For bars and
/// events in time order, these are exactly the splits after the bar
/// ([`lemma_split_adjustment_covers_later_splits`]).
pub fn split_adjustments_after(ts: &[i64], split_events: &[(i64, SplitRatio)]) -> (out: Vec<
    Option<AdjustmentFactor>,
>)
    ensures
        out.len() == ts.len(),
        forall|i: int|
            0 <= i < ts.len() ==> (#[trigger] out@[i]) is Some && undoes_splits_from(
                out@[i]->0@,
                split_events@,
                pending_splits(ts@, split_events@, i) as int,
            ),
{
    let n = ts.len();
    let mut out: Vec<Option<AdjustmentFactor>> = Vec::new();
    let mut k: usize = 0;
    while k < n
        invariant
            k <= n,
            n == ts.len(),
            out.len() == k,
            forall|j: int| 0 <= j < k ==> (#[trigger] out@[j]) is Some && out@[j]->0@ == (1nat, 1nat, None::<(Dec, Dec)>),
        decreases n - k,
    {
        out.push(Some(AdjustmentFactor::identity()));
        k = k + 1;
    }
    if split_events.len() == 0 || n == 0 {
        proof {
            assert forall|i: int| 0 <= i < ts.len() implies (#[trigger] out@[i]) is Some && undoes_splits_from(
                out@[i]->0@,
                split_events@,
                pending_splits(ts@, split_events@, i) as int,
            ) by {
                lemma_pending_bounded(ts@, split_events@, i);
            }
        }
        return out;
    }
    let mut sp_idx: usize = split_events.len();
    let mut running = AdjustmentFactor::identity();
    let mut i: usize = n;
    while i > 0
        invariant
            i <= n,
            n == ts.len(),
            out.len() == n,
            sp_idx as nat == pending_splits(ts@, split_events@, i as int),
            sp_idx <= split_events.len(),
            undoes_splits_from(running@, split_events@, sp_idx as int),
            forall|j: int|
                i <= j < n ==> (#[trigger] out@[j]) is Some && undoes_splits_from(
                    out@[j]->0@,
                    split_events@,
                    pending_splits(ts@, split_events@, j) as int,
                ),
        decreases i,
    {
        let t = ts[i - 1];
        let ghost start = sp_idx as nat;
        while sp_idx > 0 && split_events[sp_idx - 1].0 > t
            invariant
                sp_idx <= start,
                start <= split_events.len(),
                release_after(split_events@, sp_idx as nat, t) == release_after(split_events@, start, t),
                undoes_splits_from(running@, split_events@, sp_idx as int),
            decreases sp_idx,
        {
            sp_idx = sp_idx - 1;
            running.denominator_is_positive();
            let ghost before = running@;
            running.compose_split(split_events[sp_idx].1);
            running.denominator_is_positive();
            proof {
                let e = split_events@;
                let k = sp_idx as int;
                let sn = e[k].1@.0;
                let sd = e[k].1@.1;
                let pn = split_numerators(e, k + 1);
                let pd = split_denominators(e, k + 1);
                assert(split_numerators(e, k) == sn * pn);
                assert(split_denominators(e, k) == sd * pd);
                lemma_compose_ratio(before.0, before.1, running@.0, running@.1, sn, sd, pn, pd);
            }
        }
        out.set(i - 1, Some(running.duplicate()));
        i = i - 1;
    }
    out
}

proof fn lemma_compose_ratio(a: nat, b: nat, a2: nat, b2: nat, sn: nat, sd: nat, pn: nat, pd: nat)
    requires
        a * pn == b * pd,
        a2 * (b * sn) == b2 * (a * sd),
        b > 0,
    ensures
        a2 * (sn * pn) == b2 * (sd * pd),
{
    assert(b * (a2 * (sn * pn)) == b * (b2 * (sd * pd))) by (nonlinear_arith)
        requires
            a * pn == b * pd,
            a2 * (b * sn) == b2 * (a * sd),
    {
        assert(b * (a2 * (sn * pn)) == a2 * (b * sn) * pn);
        assert(b2 * (a * sd) * pn == b2 * sd * (a * pn));
        assert(b2 * sd * (a * pn) == b2 * sd * (b * pd));
        assert(b2 * sd * (b * pd) == b * (b2 * (sd * pd)));
    }
    assert(a2 * (sn * pn) == b2 * (sd * pd)) by (nonlinear_arith)
        requires
            b * (a2 * (sn * pn)) == b * (b2 * (sd * pd)),
            b > 0,
    ;
}

/// Whether the events are in time order.
pub open spec fn events_sorted(events: Seq<(i64, SplitRatio)>) -> bool {
    forall|a: int, b: int| 0 <= a <= b < events.len() ==> events[a].0 <= events[b].0
}

/// Whether the bars are in time order.
pub open spec fn bars_sorted(ts: Seq<i64>) -> bool {
    forall|a: int, b: int| 0 <= a <= b < ts.len() ==> ts[a] <= ts[b]
}

proof fn lemma_release_after_sorted(events: Seq<(i64, SplitRatio)>, k: nat, t: i64)
    requires
        events_sorted(events),
        k <= events.len(),
        forall|j: int| k <= j < events.len() ==> events[j].0 > t,
    ensures
        forall|j: int| release_after(events, k, t) <= j < events.len() ==> events[j].0 > t,
        forall|j: int| 0 <= j < release_after(events, k, t) ==> events[j].0 <= t,
        release_after(events, k, t) <= k,
    decreases k,
{
    if k > 0 && events[k - 1].0 > t {
        lemma_release_after_sorted(events, (k - 1) as nat, t);
    } else if k > 0 {
        assert forall|j: int| 0 <= j < k implies events[j].0 <= t by {
            assert(events[j].0 <= events[k - 1].0);
        }
    }
}

/// For bars and split events in time order, the split adjustment of bar `i`
/// undoes exactly the splits dated after the bar: every event before the
/// pointer is dated at or before the bar, every event from it on after.
pub proof fn lemma_split_adjustment_covers_later_splits(
    ts: Seq<i64>,
    events: Seq<(i64, SplitRatio)>,
    i: int,
)
    requires
        events_sorted(events),
        bars_sorted(ts),
        0 <= i < ts.len(),
    ensures
        forall|j: int|
            0 <= j < pending_splits(ts, events, i) ==> events[j].0 <= ts[i],
        forall|j: int|
            pending_splits(ts, events, i) <= j < events.len() ==> events[j].0 > ts[i],
    decreases ts.len() - i,
{
    let k = pending_splits(ts, events, i + 1);
    if i + 1 < ts.len() {
        lemma_split_adjustment_covers_later_splits(ts, events, i + 1);
        assert forall|j: int| k <= j < events.len() implies events[j].0 > ts[i] by {
            assert(ts[i] <= ts[i + 1]);
        }
        lemma_pending_bounded(ts, events, i + 1);
    }
    lemma_release_after_sorted(events, k, ts[i]);
}

/// Which basis a series of candles was adjusted on.
#[derive(Debug, Clone, Copy, PartialEq, Eq, Structural)]
pub enum AdjustmentBasis {
    /// Each bar uses the ratio of the provider's adjusted close to its close.
    ProviderAdjusted,
    /// Bars are adjusted for splits only.
    SplitAdjusted,
}

/// How the candles of one series are to be adjusted.
#[derive(Debug)]
pub enum AdjustmentPlan {
    /// One provider factor per row.
    ProviderAdjusted { row_factors: Vec<Option<AdjustmentFactor>> },
    /// The split adjustments of [`split_adjustments_after`].
    SplitAdjusted,
}

impl AdjustmentPlan {
    /// The basis of the plan.
    pub fn basis(&self) -> (b: AdjustmentBasis)
        ensures
            b == (match self {
                AdjustmentPlan::ProviderAdjusted { .. } => AdjustmentBasis::ProviderAdjusted,
                AdjustmentPlan::SplitAdjusted => AdjustmentBasis::SplitAdjusted,
            }),
    {
        match self {
            AdjustmentPlan::ProviderAdjusted { .. } => AdjustmentBasis::ProviderAdjusted,
            AdjustmentPlan::SplitAdjusted => AdjustmentBasis::SplitAdjusted,
        }
    }

    /// The factor for row `i`: the provider factor of that row, or the split
    /// adjustment of that row; `None` past the end or where the row has none.
    pub fn factor_for_row<'a>(&'a self, i: usize, split_adjustments: &'a [Option<AdjustmentFactor>]) -> (r:
        Option<&'a AdjustmentFactor>)
        ensures
            match self {
                AdjustmentPlan::ProviderAdjusted { row_factors } => if i < row_factors.len() {
                    match row_factors@[i as int] {
                        Some(f) => r == Some(&f),
                        None => r is None,
                    }
                } else {
                    r is None
                },
                AdjustmentPlan::SplitAdjusted => if i < split_adjustments.len() {
                    match split_adjustments@[i as int] {
                        Some(f) => r == Some(&f),
                        None => r is None,
                    }
                } else {
                    r is None
                },
            },
    {
        match self {
            AdjustmentPlan::ProviderAdjusted { row_factors } => {
                if i < row_factors.len() {
                    match &row_factors[i] {
                        Some(f) => Some(f),
                        None => None,
                    }
                } else {
                    None
                }
            },
            AdjustmentPlan::SplitAdjusted => {
                if i < split_adjustments.len() {
                    match &split_adjustments[i] {
                        Some(f) => Some(f),
                        None => None,
                    }
                } else {
                    None
                }
            },
        }
    }
}

/// Whether `adjclose / close` makes a factor: a nonzero close, and an
/// adjusted close of the same sign or zero.
pub open spec fn provider_ratio_defined(adj: Dec, close: Dec) -> bool {
    !(close@.0 == 0 || (adj@.0 != 0 && (adj@.0 < 0) != (close@.0 < 0)))
}

/// What [`AdjustmentFactor::new`] gives for `numerator / denominator`: the
/// ratio in lowest terms, pinned to map `denominator` to `numerator`, when
/// the denominator is not zero and the signs agree; `None` otherwise.
pub open spec fn factor_of(numerator: Dec, denominator: Dec) -> Option<(nat, nat, Option<(Dec, Dec)>)> {
    if denominator@.0 == 0 || (numerator@.0 != 0 && (numerator@.0 < 0) != (denominator@.0 < 0)) {
        None
    } else {
        let a = abs(numerator@.0) * pow10(denominator@.1);
        let b = abs(denominator@.0) * pow10(numerator@.1);
        Some((a / gcd(a, b), b / gcd(a, b), Some((denominator, numerator))))
    }
}

/// `r` is the provider factor of a row with adjusted close `adjclose_i` and
/// close `close_i`: what [`AdjustmentFactor::new`] gives for
/// `adjclose / close` ([`factor_of`]), the ratio in lowest terms pinned to map
/// the close to the adjusted close, when both are present; `None` otherwise.
pub open spec fn provider_factor(adjclose_i: Option<Dec>, close_i: Option<Dec>, r: Option<AdjustmentFactor>) -> bool {
    match (adjclose_i, close_i) {
        (Some(adj), Some(close)) => (r is Some <==> provider_ratio_defined(adj, close)) && (r matches Some(f)
            ==> f@.2 == Some((close, adj)) && same_ratio(
            f@.0,
            f@.1,
            abs(adj@.0) * pow10(close@.1),
            abs(close@.0) * pow10(adj@.1),
        )) && match r {
            Some(f) => factor_of(adj, close) == Some(f@),
            None => factor_of(adj, close) is None,
        },
        _ => r is None,
    }
}

/// The provider factor of a row: `adjclose / close` when both are present
/// (see [`AdjustmentFactor::new`]).
pub fn provider_adjustment_factor(adjclose_i: Option<Dec>, close_i: Option<Dec>) -> (r: Option<
    AdjustmentFactor,
>)
    ensures
        provider_factor(adjclose_i, close_i, r),
{
    match (adjclose_i, close_i) {
        (Some(adj), Some(close)) => AdjustmentFactor::new(adj, close),
        _ => None,
    }
}

} // verus!
