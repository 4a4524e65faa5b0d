use paft::Decimal;
use std::str::FromStr;
use yfinance_rs::adjust::{split_adjustments_after, AdjustmentFactor, SplitRatio};
use yfinance_rs::bignat::BigNat;
use yfinance_rs::decimal::Dec;
use yfinance_rs::ratio::{rounded_decimal_ratio, AdjustmentError};

fn dec(value: Decimal) -> Dec {
    Dec::try_from_i128_with_scale(value.mantissa(), value.scale()).unwrap()
}

fn decimal(value: &str) -> Dec {
    dec(Decimal::from_str(value).unwrap())
}

fn split(numerator: u32, denominator: u32) -> SplitRatio {
    SplitRatio::new(numerator, denominator)
}

#[test]
fn provider_adjustment_preserves_adjusted_close_exactly() {
    let close = decimal("0.11049100011587143");
    let adjusted_close = decimal("0.08454351872205734");
    let factor = AdjustmentFactor::new(adjusted_close, close).unwrap();

    assert_eq!(factor.apply(close), Ok(adjusted_close));
}

#[test]
fn applying_factor_reduces_exact_ratio_before_multiplication() {
    let factor = AdjustmentFactor::new(
        decimal("0.0276227500289678575"),
        decimal("0.11049100011587143"),
    )
    .unwrap();

    assert_eq!(
        factor.apply(decimal("0.13002200424671173")),
        Ok(decimal("0.0325055010616779325"))
    );
}

#[test]
fn nonterminating_adjustment_rounds_once_at_decimal_capacity() {
    let factor = AdjustmentFactor::new(dec(Decimal::ONE), dec(Decimal::from(3))).unwrap();

    assert_eq!(
        factor.apply(dec(Decimal::ONE)),
        Ok(decimal("0.3333333333333333333333333333"))
    );
}

#[test]
fn applying_factor_cross_cancels_value_before_multiplication() {
    let numerator = Decimal::try_from_i128_with_scale(Decimal::MAX.mantissa() / 4, 0)
        .expect("quarter maximum fits");
    let factor = AdjustmentFactor::new(dec(numerator), dec(Decimal::from(4))).unwrap();

    assert_eq!(
        factor.apply(dec(Decimal::from(8))),
        Ok(dec(numerator.checked_mul(Decimal::from(2)).unwrap()))
    );
}

#[test]
fn reducing_ratio_cancels_mantissas_before_scale_alignment() {
    let scaled_max = Decimal::try_from_i128_with_scale(Decimal::MAX.mantissa(), 28)
        .expect("scaled maximum fits");
    let value = Decimal::try_from_i128_with_scale(Decimal::MAX.mantissa() / 2, 0)
        .expect("half maximum fits");
    let expected = Decimal::try_from_i128_with_scale(Decimal::MAX.mantissa() / 2, 28)
        .expect("scaled half maximum fits");
    let factor = AdjustmentFactor::new(dec(scaled_max), dec(Decimal::MAX)).unwrap();

    assert_eq!(factor.apply(dec(value)), Ok(dec(expected)));
}

#[test]
fn adjustment_factor_rejects_sign_mismatches() {
    assert!(AdjustmentFactor::new(dec(Decimal::NEGATIVE_ONE), dec(Decimal::ONE)).is_none());
    assert!(AdjustmentFactor::new(dec(Decimal::ONE), dec(Decimal::NEGATIVE_ONE)).is_none());
    let factor =
        AdjustmentFactor::new(dec(Decimal::NEGATIVE_ONE), dec(Decimal::from(-2))).unwrap();
    assert_eq!(
        factor.apply(dec(Decimal::from(-2))),
        Ok(dec(Decimal::NEGATIVE_ONE))
    );
}

#[test]
fn zero_adjustment_factor_applies_exactly() {
    let factor =
        AdjustmentFactor::new(dec(Decimal::ZERO), decimal("0.0000000000000000000000000001"))
            .unwrap();

    assert_eq!(factor.apply(dec(Decimal::MAX)), Ok(dec(Decimal::ZERO)));
}

#[test]
fn issue_ten_adjustment_uses_exact_wire_values_and_one_rounding_step() {
    let factor = AdjustmentFactor::new(
        decimal("0.08454351872205734"),
        decimal("0.11049100011587143"),
    )
    .unwrap();

    assert_eq!(
        factor.apply(decimal("0.13002200424671173")),
        Ok(decimal("0.0994879016280374572098676566"))
    );
    assert_eq!(
        factor.apply(decimal("0.13895100355148315")),
        Ok(decimal("0.1063200329247089571168970065"))
    );
    assert_eq!(
        factor.apply(decimal("0.08454351872205734")),
        Ok(decimal("0.0646894910029884437241280919"))
    );
    assert_eq!(
        factor.apply(decimal("0.11049100011587143")),
        Ok(decimal("0.08454351872205734"))
    );
}

#[test]
fn split_adjustments_compose_without_decimal_intermediate_overflow() {
    let max = u32::MAX;
    let mut events = (1..=4)
        .map(|timestamp| (timestamp, split(max, 1)))
        .collect::<Vec<_>>();
    events.extend((5..=7).map(|timestamp| (timestamp, split(1, max))));
    let factor = split_adjustments_after(&[0], &events)
        .pop()
        .flatten()
        .unwrap();

    assert_eq!(factor.apply(dec(Decimal::from(max))), Ok(dec(Decimal::ONE)));
}

#[test]
fn split_adjustments_follow_event_order() {
    let factors = split_adjustments_after(&[1, 3, 5], &[(2, split(2, 1)), (4, split(3, 1))]);
    let adjusted = factors
        .into_iter()
        .map(|factor| factor.unwrap().apply(dec(Decimal::from(6))).unwrap())
        .collect::<Vec<_>>();

    assert_eq!(
        adjusted,
        [dec(Decimal::ONE), dec(Decimal::from(2)), dec(Decimal::from(6))]
    );
}

#[test]
fn adjustment_rounds_decimal_midpoints_to_even() {
    let factor = AdjustmentFactor::new(dec(Decimal::ONE), dec(Decimal::from(2))).unwrap();
    let quantum = Decimal::from_str("0.0000000000000000000000000001").unwrap();

    assert_eq!(factor.apply(dec(quantum)), Err(AdjustmentError::Underflow));
    assert_eq!(
        factor.apply(dec(quantum * Decimal::from(3))),
        Ok(dec(quantum * Decimal::from(2)))
    );
    assert_eq!(
        factor.apply(dec(quantum * Decimal::from(5))),
        Ok(dec(quantum * Decimal::from(2)))
    );
    assert_eq!(
        factor.apply(dec(quantum * Decimal::from(-3))),
        Ok(dec(quantum * Decimal::from(-2)))
    );
}

#[test]
fn adjustment_reports_decimal_overflow() {
    let factor = AdjustmentFactor::new(dec(Decimal::from(2)), dec(Decimal::ONE)).unwrap();

    assert_eq!(factor.apply(dec(Decimal::MAX)), Err(AdjustmentError::Overflow));
}

#[test]
fn adjustment_handles_maximum_adjacent_midpoint_carry() {
    let maximum = Decimal::MAX.mantissa().unsigned_abs();
    let denominator = BigNat::from_u128(2);
    let below = BigNat::from_u128(maximum * 2 - 1);
    let above = BigNat::from_u128(maximum * 2 + 1);
    let expected = Decimal::try_from_i128_with_scale(Decimal::MAX.mantissa() - 1, 0).unwrap();

    assert_eq!(
        rounded_decimal_ratio(&below, &denominator, false),
        Ok(dec(expected))
    );
    assert_eq!(
        rounded_decimal_ratio(&above, &denominator, false),
        Err(AdjustmentError::Overflow)
    );
}

#[test]
fn split_at_bar_timestamp_does_not_adjust_that_bar() {
    let ratio = split(2, 1);
    let factor = split_adjustments_after(&[2], &[(2, ratio)])
        .pop()
        .flatten()
        .unwrap();

    assert_eq!(factor.apply(dec(Decimal::from(6))), Ok(dec(Decimal::from(6))));
}

#[test]
fn split_accumulator_recovers_after_unrepresentable_intermediate_factor() {
    let max = u32::MAX;
    let mut events = Vec::new();
    for timestamp in 1..=4 {
        events.push((timestamp, split(max, 1)));
    }
    for timestamp in 5..=8 {
        events.push((timestamp, split(1, max)));
    }

    let factors = split_adjustments_after(&[0, 4], &events);
    assert!(factors[0]
        .as_ref()
        .is_some_and(|factor| factor.is_identity()));
    assert!(factors[1]
        .as_ref()
        .is_some_and(|factor| !factor.is_identity()));
}
