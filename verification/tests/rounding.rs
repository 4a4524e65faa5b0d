use yfinance_rs::assemble::{round_candle_prices, Candle};
use yfinance_rs::decimal::{pow10_u128, Dec};

fn dec(m: i128, s: u32) -> Dec {
    Dec::try_from_i128_with_scale(m, s).unwrap()
}

fn parts(d: &Dec) -> (i128, u32) {
    (d.mantissa(), d.scale())
}

#[test]
fn round_dp_ties_go_to_even() {
    assert_eq!(parts(&dec(65, 1).round_dp(0)), (6, 0));
    assert_eq!(parts(&dec(75, 1).round_dp(0)), (8, 0));
    assert_eq!(parts(&dec(-65, 1).round_dp(0)), (-6, 0));
    assert_eq!(parts(&dec(-75, 1).round_dp(0)), (-8, 0));
}

#[test]
fn round_dp_rounds_to_nearest() {
    assert_eq!(parts(&dec(12345, 4).round_dp(2)), (123, 2));
    assert_eq!(parts(&dec(12351, 4).round_dp(2)), (124, 2));
    assert_eq!(parts(&dec(-12351, 4).round_dp(2)), (-124, 2));
    assert_eq!(parts(&dec(4, 1).round_dp(0)), (0, 0));
    assert!(!dec(-4, 1).round_dp(0).is_sign_negative());
}

#[test]
fn round_dp_keeps_short_values() {
    assert_eq!(parts(&dec(12345, 2).round_dp(2)), (12345, 2));
    assert_eq!(parts(&dec(12345, 2).round_dp(6)), (12345, 2));
}

#[test]
fn pow10_u128_values() {
    assert_eq!(pow10_u128(0), 1);
    assert_eq!(pow10_u128(3), 1000);
    assert_eq!(pow10_u128(28), 10u128.pow(28));
}

fn row(ts: i64, p: i128, s: u32) -> Candle {
    Candle {
        ts,
        open: dec(p, s),
        high: dec(p + 1, s),
        low: dec(p - 1, s),
        close: dec(p, s),
        close_unadj: dec(p + 5, s),
        volume: Some(42),
    }
}

#[test]
fn candle_prices_follow_the_price_hint() {
    let mut rows = vec![row(10, 1234567, 4), row(20, 15, 1)];
    round_candle_prices(&mut rows, 2);
    assert_eq!(rows.len(), 2);
    assert_eq!(rows[0].ts, 10);
    assert_eq!(parts(&rows[0].open), (12346, 2));
    assert_eq!(parts(&rows[0].high), (12346, 2));
    assert_eq!(parts(&rows[0].low), (12346, 2));
    assert_eq!(parts(&rows[0].close_unadj), (12346, 2));
    assert_eq!(rows[0].volume, Some(42));
    assert_eq!(parts(&rows[1].open), (15, 1));
}

#[test]
fn candle_price_hint_is_capped_at_the_decimal_scale() {
    let mut rows = vec![row(1, 123, 28)];
    round_candle_prices(&mut rows, 40);
    assert_eq!(parts(&rows[0].open), (123, 28));
}
