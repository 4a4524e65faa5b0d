use yfinance_rs::adjust::{AdjustmentFactor, AdjustmentPlan, SplitRatio, split_adjustments_after};
use yfinance_rs::assemble::{
    adjustment_plan_for_series, assemble_candles, checked_adjust_ohlc, history_rows, HistoryRow,
};
use yfinance_rs::chart::{
    candle_capacity_upper_bound, chart_query, decode_chart, decimal_value, map_meta,
    raw_ohlc_values, reads_cache, writes_cache, AdjCloseBlock, ChartDecodeError, ChartEnvelope,
    ChartError, ChartNode, ChartQueryError, ChartResult, Indicators, MetaNode, ProjectionIssue,
    QuoteBlock, WireValue,
};
use yfinance_rs::client::{CacheMode, Interval, Range};
use yfinance_rs::decimal::Dec;
use yfinance_rs::ratio::AdjustmentError;
use yfinance_rs::text::int_to_text;

fn d(n: i128) -> Dec {
    Dec::try_from_i128_with_scale(n, 0).unwrap()
}

fn v(n: i128) -> WireValue {
    WireValue::Value(d(n))
}

fn values(ns: &[i128]) -> Vec<WireValue> {
    ns.iter().map(|n| v(*n)).collect()
}

fn quote(o: &[i128], h: &[i128], l: &[i128], c: &[i128], vol: &[u64]) -> QuoteBlock {
    QuoteBlock {
        open: values(o),
        high: values(h),
        low: values(l),
        close: values(c),
        volume: vol.iter().map(|x| Some(*x)).collect(),
    }
}

#[test]
fn candle_capacity_upper_bound_uses_shortest_required_array() {
    let quote = quote(&[1, 2, 3], &[1, 2], &[1, 2, 3, 4], &[1], &[1, 2, 3, 4, 5]);

    assert_eq!(candle_capacity_upper_bound(&[1, 2, 3, 4, 5], &quote), 1);
}

#[test]
fn provider_adjustment_plan_carries_row_factors() {
    let quote = quote(&[100, 101], &[100, 101], &[100, 101], &[100, 101], &[1, 1]);
    let adjclose = values(&[50, 101]);

    let (plan, repaired) = adjustment_plan_for_series(&quote, &adjclose, 2);
    let first = AdjustmentFactor::new(d(50), d(100));
    let second = AdjustmentFactor::new(d(101), d(101));

    assert!(!repaired);
    assert_eq!(
        plan.factor_for_row(0, &[]),
        first.as_ref(),
        "provider ratio should stay intact while selecting the provider-adjusted plan"
    );
    assert_eq!(plan.factor_for_row(1, &[]), second.as_ref());
}

#[test]
fn sparse_adjclose_falls_back_to_split_adjustment() {
    let quote = quote(&[100, 101], &[100, 101], &[100, 101], &[100, 101], &[1, 1]);
    let adjclose = vec![v(50), WireValue::Null];

    let (plan, repaired) = adjustment_plan_for_series(&quote, &adjclose, 2);

    assert!(matches!(plan, AdjustmentPlan::SplitAdjusted));
    assert!(repaired);
}

#[test]
fn missing_adjclose_uses_split_adjustment_without_repair() {
    let quote = quote(&[100], &[100], &[100], &[100], &[1]);
    let (plan, repaired) = adjustment_plan_for_series(&quote, &Vec::new(), 1);

    assert!(matches!(plan, AdjustmentPlan::SplitAdjusted));
    assert!(!repaired);
}

#[test]
fn raw_ohlc_values_reports_missing_fields_in_order() {
    let high = WireValue::Null;
    let close = v(4);
    let r = raw_ohlc_values(None, Some(&high), None, Some(&close));
    match r {
        Err(ProjectionIssue::MissingRequiredFields { fields }) => {
            assert_eq!(fields, vec!["open", "high", "low"]);
        }
        other => panic!("unexpected {other:?}"),
    }
}

#[test]
fn raw_ohlc_values_reports_first_invalid_field() {
    let open = v(1);
    let high = WireValue::Invalid("abc".to_string());
    let low = WireValue::Invalid("def".to_string());
    match raw_ohlc_values(Some(&open), Some(&high), Some(&low), None) {
        Err(ProjectionIssue::InvalidField { field, details }) => {
            assert_eq!(field, "high");
            assert_eq!(details, "abc");
        }
        other => panic!("unexpected {other:?}"),
    }
    assert!(matches!(decimal_value("open", None), Ok(None)));
}

#[test]
fn raw_ohlc_values_reads_four_prices() {
    let (o, h, l, c) = raw_ohlc_values(Some(&v(1)), Some(&v(2)), Some(&v(3)), Some(&v(4))).unwrap();
    assert_eq!((o, h, l, c), (d(1), d(2), d(3), d(4)));
}

#[test]
fn assemble_without_plan_keeps_raw_prices_and_drops_bad_rows() {
    let mut q = quote(&[10, 11, 12], &[10, 11, 12], &[10, 11, 12], &[10, 11, 12], &[5, 6]);
    q.close[1] = WireValue::Null;
    let ts = [1_700_000_000i64, 1_700_086_400, i64::MAX];

    let (candles, dropped) = assemble_candles(&ts, &q, None, &[]);

    assert_eq!(candles.len(), 1);
    assert_eq!(candles[0].ts, 1_700_000_000);
    assert_eq!(candles[0].close, d(10));
    assert_eq!(candles[0].close_unadj, d(10));
    assert_eq!(candles[0].volume, Some(5));
    assert_eq!(dropped.len(), 2);
    assert_eq!(dropped[0].ts, 1_700_086_400);
    assert!(matches!(&dropped[0].issue, ProjectionIssue::MissingRequiredFields { fields } if fields == &vec!["close"]));
    assert_eq!(dropped[1].ts, i64::MAX);
    assert!(matches!(&dropped[1].issue, ProjectionIssue::InvalidField { field, .. } if *field == "timestamp"));
}

#[test]
fn assemble_with_split_plan_adjusts_before_the_split() {
    let q = quote(&[100, 50], &[100, 50], &[100, 50], &[100, 50], &[1, 1]);
    let ts = [100i64, 200];
    let splits = split_adjustments_after(&ts, &[(150, SplitRatio::new(2, 1))]);
    let plan = AdjustmentPlan::SplitAdjusted;

    let (candles, dropped) = assemble_candles(&ts, &q, Some(&plan), &splits);

    assert!(dropped.is_empty());
    assert_eq!(candles.len(), 2);
    assert_eq!(candles[0].close, d(50));
    assert_eq!(candles[0].close_unadj, d(100));
    assert_eq!(candles[1].close, d(50));
}

#[test]
fn assemble_drops_rows_without_factor() {
    let q = quote(&[100], &[100], &[100], &[100], &[1]);
    let plan = AdjustmentPlan::SplitAdjusted;
    let (candles, dropped) = assemble_candles(&[100], &q, Some(&plan), &[]);
    assert!(candles.is_empty());
    assert!(matches!(&dropped[0].issue, ProjectionIssue::InvalidField { field, details } if *field == "adjclose" && details == "missing precomputed adjustment factor"));
}

#[test]
fn checked_adjust_reports_overflow() {
    let factor = AdjustmentFactor::new(Dec::try_from_i128_with_scale(79_228_162_514_264_337_593_543_950_335, 0).unwrap(), d(1)).unwrap();
    let big = Dec::try_from_i128_with_scale(79_228_162_514_264_337_593_543_950_335, 0).unwrap();
    assert_eq!(checked_adjust_ohlc(d(1), big, d(1), d(1), &factor), Err(AdjustmentError::Overflow));
    assert_eq!(AdjustmentError::Overflow.diagnostic_target(), "adjusted candle prices (Decimal overflow)");
}

fn result(quotes: Vec<QuoteBlock>, adj: Vec<AdjCloseBlock>) -> ChartResult {
    ChartResult {
        meta: None,
        timestamp: Some(vec![1, 2]),
        indicators: Indicators { quote: quotes, adjclose: adj },
        events: None,
    }
}

#[test]
fn decode_chart_takes_the_first_series() {
    let q = quote(&[1, 2], &[1, 2], &[1, 2], &[1, 2], &[1, 1]);
    let env = ChartEnvelope {
        chart: Some(ChartNode {
            result: Some(vec![result(vec![q], vec![AdjCloseBlock { adjclose: values(&[7, 8]) }])]),
            error: None,
        }),
    };
    let f = decode_chart(env).unwrap();
    assert_eq!(f.ts, vec![1, 2]);
    assert_eq!(f.adjclose.len(), 2);
    assert_eq!(f.quote.open.len(), 2);
}

#[test]
fn decode_chart_reports_each_error() {
    assert!(matches!(decode_chart(ChartEnvelope { chart: None }), Err(ChartDecodeError::MissingChart)));
    let err = ChartEnvelope {
        chart: Some(ChartNode {
            result: None,
            error: Some(ChartError { code: "Not Found".into(), description: "No data".into() }),
        }),
    };
    assert!(matches!(decode_chart(err), Err(ChartDecodeError::Api(e)) if e.code == "Not Found"));
    let no_result = ChartEnvelope { chart: Some(ChartNode { result: None, error: None }) };
    assert!(matches!(decode_chart(no_result), Err(ChartDecodeError::MissingResult)));
    let empty = ChartEnvelope { chart: Some(ChartNode { result: Some(vec![]), error: None }) };
    assert!(matches!(decode_chart(empty), Err(ChartDecodeError::EmptyResult)));
    let no_quote = ChartEnvelope {
        chart: Some(ChartNode { result: Some(vec![result(vec![], vec![])]), error: None }),
    };
    assert!(matches!(decode_chart(no_quote), Err(ChartDecodeError::MissingQuote)));
}

#[test]
fn chart_query_prefers_period_and_lists_options() {
    let q = chart_query(Some(Range::Y1), Some((-5, 10)), Interval::D1, true, false).unwrap();
    let pairs: Vec<(&str, &str)> = q.iter().map(|(k, v)| (k.as_str(), v.as_str())).collect();
    assert_eq!(
        pairs,
        vec![
            ("period1", "-5"),
            ("period2", "10"),
            ("interval", "1d"),
            ("events", "div|split|capitalGains"),
            ("includePrePost", "false"),
        ]
    );
    let q = chart_query(Some(Range::M6), None, Interval::D1, false, true).unwrap();
    let pairs: Vec<(&str, &str)> = q.iter().map(|(k, v)| (k.as_str(), v.as_str())).collect();
    assert_eq!(pairs, vec![("range", "6mo"), ("interval", "1d"), ("includePrePost", "true")]);
}

#[test]
fn chart_query_rejects_bad_selections() {
    assert_eq!(chart_query(None, Some((10, 10)), Interval::D1, true, false), Err(ChartQueryError::InvalidDates));
    assert_eq!(chart_query(None, None, Interval::D1, true, false), Err(ChartQueryError::NoRangeOrPeriod));
}

#[test]
fn integer_text_matches_display() {
    for x in [0i64, 7, -7, 10, 1_700_000_000, i64::MIN, i64::MAX] {
        assert_eq!(int_to_text(x), x.to_string());
    }
}

#[test]
fn cache_modes_decide_reads_and_writes() {
    assert!(reads_cache(CacheMode::Use) && writes_cache(CacheMode::Use));
    assert!(!reads_cache(CacheMode::Refresh) && writes_cache(CacheMode::Refresh));
    assert!(!reads_cache(CacheMode::Bypass) && !writes_cache(CacheMode::Bypass));
}

#[test]
fn map_meta_keeps_timezone_and_offset() {
    let meta = MetaNode {
        symbol: Some("AAPL".into()),
        instrument_type: None,
        exchange_name: None,
        full_exchange_name: None,
        timezone: Some("EST".into()),
        exchange_timezone_name: None,
        gmtoffset: Some(-18000),
        currency: None,
        price_hint: None,
        data_granularity: None,
    };
    let m = map_meta(&Some(meta)).unwrap();
    assert_eq!(m.timezone.as_deref(), Some("EST"));
    assert_eq!(m.gmtoffset, Some(-18000));
    assert!(map_meta(&None).is_none());
}

#[test]
fn history_rows_keep_missing_rows_only_when_asked() {
    let mut q = quote(&[10, 11, 12], &[10, 11, 12], &[10, 11, 12], &[10, 11, 12], &[5, 6, 7]);
    q.close[1] = WireValue::Null;
    q.open[2] = WireValue::Invalid("x".into());
    let ts = [1_700_000_000i64, 1_700_086_400, 1_700_172_800];
    let kept = history_rows(&ts, &q, None, &[], true);
    assert_eq!(kept.len(), 2);
    assert!(matches!(&kept[0], HistoryRow::Bar(c) if c.ts == 1_700_000_000));
    match &kept[1] {
        HistoryRow::Missing(b) => {
            assert_eq!(b.ts, 1_700_086_400);
            assert_eq!((b.open, b.high, b.low), (Some(d(11)), Some(d(11)), Some(d(11))));
            assert_eq!((b.close, b.close_unadj, b.volume), (None, None, Some(6)));
        }
        other => panic!("expected a partial bar, got {other:?}"),
    }
    let dropped = history_rows(&ts, &q, None, &[], false);
    assert_eq!(dropped.len(), 1);
    assert!(matches!(&dropped[0], HistoryRow::Bar(c) if c.ts == 1_700_000_000));
}

#[test]
fn partial_bars_are_adjusted_like_candles() {
    let mut q = quote(&[100, 50], &[100, 50], &[100, 50], &[100, 50], &[1, 1]);
    q.high[0] = WireValue::Null;
    let ts = [100i64, 200];
    let splits = split_adjustments_after(&ts, &[(150, SplitRatio::new(2, 1))]);
    let plan = AdjustmentPlan::SplitAdjusted;
    let rows = history_rows(&ts, &q, Some(&plan), &splits, true);
    assert_eq!(rows.len(), 2);
    match &rows[0] {
        HistoryRow::Missing(b) => {
            assert_eq!((b.open, b.high, b.low, b.close), (Some(d(50)), None, Some(d(50)), Some(d(50))));
            assert_eq!((b.close_unadj, b.volume), (Some(d(100)), Some(1)));
        }
        other => panic!("expected a partial bar, got {other:?}"),
    }
    assert!(matches!(&rows[1], HistoryRow::Bar(c) if c.close == d(50)));
}
