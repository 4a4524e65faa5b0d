//! Building candles from a chart series: choosing the adjustment plan and
//! reading, adjusting or dropping each row.
use crate::adjust::{
    apply_spec, provider_adjustment_factor, provider_factor, provider_ratio_defined, AdjustmentFactor,
    AdjustmentPlan,
};
use crate::chart::{
    entry_at, entry_decimal, first_invalid, missing_names, ohlc_outcome, raw_ohlc_values,
    ProjectionIssue, QuoteBlock, WireValue,
};
use crate::bignat::pow10;
use crate::decimal::{lemma_round_dp_nearest, round_dp_spec, Dec, MAX_SCALE};
use crate::ratio::AdjustmentError;
use vstd::prelude::*;

verus! {

/// Whether `secs` seconds after the Unix epoch is a UTC time that chrono can
/// represent: from January 1, 262144 BCE, 00:00:00, to December 31,
/// 262142 CE, 23:59:59 (`NaiveDate::MIN` and `NaiveDate::MAX`).
pub open spec fn utc_timestamp_valid(secs: i64) -> bool {
    -8_334_601_228_800 <= secs <= 8_210_266_876_799
}

/// Whether `secs` seconds after the Unix epoch is a representable UTC time:
/// `chrono::DateTime::<chrono::Utc>::from_timestamp` with no nanoseconds
/// gives a time. Trusted: chrono's source gives one exactly when the day
/// falls within `NaiveDate::MIN..=NaiveDate::MAX` ([`utc_timestamp_valid`]).
#[verifier::external_body]
pub(crate) fn timestamp_valid(secs: i64) -> (b: bool)
    ensures
        b == utc_timestamp_valid(secs),
{
    chrono::DateTime::<chrono::Utc>::from_timestamp(secs, 0).is_some()
}

/// The four price entries of row `i`.
pub open spec fn row_entries(q: QuoteBlock, i: int) -> (
    Option<WireValue>,
    Option<WireValue>,
    Option<WireValue>,
    Option<WireValue>,
) {
    (entry_at(q.open@, i), entry_at(q.high@, i), entry_at(q.low@, i), entry_at(q.close@, i))
}

/// Whether row `i` has four decimal prices.
pub open spec fn row_ok(q: QuoteBlock, i: int) -> bool {
    let (o, h, l, c) = row_entries(q, i);
    &&& first_invalid(o, h, l, c) is None
    &&& missing_names(entry_decimal(o), entry_decimal(h), entry_decimal(l), entry_decimal(c)).len() == 0
}

/// The close of row `i`, when the row has four decimal prices.
pub open spec fn row_close(q: QuoteBlock, i: int) -> Option<Dec> {
    if row_ok(q, i) {
        entry_decimal(entry_at(q.close@, i))
    } else {
        None
    }
}

/// The adjusted close at row `i`, when it is a decimal.
pub open spec fn adj_at(adj: Seq<WireValue>, i: int) -> Option<Dec> {
    entry_decimal(entry_at(adj, i))
}

/// Whether row `i` gets a provider factor.
pub open spec fn row_has_factor(q: QuoteBlock, adj: Seq<WireValue>, i: int) -> bool {
    &&& row_ok(q, i)
    &&& adj_at(adj, i) is Some
    &&& provider_ratio_defined(adj_at(adj, i)->0, row_close(q, i)->0)
}

/// The number of rows below `n` with four decimal prices.
pub open spec fn rows_ok(q: QuoteBlock, n: int) -> nat
    decreases n,
{
    if n <= 0 {
        0
    } else {
        rows_ok(q, n - 1) + if row_ok(q, n - 1) {
            1nat
        } else {
            0nat
        }
    }
}

/// The number of rows below `n` that get a provider factor.
pub open spec fn rows_with_factor(q: QuoteBlock, adj: Seq<WireValue>, n: int) -> nat
    decreases n,
{
    if n <= 0 {
        0
    } else {
        rows_with_factor(q, adj, n - 1) + if row_has_factor(q, adj, n - 1) {
            1nat
        } else {
            0nat
        }
    }
}

/// The factor of row `i` in a provider plan: the provider factor of its
/// close and adjusted close, none for a row without four decimal prices.
pub open spec fn provider_row_factor(q: QuoteBlock, adj: Seq<WireValue>, i: int, f: Option<AdjustmentFactor>) -> bool {
    if row_ok(q, i) {
        provider_factor(adj_at(adj, i), row_close(q, i), f)
    } else {
        f is None
    }
}

fn entry(v: &Vec<WireValue>, i: usize) -> (r: Option<&WireValue>)
    ensures
        match r {
            Some(x) => entry_at(v@, i as int) == Some(*x),
            None => entry_at(v@, i as int) is None,
        },
{
    if i < v.len() {
        Some(&v[i])
    } else {
        None
    }
}

/// Reads the four prices of row `i`.
fn read_row(q: &QuoteBlock, i: usize) -> (r: Result<(Dec, Dec, Dec, Dec), ProjectionIssue>)
    ensures
        ohlc_outcome(
            entry_at(q.open@, i as int),
            entry_at(q.high@, i as int),
            entry_at(q.low@, i as int),
            entry_at(q.close@, i as int),
            r,
        ),
{
    raw_ohlc_values(entry(&q.open, i), entry(&q.high, i), entry(&q.low, i), entry(&q.close, i))
}

/// The adjustment plan of a series of `len` rows: provider factors when
/// every row with four decimal prices has one; split adjustments when no
/// row has one; split adjustments as a repair, reported by the flag, when
/// only some rows have one.
pub fn adjustment_plan_for_series(q: &QuoteBlock, adj: &Vec<WireValue>, len: usize) -> (r: (AdjustmentPlan, bool))
    ensures
        rows_with_factor(*q, adj@, len as int) == 0 ==> r.0 is SplitAdjusted && !r.1,
        0 < rows_with_factor(*q, adj@, len as int) == rows_ok(*q, len as int) ==> {
            &&& !r.1
            &&& r.0 matches AdjustmentPlan::ProviderAdjusted { row_factors }
            &&& row_factors@.len() == len
            &&& forall|i: int| 0 <= i < len ==> provider_row_factor(*q, adj@, i, #[trigger] row_factors@[i])
        },
        0 < rows_with_factor(*q, adj@, len as int) < rows_ok(*q, len as int) ==> r.0 is SplitAdjusted && r.1,
{
    let mut emitted: usize = 0;
    let mut provider_rows: usize = 0;
    let mut row_factors: Vec<Option<AdjustmentFactor>> = Vec::new();
    let mut i: usize = 0;
    while i < len
        invariant
            i <= len,
            emitted == rows_ok(*q, i as int),
            provider_rows == rows_with_factor(*q, adj@, i as int),
            emitted <= i,
            provider_rows <= emitted,
            row_factors@.len() == i,
            forall|k: int| 0 <= k < i ==> provider_row_factor(*q, adj@, k, #[trigger] row_factors@[k]),
        decreases len - i,
    {
        match read_row(q, i) {
            Err(_) => {
                row_factors.push(None);
            },
            Ok((_o, _h, _l, close)) => {
                emitted = emitted + 1;
                let adjclose = match entry(adj, i) {
                    Some(WireValue::Value(d)) => Some(*d),
                    _ => None,
                };
                let factor = provider_adjustment_factor(adjclose, Some(close));
                if factor.is_some() {
                    provider_rows = provider_rows + 1;
                }
                row_factors.push(factor);
            },
        }
        i = i + 1;
    }
    if provider_rows == 0 {
        return (AdjustmentPlan::SplitAdjusted, false);
    }
    if provider_rows == emitted {
        return (AdjustmentPlan::ProviderAdjusted { row_factors }, false);
    }
    (AdjustmentPlan::SplitAdjusted, true)
}

/// What applying `f` to open, high, low and close gives: the first error,
/// or the four adjusted prices.
pub open spec fn adjusted_ohlc(f: (nat, nat, Option<(Dec, Dec)>), o: Dec, h: Dec, l: Dec, c: Dec) -> Result<
    ((int, nat), (int, nat), (int, nat), (int, nat)),
    AdjustmentError,
> {
    match apply_spec(f, o@) {
        Err(e) => Err(e),
        Ok(a) => match apply_spec(f, h@) {
            Err(e) => Err(e),
            Ok(b) => match apply_spec(f, l@) {
                Err(e) => Err(e),
                Ok(x) => match apply_spec(f, c@) {
                    Err(e) => Err(e),
                    Ok(d) => Ok((a, b, x, d)),
                },
            },
        },
    }
}

/// Applies `factor` to the four prices of a row ([`adjusted_ohlc`]).
pub fn checked_adjust_ohlc(open: Dec, high: Dec, low: Dec, close: Dec, factor: &AdjustmentFactor) -> (r: Result<
    (Dec, Dec, Dec, Dec),
    AdjustmentError,
>)
    ensures
        match adjusted_ohlc(factor@, open, high, low, close) {
            Err(e) => r == Err::<(Dec, Dec, Dec, Dec), AdjustmentError>(e),
            Ok((a, b, x, d)) => r matches Ok(v) && v.0@ == a && v.1@ == b && v.2@ == x && v.3@ == d,
        },
{
    let a = match factor.apply(open) {
        Ok(v) => v,
        Err(e) => return Err(e),
    };
    let b = match factor.apply(high) {
        Ok(v) => v,
        Err(e) => return Err(e),
    };
    let x = match factor.apply(low) {
        Ok(v) => v,
        Err(e) => return Err(e),
    };
    let d = match factor.apply(close) {
        Ok(v) => v,
        Err(e) => return Err(e),
    };
    Ok((a, b, x, d))
}

/// A candle before it is priced in a currency: its time, its (adjusted)
/// prices, its unadjusted close and its volume.
#[derive(Debug, Clone, Copy)]
pub struct Candle {
    pub ts: i64,
    pub open: Dec,
    pub high: Dec,
    pub low: Dec,
    pub close: Dec,
    pub close_unadj: Dec,
    pub volume: Option<u64>,
}

/// A row that gave no candle, with the reason.
#[derive(Debug, Clone)]
pub struct DroppedRow {
    pub ts: i64,
    pub issue: ProjectionIssue,
}

/// The view of a candle: time, open, high, low, close, unadjusted close,
/// volume.
pub type CandleView = (i64, (int, nat), (int, nat), (int, nat), (int, nat), (int, nat), Option<u64>);

/// The view of a candle row.
pub open spec fn candle_view(c: Candle) -> CandleView {
    (c.ts, c.open@, c.high@, c.low@, c.close@, c.close_unadj@, c.volume)
}

/// The factor a plan gives row `i`.
pub open spec fn plan_factor(plan: AdjustmentPlan, i: int, splits: Seq<Option<AdjustmentFactor>>) -> Option<
    AdjustmentFactor,
> {
    match plan {
        AdjustmentPlan::ProviderAdjusted { row_factors } => if 0 <= i < row_factors@.len() {
            row_factors@[i]
        } else {
            None
        },
        AdjustmentPlan::SplitAdjusted => if 0 <= i < splits.len() {
            splits[i]
        } else {
            None
        },
    }
}

/// The volume of row `i`.
pub open spec fn volume_at(q: QuoteBlock, i: int) -> Option<u64> {
    if 0 <= i < q.volume@.len() {
        q.volume@[i]
    } else {
        None
    }
}

/// The candle of row `i`, if the row gives one: its timestamp must be a
/// UTC time, it must have four decimal prices, and under a plan it must
/// have a factor that adjusts all four without error.
pub open spec fn row_candle(
    ts: Seq<i64>,
    q: QuoteBlock,
    plan: Option<AdjustmentPlan>,
    splits: Seq<Option<AdjustmentFactor>>,
    i: int,
) -> Option<CandleView> {
    if !utc_timestamp_valid(ts[i]) || !row_ok(q, i) {
        None
    } else {
        let o = entry_decimal(entry_at(q.open@, i))->0;
        let h = entry_decimal(entry_at(q.high@, i))->0;
        let l = entry_decimal(entry_at(q.low@, i))->0;
        let c = entry_decimal(entry_at(q.close@, i))->0;
        match plan {
            None => Some((ts[i], o@, h@, l@, c@, c@, volume_at(q, i))),
            Some(p) => match plan_factor(p, i, splits) {
                None => None,
                Some(f) => match adjusted_ohlc(f@, o, h, l, c) {
                    Err(_) => None,
                    Ok((a, b, x, d)) => Some((ts[i], a, b, x, d, c@, volume_at(q, i))),
                },
            },
        }
    }
}

/// Why row `i` gives no candle: an invalid timestamp; the reading of its
/// prices; a plan without a factor for it; or the adjustment's error.
pub open spec fn drop_reason(
    ts: Seq<i64>,
    q: QuoteBlock,
    plan: Option<AdjustmentPlan>,
    splits: Seq<Option<AdjustmentFactor>>,
    i: int,
    issue: ProjectionIssue,
) -> bool {
    let (o, h, l, c) = row_entries(q, i);
    if !utc_timestamp_valid(ts[i]) {
        issue matches ProjectionIssue::InvalidField { field, details } && field@ == "timestamp"@
            && details@ == "timestamp out of range"@
    } else if !row_ok(q, i) {
        ohlc_outcome(o, h, l, c, Err(issue))
    } else {
        match plan {
            None => false,
            Some(p) => match plan_factor(p, i, splits) {
                None => issue matches ProjectionIssue::InvalidField { field, details } && field@ == "adjclose"@
                    && details@ == "missing precomputed adjustment factor"@,
                Some(f) => match adjusted_ohlc(
                    f@,
                    entry_decimal(o)->0,
                    entry_decimal(h)->0,
                    entry_decimal(l)->0,
                    entry_decimal(c)->0,
                ) {
                    Err(e) => issue matches ProjectionIssue::ConversionFailed { target } && target@ == (match e {
                        AdjustmentError::Underflow => "adjusted candle prices (Decimal underflow)"@,
                        AdjustmentError::Overflow => "adjusted candle prices (Decimal overflow)"@,
                    }),
                    Ok(_) => false,
                },
            },
        }
    }
}

/// The candles of rows `0..n`, in order.
pub open spec fn kept_rows(
    ts: Seq<i64>,
    q: QuoteBlock,
    plan: Option<AdjustmentPlan>,
    splits: Seq<Option<AdjustmentFactor>>,
    n: int,
) -> Seq<CandleView>
    decreases n,
{
    if n <= 0 {
        Seq::empty()
    } else {
        let before = kept_rows(ts, q, plan, splits, n - 1);
        match row_candle(ts, q, plan, splits, n - 1) {
            Some(v) => before.push(v),
            None => before,
        }
    }
}

/// The rows among `0..n` that give no candle, in order.
pub open spec fn dropped_rows(
    ts: Seq<i64>,
    q: QuoteBlock,
    plan: Option<AdjustmentPlan>,
    splits: Seq<Option<AdjustmentFactor>>,
    n: int,
) -> Seq<int>
    decreases n,
{
    if n <= 0 {
        Seq::empty()
    } else {
        let before = dropped_rows(ts, q, plan, splits, n - 1);
        if row_candle(ts, q, plan, splits, n - 1) is None {
            before.push(n - 1)
        } else {
            before
        }
    }
}

/// The candle of row `i`, or why it gives none.
fn candle_for_row(
    ts: &[i64],
    q: &QuoteBlock,
    adjustment_plan: Option<&AdjustmentPlan>,
    split_adjustments: &[Option<AdjustmentFactor>],
    i: usize,
) -> (r: Result<Candle, ProjectionIssue>)
    requires
        i < ts@.len(),
    ensures
        match row_candle(
            ts@,
            *q,
            match adjustment_plan {
                Some(p) => Some(*p),
                None => None,
            },
            split_adjustments@,
            i as int,
        ) {
            Some(v) => r matches Ok(c) && candle_view(c) == v && c.ts == ts@[i as int],
            None => r matches Err(issue) && drop_reason(
                ts@,
                *q,
                match adjustment_plan {
                    Some(p) => Some(*p),
                    None => None,
                },
                split_adjustments@,
                i as int,
                issue,
            ),
        },
{
    proof {
        reveal_strlit("timestamp");
        reveal_strlit("adjclose");
    }
    let t = ts[i];
    if !timestamp_valid(t) {
        return Err(ProjectionIssue::InvalidField { field: "timestamp", details: "timestamp out of range".to_owned() });
    }
    let volume = if i < q.volume.len() {
        q.volume[i]
    } else {
        None
    };
    let (open, high, low, close) = match read_row(q, i) {
        Ok(v) => v,
        Err(reason) => return Err(reason),
    };
    match adjustment_plan {
        None => Ok(Candle { ts: t, open, high, low, close, close_unadj: close, volume }),
        Some(plan_ref) => {
            let factor = match plan_ref.factor_for_row(i, split_adjustments) {
                Some(f) => f,
                None => {
                    return Err(
                        ProjectionIssue::InvalidField {
                            field: "adjclose",
                            details: "missing precomputed adjustment factor".to_owned(),
                        },
                    );
                },
            };
            match checked_adjust_ohlc(open, high, low, close, factor) {
                Ok((a, b, x, d)) => Ok(Candle { ts: t, open: a, high: b, low: x, close: d, close_unadj: close, volume }),
                Err(error) => Err(ProjectionIssue::ConversionFailed { target: error.diagnostic_target() }),
            }
        },
    }
}

/// The candles of a series, with the rows that give none: each row is kept
/// or dropped as [`row_candle`] says, and each dropped row carries its
/// [`drop_reason`].
pub fn assemble_candles(
    ts: &[i64],
    q: &QuoteBlock,
    adjustment_plan: Option<&AdjustmentPlan>,
    split_adjustments: &[Option<AdjustmentFactor>],
) -> (r: (Vec<Candle>, Vec<DroppedRow>))
    ensures
        r.0@.map_values(|c: Candle| candle_view(c)) == kept_rows(
            ts@,
            *q,
            match adjustment_plan {
                Some(p) => Some(*p),
                None => None,
            },
            split_adjustments@,
            ts@.len() as int,
        ),
        r.1@.len() == dropped_rows(
            ts@,
            *q,
            match adjustment_plan {
                Some(p) => Some(*p),
                None => None,
            },
            split_adjustments@,
            ts@.len() as int,
        ).len(),
        forall|k: int|
            0 <= k < r.1@.len() ==> {
                let i = dropped_rows(
                    ts@,
                    *q,
                    match adjustment_plan {
                        Some(p) => Some(*p),
                        None => None,
                    },
                    split_adjustments@,
                    ts@.len() as int,
                )[k];
                &&& 0 <= i < ts@.len()
                &&& (#[trigger] r.1@[k]).ts == ts@[i]
                &&& drop_reason(
                    ts@,
                    *q,
                    match adjustment_plan {
                        Some(p) => Some(*p),
                        None => None,
                    },
                    split_adjustments@,
                    i,
                    r.1@[k].issue,
                )
            },
{
    let ghost plan = match adjustment_plan {
        Some(p) => Some(*p),
        None => None,
    };
    let mut out: Vec<Candle> = Vec::new();
    let mut dropped: Vec<DroppedRow> = Vec::new();
    let mut i: usize = 0;
    while i < ts.len()
        invariant
            i <= ts@.len(),
            plan == match adjustment_plan {
                Some(p) => Some(*p),
                None => None::<AdjustmentPlan>,
            },
            out@.map_values(|c: Candle| candle_view(c)) == kept_rows(ts@, *q, plan, split_adjustments@, i as int),
            dropped@.len() == dropped_rows(ts@, *q, plan, split_adjustments@, i as int).len(),
            forall|k: int|
                0 <= k < dropped@.len() ==> {
                    let j = dropped_rows(ts@, *q, plan, split_adjustments@, i as int)[k];
                    &&& 0 <= j < i
                    &&& (#[trigger] dropped@[k]).ts == ts@[j]
                    &&& drop_reason(ts@, *q, plan, split_adjustments@, j, dropped@[k].issue)
                },
        decreases ts.len() - i,
    {
        let t = ts[i];
        let ghost before_out = out@;
        let ghost before_dropped = dropped@;
        let ghost prev = dropped_rows(ts@, *q, plan, split_adjustments@, i as int);
        let outcome = candle_for_row(ts, q, adjustment_plan, split_adjustments, i);
        match outcome {
            Ok(c) => {
                out.push(c);
                proof {
                    assert(out@.map_values(|c: Candle| candle_view(c)) =~= before_out.map_values(
                        |c: Candle| candle_view(c),
                    ).push(candle_view(c)));
                }
            },
            Err(issue) => {
                dropped.push(DroppedRow { ts: t, issue });
                proof {
                    let now = dropped_rows(ts@, *q, plan, split_adjustments@, i + 1);
                    assert(now == prev.push(i as int));
                    assert forall|k: int| 0 <= k < dropped@.len() implies {
                        let j = now[k];
                        &&& 0 <= j < i + 1
                        &&& (#[trigger] dropped@[k]).ts == ts@[j]
                        &&& drop_reason(ts@, *q, plan, split_adjustments@, j, dropped@[k].issue)
                    } by {
                        if k < before_dropped.len() {
                            assert(dropped@[k] == before_dropped[k]);
                        }
                    }
                }
            },
        }
        i = i + 1;
    }
    (out, dropped)
}

/// Every row of a series either gives a candle or is reported as dropped:
/// the candles and the dropped rows of rows `0..n` number `n` together.
pub proof fn lemma_rows_partition(
    ts: Seq<i64>,
    q: QuoteBlock,
    plan: Option<AdjustmentPlan>,
    splits: Seq<Option<AdjustmentFactor>>,
    n: int,
)
    requires
        0 <= n,
    ensures
        kept_rows(ts, q, plan, splits, n).len() + dropped_rows(ts, q, plan, splits, n).len() == n,
    decreases n,
{
    if n > 0 {
        lemma_rows_partition(ts, q, plan, splits, n - 1);
    }
}

/// Without an adjustment plan, every candle's close is its unadjusted close.
pub proof fn lemma_unadjusted_candles_keep_close(
    ts: Seq<i64>,
    q: QuoteBlock,
    splits: Seq<Option<AdjustmentFactor>>,
    n: int,
)
    requires
        0 <= n,
    ensures
        forall|k: int|
            0 <= k < kept_rows(ts, q, None, splits, n).len() ==> (#[trigger] kept_rows(ts, q, None, splits, n)[k]).4
                == kept_rows(ts, q, None, splits, n)[k].5,
    decreases n,
{
    if n > 0 {
        lemma_unadjusted_candles_keep_close(ts, q, splits, n - 1);
        let before = kept_rows(ts, q, None, splits, n - 1);
        assert forall|k: int|
            0 <= k < kept_rows(ts, q, None, splits, n).len() implies (#[trigger] kept_rows(
            ts,
            q,
            None,
            splits,
            n,
        )[k]).4 == kept_rows(ts, q, None, splits, n)[k].5 by {
            if k < before.len() {
                assert(kept_rows(ts, q, None, splits, n)[k] == before[k]);
            }
        }
    }
}

/// The largest number of fractional digits a price is rounded to.
pub open spec fn hint_scale(price_hint: u32) -> nat {
    if price_hint <= MAX_SCALE {
        price_hint as nat
    } else {
        MAX_SCALE as nat
    }
}

/// A candle with its prices rounded to `dp` fractional digits.
pub open spec fn rounded_candle(c: CandleView, dp: nat) -> CandleView {
    (
        c.0,
        round_dp_spec(c.1, dp),
        round_dp_spec(c.2, dp),
        round_dp_spec(c.3, dp),
        round_dp_spec(c.4, dp),
        round_dp_spec(c.5, dp),
        c.6,
    )
}

/// Rounds the prices of every candle to the precision the provider quotes
/// them at, `price_hint` fractional digits (at most 28), ties to even; times
/// and volumes stay.
pub fn round_candle_prices(candles: &mut Vec<Candle>, price_hint: u32)
    ensures
        final(candles)@.len() == old(candles)@.len(),
        forall|i: int|
            0 <= i < old(candles)@.len() ==> candle_view(#[trigger] final(candles)@[i])
                == rounded_candle(candle_view(old(candles)@[i]), hint_scale(price_hint)),
{
    let dp: u32 = if price_hint <= MAX_SCALE {
        price_hint
    } else {
        MAX_SCALE
    };
    let ghost before = candles@;
    let mut i: usize = 0;
    while i < candles.len()
        invariant
            i <= candles@.len() == before.len(),
            dp as nat == hint_scale(price_hint),
            forall|j: int|
                0 <= j < i ==> candle_view(#[trigger] candles@[j]) == rounded_candle(
                    candle_view(before[j]),
                    dp as nat,
                ),
            forall|j: int| i <= j < before.len() ==> #[trigger] candles@[j] == before[j],
        decreases before.len() - i,
    {
        let c = &candles[i];
        let row = Candle {
            ts: c.ts,
            open: c.open.round_dp(dp),
            high: c.high.round_dp(dp),
            low: c.low.round_dp(dp),
            close: c.close.round_dp(dp),
            close_unadj: c.close_unadj.round_dp(dp),
            volume: c.volume,
        };
        candles.set(i, row);
        i = i + 1;
    }
}

/// Whether row `i` has a valid time and its prices are missing or `null`
/// (none holds something that is not a number).
pub open spec fn row_missing_prices(ts: Seq<i64>, q: QuoteBlock, i: int) -> bool {
    let (o, h, l, c) = row_entries(q, i);
    &&& utc_timestamp_valid(ts[i])
    &&& first_invalid(o, h, l, c) is None
    &&& missing_names(entry_decimal(o), entry_decimal(h), entry_decimal(l), entry_decimal(c)).len() > 0
}

/// A bar whose prices are partly missing, kept with what it has: each price
/// that is present and can be adjusted as a candle would be, its unadjusted
/// close and its volume; a missing price is `None`.
#[derive(Debug, Clone, Copy)]
pub struct PartialBar {
    pub ts: i64,
    pub open: Option<Dec>,
    pub high: Option<Dec>,
    pub low: Option<Dec>,
    pub close: Option<Dec>,
    pub close_unadj: Option<Dec>,
    pub volume: Option<u64>,
}

/// A row of a history: a candle, or, when missing data is asked to be kept,
/// a bar with missing prices.
#[derive(Debug, Clone)]
pub enum HistoryRow {
    Bar(Candle),
    Missing(PartialBar),
}

/// The view of a partial bar: time, open, high, low, close, unadjusted
/// close, volume.
pub type PartialView = (
    i64,
    Option<(int, nat)>,
    Option<(int, nat)>,
    Option<(int, nat)>,
    Option<(int, nat)>,
    Option<(int, nat)>,
    Option<u64>,
);

/// The view of an optional price.
pub open spec fn price_view(d: Option<Dec>) -> Option<(int, nat)> {
    match d {
        Some(x) => Some(x@),
        None => None,
    }
}

/// The view of a partial bar.
pub open spec fn partial_bar_view(b: PartialBar) -> PartialView {
    (b.ts, price_view(b.open), price_view(b.high), price_view(b.low), price_view(b.close), price_view(b.close_unadj), b.volume)
}

/// The view of a history row.
pub enum HistoryRowView {
    Bar(CandleView),
    Partial(PartialView),
}

/// The view of a history row.
pub open spec fn history_row_view(r: HistoryRow) -> HistoryRowView {
    match r {
        HistoryRow::Bar(c) => HistoryRowView::Bar(candle_view(c)),
        HistoryRow::Missing(b) => HistoryRowView::Partial(partial_bar_view(b)),
    }
}

/// The factor row `i` gets under a plan, if any.
pub open spec fn row_factor(plan: Option<AdjustmentPlan>, splits: Seq<Option<AdjustmentFactor>>, i: int) -> Option<
    AdjustmentFactor,
> {
    match plan {
        Some(p) => plan_factor(p, i, splits),
        None => None,
    }
}

/// A present price as a candle would carry it: as given without a plan;
/// under a plan, adjusted by the row's factor, and missing when the row has
/// no factor or the adjustment fails.
pub open spec fn partial_price(
    d: Option<Dec>,
    plan: Option<AdjustmentPlan>,
    f: Option<AdjustmentFactor>,
) -> Option<(int, nat)> {
    match d {
        None => None,
        Some(x) => match plan {
            None => Some(x@),
            Some(_) => match f {
                None => None,
                Some(g) => match apply_spec(g@, x@) {
                    Ok(v) => Some(v),
                    Err(_) => None,
                },
            },
        },
    }
}

/// The partial bar of row `i`: its present prices ([`partial_price`]), its
/// close as given, and its volume.
pub open spec fn partial_row(
    ts: Seq<i64>,
    q: QuoteBlock,
    plan: Option<AdjustmentPlan>,
    splits: Seq<Option<AdjustmentFactor>>,
    i: int,
) -> PartialView {
    let f = row_factor(plan, splits, i);
    let (o, h, l, c) = row_entries(q, i);
    (
        ts[i],
        partial_price(entry_decimal(o), plan, f),
        partial_price(entry_decimal(h), plan, f),
        partial_price(entry_decimal(l), plan, f),
        partial_price(entry_decimal(c), plan, f),
        price_view(entry_decimal(c)),
        volume_at(q, i),
    )
}

/// The rows `0..n` of a series in order: each row that gives a candle, and,
/// when `keepna` holds, each row whose prices are missing, with what it has
/// ([`partial_row`]).
pub open spec fn history_rows_of(
    ts: Seq<i64>,
    q: QuoteBlock,
    plan: Option<AdjustmentPlan>,
    splits: Seq<Option<AdjustmentFactor>>,
    keepna: bool,
    n: int,
) -> Seq<HistoryRowView>
    decreases n,
{
    if n <= 0 {
        Seq::empty()
    } else {
        let prev = history_rows_of(ts, q, plan, splits, keepna, n - 1);
        let i = n - 1;
        match row_candle(ts, q, plan, splits, i) {
            Some(v) => prev.push(HistoryRowView::Bar(v)),
            None => if keepna && row_missing_prices(ts, q, i) {
                prev.push(HistoryRowView::Partial(partial_row(ts, q, plan, splits, i)))
            } else {
                prev
            },
        }
    }
}

/// The decimal at `i` of a price column, if one is there.
fn entry_dec(v: &Vec<WireValue>, i: usize) -> (r: Option<Dec>)
    ensures
        r == entry_decimal(entry_at(v@, i as int)),
{
    if i < v.len() {
        match &v[i] {
            WireValue::Value(d) => Some(*d),
            _ => None,
        }
    } else {
        None
    }
}

/// A present price as a candle would carry it ([`partial_price`]).
fn partial_price_of(d: Option<Dec>, adjustment_plan: Option<&AdjustmentPlan>, f: Option<&AdjustmentFactor>) -> (r:
    Option<Dec>)
    ensures
        price_view(r) == partial_price(
            d,
            match adjustment_plan {
                Some(p) => Some(*p),
                None => None,
            },
            match f {
                Some(g) => Some(*g),
                None => None,
            },
        ),
{
    match d {
        None => None,
        Some(x) => match adjustment_plan {
            None => Some(x),
            Some(_) => match f {
                None => None,
                Some(g) => match g.apply(x) {
                    Ok(v) => Some(v),
                    Err(_) => None,
                },
            },
        },
    }
}

/// The partial bar of row `i` ([`partial_row`]).
fn partial_for_row(
    ts: &[i64],
    q: &QuoteBlock,
    adjustment_plan: Option<&AdjustmentPlan>,
    split_adjustments: &[Option<AdjustmentFactor>],
    i: usize,
) -> (r: PartialBar)
    requires
        i < ts@.len(),
    ensures
        partial_bar_view(r) == partial_row(
            ts@,
            *q,
            match adjustment_plan {
                Some(p) => Some(*p),
                None => None,
            },
            split_adjustments@,
            i as int,
        ),
{
    let f = match adjustment_plan {
        Some(p) => p.factor_for_row(i, split_adjustments),
        None => None,
    };
    let o = entry_dec(&q.open, i);
    let h = entry_dec(&q.high, i);
    let l = entry_dec(&q.low, i);
    let c = entry_dec(&q.close, i);
    let volume = if i < q.volume.len() {
        q.volume[i]
    } else {
        None
    };
    PartialBar {
        ts: ts[i],
        open: partial_price_of(o, adjustment_plan, f),
        high: partial_price_of(h, adjustment_plan, f),
        low: partial_price_of(l, adjustment_plan, f),
        close: partial_price_of(c, adjustment_plan, f),
        close_unadj: c,
        volume,
    }
}

/// The rows of a series in time order ([`history_rows_of`]): its candles,
/// and, with `keepna`, the rows whose prices are missing.
pub fn history_rows(
    ts: &[i64],
    q: &QuoteBlock,
    adjustment_plan: Option<&AdjustmentPlan>,
    split_adjustments: &[Option<AdjustmentFactor>],
    keepna: bool,
) -> (r: Vec<HistoryRow>)
    ensures
        r@.map_values(|x: HistoryRow| history_row_view(x)) == history_rows_of(
            ts@,
            *q,
            match adjustment_plan {
                Some(p) => Some(*p),
                None => None,
            },
            split_adjustments@,
            keepna,
            ts@.len() as int,
        ),
{
    let ghost plan = match adjustment_plan {
        Some(p) => Some(*p),
        None => None,
    };
    let mut out: Vec<HistoryRow> = Vec::new();
    let mut i: usize = 0;
    while i < ts.len()
        invariant
            i <= ts@.len(),
            plan == match adjustment_plan {
                Some(p) => Some(*p),
                None => None,
            },
            out@.map_values(|x: HistoryRow| history_row_view(x)) == history_rows_of(
                ts@,
                *q,
                plan,
                split_adjustments@,
                keepna,
                i as int,
            ),
        decreases ts.len() - i,
    {
        let ghost before = out@;
        match candle_for_row(ts, q, adjustment_plan, split_adjustments, i) {
            Ok(c) => {
                out.push(HistoryRow::Bar(c));
            },
            Err(issue) => {
                let missing = match issue {
                    ProjectionIssue::MissingRequiredFields { .. } => true,
                    _ => false,
                };
                if keepna && missing {
                    out.push(HistoryRow::Missing(partial_for_row(ts, q, adjustment_plan, split_adjustments, i)));
                }
            },
        }
        proof {
            assert(out@.map_values(|x: HistoryRow| history_row_view(x)) =~= history_rows_of(
                ts@,
                *q,
                plan,
                split_adjustments@,
                keepna,
                i + 1,
            ));
        }
        i = i + 1;
    }
    out
}

/// `r` is `v` rounded to `dp` fractional digits: `v` itself when it has no
/// more digits than that; otherwise a value with exactly `dp` digits within
/// half a unit of the last of them from `v`.
pub open spec fn rounded_within_half_unit(v: (int, nat), r: (int, nat), dp: nat) -> bool {
    &&& r.1 <= dp
    &&& v.1 <= dp ==> r == v
    &&& v.1 > dp ==> {
        let p = pow10((v.1 - dp) as nat);
        &&& r.1 == dp
        &&& 2 * (r.0 * p - v.0) <= p
        &&& 2 * (v.0 - r.0 * p) <= p
    }
}

/// After rounding, every price of a candle (open, high, low, close and the
/// unadjusted close) has at most `dp` fractional digits and lies within half
/// a unit of that last digit of the price it came from; its time and volume
/// are unchanged.
pub proof fn lemma_rounded_candle_prices_are_near(c: CandleView, dp: nat)
    ensures
        rounded_candle(c, dp).0 == c.0,
        rounded_within_half_unit(c.1, rounded_candle(c, dp).1, dp),
        rounded_within_half_unit(c.2, rounded_candle(c, dp).2, dp),
        rounded_within_half_unit(c.3, rounded_candle(c, dp).3, dp),
        rounded_within_half_unit(c.4, rounded_candle(c, dp).4, dp),
        rounded_within_half_unit(c.5, rounded_candle(c, dp).5, dp),
        rounded_candle(c, dp).6 == c.6,
{
    lemma_round_dp_nearest(c.1, dp);
    lemma_round_dp_nearest(c.2, dp);
    lemma_round_dp_nearest(c.3, dp);
    lemma_round_dp_nearest(c.4, dp);
    lemma_round_dp_nearest(c.5, dp);
}

} // verus!
