//! A whole price history response, built from a decoded chart: the
//! corporate actions, the split adjustment of each bar, the adjustment plan
//! when prices are adjusted, and the candles and rows.
use crate::actions::{all_actions, entries, extract_actions, split_ratios, stable_sort, Action};
use crate::adjust::{
    pending_splits, split_adjustments_after, undoes_splits_from, AdjustmentFactor, AdjustmentPlan,
    SplitRatio,
};
use crate::assemble::{
    adjustment_plan_for_series, assemble_candles, candle_view, drop_reason, dropped_rows,
    history_row_view, history_rows, history_rows_of, kept_rows, provider_row_factor, rows_ok,
    rows_with_factor, Candle, DroppedRow, HistoryRow,
};
use crate::chart::{map_meta, Events, Fetched, HistoryMeta, MetaNode, QuoteBlock, WireValue};
use vstd::prelude::*;

verus! {

/// A price history with its actions and how it was adjusted.
#[derive(Debug)]
pub struct HistoryResponse {
    /// The candles, adjusted when asked.
    pub candles: Vec<Candle>,
    /// The rows that gave no candle.
    pub dropped: Vec<DroppedRow>,
    /// The rows in time order: the candles and, when the request keeps
    /// missing data, the rows whose prices are missing.
    pub rows: Vec<HistoryRow>,
    /// The corporate actions, in time order.
    pub actions: Vec<Action>,
    /// Whether prices are adjusted.
    pub adjusted: bool,
    /// Whether sparse provider adjustments were ignored for split ones.
    pub repaired: bool,
    /// Time zone metadata.
    pub meta: Option<HistoryMeta>,
    /// The plan the candles were adjusted by; none when they are not.
    pub plan: Option<AdjustmentPlan>,
    /// The split adjustment of each bar.
    pub split_factors: Vec<Option<AdjustmentFactor>>,
}

/// The corporate actions of a chart's events, in time order.
pub open spec fn actions_of(events: Option<Events>) -> Seq<Action> {
    match events {
        Some(ev) => stable_sort(all_actions(ev)),
        None => Seq::empty(),
    }
}

/// The splits of a chart's events as ratios, in time order.
pub open spec fn split_events_of(events: Option<Events>) -> Seq<(i64, SplitRatio)> {
    match events {
        Some(ev) => stable_sort(split_ratios(entries(ev.splits))),
        None => Seq::empty(),
    }
}

/// What is promised of the plan chosen for a series
/// ([`adjustment_plan_for_series`]): split adjustments where the provider
/// gives no factor, the provider's factors where every usable row has one,
/// and split adjustments, marked as a repair, where only some rows have one.
pub open spec fn plan_for_series(
    q: QuoteBlock,
    adj: Seq<WireValue>,
    len: int,
    plan: AdjustmentPlan,
    repaired: bool,
) -> bool {
    &&& rows_with_factor(q, adj, len) == 0 ==> plan is SplitAdjusted && !repaired
    &&& 0 < rows_with_factor(q, adj, len) == rows_ok(q, len) ==> {
        &&& !repaired
        &&& plan matches AdjustmentPlan::ProviderAdjusted { row_factors }
        &&& row_factors@.len() == len
        &&& forall|i: int| 0 <= i < len ==> provider_row_factor(q, adj, i, #[trigger] row_factors@[i])
    }
    &&& 0 < rows_with_factor(q, adj, len) < rows_ok(q, len) ==> plan is SplitAdjusted && repaired
}

/// The split adjustment of each bar undoes the splits after it
/// ([`split_adjustments_after`]).
pub open spec fn split_factors_for(
    ts: Seq<i64>,
    events: Seq<(i64, SplitRatio)>,
    factors: Seq<Option<AdjustmentFactor>>,
) -> bool {
    &&& factors.len() == ts.len()
    &&& forall|i: int|
        0 <= i < ts.len() ==> (#[trigger] factors[i]) is Some && undoes_splits_from(
            factors[i]->0@,
            events,
            pending_splits(ts, events, i) as int,
        )
}

/// The rows that gave no candle, in order, each with its time and the
/// reason ([`dropped_rows`], [`drop_reason`]).
pub open spec fn dropped_as(
    ts: Seq<i64>,
    q: QuoteBlock,
    plan: Option<AdjustmentPlan>,
    splits: Seq<Option<AdjustmentFactor>>,
    dropped: Seq<DroppedRow>,
) -> bool {
    let rows = dropped_rows(ts, q, plan, splits, ts.len() as int);
    &&& dropped.len() == rows.len()
    &&& forall|k: int|
        0 <= k < dropped.len() ==> {
            let i = rows[k];
            &&& 0 <= i < ts.len()
            &&& (#[trigger] dropped[k]).ts == ts[i]
            &&& drop_reason(ts, q, plan, splits, i, dropped[k].issue)
        }
}

/// The whole response of a history request from its decoded chart: the
/// actions in time order, the split adjustment of each bar, the adjustment
/// plan when `auto_adjust` holds, the candles and dropped rows under that
/// plan, the rows (with missing ones when `keepna` holds) and the metadata.
pub fn history_response(fetched: &Fetched, auto_adjust: bool, keepna: bool) -> (r: HistoryResponse)
    ensures
        r.adjusted == auto_adjust,
        r.actions@ == actions_of(fetched.events),
        split_factors_for(fetched.ts@, split_events_of(fetched.events), r.split_factors@),
        auto_adjust ==> (r.plan matches Some(p) && plan_for_series(
            fetched.quote,
            fetched.adjclose@,
            fetched.ts@.len() as int,
            p,
            r.repaired,
        )),
        !auto_adjust ==> r.plan is None && !r.repaired,
        r.candles@.map_values(|c: Candle| candle_view(c)) == kept_rows(
            fetched.ts@,
            fetched.quote,
            r.plan,
            r.split_factors@,
            fetched.ts@.len() as int,
        ),
        dropped_as(fetched.ts@, fetched.quote, r.plan, r.split_factors@, r.dropped@),
        r.rows@.map_values(|x: HistoryRow| history_row_view(x)) == history_rows_of(
            fetched.ts@,
            fetched.quote,
            r.plan,
            r.split_factors@,
            keepna,
            fetched.ts@.len() as int,
        ),
        match fetched.meta {
            None => r.meta is None,
            Some(mm) => r.meta matches Some(h) && crate::profile::text_of(h.timezone)
                == crate::profile::text_of(mm.timezone) && h.gmtoffset == mm.gmtoffset,
        },
{
    let (actions, split_events) = extract_actions(&fetched.events);
    let split_factors = split_adjustments_after(fetched.ts.as_slice(), split_events.as_slice());
    let (plan, repaired) = if auto_adjust {
        let (p, rep) = adjustment_plan_for_series(&fetched.quote, &fetched.adjclose, fetched.ts.len());
        (Some(p), rep)
    } else {
        (None, false)
    };
    let (candles, dropped) = assemble_candles(
        fetched.ts.as_slice(),
        &fetched.quote,
        plan.as_ref(),
        split_factors.as_slice(),
    );
    let rows = history_rows(
        fetched.ts.as_slice(),
        &fetched.quote,
        plan.as_ref(),
        split_factors.as_slice(),
        keepna,
    );
    let meta = map_meta(&fetched.meta);
    proof {
        assert(actions@ =~= actions_of(fetched.events));
        assert(split_events@ =~= split_events_of(fetched.events));
    }
    HistoryResponse {
        candles,
        dropped,
        rows,
        actions,
        adjusted: auto_adjust,
        repaired,
        meta,
        plan,
        split_factors,
    }
}

} // verus!
