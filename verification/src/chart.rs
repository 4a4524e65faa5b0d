//! The chart response: its data model, decoding it into the blocks a price
//! history is built from, and the per-row reading of its price arrays.
use crate::client::{interval_code, range_code, CacheMode, Interval, Range};
use crate::decimal::Dec;
use crate::text::{int_text, int_to_text};
use vstd::prelude::*;

verus! {

/// A number on the wire: `null`, a decimal, or a value that is not a
/// number (with what was found instead).
#[derive(Debug, Clone)]
pub enum WireValue {
    /// `null` or absent.
    Null,
    /// A decimal number.
    Value(Dec),
    /// Something that is not a number.
    Invalid(String),
}

/// An error the chart endpoint reports.
#[derive(Debug, Clone)]
pub struct ChartError {
    pub code: String,
    pub description: String,
}

/// Metadata of a chart series.
#[derive(Debug, Clone)]
pub struct MetaNode {
    pub symbol: Option<String>,
    pub instrument_type: Option<String>,
    pub exchange_name: Option<String>,
    pub full_exchange_name: Option<String>,
    pub timezone: Option<String>,
    pub exchange_timezone_name: Option<String>,
    pub gmtoffset: Option<i64>,
    pub currency: Option<String>,
    pub price_hint: Option<i64>,
    pub data_granularity: Option<String>,
}

/// The price arrays of a chart series, one entry per timestamp.
#[derive(Debug, Clone)]
pub struct QuoteBlock {
    pub open: Vec<WireValue>,
    pub high: Vec<WireValue>,
    pub low: Vec<WireValue>,
    pub close: Vec<WireValue>,
    pub volume: Vec<Option<u64>>,
}

/// The provider-adjusted closes of a chart series.
#[derive(Debug, Clone)]
pub struct AdjCloseBlock {
    pub adjclose: Vec<WireValue>,
}

/// The indicator blocks of a chart series.
#[derive(Debug, Clone)]
pub struct Indicators {
    pub quote: Vec<QuoteBlock>,
    pub adjclose: Vec<AdjCloseBlock>,
}

/// A dividend event.
#[derive(Debug, Clone)]
pub struct DividendEvent {
    pub amount: WireValue,
    pub date: Option<i64>,
    pub currency: Option<String>,
}

/// A split event; its components may be fractional.
#[derive(Debug, Clone)]
pub struct SplitEvent {
    pub numerator: Option<Dec>,
    pub denominator: Option<Dec>,
    pub split_ratio: Option<String>,
    pub date: Option<i64>,
}

/// A capital gain event.
#[derive(Debug, Clone)]
pub struct CapitalGainEvent {
    pub amount: WireValue,
    pub date: Option<i64>,
    pub currency: Option<String>,
}

/// The corporate events of a chart series, each keyed by its timestamp text,
/// in key order.
#[derive(Debug, Clone)]
pub struct Events {
    pub dividends: Option<Vec<(String, DividendEvent)>>,
    pub splits: Option<Vec<(String, SplitEvent)>>,
    pub capital_gains: Option<Vec<(String, CapitalGainEvent)>>,
}

/// One chart series.
#[derive(Debug, Clone)]
pub struct ChartResult {
    pub meta: Option<MetaNode>,
    pub timestamp: Option<Vec<i64>>,
    pub indicators: Indicators,
    pub events: Option<Events>,
}

/// The `chart` node of a response.
#[derive(Debug, Clone)]
pub struct ChartNode {
    pub result: Option<Vec<ChartResult>>,
    pub error: Option<ChartError>,
}

/// A chart response.
#[derive(Debug, Clone)]
pub struct ChartEnvelope {
    pub chart: Option<ChartNode>,
}

/// The blocks of the first series of a chart response.
#[derive(Debug)]
pub struct Fetched {
    pub ts: Vec<i64>,
    pub quote: QuoteBlock,
    pub adjclose: Vec<WireValue>,
    pub events: Option<Events>,
    pub meta: Option<MetaNode>,
}

/// Why a chart response gave no series.
#[derive(Debug, Clone)]
pub enum ChartDecodeError {
    /// The response has no `chart` node.
    MissingChart,
    /// The endpoint reported an error.
    Api(ChartError),
    /// The chart node has no result list.
    MissingResult,
    /// The result list is empty.
    EmptyResult,
    /// The first series has no quote block.
    MissingQuote,
}

/// `f` holds the blocks of series `first`: its timestamps (none when
/// absent), its first quote block, its first adjusted-close array (none
/// when absent), its events and its metadata.
pub open spec fn fetched_from(f: Fetched, first: ChartResult) -> bool {
    &&& f.ts@ == (match first.timestamp {
        Some(t) => t@,
        None => Seq::empty(),
    })
    &&& first.indicators.quote@.len() > 0
    &&& f.quote == first.indicators.quote@[0]
    &&& f.adjclose@ == (if first.indicators.adjclose@.len() > 0 {
        first.indicators.adjclose@[0].adjclose@
    } else {
        Seq::empty()
    })
    &&& f.events == first.events
    &&& f.meta == first.meta
}

/// Decodes a chart response into the blocks of its first series.
pub fn decode_chart(envelope: ChartEnvelope) -> (r: Result<Fetched, ChartDecodeError>)
    ensures
        match envelope.chart {
            None => r matches Err(ChartDecodeError::MissingChart),
            Some(c) => match c.error {
                Some(e) => r matches Err(ChartDecodeError::Api(x)) && x == e,
                None => match c.result {
                    None => r matches Err(ChartDecodeError::MissingResult),
                    Some(rs) => if rs@.len() == 0 {
                        r matches Err(ChartDecodeError::EmptyResult)
                    } else if rs@[0].indicators.quote@.len() == 0 {
                        r matches Err(ChartDecodeError::MissingQuote)
                    } else {
                        r matches Ok(f) && fetched_from(f, rs@[0])
                    },
                },
            },
        },
{
    let chart = match envelope.chart {
        Some(c) => c,
        None => return Err(ChartDecodeError::MissingChart),
    };
    if let Some(error) = chart.error {
        return Err(ChartDecodeError::Api(error));
    }
    let mut result = match chart.result {
        Some(r) => r,
        None => return Err(ChartDecodeError::MissingResult),
    };
    if result.len() == 0 {
        return Err(ChartDecodeError::EmptyResult);
    }
    let first = result.swap_remove(0);
    let ChartResult { meta, timestamp, indicators, events } = first;
    let Indicators { quote: mut quotes, adjclose: mut adjcloses } = indicators;
    if quotes.len() == 0 {
        return Err(ChartDecodeError::MissingQuote);
    }
    let quote = quotes.swap_remove(0);
    let adjclose = if adjcloses.len() > 0 {
        adjcloses.swap_remove(0).adjclose
    } else {
        Vec::new()
    };
    let ts = match timestamp {
        Some(t) => t,
        None => Vec::new(),
    };
    Ok(Fetched { ts, quote, adjclose, events, meta })
}

/// The time zone metadata a price history reports.
#[derive(Debug, Clone, PartialEq, Eq)]
pub struct HistoryMeta {
    pub timezone: Option<String>,
    pub gmtoffset: Option<i64>,
}

/// The history metadata of a chart series: its time zone and GMT offset.
pub fn map_meta(m: &Option<MetaNode>) -> (r: Option<HistoryMeta>)
    ensures
        match *m {
            None => r is None,
            Some(mm) => r matches Some(h) && crate::profile::text_of(h.timezone)
                == crate::profile::text_of(mm.timezone) && h.gmtoffset == mm.gmtoffset,
        },
{
    match m {
        None => None,
        Some(mm) => {
            let timezone = match &mm.timezone {
                Some(t) => Some(t.clone()),
                None => None,
            };
            Some(HistoryMeta { timezone, gmtoffset: mm.gmtoffset })
        },
    }
}

/// The least of `a` and `b`.
pub open spec fn min_len(a: nat, b: nat) -> nat {
    if a <= b {
        a
    } else {
        b
    }
}

/// An upper bound on the candles of a series: no row past the shortest of
/// the timestamps and the four price arrays can be a candle.
pub fn candle_capacity_upper_bound(ts: &[i64], q: &QuoteBlock) -> (n: usize)
    ensures
        n == min_len(
            min_len(min_len(min_len(ts@.len(), q.open@.len()), q.high@.len()), q.low@.len()),
            q.close@.len(),
        ),
{
    let mut n = ts.len();
    if q.open.len() < n {
        n = q.open.len();
    }
    if q.high.len() < n {
        n = q.high.len();
    }
    if q.low.len() < n {
        n = q.low.len();
    }
    if q.close.len() < n {
        n = q.close.len();
    }
    n
}

/// Why a row of a series gives no candle.
#[derive(Debug, Clone)]
pub enum ProjectionIssue {
    /// A field holds something that is not a number.
    InvalidField { field: &'static str, details: String },
    /// Required price fields are missing, named in order.
    MissingRequiredFields { fields: Vec<&'static str> },
    /// A value could not be converted.
    ConversionFailed { target: &'static str },
}

/// The entry of a price array at a row: `None` past its end.
pub open spec fn entry_at(v: Seq<WireValue>, i: int) -> Option<WireValue> {
    if 0 <= i < v.len() {
        Some(v[i])
    } else {
        None
    }
}

/// The decimal an entry holds, if any.
pub open spec fn entry_decimal(v: Option<WireValue>) -> Option<Dec> {
    match v {
        Some(WireValue::Value(d)) => Some(d),
        _ => None,
    }
}

/// The decimal of one price field: nothing for a missing entry or `null`,
/// the number for a decimal, an error naming the field for anything else.
pub fn decimal_value(field: &'static str, value: Option<&WireValue>) -> (r: Result<Option<Dec>, ProjectionIssue>)
    ensures
        match value {
            None => r matches Ok(None),
            Some(WireValue::Null) => r matches Ok(None),
            Some(WireValue::Value(d)) => r == Ok::<Option<Dec>, ProjectionIssue>(Some(*d)),
            Some(WireValue::Invalid(details)) => r matches Err(ProjectionIssue::InvalidField { field: f, details: x }) && f == field && x@ == details@,
        },
{
    match value {
        None => Ok(None),
        Some(WireValue::Null) => Ok(None),
        Some(WireValue::Value(d)) => Ok(Some(*d)),
        Some(WireValue::Invalid(details)) => Err(ProjectionIssue::InvalidField { field, details: details.clone() }),
    }
}

/// The names of the missing fields among open, high, low and close, in order.
pub open spec fn missing_names(o: Option<Dec>, h: Option<Dec>, l: Option<Dec>, c: Option<Dec>) -> Seq<Seq<char>> {
    let s0: Seq<Seq<char>> = if o is None { seq!["open"@] } else { Seq::empty() };
    let s1 = if h is None { s0.push("high"@) } else { s0 };
    let s2 = if l is None { s1.push("low"@) } else { s1 };
    if c is None { s2.push("close"@) } else { s2 }
}

/// The first of the four entries that holds something that is not a number.
pub open spec fn first_invalid(o: Option<WireValue>, h: Option<WireValue>, l: Option<WireValue>, c: Option<WireValue>) -> Option<(Seq<char>, Seq<char>)> {
    match o {
        Some(WireValue::Invalid(d)) => Some(("open"@, d@)),
        _ => match h {
            Some(WireValue::Invalid(d)) => Some(("high"@, d@)),
            _ => match l {
                Some(WireValue::Invalid(d)) => Some(("low"@, d@)),
                _ => match c {
                    Some(WireValue::Invalid(d)) => Some(("close"@, d@)),
                    _ => None,
                },
            },
        },
    }
}

/// `r` is what reading the four entries of a row gives: the first invalid
/// entry's error; else, when any is missing or `null`, the names of those;
/// else the four decimals.
pub open spec fn ohlc_outcome(
    o: Option<WireValue>,
    h: Option<WireValue>,
    l: Option<WireValue>,
    c: Option<WireValue>,
    r: Result<(Dec, Dec, Dec, Dec), ProjectionIssue>,
) -> bool {
    match first_invalid(o, h, l, c) {
        Some((name, details)) => r matches Err(ProjectionIssue::InvalidField { field, details: x }) && field@ == name && x@ == details,
        None => {
            let missing = missing_names(entry_decimal(o), entry_decimal(h), entry_decimal(l), entry_decimal(c));
            if missing.len() > 0 {
                r matches Err(ProjectionIssue::MissingRequiredFields { fields }) && fields@.map_values(|s: &str| s@) == missing
            } else {
                r matches Ok(v) && Some(v.0) == entry_decimal(o) && Some(v.1) == entry_decimal(h)
                    && Some(v.2) == entry_decimal(l) && Some(v.3) == entry_decimal(c)
            }
        },
    }
}

/// Reads the open, high, low and close entries of a row ([`ohlc_outcome`]).
pub fn raw_ohlc_values(
    open: Option<&WireValue>,
    high: Option<&WireValue>,
    low: Option<&WireValue>,
    close: Option<&WireValue>,
) -> (r: Result<(Dec, Dec, Dec, Dec), ProjectionIssue>)
    ensures
        ohlc_outcome(
            match open { Some(v) => Some(*v), None => None },
            match high { Some(v) => Some(*v), None => None },
            match low { Some(v) => Some(*v), None => None },
            match close { Some(v) => Some(*v), None => None },
            r,
        ),
{
    proof {
        reveal_strlit("open");
        reveal_strlit("high");
        reveal_strlit("low");
        reveal_strlit("close");
    }
    let o = match decimal_value("open", open) {
        Ok(x) => x,
        Err(e) => return Err(e),
    };
    let h = match decimal_value("high", high) {
        Ok(x) => x,
        Err(e) => return Err(e),
    };
    let l = match decimal_value("low", low) {
        Ok(x) => x,
        Err(e) => return Err(e),
    };
    let c = match decimal_value("close", close) {
        Ok(x) => x,
        Err(e) => return Err(e),
    };
    let mut missing: Vec<&'static str> = Vec::new();
    if o.is_none() {
        missing.push("open");
    }
    if h.is_none() {
        missing.push("high");
    }
    if l.is_none() {
        missing.push("low");
    }
    if c.is_none() {
        missing.push("close");
    }
    proof {
        assert(missing@.map_values(|s: &str| s@) =~= missing_names(o, h, l, c));
    }
    if missing.len() > 0 {
        return Err(ProjectionIssue::MissingRequiredFields { fields: missing });
    }
    match (o, h, l, c) {
        (Some(o), Some(h), Some(l), Some(c)) => Ok((o, h, l, c)),
        _ => Err(ProjectionIssue::MissingRequiredFields { fields: missing }),
    }
}

/// Why a history request has no query.
#[derive(Debug, Clone, Copy, PartialEq, Eq, Structural)]
pub enum ChartQueryError {
    /// The period's start is not before its end.
    InvalidDates,
    /// Neither a range nor a period is set.
    NoRangeOrPeriod,
}

/// The query pairs after the time selection: the interval, the events when
/// actions are included, and whether pre- and post-market data is included.
pub open spec fn chart_query_tail(interval: Interval, include_actions: bool, include_prepost: bool) -> Seq<
    (Seq<char>, Seq<char>),
> {
    seq![("interval"@, interval_code(interval))] + (if include_actions {
        seq![("events"@, "div|split|capitalGains"@)]
    } else {
        Seq::empty()
    }) + seq![("includePrePost"@, if include_prepost { "true"@ } else { "false"@ })]
}

/// The query of a chart request: a period when one is set (its start before
/// its end), else a range, then [`chart_query_tail`].
pub open spec fn chart_query_spec(
    range: Option<Range>,
    period: Option<(i64, i64)>,
    interval: Interval,
    include_actions: bool,
    include_prepost: bool,
) -> Result<Seq<(Seq<char>, Seq<char>)>, ChartQueryError> {
    let tail = chart_query_tail(interval, include_actions, include_prepost);
    match period {
        Some((p1, p2)) => if p1 >= p2 {
            Err(ChartQueryError::InvalidDates)
        } else {
            Ok(seq![("period1"@, int_text(p1 as int)), ("period2"@, int_text(p2 as int))] + tail)
        },
        None => match range {
            Some(r) => Ok(seq![("range"@, range_code(r))] + tail),
            None => Err(ChartQueryError::NoRangeOrPeriod),
        },
    }
}

/// The views of query pairs.
pub open spec fn pair_texts(v: Seq<(String, String)>) -> Seq<(Seq<char>, Seq<char>)> {
    v.map_values(|p: (String, String)| (p.0@, p.1@))
}

fn pair(k: &str, v: &str) -> (p: (String, String))
    ensures
        p.0@ == k@,
        p.1@ == v@,
{
    (k.to_owned(), v.to_owned())
}

/// The query pairs of a chart request ([`chart_query_spec`]).
pub fn chart_query(
    range: Option<Range>,
    period: Option<(i64, i64)>,
    interval: Interval,
    include_actions: bool,
    include_prepost: bool,
) -> (r: Result<Vec<(String, String)>, ChartQueryError>)
    ensures
        match chart_query_spec(range, period, interval, include_actions, include_prepost) {
            Ok(q) => r matches Ok(v) && pair_texts(v@) == q,
            Err(e) => r == Err::<Vec<(String, String)>, ChartQueryError>(e),
        },
{
    let mut q: Vec<(String, String)> = Vec::new();
    let ghost head: Seq<(Seq<char>, Seq<char>)>;
    match period {
        Some((p1, p2)) => {
            if p1 >= p2 {
                return Err(ChartQueryError::InvalidDates);
            }
            q.push((String::from_str("period1"), int_to_text(p1)));
            q.push((String::from_str("period2"), int_to_text(p2)));
            proof {
                head = seq![("period1"@, int_text(p1 as int)), ("period2"@, int_text(p2 as int))];
            }
        },
        None => match range {
            Some(r) => {
                q.push(pair("range", r.code()));
                proof {
                    head = seq![("range"@, range_code(r))];
                }
            },
            None => return Err(ChartQueryError::NoRangeOrPeriod),
        },
    }
    proof {
        assert(pair_texts(q@) =~= head);
    }
    let ghost before = q@;
    q.push(pair("interval", interval.code()));
    if include_actions {
        q.push(pair("events", "div|split|capitalGains"));
    }
    q.push(pair("includePrePost", if include_prepost { "true" } else { "false" }));
    proof {
        assert(pair_texts(q@) =~= head + chart_query_tail(interval, include_actions, include_prepost));
    }
    Ok(q)
}

/// Whether a request with this cache mode answers from the cache when it can.
pub fn reads_cache(mode: CacheMode) -> (b: bool)
    ensures
        b == (mode == CacheMode::Use),
{
    match mode {
        CacheMode::Use => true,
        _ => false,
    }
}

/// Whether a request with this cache mode stores what it fetched.
pub fn writes_cache(mode: CacheMode) -> (b: bool)
    ensures
        b == (mode != CacheMode::Bypass),
{
    match mode {
        CacheMode::Bypass => false,
        _ => true,
    }
}

} // verus!
