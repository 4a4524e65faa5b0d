//! Historical price requests: the request builder, the chart payload model,
//! and the query it sends.
use crate::assemble::{timestamp_valid, utc_timestamp_valid};
use crate::client::{CacheMode, Interval, Range, RetryConfig, YfClient};
use vstd::prelude::*;

verus! {

/// A builder for fetching historical price data for a single symbol.
#[derive(Debug)]
pub struct HistoryBuilder {
    /// The client configuration.
    pub client: YfClient,
    /// The ticker symbol.
    pub symbol: String,
    /// A relative range; cleared by [`HistoryBuilder::between`].
    pub range: Option<Range>,
    /// An absolute period `(start, end)` in Unix seconds; cleared by [`HistoryBuilder::range`].
    pub period: Option<(i64, i64)>,
    /// The bar width.
    pub interval: Interval,
    /// Whether prices are adjusted for splits and dividends.
    pub auto_adjust: bool,
    /// Whether pre- and post-market bars are included.
    pub include_prepost: bool,
    /// Whether corporate actions are requested.
    pub include_actions: bool,
    /// Whether rows with missing prices are kept.
    pub keepna: bool,
    /// How the cache is used.
    pub cache_mode: CacheMode,
    /// A retry policy overriding the client's.
    pub retry_override: Option<RetryConfig>,
}

impl HistoryBuilder {
    /// A builder holds a relative range or an absolute period, never both.
    pub open spec fn range_or_period(&self) -> bool {
        !(self.range is Some && self.period is Some)
    }
}

impl HistoryBuilder {
    /// A builder for `symbol`: six months of daily bars, adjusted, with
    /// actions, without pre/post-market bars or incomplete rows, using the cache.
    pub fn new(client: &YfClient, symbol: &str) -> (r: HistoryBuilder)
        ensures
            r.client == *client,
            r.symbol@ == symbol@,
            r.range == Some(Range::M6),
            r.period is None,
            r.interval == Interval::D1,
            r.auto_adjust,
            !r.include_prepost,
            r.include_actions,
            !r.keepna,
            r.cache_mode == CacheMode::Use,
            r.retry_override is None,
            r.range_or_period(),
    {
        HistoryBuilder {
            client: client.duplicate(),
            symbol: symbol.to_owned(),
            range: Some(Range::M6),
            period: None,
            interval: Interval::D1,
            auto_adjust: true,
            include_prepost: false,
            include_actions: true,
            keepna: false,
            cache_mode: CacheMode::Use,
            retry_override: None,
        }
    }

    /// Sets the cache mode.
    pub fn cache_mode(self, mode: CacheMode) -> (r: HistoryBuilder)
        ensures
            r == (HistoryBuilder { cache_mode: mode, ..self }),
            self.range_or_period() ==> r.range_or_period(),
    {
        HistoryBuilder { cache_mode: mode, ..self }
    }

    /// Overrides the retry policy.
    pub fn retry_policy(self, cfg: Option<RetryConfig>) -> (r: HistoryBuilder)
        ensures
            r == (HistoryBuilder { retry_override: cfg, ..self }),
            self.range_or_period() ==> r.range_or_period(),
    {
        HistoryBuilder { retry_override: cfg, ..self }
    }

    /// Sets a relative range, dropping any absolute period.
    pub fn range(self, range: Range) -> (r: HistoryBuilder)
        ensures
            r == (HistoryBuilder { range: Some(range), period: None, ..self }),
            r.range_or_period(),
    {
        HistoryBuilder { range: Some(range), period: None, ..self }
    }

    /// Sets an absolute period in Unix seconds, dropping any relative range.
    pub fn between(self, start: i64, end: i64) -> (r: HistoryBuilder)
        ensures
            r == (HistoryBuilder { range: None, period: Some((start, end)), ..self }),
            r.range_or_period(),
    {
        HistoryBuilder { range: None, period: Some((start, end)), ..self }
    }

    /// Sets the bar width.
    pub fn interval(self, interval: Interval) -> (r: HistoryBuilder)
        ensures
            r == (HistoryBuilder { interval, ..self }),
            self.range_or_period() ==> r.range_or_period(),
    {
        HistoryBuilder { interval, ..self }
    }

    /// Sets whether prices are adjusted for splits and dividends.
    pub fn auto_adjust(self, yes: bool) -> (r: HistoryBuilder)
        ensures
            r == (HistoryBuilder { auto_adjust: yes, ..self }),
            self.range_or_period() ==> r.range_or_period(),
    {
        HistoryBuilder { auto_adjust: yes, ..self }
    }

    /// Sets whether pre- and post-market bars are included.
    pub fn prepost(self, yes: bool) -> (r: HistoryBuilder)
        ensures
            r == (HistoryBuilder { include_prepost: yes, ..self }),
            self.range_or_period() ==> r.range_or_period(),
    {
        HistoryBuilder { include_prepost: yes, ..self }
    }

    /// Sets whether corporate actions are requested.
    pub fn actions(self, yes: bool) -> (r: HistoryBuilder)
        ensures
            r == (HistoryBuilder { include_actions: yes, ..self }),
            self.range_or_period() ==> r.range_or_period(),
    {
        HistoryBuilder { include_actions: yes, ..self }
    }

    /// Sets whether rows with missing prices are kept.
    pub fn keepna(self, yes: bool) -> (r: HistoryBuilder)
        ensures
            r == (HistoryBuilder { keepna: yes, ..self }),
            self.range_or_period() ==> r.range_or_period(),
    {
        HistoryBuilder { keepna: yes, ..self }
    }
}

/// Why an absolute period was refused: an end that is not a UTC time.
#[derive(Debug, Clone, Copy, PartialEq, Eq, Structural)]
pub enum PeriodError {
    /// The start is out of range.
    InvalidStart,
    /// The end is out of range.
    InvalidEnd,
}

impl HistoryBuilder {
    /// Sets an absolute period in Unix seconds, as [`HistoryBuilder::between`],
    /// once both ends are checked to be UTC times ([`utc_timestamp_valid`]),
    /// the start first.
    pub fn checked_between(self, start: i64, end: i64) -> (r: Result<HistoryBuilder, PeriodError>)
        ensures
            !utc_timestamp_valid(start) ==> r == Err::<HistoryBuilder, PeriodError>(PeriodError::InvalidStart),
            utc_timestamp_valid(start) && !utc_timestamp_valid(end) ==> r == Err::<
                HistoryBuilder,
                PeriodError,
            >(PeriodError::InvalidEnd),
            utc_timestamp_valid(start) && utc_timestamp_valid(end) ==> r == Ok::<HistoryBuilder, PeriodError>(
                (HistoryBuilder { range: None, period: Some((start, end)), ..self }),
            ),
    {
        if !timestamp_valid(start) {
            return Err(PeriodError::InvalidStart);
        }
        if !timestamp_valid(end) {
            return Err(PeriodError::InvalidEnd);
        }
        Ok(self.between(start, end))
    }
}

} // verus!
