//! Client configuration and the request vocabulary shared by all builders.
use std::time::Duration;
use vstd::prelude::*;

verus! {

/// How a request uses the client's response cache.
#[derive(Debug, Clone, Copy, PartialEq, Eq, Structural)]
pub enum CacheMode {
    /// Read from the cache and store fresh responses in it.
    Use,
    /// Skip reading the cache but store the fresh response.
    Refresh,
    /// Neither read nor store.
    Bypass,
}

/// Retry policy for transient network failures.
#[derive(Debug, Clone, Copy)]
pub struct RetryConfig {
    /// Whether failed requests are retried at all.
    pub enabled: bool,
    /// The number of retries after the first attempt.
    pub max_retries: u32,
    /// The delay before the first retry; it doubles on each further retry.
    pub base_delay: Duration,
    /// The upper bound of a single delay.
    pub max_delay: Duration,
    /// Whether delays are randomly jittered.
    pub jitter: bool,
}

/// The whole milliseconds a duration holds (`Duration::as_millis`).
pub uninterp spec fn whole_millis(d: Duration) -> nat;

/// `Duration::as_millis`. Trusted: the result is [`whole_millis`] of the
/// duration.
#[verifier::external_body]
fn millis_of(d: &Duration) -> (ms: u128)
    ensures
        ms == whole_millis(*d),
{
    d.as_millis()
}

/// `base` doubled `n` times.
pub open spec fn doubled(base: nat, n: nat) -> nat
    decreases n,
{
    if n == 0 {
        base
    } else {
        2 * doubled(base, (n - 1) as nat)
    }
}

/// The delay before retry number `retry` (0 for the first) under
/// exponential backoff: the base delay doubled `retry` times, but never more
/// than `max`.
pub open spec fn backoff(base: nat, max: nat, retry: nat) -> nat {
    if doubled(base, retry) <= max {
        doubled(base, retry)
    } else {
        max
    }
}

/// A longer run of doublings never gives less.
proof fn lemma_doubled_grows(base: nat, i: nat, j: nat)
    requires
        i <= j,
    ensures
        doubled(base, i) <= doubled(base, j),
    decreases j,
{
    if i < j {
        lemma_doubled_grows(base, i, (j - 1) as nat);
    }
}

/// Backoff delays grow from one retry to the next and never pass the
/// maximum delay.
pub proof fn backoff_grows_up_to_its_cap(base: nat, max: nat, i: nat, j: nat)
    requires
        i <= j,
    ensures
        backoff(base, max, i) <= backoff(base, max, j),
        backoff(base, max, j) <= max,
{
    lemma_doubled_grows(base, i, j);
}

impl RetryConfig {
    /// The delay in milliseconds before retry number `retry` (0 for the
    /// first), or `None` when no such retry is made: retries are off, or
    /// `max_retries` of them were made. The delay is the base delay doubled
    /// `retry` times, capped at the maximum delay ([`backoff`]).
    pub fn retry_delay_millis(&self, retry: u32) -> (r: Option<u128>)
        ensures
            r is Some <==> (self.enabled && retry < self.max_retries),
            r matches Some(ms) ==> ms == backoff(
                whole_millis(self.base_delay),
                whole_millis(self.max_delay),
                retry as nat,
            ),
    {
        if !self.enabled || retry >= self.max_retries {
            return None;
        }
        let base = millis_of(&self.base_delay);
        let max = millis_of(&self.max_delay);
        let mut d: u128 = if base <= max {
            base
        } else {
            max
        };
        let mut i: u32 = 0;
        while i < retry
            invariant
                i <= retry,
                d == backoff(base as nat, max as nat, i as nat),
            decreases retry - i,
        {
            if d > max / 2 {
                d = max;
            } else {
                d = d * 2;
            }
            i = i + 1;
        }
        Some(d)
    }
}

/// Which source a profile is loaded from.
#[derive(Debug, Clone, Copy, PartialEq, Eq, Structural)]
pub enum ApiPreference {
    /// The quote summary API, and the quote page when the API fails.
    ApiThenScrape,
    /// The quote summary API only.
    ApiOnly,
    /// The quote page only.
    ScrapeOnly,
}

/// The configuration of a client: endpoints, identity and policies.
#[derive(Debug)]
pub struct YfClient {
    /// Base of the chart (history) endpoint.
    pub base_chart: String,
    /// Base of the quote web page.
    pub base_quote: String,
    /// Base of the quote summary API.
    pub base_quote_api: String,
    /// Base of the batch quote API.
    pub base_quote_v7: String,
    /// Base of the options API.
    pub base_options_v7: String,
    /// Base of the news endpoint.
    pub base_news: String,
    /// Base of the ISIN search endpoint.
    pub base_insider_search: String,
    /// Address of the streaming endpoint.
    pub base_stream: String,
    /// The user agent sent with each request.
    pub user_agent: String,
    /// The default retry policy.
    pub retry: RetryConfig,
    /// Which source profiles are loaded from.
    pub api_preference: ApiPreference,
}

impl YfClient {
    /// A copy of this configuration.
    pub fn duplicate(&self) -> (r: YfClient)
        ensures
            r == *self,
    {
        YfClient {
            base_chart: self.base_chart.clone(),
            base_quote: self.base_quote.clone(),
            base_quote_api: self.base_quote_api.clone(),
            base_quote_v7: self.base_quote_v7.clone(),
            base_options_v7: self.base_options_v7.clone(),
            base_news: self.base_news.clone(),
            base_insider_search: self.base_insider_search.clone(),
            base_stream: self.base_stream.clone(),
            user_agent: self.user_agent.clone(),
            retry: self.retry,
            api_preference: self.api_preference,
        }
    }
}

/// A relative time range of a history request.
#[derive(Debug, Clone, Copy, PartialEq, Eq, Structural)]
pub enum Range {
    I1m,
    I2m,
    I5m,
    I10m,
    I15m,
    I30m,
    I1h,
    I4h,
    I6h,
    I8h,
    I12h,
    D1,
    D5,
    M1,
    M3,
    M6,
    Y1,
    Y2,
    Y5,
    Y10,
    Ytd,
    Max,
}

/// The wire code of a range.
pub open spec fn range_code(r: Range) -> Seq<char> {
    match r {
        Range::I1m => "1m"@,
        Range::I2m => "2m"@,
        Range::I5m => "5m"@,
        Range::I10m => "10m"@,
        Range::I15m => "15m"@,
        Range::I30m => "30m"@,
        Range::I1h => "1h"@,
        Range::I4h => "4h"@,
        Range::I6h => "6h"@,
        Range::I8h => "8h"@,
        Range::I12h => "12h"@,
        Range::D1 => "1d"@,
        Range::D5 => "5d"@,
        Range::M1 => "1mo"@,
        Range::M3 => "3mo"@,
        Range::M6 => "6mo"@,
        Range::Y1 => "1y"@,
        Range::Y2 => "2y"@,
        Range::Y5 => "5y"@,
        Range::Y10 => "10y"@,
        Range::Ytd => "ytd"@,
        Range::Max => "max"@,
    }
}

impl Range {
    /// The wire code of the range (`"6mo"`, `"max"`, ...).
    pub fn code(self) -> (c: &'static str)
        ensures
            c@ == range_code(self),
    {
        match self {
            Range::I1m => "1m",
            Range::I2m => "2m",
            Range::I5m => "5m",
            Range::I10m => "10m",
            Range::I15m => "15m",
            Range::I30m => "30m",
            Range::I1h => "1h",
            Range::I4h => "4h",
            Range::I6h => "6h",
            Range::I8h => "8h",
            Range::I12h => "12h",
            Range::D1 => "1d",
            Range::D5 => "5d",
            Range::M1 => "1mo",
            Range::M3 => "3mo",
            Range::M6 => "6mo",
            Range::Y1 => "1y",
            Range::Y2 => "2y",
            Range::Y5 => "5y",
            Range::Y10 => "10y",
            Range::Ytd => "ytd",
            Range::Max => "max",
        }
    }
}

/// The bar width of a history request.
#[derive(Debug, Clone, Copy, PartialEq, Eq, Structural)]
pub enum Interval {
    I1s,
    I2s,
    I3s,
    I5s,
    I6s,
    I10s,
    I15s,
    I30s,
    I90s,
    I1m,
    I2m,
    I3m,
    I5m,
    I6m,
    I10m,
    I15m,
    I30m,
    I90m,
    I1h,
    I2h,
    I3h,
    I4h,
    I6h,
    I8h,
    I12h,
    D1,
    D5,
    W1,
    M1,
    M3,
    M6,
    Y1,
    Y2,
    Y5,
    Y10,
}

/// The wire code of an interval.
pub open spec fn interval_code(i: Interval) -> Seq<char> {
    match i {
        Interval::I1s => "1s"@,
        Interval::I2s => "2s"@,
        Interval::I3s => "3s"@,
        Interval::I5s => "5s"@,
        Interval::I6s => "6s"@,
        Interval::I10s => "10s"@,
        Interval::I15s => "15s"@,
        Interval::I30s => "30s"@,
        Interval::I90s => "90s"@,
        Interval::I1m => "1m"@,
        Interval::I2m => "2m"@,
        Interval::I3m => "3m"@,
        Interval::I5m => "5m"@,
        Interval::I6m => "6m"@,
        Interval::I10m => "10m"@,
        Interval::I15m => "15m"@,
        Interval::I30m => "30m"@,
        Interval::I90m => "90m"@,
        Interval::I1h => "1h"@,
        Interval::I2h => "2h"@,
        Interval::I3h => "3h"@,
        Interval::I4h => "4h"@,
        Interval::I6h => "6h"@,
        Interval::I8h => "8h"@,
        Interval::I12h => "12h"@,
        Interval::D1 => "1d"@,
        Interval::D5 => "5d"@,
        Interval::W1 => "1wk"@,
        Interval::M1 => "1mo"@,
        Interval::M3 => "3mo"@,
        Interval::M6 => "6mo"@,
        Interval::Y1 => "1y"@,
        Interval::Y2 => "2y"@,
        Interval::Y5 => "5y"@,
        Interval::Y10 => "10y"@,
    }
}

impl Interval {
    /// The wire code of the interval (`"1d"`, `"1wk"`, ...).
    pub fn code(self) -> (c: &'static str)
        ensures
            c@ == interval_code(self),
    {
        match self {
            Interval::I1s => "1s",
            Interval::I2s => "2s",
            Interval::I3s => "3s",
            Interval::I5s => "5s",
            Interval::I6s => "6s",
            Interval::I10s => "10s",
            Interval::I15s => "15s",
            Interval::I30s => "30s",
            Interval::I90s => "90s",
            Interval::I1m => "1m",
            Interval::I2m => "2m",
            Interval::I3m => "3m",
            Interval::I5m => "5m",
            Interval::I6m => "6m",
            Interval::I10m => "10m",
            Interval::I15m => "15m",
            Interval::I30m => "30m",
            Interval::I90m => "90m",
            Interval::I1h => "1h",
            Interval::I2h => "2h",
            Interval::I3h => "3h",
            Interval::I4h => "4h",
            Interval::I6h => "6h",
            Interval::I8h => "8h",
            Interval::I12h => "12h",
            Interval::D1 => "1d",
            Interval::D5 => "5d",
            Interval::W1 => "1wk",
            Interval::M1 => "1mo",
            Interval::M3 => "3mo",
            Interval::M6 => "6mo",
            Interval::Y1 => "1y",
            Interval::Y2 => "2y",
            Interval::Y5 => "5y",
            Interval::Y10 => "10y",
        }
    }
}

} // verus!
