//! A single ticker: shared request settings and the requests derived from them.
use crate::client::{CacheMode, Interval, Range, RetryConfig, YfClient};
use crate::history::HistoryBuilder;
use crate::holders::HoldersBuilder;
use crate::news::{NewsBuilder, NewsTab};
use vstd::prelude::*;

verus! {

/// A high-level interface for a single ticker symbol.
#[derive(Debug)]
pub struct Ticker {
    /// The client configuration.
    pub client: YfClient,
    /// The ticker symbol.
    pub symbol: String,
    /// How the cache is used by the requests of this ticker.
    pub cache_mode: CacheMode,
    /// A retry policy overriding the client's.
    pub retry_override: Option<RetryConfig>,
}

/// Whether `s` contains the character `c`.
pub open spec fn has_char(s: Seq<char>, c: char) -> bool {
    exists|i: int| 0 <= i < s.len() && s[i] == c
}

impl Ticker {
    /// A ticker for `symbol` that uses the cache and the client's retry policy.
    pub fn new(client: &YfClient, symbol: &str) -> (r: Ticker)
        ensures
            r.client == *client,
            r.symbol@ == symbol@,
            r.cache_mode == CacheMode::Use,
            r.retry_override is None,
    {
        Ticker { client: client.duplicate(), symbol: symbol.to_owned(), cache_mode: CacheMode::Use, retry_override: None }
    }

    /// Sets the cache mode.
    pub fn cache_mode(self, mode: CacheMode) -> (r: Ticker)
        ensures
            r == (Ticker { cache_mode: mode, ..self }),
    {
        Ticker { cache_mode: mode, ..self }
    }

    /// Overrides the retry policy.
    pub fn retry_policy(self, cfg: Option<RetryConfig>) -> (r: Ticker)
        ensures
            r == (Ticker { retry_override: cfg, ..self }),
    {
        Ticker { retry_override: cfg, ..self }
    }

    /// A news request for this ticker, with its cache mode and retry policy.
    pub fn news_builder(&self) -> (r: NewsBuilder<'_>)
        ensures
            *r.client == self.client,
            r.symbol@ == self.symbol@,
            r.count == 10,
            r.tab == NewsTab::News,
            r.cache_mode == self.cache_mode,
            r.retry_override == self.retry_override,
    {
        NewsBuilder::new(&self.client, self.symbol.as_str()).cache_mode(self.cache_mode).retry_policy(
            self.retry_override,
        )
    }

    /// A history request for this ticker with the builder's defaults.
    pub fn history_builder(&self) -> (r: HistoryBuilder)
        ensures
            r.client == self.client,
            r.symbol@ == self.symbol@,
            r.range == Some(Range::M6),
            r.period is None,
            r.interval == Interval::D1,
            r.auto_adjust,
            !r.include_prepost,
            r.include_actions,
            !r.keepna,
            r.cache_mode == CacheMode::Use,
            r.retry_override is None,
    {
        HistoryBuilder::new(&self.client, self.symbol.as_str())
    }

    /// A holders request for this ticker, with its cache mode and retry policy.
    pub fn holders_builder(&self) -> (r: HoldersBuilder)
        ensures
            r.client == self.client,
            r.symbol@ == self.symbol@,
            r.cache_mode == self.cache_mode,
            r.retry_override == self.retry_override,
    {
        HoldersBuilder::new(self.client.duplicate(), self.symbol.as_str()).cache_mode(self.cache_mode).retry_policy(
            self.retry_override,
        )
    }

    /// The request behind fetching this ticker's price history: the given
    /// range and interval (six months of daily bars by default), adjusted,
    /// with actions, with pre/post-market bars as asked, under this ticker's
    /// cache mode and retry policy.
    pub fn history_request(&self, range: Option<Range>, interval: Option<Interval>, prepost: bool) -> (r:
        HistoryBuilder)
        ensures
            r.client == self.client,
            r.symbol@ == self.symbol@,
            r.range == Some(
                match range {
                    Some(x) => x,
                    None => Range::M6,
                },
            ),
            r.period is None,
            r.interval == (match interval {
                Some(i) => i,
                None => Interval::D1,
            }),
            r.auto_adjust,
            r.include_prepost == prepost,
            r.include_actions,
            !r.keepna,
            r.cache_mode == self.cache_mode,
            r.retry_override == self.retry_override,
    {
        let mut hb = self.history_builder();
        if let Some(r) = range {
            hb = hb.range(r);
        }
        if let Some(i) = interval {
            hb = hb.interval(i);
        }
        hb.auto_adjust(true).prepost(prepost).actions(true).cache_mode(self.cache_mode).retry_policy(
            self.retry_override,
        )
    }

    /// The request behind fetching this ticker's corporate actions: the
    /// given range (all history by default), adjusted, with actions, under
    /// this ticker's cache mode and retry policy.
    pub fn actions_request(&self, range: Option<Range>) -> (r: HistoryBuilder)
        ensures
            r.client == self.client,
            r.symbol@ == self.symbol@,
            r.range == Some(
                match range {
                    Some(x) => x,
                    None => Range::Max,
                },
            ),
            r.period is None,
            r.interval == Interval::D1,
            r.auto_adjust,
            !r.include_prepost,
            r.include_actions,
            !r.keepna,
            r.cache_mode == self.cache_mode,
            r.retry_override == self.retry_override,
    {
        let r = match range {
            Some(x) => x,
            None => Range::Max,
        };
        self.history_builder().range(r).auto_adjust(true).actions(true).cache_mode(self.cache_mode).retry_policy(
            self.retry_override,
        )
    }

    /// The request behind fetching this ticker's history metadata: the given
    /// range (six months by default), under this ticker's cache mode and
    /// retry policy.
    pub fn metadata_request(&self, range: Option<Range>) -> (r: HistoryBuilder)
        ensures
            r.client == self.client,
            r.symbol@ == self.symbol@,
            r.range == Some(
                match range {
                    Some(x) => x,
                    None => Range::M6,
                },
            ),
            r.period is None,
            r.interval == Interval::D1,
            r.auto_adjust,
            !r.include_prepost,
            r.include_actions,
            !r.keepna,
            r.cache_mode == self.cache_mode,
            r.retry_override == self.retry_override,
    {
        let mut hb = self.history_builder().cache_mode(self.cache_mode).retry_policy(self.retry_override);
        if let Some(r) = range {
            hb = hb.range(r);
        }
        hb
    }

    /// Whether an ISIN lookup is made for this ticker: not for indices,
    /// whose symbols contain `^`.
    pub fn isin_lookup_applies(&self) -> (b: bool)
        ensures
            b == !has_char(self.symbol@, '^'),
    {
        let s = self.symbol.as_str();
        let ghost chars = s@;
        for c in it: s.chars()
            invariant
                chars == it.seq(),
                chars == self.symbol@,
                forall|j: int| 0 <= j < it.index() ==> chars[j] != '^',
        {
            if c == '^' {
                return false;
            }
        }
        true
    }
}

} // verus!
