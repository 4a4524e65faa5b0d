//! Holder data: the request builder, the result rows, and the mapping from
//! the quote summary payload to rows.
use crate::client::{CacheMode, RetryConfig, YfClient};
use vstd::prelude::*;

verus! {

/// A builder for fetching holder data for a specific symbol.
#[derive(Debug)]
pub struct HoldersBuilder {
    /// The client configuration.
    pub client: YfClient,
    /// The ticker symbol.
    pub symbol: String,
    /// How the cache is used.
    pub cache_mode: CacheMode,
    /// A retry policy overriding the client's.
    pub retry_override: Option<RetryConfig>,
}

impl HoldersBuilder {
    /// A builder for `symbol` that uses the cache and the client's retry policy.
    pub fn new(client: YfClient, symbol: &str) -> (r: HoldersBuilder)
        ensures
            r.client == client,
            r.symbol@ == symbol@,
            r.cache_mode == CacheMode::Use,
            r.retry_override is None,
    {
        HoldersBuilder { client, symbol: symbol.to_owned(), cache_mode: CacheMode::Use, retry_override: None }
    }

    /// Sets the cache mode.
    pub fn cache_mode(self, mode: CacheMode) -> (r: HoldersBuilder)
        ensures
            r == (HoldersBuilder { cache_mode: mode, ..self }),
    {
        HoldersBuilder { cache_mode: mode, ..self }
    }

    /// Overrides the retry policy.
    pub fn retry_policy(self, cfg: Option<RetryConfig>) -> (r: HoldersBuilder)
        ensures
            r == (HoldersBuilder { retry_override: cfg, ..self }),
    {
        HoldersBuilder { retry_override: cfg, ..self }
    }
}

/// One row of the major holders breakdown.
#[derive(Debug, Clone, PartialEq, Eq)]
pub struct MajorHolder {
    /// The category (e.g. "% of Shares Held by All Insiders").
    pub category: String,
    /// The value, formatted as text.
    pub value: String,
}

/// A single insider transaction.
#[derive(Debug, Clone, PartialEq, Eq)]
pub struct InsiderTransaction {
    /// The insider who executed the transaction.
    pub insider: String,
    /// The insider's relationship to the company.
    pub position: String,
    /// A description of the transaction.
    pub transaction: String,
    /// The number of shares involved.
    pub shares: u64,
    /// The total value of the transaction.
    pub value: u64,
    /// The start date, Unix seconds.
    pub start_date: i64,
    /// The source filing, when available.
    pub url: String,
}

/// A single insider on the company's roster.
#[derive(Debug, Clone, PartialEq, Eq)]
pub struct InsiderRosterHolder {
    /// The insider's name.
    pub name: String,
    /// The insider's position.
    pub position: String,
    /// The most recent transaction.
    pub most_recent_transaction: String,
    /// The date of the latest transaction, Unix seconds.
    pub latest_transaction_date: i64,
    /// Shares owned directly.
    pub shares_owned_directly: u64,
    /// The date of the direct ownership filing, Unix seconds.
    pub position_direct_date: i64,
}

/// A `{ "raw": ..., "fmt": ... }` number of the payload; only `raw` is read.
#[derive(Debug, Clone, Copy)]
pub struct RawNum<T> {
    /// The raw value.
    pub raw: Option<T>,
}

/// One transaction of the payload.
#[derive(Debug)]
pub struct InsiderTransactionNode {
    pub insider: Option<String>,
    pub position: Option<String>,
    pub transaction: Option<String>,
    pub shares: Option<RawNum<u64>>,
    pub value: Option<RawNum<u64>>,
    pub start_date: Option<RawNum<i64>>,
    pub url: Option<String>,
}

/// One roster entry of the payload.
#[derive(Debug)]
pub struct InsiderRosterHolderNode {
    pub name: Option<String>,
    pub relation: Option<String>,
    pub most_recent_transaction: Option<String>,
    pub latest_transaction_date: Option<RawNum<i64>>,
    pub shares_owned_directly: Option<RawNum<u64>>,
    pub position_direct_date: Option<RawNum<i64>>,
}

/// The raw value of a payload number, 0 when absent.
pub open spec fn raw_or_zero_u64(n: Option<RawNum<u64>>) -> u64 {
    match n {
        Some(RawNum { raw: Some(v) }) => v,
        _ => 0,
    }
}

/// The raw value of a payload date, 0 (the epoch) when absent.
pub open spec fn raw_or_zero_i64(n: Option<RawNum<i64>>) -> i64 {
    match n {
        Some(RawNum { raw: Some(v) }) => v,
        _ => 0,
    }
}

/// The text of an optional payload string, empty when absent.
pub open spec fn text_or_empty(s: Option<String>) -> Seq<char> {
    match s {
        Some(t) => t@,
        None => Seq::empty(),
    }
}

fn raw_u64(n: Option<RawNum<u64>>) -> (r: u64)
    ensures
        r == raw_or_zero_u64(n),
{
    match n {
        Some(RawNum { raw: Some(v) }) => v,
        _ => 0,
    }
}

fn raw_i64(n: Option<RawNum<i64>>) -> (r: i64)
    ensures
        r == raw_or_zero_i64(n),
{
    match n {
        Some(RawNum { raw: Some(v) }) => v,
        _ => 0,
    }
}

fn text(s: Option<String>) -> (r: String)
    ensures
        r@ == text_or_empty(s),
{
    match s {
        Some(t) => t,
        None => String::new(),
    }
}

/// Whether a row is the payload transaction with absent fields defaulted.
pub open spec fn transaction_row(t: InsiderTransactionNode, r: InsiderTransaction) -> bool {
    &&& r.insider@ == text_or_empty(t.insider)
    &&& r.position@ == text_or_empty(t.position)
    &&& r.transaction@ == text_or_empty(t.transaction)
    &&& r.shares == raw_or_zero_u64(t.shares)
    &&& r.value == raw_or_zero_u64(t.value)
    &&& r.start_date == raw_or_zero_i64(t.start_date)
    &&& r.url@ == text_or_empty(t.url)
}

/// Whether a row is the payload roster entry with absent fields defaulted.
pub open spec fn roster_row(h: InsiderRosterHolderNode, r: InsiderRosterHolder) -> bool {
    &&& r.name@ == text_or_empty(h.name)
    &&& r.position@ == text_or_empty(h.relation)
    &&& r.most_recent_transaction@ == text_or_empty(h.most_recent_transaction)
    &&& r.latest_transaction_date == raw_or_zero_i64(h.latest_transaction_date)
    &&& r.shares_owned_directly == raw_or_zero_u64(h.shares_owned_directly)
    &&& r.position_direct_date == raw_or_zero_i64(h.position_direct_date)
}

/// The insider transactions of the payload, one row per node in order;
/// an absent list gives no rows.
pub fn insider_transactions_from(nodes: Option<Vec<InsiderTransactionNode>>) -> (rows: Vec<InsiderTransaction>)
    ensures
        match nodes {
            Some(v) => rows.len() == v.len() && forall|i: int|
                0 <= i < v.len() ==> transaction_row(v@[i], #[trigger] rows@[i]),
            None => rows.len() == 0,
        },
{
    let mut rows: Vec<InsiderTransaction> = Vec::new();
    match nodes {
        None => rows,
        Some(v) => {
            let ghost original = v@;
            for t in it: v
                invariant
                    original == it.seq(),
                    rows.len() == it.index(),
                    forall|i: int| 0 <= i < rows.len() ==> transaction_row(original[i], #[trigger] rows@[i]),
            {
                rows.push(InsiderTransaction {
                    insider: text(t.insider),
                    position: text(t.position),
                    transaction: text(t.transaction),
                    shares: raw_u64(t.shares),
                    value: raw_u64(t.value),
                    start_date: raw_i64(t.start_date),
                    url: text(t.url),
                });
            }
            rows
        },
    }
}

/// The insider roster of the payload, one row per node in order; an absent
/// list gives no rows.
pub fn insider_roster_from(nodes: Option<Vec<InsiderRosterHolderNode>>) -> (rows: Vec<InsiderRosterHolder>)
    ensures
        match nodes {
            Some(v) => rows.len() == v.len() && forall|i: int|
                0 <= i < v.len() ==> roster_row(v@[i], #[trigger] rows@[i]),
            None => rows.len() == 0,
        },
{
    let mut rows: Vec<InsiderRosterHolder> = Vec::new();
    match nodes {
        None => rows,
        Some(v) => {
            let ghost original = v@;
            for h in it: v
                invariant
                    original == it.seq(),
                    rows.len() == it.index(),
                    forall|i: int| 0 <= i < rows.len() ==> roster_row(original[i], #[trigger] rows@[i]),
            {
                rows.push(InsiderRosterHolder {
                    name: text(h.name),
                    position: text(h.relation),
                    most_recent_transaction: text(h.most_recent_transaction),
                    latest_transaction_date: raw_i64(h.latest_transaction_date),
                    shares_owned_directly: raw_u64(h.shares_owned_directly),
                    position_direct_date: raw_i64(h.position_direct_date),
                });
            }
            rows
        },
    }
}

} // verus!
