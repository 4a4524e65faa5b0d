//! Batch quote requests.
use crate::client::{CacheMode, RetryConfig, YfClient};
use crate::info::{Money, Quote};
use vstd::prelude::*;

verus! {

/// A builder for fetching quotes for one or more symbols.
#[derive(Debug)]
pub struct QuotesBuilder {
    /// The client configuration.
    pub client: YfClient,
    /// The symbols to quote, in order.
    pub symbols: Vec<String>,
    /// How the cache is used.
    pub cache_mode: CacheMode,
    /// A retry policy overriding the client's.
    pub retry_override: Option<RetryConfig>,
}

/// Why a quote request cannot be sent.
#[derive(Debug, Clone, Copy, PartialEq, Eq, Structural)]
pub enum QuotesRequestError {
    /// No symbol was given.
    NoSymbols,
}

impl QuotesBuilder {
    /// A builder without symbols that uses the cache.
    pub fn new(client: YfClient) -> (r: QuotesBuilder)
        ensures
            r.client == client,
            r.symbols@.len() == 0,
            r.cache_mode == CacheMode::Use,
            r.retry_override is None,
    {
        QuotesBuilder { client, symbols: Vec::new(), cache_mode: CacheMode::Use, retry_override: None }
    }

    /// Sets the cache mode.
    pub fn cache_mode(self, mode: CacheMode) -> (r: QuotesBuilder)
        ensures
            r == (QuotesBuilder { cache_mode: mode, ..self }),
    {
        QuotesBuilder { cache_mode: mode, ..self }
    }

    /// Overrides the retry policy.
    pub fn retry_policy(self, cfg: Option<RetryConfig>) -> (r: QuotesBuilder)
        ensures
            r == (QuotesBuilder { retry_override: cfg, ..self }),
    {
        QuotesBuilder { retry_override: cfg, ..self }
    }

    /// Replaces the symbols.
    pub fn symbols(self, syms: Vec<String>) -> (r: QuotesBuilder)
        ensures
            r == (QuotesBuilder { symbols: syms, ..self }),
    {
        QuotesBuilder { symbols: syms, ..self }
    }

    /// Appends one symbol.
    pub fn add_symbol(self, sym: &str) -> (r: QuotesBuilder)
        ensures
            r.symbols@.len() == self.symbols@.len() + 1,
            r.symbols@.drop_last() == self.symbols@,
            r.symbols@.last()@ == sym@,
            r.client == self.client,
            r.cache_mode == self.cache_mode,
            r.retry_override == self.retry_override,
    {
        let mut s = self;
        s.symbols.push(sym.to_owned());
        proof {
            assert(s.symbols@.drop_last() =~= self.symbols@);
        }
        s
    }

    /// Checks that the request can be sent: at least one symbol is needed.
    pub fn check_request(&self) -> (r: Result<(), QuotesRequestError>)
        ensures
            r is Ok <==> self.symbols@.len() > 0,
    {
        if self.symbols.len() == 0 {
            Err(QuotesRequestError::NoSymbols)
        } else {
            Ok(())
        }
    }
}

/// One result of the batch quote endpoint, its prices as decimals.
#[derive(Debug, Clone)]
pub struct QuoteNode {
    pub symbol: Option<String>,
    pub short_name: Option<String>,
    pub regular_market_price: Option<Money>,
    pub regular_market_previous_close: Option<Money>,
    pub full_exchange_name: Option<String>,
    pub exchange: Option<String>,
    pub market: Option<String>,
    pub market_cap_figure_exchange: Option<String>,
    pub market_state: Option<String>,
    pub regular_market_volume: Option<u64>,
}

/// The first of four optional texts that is present.
pub open spec fn first_present(
    a: Option<String>,
    b: Option<String>,
    c: Option<String>,
    d: Option<String>,
) -> Option<String> {
    if a is Some {
        a
    } else if b is Some {
        b
    } else if c is Some {
        c
    } else {
        d
    }
}

/// The quote a result gives for `symbol`: the result's symbol, else
/// `symbol`; its short name, price, previous close, market state and
/// volume; and the first of its full exchange name, exchange, market and
/// market-cap exchange.
pub open spec fn quote_of_node(symbol: Seq<char>, node: QuoteNode, q: Quote) -> bool {
    &&& q.symbol@ == match node.symbol {
        Some(s) => s@,
        None => symbol,
    }
    &&& q.shortname == node.short_name
    &&& q.price == node.regular_market_price
    &&& q.previous_close == node.regular_market_previous_close
    &&& q.exchange == first_present(
        node.full_exchange_name,
        node.exchange,
        node.market,
        node.market_cap_figure_exchange,
    )
    &&& q.market_state == node.market_state
    &&& q.day_volume == node.regular_market_volume
}

/// The quote a result gives for `symbol` ([`quote_of_node`]).
pub fn quote_from_node(symbol: &str, node: QuoteNode) -> (q: Quote)
    ensures
        quote_of_node(symbol@, node, q),
{
    let QuoteNode {
        symbol: node_symbol,
        short_name,
        regular_market_price,
        regular_market_previous_close,
        full_exchange_name,
        exchange,
        market,
        market_cap_figure_exchange,
        market_state,
        regular_market_volume,
    } = node;
    let exchange = if full_exchange_name.is_some() {
        full_exchange_name
    } else if exchange.is_some() {
        exchange
    } else if market.is_some() {
        market
    } else {
        market_cap_figure_exchange
    };
    let sym = match node_symbol {
        Some(s) => s,
        None => symbol.to_owned(),
    };
    Quote {
        symbol: sym,
        shortname: short_name,
        price: regular_market_price,
        previous_close: regular_market_previous_close,
        exchange,
        market_state,
        day_volume: regular_market_volume,
    }
}

/// Why the quote endpoint gave no quote.
#[derive(Debug, Clone, Copy, PartialEq, Eq, Structural)]
pub enum QuoteMissing {
    /// The endpoint returned no result.
    NoResult,
}

/// The quote of one symbol from the endpoint's results: the last result
/// ([`quote_of_node`]), or [`QuoteMissing::NoResult`] when there is none.
pub fn quote_for(symbol: &str, results: Vec<QuoteNode>) -> (r: Result<Quote, QuoteMissing>)
    ensures
        r is Err <==> results@.len() == 0,
        r matches Err(e) ==> e == QuoteMissing::NoResult,
        r matches Ok(q) ==> quote_of_node(symbol@, results@.last(), q),
{
    let mut results = results;
    match results.pop() {
        Some(node) => Ok(quote_from_node(symbol, node)),
        None => Err(QuoteMissing::NoResult),
    }
}

/// A quote carries the result's regular market price as its price and the
/// result's previous close as its previous close; its symbol is the
/// result's, else the one asked for; its exchange is the first of the full
/// exchange name, the exchange, the market and the market-cap exchange that
/// is present.
pub proof fn lemma_quote_keeps_price_and_previous_close(symbol: Seq<char>, node: QuoteNode, q: Quote)
    requires
        quote_of_node(symbol, node, q),
    ensures
        q.price == node.regular_market_price,
        q.previous_close == node.regular_market_previous_close,
        node.symbol matches Some(s) ==> q.symbol@ == s@,
        node.symbol is None ==> q.symbol@ == symbol,
        node.full_exchange_name is Some ==> q.exchange == node.full_exchange_name,
        node.full_exchange_name is None && node.exchange is Some ==> q.exchange == node.exchange,
        node.full_exchange_name is None && node.exchange is None && node.market is Some ==> q.exchange
            == node.market,
        node.full_exchange_name is None && node.exchange is None && node.market is None ==> q.exchange
            == node.market_cap_figure_exchange,
        q.shortname == node.short_name,
        q.market_state == node.market_state,
        q.day_volume == node.regular_market_volume,
{
}

} // verus!
