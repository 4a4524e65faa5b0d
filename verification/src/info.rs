//! Ticker summaries built from a quote: the fast info, and the quote and
//! profile part of the full info.
use crate::decimal::Dec;
use crate::profile::{text_of, Profile};
use crate::symbol::{canonical_symbol, checked_symbol};
use vstd::prelude::*;

verus! {

/// An amount of money: the amount and, when known, its currency code.
#[derive(Debug, Clone)]
pub struct Money {
    pub amount: Dec,
    pub currency: Option<String>,
}

/// The quote of a symbol, as the quote endpoint gives it.
#[derive(Debug, Clone)]
pub struct Quote {
    pub symbol: String,
    pub shortname: Option<String>,
    pub price: Option<Money>,
    pub previous_close: Option<Money>,
    pub exchange: Option<String>,
    pub market_state: Option<String>,
    pub day_volume: Option<u64>,
}

/// The currency of a quote: that of its price, else that of its previous
/// close.
pub open spec fn quote_currency(q: Quote) -> Option<Seq<char>> {
    let of_price = match q.price {
        Some(m) => text_of(m.currency),
        None => None,
    };
    match of_price {
        Some(c) => Some(c),
        None => match q.previous_close {
            Some(m) => text_of(m.currency),
            None => None,
        },
    }
}

fn currency_of(m: &Option<Money>) -> (r: Option<String>)
    ensures
        text_of(r) == match *m {
            Some(x) => text_of(x.currency),
            None => None,
        },
{
    match m {
        Some(x) => match &x.currency {
            Some(c) => Some(c.clone()),
            None => None,
        },
        None => None,
    }
}

/// The currency of a quote ([`quote_currency`]).
pub fn currency_for(q: &Quote) -> (r: Option<String>)
    ensures
        text_of(r) == quote_currency(*q),
{
    match currency_of(&q.price) {
        Some(c) => Some(c),
        None => currency_of(&q.previous_close),
    }
}

/// The essentials of a quote.
#[derive(Debug, Clone)]
pub struct FastInfo {
    pub symbol: String,
    pub name: Option<String>,
    pub exchange: Option<String>,
    pub market_state: Option<String>,
    pub currency: Option<String>,
    pub last: Option<Money>,
    pub previous_close: Option<Money>,
}

/// Why a quote gives no fast info.
#[derive(Debug, Clone, Copy, PartialEq, Eq, Structural)]
pub enum FastInfoError {
    /// The quote has neither a last price nor a previous close.
    NoPrice,
}

/// The essentials of a quote: its symbol, short name, exchange and market
/// state, its currency ([`quote_currency`]), last price and previous close.
/// A quote with neither a last price nor a previous close gives
/// [`FastInfoError::NoPrice`].
pub fn fast_info_of(q: Quote) -> (r: Result<FastInfo, FastInfoError>)
    ensures
        r is Err <==> (q.price is None && q.previous_close is None),
        r matches Err(e) ==> e == FastInfoError::NoPrice,
        r matches Ok(f) ==> {
            &&& f.symbol == q.symbol
            &&& f.name == q.shortname
            &&& f.exchange == q.exchange
            &&& f.market_state == q.market_state
            &&& text_of(f.currency) == quote_currency(q)
            &&& f.last == q.price
            &&& f.previous_close == q.previous_close
        },
{
    if q.price.is_none() && q.previous_close.is_none() {
        return Err(FastInfoError::NoPrice);
    }
    let currency = currency_for(&q);
    Ok(FastInfo {
        symbol: q.symbol,
        name: q.shortname,
        exchange: q.exchange,
        market_state: q.market_state,
        currency,
        last: q.price,
        previous_close: q.previous_close,
    })
}

/// The part of a ticker's info that comes from its quote and profile.
#[derive(Debug, Clone)]
pub struct InfoSummary {
    pub symbol: String,
    pub name: Option<String>,
    pub isin: Option<String>,
    pub exchange: Option<String>,
    pub market_state: Option<String>,
    pub currency: Option<String>,
    pub last: Option<Money>,
    pub previous_close: Option<Money>,
    pub volume: Option<u64>,
}

/// What a ticker's info holds of its symbol, quote and ISIN: the quote's
/// fields where there is a quote (its symbol, else `symbol` in canonical
/// form), and the ISIN.
pub open spec fn summarizes(symbol: Seq<char>, quote: Option<Quote>, isin: Option<Seq<char>>, r: InfoSummary) -> bool {
    &&& text_of(r.isin) == isin
    &&& match quote {
        Some(q) => {
            &&& r.symbol == q.symbol
            &&& r.name == q.shortname
            &&& r.exchange == q.exchange
            &&& r.market_state == q.market_state
            &&& text_of(r.currency) == quote_currency(q)
            &&& r.last == q.price
            &&& r.previous_close == q.previous_close
            &&& r.volume == q.day_volume
        },
        None => {
            &&& canonical_symbol(symbol) == Some(r.symbol@)
            &&& r.name is None
            &&& r.exchange is None
            &&& r.market_state is None
            &&& r.currency is None
            &&& r.last is None
            &&& r.previous_close is None
            &&& r.volume is None
        },
    }
}

/// The quote and profile part of a ticker's info ([`summarizes`]). Without
/// a quote the symbol must be a valid one: its canonical form is used.
pub fn info_summary(symbol: &str, quote: Option<Quote>, isin: Option<String>) -> (r: InfoSummary)
    requires
        quote is None ==> canonical_symbol(symbol@) is Some,
    ensures
        summarizes(symbol@, quote, text_of(isin), r),
{
    match quote {
        Some(q) => {
            let currency = currency_for(&q);
            InfoSummary {
                symbol: q.symbol,
                name: q.shortname,
                isin,
                exchange: q.exchange,
                market_state: q.market_state,
                currency,
                last: q.price,
                previous_close: q.previous_close,
                volume: q.day_volume,
            }
        },
        None => {
            let sym = match checked_symbol(symbol) {
                Some(s) => s,
                None => symbol.to_owned(),
            };
            InfoSummary {
                symbol: sym,
                name: None,
                isin,
                exchange: None,
                market_state: None,
                currency: None,
                last: None,
                previous_close: None,
                volume: None,
            }
        },
    }
}

/// The ISIN a profile carries.
pub open spec fn profile_isin(p: Profile) -> Option<String> {
    match p {
        Profile::Company(c) => c.isin,
        Profile::Fund(f) => f.isin,
    }
}

/// A ticker's info from its parts: a profile error comes back as it is;
/// otherwise the summary of the symbol, the quote when it was had, and the
/// profile's ISIN ([`summarizes`]).
pub fn info_of<E>(symbol: &str, quote: Option<Quote>, profile: Result<Profile, E>) -> (r: Result<InfoSummary, E>)
    requires
        quote is None && profile is Ok ==> canonical_symbol(symbol@) is Some,
    ensures
        match profile {
            Err(e) => r == Err::<InfoSummary, E>(e),
            Ok(p) => r matches Ok(i) && summarizes(symbol@, quote, text_of(profile_isin(p)), i),
        },
{
    match profile {
        Err(e) => Err(e),
        Ok(p) => {
            let isin = match p.isin() {
                Some(s) => Some(s.to_owned()),
                None => None,
            };
            Ok(info_summary(symbol, quote, isin))
        },
    }
}

/// The info of a ticker with a quote carries the quote's price as its last
/// price and the quote's previous close as its previous close, the quote's
/// short name as its name and the quote's day volume as its volume; without
/// a quote, all of these are absent.
pub proof fn lemma_info_takes_prices_from_the_quote(
    symbol: Seq<char>,
    quote: Option<Quote>,
    isin: Option<Seq<char>>,
    r: InfoSummary,
)
    requires
        summarizes(symbol, quote, isin, r),
    ensures
        quote matches Some(q) ==> r.last == q.price && r.previous_close == q.previous_close && r.name
            == q.shortname && r.volume == q.day_volume && r.symbol == q.symbol,
        quote is None ==> r.last is None && r.previous_close is None && r.name is None && r.volume is None,
        text_of(r.isin) == isin,
{
}

} // verus!
