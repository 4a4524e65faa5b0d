//! Symbol search: the request builder, its query, the steps of fetching a
//! result (cache, request, one retry with a crumb), and the result rows.
use crate::client::{CacheMode, RetryConfig, YfClient};
use crate::text::{int_text, int_to_text};
use vstd::prelude::*;

verus! {

/// The default search endpoint.
pub open spec fn default_search_base() -> Seq<char> {
    "https://query2.finance.yahoo.com/v1/finance/search"@
}

/// A builder for a symbol search.
#[derive(Debug)]
pub struct SearchBuilder {
    /// The client configuration.
    pub client: YfClient,
    /// The search endpoint.
    pub base: String,
    /// The search text.
    pub query: String,
    /// How many quotes to ask for.
    pub quotes_count: Option<u32>,
    /// How many news items to ask for.
    pub news_count: Option<u32>,
    /// How many lists to ask for.
    pub lists_count: Option<u32>,
    /// The language of the results.
    pub lang: Option<String>,
    /// The region of the results.
    pub region: Option<String>,
    /// How the cache is used.
    pub cache_mode: CacheMode,
    /// A retry policy overriding the client's.
    pub retry_override: Option<RetryConfig>,
}

impl SearchBuilder {
    /// A search for `query`: ten quotes, no news, no lists, using the cache.
    pub fn new(client: &YfClient, query: &str) -> (r: SearchBuilder)
        ensures
            r.client == *client,
            r.base@ == default_search_base(),
            r.query@ == query@,
            r.quotes_count == Some(10u32),
            r.news_count == Some(0u32),
            r.lists_count == Some(0u32),
            r.lang is None,
            r.region is None,
            r.cache_mode == CacheMode::Use,
            r.retry_override is None,
    {
        SearchBuilder {
            client: client.duplicate(),
            base: "https://query2.finance.yahoo.com/v1/finance/search".to_owned(),
            query: query.to_owned(),
            quotes_count: Some(10),
            news_count: Some(0),
            lists_count: Some(0),
            lang: None,
            region: None,
            cache_mode: CacheMode::Use,
            retry_override: None,
        }
    }

    /// Sets the cache mode.
    pub fn cache_mode(self, mode: CacheMode) -> (r: SearchBuilder)
        ensures
            r == (SearchBuilder { cache_mode: mode, ..self }),
    {
        SearchBuilder { cache_mode: mode, ..self }
    }

    /// Overrides the retry policy.
    pub fn retry_policy(self, cfg: Option<RetryConfig>) -> (r: SearchBuilder)
        ensures
            r == (SearchBuilder { retry_override: cfg, ..self }),
    {
        SearchBuilder { retry_override: cfg, ..self }
    }

    /// Sets the search endpoint.
    pub fn search_base(self, base: String) -> (r: SearchBuilder)
        ensures
            r == (SearchBuilder { base, ..self }),
    {
        SearchBuilder { base, ..self }
    }

    /// Sets how many quotes to ask for.
    pub fn quotes_count(self, n: u32) -> (r: SearchBuilder)
        ensures
            r == (SearchBuilder { quotes_count: Some(n), ..self }),
    {
        SearchBuilder { quotes_count: Some(n), ..self }
    }

    /// Sets how many news items to ask for.
    pub fn news_count(self, n: u32) -> (r: SearchBuilder)
        ensures
            r == (SearchBuilder { news_count: Some(n), ..self }),
    {
        SearchBuilder { news_count: Some(n), ..self }
    }

    /// Sets how many lists to ask for.
    pub fn lists_count(self, n: u32) -> (r: SearchBuilder)
        ensures
            r == (SearchBuilder { lists_count: Some(n), ..self }),
    {
        SearchBuilder { lists_count: Some(n), ..self }
    }

    /// Sets the language of the results.
    pub fn lang(self, s: &str) -> (r: SearchBuilder)
        ensures
            r.lang matches Some(l) && l@ == s@,
            r == (SearchBuilder { lang: r.lang, ..self }),
    {
        SearchBuilder { lang: Some(s.to_owned()), ..self }
    }

    /// Sets the region of the results.
    pub fn region(self, s: &str) -> (r: SearchBuilder)
        ensures
            r.region matches Some(g) && g@ == s@,
            r == (SearchBuilder { region: r.region, ..self }),
    {
        SearchBuilder { region: Some(s.to_owned()), ..self }
    }
}

/// A query pair holding a count, when it is set.
pub open spec fn count_pair(name: Seq<char>, n: Option<u32>) -> Seq<(Seq<char>, Seq<char>)> {
    match n {
        Some(k) => seq![(name, int_text(k as int))],
        None => Seq::empty(),
    }
}

/// A query pair holding a text, when it is set.
pub open spec fn text_pair(name: Seq<char>, t: Option<String>) -> Seq<(Seq<char>, Seq<char>)> {
    match t {
        Some(x) => seq![(name, x@)],
        None => Seq::empty(),
    }
}

/// The query of a search: the text, then each count and option that is set.
pub open spec fn search_query_of(b: SearchBuilder) -> Seq<(Seq<char>, Seq<char>)> {
    seq![("q"@, b.query@)] + count_pair("quotesCount"@, b.quotes_count) + count_pair(
        "newsCount"@,
        b.news_count,
    ) + count_pair("listsCount"@, b.lists_count) + text_pair("lang"@, b.lang) + text_pair(
        "region"@,
        b.region,
    )
}

/// The views of query pairs.
pub open spec fn query_texts(v: Seq<(String, String)>) -> Seq<(Seq<char>, Seq<char>)> {
    v.map_values(|p: (String, String)| (p.0@, p.1@))
}

fn push_count(q: &mut Vec<(String, String)>, name: &str, n: Option<u32>)
    ensures
        query_texts(final(q)@) == query_texts(old(q)@) + count_pair(name@, n),
{
    let ghost before = q@;
    if let Some(k) = n {
        q.push((name.to_owned(), int_to_text(k as i64)));
        proof {
            assert(query_texts(q@) =~= query_texts(before) + count_pair(name@, n));
        }
    } else {
        proof {
            assert(query_texts(q@) =~= query_texts(before) + count_pair(name@, n));
        }
    }
}

fn push_text(q: &mut Vec<(String, String)>, name: &str, t: &Option<String>)
    ensures
        query_texts(final(q)@) == query_texts(old(q)@) + text_pair(name@, *t),
{
    let ghost before = q@;
    if let Some(x) = t {
        q.push((name.to_owned(), x.clone()));
        proof {
            assert(query_texts(q@) =~= query_texts(before) + text_pair(name@, *t));
        }
    } else {
        proof {
            assert(query_texts(q@) =~= query_texts(before) + text_pair(name@, *t));
        }
    }
}

impl SearchBuilder {
    /// The query pairs of the search ([`search_query_of`]).
    pub fn query_params(&self) -> (r: Vec<(String, String)>)
        ensures
            query_texts(r@) == search_query_of(*self),
    {
        let mut q: Vec<(String, String)> = Vec::new();
        q.push(("q".to_owned(), self.query.clone()));
        proof {
            assert(query_texts(q@) =~= seq![("q"@, self.query@)]);
        }
        push_count(&mut q, "quotesCount", self.quotes_count);
        push_count(&mut q, "newsCount", self.news_count);
        push_count(&mut q, "listsCount", self.lists_count);
        push_text(&mut q, "lang", &self.lang);
        push_text(&mut q, "region", &self.region);
        q
    }
}

/// Why a search failed.
#[derive(Debug, Clone, Copy, PartialEq, Eq, Structural)]
pub enum SearchFailure {
    /// The endpoint answered 404.
    NotFound,
    /// The endpoint answered 429.
    RateLimited,
    /// The endpoint answered with a server error (500 to 599).
    ServerError(u16),
    /// The endpoint answered with another unsuccessful status.
    Status(u16),
    /// A crumb was needed and none could be had.
    CrumbNotSet,
}

/// The failure an unsuccessful status stands for.
pub open spec fn status_failure(code: u16) -> SearchFailure {
    if code == 404 {
        SearchFailure::NotFound
    } else if code == 429 {
        SearchFailure::RateLimited
    } else if 500 <= code <= 599 {
        SearchFailure::ServerError(code)
    } else {
        SearchFailure::Status(code)
    }
}

/// The failure an unsuccessful status stands for ([`status_failure`]).
pub fn classify_status(code: u16) -> (f: SearchFailure)
    ensures
        f == status_failure(code),
{
    if code == 404 {
        SearchFailure::NotFound
    } else if code == 429 {
        SearchFailure::RateLimited
    } else if 500 <= code && code <= 599 {
        SearchFailure::ServerError(code)
    } else {
        SearchFailure::Status(code)
    }
}

/// Where a search fetch stands.
#[derive(Debug, Clone, Copy, PartialEq, Eq, Structural)]
pub enum SearchState {
    /// Nothing done yet.
    Start,
    /// Waiting for the cache lookup.
    AwaitingCache,
    /// Waiting for the answer to a request; `with_crumb` for the retry.
    AwaitingResponse { with_crumb: bool },
    /// Waiting for fresh credentials and a crumb.
    AwaitingCrumb,
    /// Finished.
    Done,
}

/// What happened since the last step.
#[derive(Debug, Clone, Copy, PartialEq, Eq, Structural)]
pub enum SearchEvent {
    /// The fetch begins.
    Begin,
    /// The cache held a body for the query.
    CacheHit,
    /// The cache held nothing for the query.
    CacheMiss,
    /// The endpoint answered with this status.
    Response { status: u16 },
    /// Credentials were refreshed; `present` when a crumb is set.
    Crumb { present: bool },
}

/// What the caller does next.
#[derive(Debug, Clone, Copy, PartialEq, Eq, Structural)]
pub enum SearchAction {
    /// Look the query up in the cache.
    ReadCache,
    /// Send the request; with the crumb appended to the query when asked.
    Send { with_crumb: bool },
    /// Refresh the credentials and get the crumb.
    FetchCrumb,
    /// Parse the body; first store it in the cache when asked.
    Parse { store: bool },
    /// Give up with this failure.
    Fail(SearchFailure),
    /// Nothing: the event does not fit the state.
    Ignore,
}

/// Whether a status is a success (200 to 299).
pub open spec fn is_success(code: u16) -> bool {
    200 <= code <= 299
}

/// The step of a search fetch: from a state and an event, the next state
/// and what to do. A fetch reads the cache first when the mode uses it; a
/// successful answer is parsed (and stored unless the cache is bypassed); a
/// first answer of 401 or 403 refreshes the credentials and retries once
/// with the crumb; any other unsuccessful answer fails by its status.
pub open spec fn search_transition(state: SearchState, event: SearchEvent, mode: CacheMode) -> (
    SearchState,
    SearchAction,
) {
    match (state, event) {
        (SearchState::Start, SearchEvent::Begin) => if mode == CacheMode::Use {
            (SearchState::AwaitingCache, SearchAction::ReadCache)
        } else {
            (SearchState::AwaitingResponse { with_crumb: false }, SearchAction::Send { with_crumb: false })
        },
        (SearchState::AwaitingCache, SearchEvent::CacheHit) => (SearchState::Done, SearchAction::Parse { store: false }),
        (SearchState::AwaitingCache, SearchEvent::CacheMiss) => (
            SearchState::AwaitingResponse { with_crumb: false },
            SearchAction::Send { with_crumb: false },
        ),
        (SearchState::AwaitingResponse { with_crumb }, SearchEvent::Response { status }) => if is_success(status) {
            (SearchState::Done, SearchAction::Parse { store: mode != CacheMode::Bypass })
        } else if !with_crumb && (status == 401 || status == 403) {
            (SearchState::AwaitingCrumb, SearchAction::FetchCrumb)
        } else {
            (SearchState::Done, SearchAction::Fail(status_failure(status)))
        },
        (SearchState::AwaitingCrumb, SearchEvent::Crumb { present }) => if present {
            (SearchState::AwaitingResponse { with_crumb: true }, SearchAction::Send { with_crumb: true })
        } else {
            (SearchState::Done, SearchAction::Fail(SearchFailure::CrumbNotSet))
        },
        _ => (state, SearchAction::Ignore),
    }
}

/// One step of a search fetch ([`search_transition`]).
pub fn search_step(state: SearchState, event: SearchEvent, mode: CacheMode) -> (r: (SearchState, SearchAction))
    ensures
        r == search_transition(state, event, mode),
{
    match (state, event) {
        (SearchState::Start, SearchEvent::Begin) => {
            if mode == CacheMode::Use {
                (SearchState::AwaitingCache, SearchAction::ReadCache)
            } else {
                (SearchState::AwaitingResponse { with_crumb: false }, SearchAction::Send { with_crumb: false })
            }
        },
        (SearchState::AwaitingCache, SearchEvent::CacheHit) => (SearchState::Done, SearchAction::Parse { store: false }),
        (SearchState::AwaitingCache, SearchEvent::CacheMiss) => (
            SearchState::AwaitingResponse { with_crumb: false },
            SearchAction::Send { with_crumb: false },
        ),
        (SearchState::AwaitingResponse { with_crumb }, SearchEvent::Response { status }) => {
            if 200 <= status && status <= 299 {
                (SearchState::Done, SearchAction::Parse { store: mode != CacheMode::Bypass })
            } else if !with_crumb && (status == 401 || status == 403) {
                (SearchState::AwaitingCrumb, SearchAction::FetchCrumb)
            } else {
                (SearchState::Done, SearchAction::Fail(classify_status(status)))
            }
        },
        (SearchState::AwaitingCrumb, SearchEvent::Crumb { present }) => {
            if present {
                (SearchState::AwaitingResponse { with_crumb: true }, SearchAction::Send { with_crumb: true })
            } else {
                (SearchState::Done, SearchAction::Fail(SearchFailure::CrumbNotSet))
            }
        },
        _ => (state, SearchAction::Ignore),
    }
}

/// A search retries at most once: after the request that carries the
/// crumb, no answer leads to another request or crumb refresh.
pub proof fn lemma_search_retries_once(event: SearchEvent, mode: CacheMode)
    ensures
        ({
            let (next, action) = search_transition(SearchState::AwaitingResponse { with_crumb: true }, event, mode);
            &&& !(action is Send)
            &&& !(action is FetchCrumb)
            &&& next == SearchState::Done || next == SearchState::AwaitingResponse { with_crumb: true }
        }),
{
}

/// A request carries the crumb only right after a crumb was obtained.
pub proof fn lemma_crumb_only_after_refresh(state: SearchState, event: SearchEvent, mode: CacheMode)
    ensures
        search_transition(state, event, mode).1 == (SearchAction::Send { with_crumb: true }) ==> state
            == SearchState::AwaitingCrumb && event == (SearchEvent::Crumb { present: true }),
{
}

/// One quote row of a search response.
#[derive(Debug, Clone)]
pub struct SearchQuoteNode {
    pub symbol: Option<String>,
    pub shortname: Option<String>,
    pub longname: Option<String>,
    pub quote_type: Option<String>,
    pub exchange: Option<String>,
}

/// One search result, before its exchange and kind are read as such.
#[derive(Debug, Clone, PartialEq, Eq)]
pub struct SearchHit {
    /// The symbol, empty when absent.
    pub symbol: String,
    /// The short name, else the long name.
    pub name: Option<String>,
    /// The exchange code.
    pub exchange: Option<String>,
    /// The quote type.
    pub quote_type: Option<String>,
}

/// `h` is the search result of row `q`.
pub open spec fn hit_of(q: SearchQuoteNode, h: SearchHit) -> bool {
    &&& h.symbol@ == (match q.symbol {
        Some(s) => s@,
        None => Seq::empty(),
    })
    &&& h.name == (match q.shortname {
        Some(n) => Some(n),
        None => q.longname,
    })
    &&& h.exchange == q.exchange
    &&& h.quote_type == q.quote_type
}

/// The search results of the quote rows of a response, in order; none when
/// the response has no quote rows.
pub fn search_hits(quotes: Option<Vec<SearchQuoteNode>>) -> (r: Vec<SearchHit>)
    ensures
        match quotes {
            None => r@.len() == 0,
            Some(qs) => r@.len() == qs@.len() && forall|i: int| 0 <= i < qs@.len() ==> hit_of(qs@[i], #[trigger] r@[i]),
        },
{
    let qs = match quotes {
        Some(q) => q,
        None => return Vec::new(),
    };
    let ghost all = qs@;
    let mut out: Vec<SearchHit> = Vec::new();
    for q in it: qs
        invariant
            all == it.seq(),
            out@.len() == it.index(),
            forall|i: int| 0 <= i < it.index() ==> hit_of(all[i], #[trigger] out@[i]),
    {
        let ghost q0 = q;
        let SearchQuoteNode { symbol, shortname, longname, quote_type, exchange } = q;
        let symbol = match symbol {
            Some(s) => s,
            None => String::new(),
        };
        let name = match shortname {
            Some(n) => Some(n),
            None => longname,
        };
        out.push(SearchHit { symbol, name, exchange, quote_type });
        proof {
            assert(hit_of(q0, out@[out@.len() - 1]));
        }
    }
    out
}

/// A search result is named by the row's short name whenever the row has
/// one; the long name is used only when the short name is absent. Its
/// symbol is the row's (empty when absent), and its exchange and quote type
/// are the row's.
pub proof fn lemma_hit_prefers_the_short_name(q: SearchQuoteNode, h: SearchHit)
    requires
        hit_of(q, h),
    ensures
        q.shortname is Some ==> h.name == q.shortname,
        q.shortname is None ==> h.name == q.longname,
        q.symbol matches Some(s) ==> h.symbol@ == s@,
        q.symbol is None ==> h.symbol@.len() == 0,
        h.exchange == q.exchange,
        h.quote_type == q.quote_type,
{
}

} // verus!
