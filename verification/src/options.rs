//! Option chains: the request flow of the options endpoint, the query it
//! sends, and the expiration date a chain falls back to when the payload
//! gives none.
use crate::actions::{parse_i64_spec, parse_i64_text};
use crate::client::CacheMode;
use crate::search::is_success;
use crate::text::{chars_of, int_text, int_to_text, split_chars, split_on, string_of_range};
use vstd::prelude::*;

verus! {

/// Where an options fetch stands.
#[derive(Debug, Clone, Copy, PartialEq, Eq, Structural)]
pub enum OptionsState {
    /// Nothing done yet.
    Start,
    /// Waiting for the cache lookup.
    AwaitingCache,
    /// Waiting for the answer to a request; `with_crumb` for the retry.
    AwaitingResponse { with_crumb: bool },
    /// Waiting for fresh credentials and a crumb after the first answer
    /// refused access with `status`.
    AwaitingCrumb { status: u16 },
    /// Finished.
    Done,
}

/// What happened since the last step.
#[derive(Debug, Clone, Copy, PartialEq, Eq, Structural)]
pub enum OptionsEvent {
    /// The fetch begins.
    Begin,
    /// The cache held a body for the request.
    CacheHit,
    /// The cache held nothing for the request.
    CacheMiss,
    /// The endpoint answered with this status.
    Response { status: u16 },
    /// Credentials were refreshed; `present` when a crumb is set.
    Crumb { present: bool },
}

/// What the caller does next.
#[derive(Debug, Clone, Copy, PartialEq, Eq, Structural)]
pub enum OptionsAction {
    /// Look the request up in the cache.
    ReadCache,
    /// Send the request; with the crumb in its query when asked.
    Send { with_crumb: bool },
    /// Refresh the credentials and get the crumb.
    FetchCrumb,
    /// Use the body; first store it in the cache when asked.
    Accept { store: bool },
    /// Give up with this status, reported against the request with or
    /// without the crumb.
    Fail { status: u16, with_crumb: bool },
    /// Nothing: the event does not fit the state.
    Ignore,
}

/// The step of an options fetch: from a state and an event, the next state
/// and what to do. A fetch reads the cache first when the mode uses it; a
/// successful answer is used (and stored unless the cache is bypassed); a
/// first answer of 401 or 403 refreshes the credentials and retries once with
/// the crumb, failing with that first status when no crumb is set; any other
/// unsuccessful answer fails with its status.
pub open spec fn options_transition(state: OptionsState, event: OptionsEvent, mode: CacheMode) -> (
    OptionsState,
    OptionsAction,
) {
    match (state, event) {
        (OptionsState::Start, OptionsEvent::Begin) => if mode == CacheMode::Use {
            (OptionsState::AwaitingCache, OptionsAction::ReadCache)
        } else {
            (OptionsState::AwaitingResponse { with_crumb: false }, OptionsAction::Send { with_crumb: false })
        },
        (OptionsState::AwaitingCache, OptionsEvent::CacheHit) => (
            OptionsState::Done,
            OptionsAction::Accept { store: false },
        ),
        (OptionsState::AwaitingCache, OptionsEvent::CacheMiss) => (
            OptionsState::AwaitingResponse { with_crumb: false },
            OptionsAction::Send { with_crumb: false },
        ),
        (OptionsState::AwaitingResponse { with_crumb }, OptionsEvent::Response { status }) => if is_success(
            status,
        ) {
            (OptionsState::Done, OptionsAction::Accept { store: mode != CacheMode::Bypass })
        } else if !with_crumb && (status == 401 || status == 403) {
            (OptionsState::AwaitingCrumb { status }, OptionsAction::FetchCrumb)
        } else {
            (OptionsState::Done, OptionsAction::Fail { status, with_crumb })
        },
        (OptionsState::AwaitingCrumb { status }, OptionsEvent::Crumb { present }) => if present {
            (OptionsState::AwaitingResponse { with_crumb: true }, OptionsAction::Send { with_crumb: true })
        } else {
            (OptionsState::Done, OptionsAction::Fail { status, with_crumb: false })
        },
        _ => (state, OptionsAction::Ignore),
    }
}

/// One step of an options fetch ([`options_transition`]).
pub fn options_step(state: OptionsState, event: OptionsEvent, mode: CacheMode) -> (r: (
    OptionsState,
    OptionsAction,
))
    ensures
        r == options_transition(state, event, mode),
{
    match (state, event) {
        (OptionsState::Start, OptionsEvent::Begin) => {
            if mode == CacheMode::Use {
                (OptionsState::AwaitingCache, OptionsAction::ReadCache)
            } else {
                (OptionsState::AwaitingResponse { with_crumb: false }, OptionsAction::Send { with_crumb: false })
            }
        },
        (OptionsState::AwaitingCache, OptionsEvent::CacheHit) => (
            OptionsState::Done,
            OptionsAction::Accept { store: false },
        ),
        (OptionsState::AwaitingCache, OptionsEvent::CacheMiss) => (
            OptionsState::AwaitingResponse { with_crumb: false },
            OptionsAction::Send { with_crumb: false },
        ),
        (OptionsState::AwaitingResponse { with_crumb }, OptionsEvent::Response { status }) => {
            if 200 <= status && status <= 299 {
                (OptionsState::Done, OptionsAction::Accept { store: mode != CacheMode::Bypass })
            } else if !with_crumb && (status == 401 || status == 403) {
                (OptionsState::AwaitingCrumb { status }, OptionsAction::FetchCrumb)
            } else {
                (OptionsState::Done, OptionsAction::Fail { status, with_crumb })
            }
        },
        (OptionsState::AwaitingCrumb { status }, OptionsEvent::Crumb { present }) => {
            if present {
                (OptionsState::AwaitingResponse { with_crumb: true }, OptionsAction::Send { with_crumb: true })
            } else {
                (OptionsState::Done, OptionsAction::Fail { status, with_crumb: false })
            }
        },
        _ => (state, OptionsAction::Ignore),
    }
}

/// An options fetch retries at most once: after the request that carries
/// the crumb, no answer leads to another request or crumb refresh.
pub proof fn lemma_options_retry_once(event: OptionsEvent, mode: CacheMode)
    ensures
        ({
            let (next, action) = options_transition(OptionsState::AwaitingResponse { with_crumb: true }, event, mode);
            &&& !(action is Send)
            &&& !(action is FetchCrumb)
            &&& next == OptionsState::Done || next == OptionsState::AwaitingResponse { with_crumb: true }
        }),
{
}

/// A body read from the cache is used as it is and not stored again, and a
/// fresh body is stored exactly when the cache is not bypassed.
pub proof fn lemma_options_cache_writes(state: OptionsState, event: OptionsEvent, mode: CacheMode)
    ensures
        options_transition(state, event, mode).1 matches OptionsAction::Accept { store } ==> (store
            <==> (event is Response && mode != CacheMode::Bypass)),
{
}

/// The query pairs of an options request: the expiration `date` when one is
/// asked for, then the crumb when one is sent.
pub open spec fn options_query_of(date: Option<i64>, crumb: Option<Seq<char>>) -> Seq<(Seq<char>, Seq<char>)> {
    let d = match date {
        Some(t) => seq![("date"@, int_text(t as int))],
        None => Seq::empty(),
    };
    let c = match crumb {
        Some(k) => seq![("crumb"@, k)],
        None => Seq::empty(),
    };
    d + c
}

/// The views of query pairs.
pub open spec fn pair_texts(v: Seq<(String, String)>) -> Seq<(Seq<char>, Seq<char>)> {
    v.map_values(|p: (String, String)| (p.0@, p.1@))
}

/// The query pairs of an options request ([`options_query_of`]).
pub fn options_query(date: Option<i64>, crumb: Option<&str>) -> (r: Vec<(String, String)>)
    ensures
        pair_texts(r@) == options_query_of(
            date,
            match crumb {
                Some(k) => Some(k@),
                None => None,
            },
        ),
{
    let mut q: Vec<(String, String)> = Vec::new();
    if let Some(t) = date {
        q.push(("date".to_owned(), int_to_text(t)));
    }
    if let Some(k) = crumb {
        q.push(("crumb".to_owned(), k.to_owned()));
    }
    proof {
        assert(pair_texts(q@) =~= options_query_of(
            date,
            match crumb {
                Some(k) => Some(k@),
                None => None,
            },
        ));
    }
    q
}

/// The date a `date=` query piece names.
pub open spec fn date_of_piece(p: Seq<char>) -> Option<i64> {
    if p.len() >= 5 && p.take(5) == "date="@ {
        parse_i64_spec(p.skip(5))
    } else {
        None
    }
}

/// The date named by the first of `ps[i..]` that names one.
pub open spec fn first_date(ps: Seq<Seq<char>>, i: int) -> Option<i64>
    decreases ps.len() - i,
{
    if 0 <= i < ps.len() {
        match date_of_piece(ps[i]) {
            Some(t) => Some(t),
            None => first_date(ps, i + 1),
        }
    } else {
        None
    }
}

/// The expiration date a request query names: the first of its `&`-separated
/// pieces that is `date=` followed by an integer.
pub open spec fn query_date(query: Seq<char>) -> Option<i64> {
    first_date(split_on(query, '&'), 0)
}

/// The date a query piece names ([`date_of_piece`]).
fn piece_date(p: &Vec<char>) -> (r: Option<i64>)
    ensures
        r == date_of_piece(p@),
{
    proof {
        reveal_strlit("date=");
    }
    if p.len() < 5 {
        return None;
    }
    if !(p[0] == 'd' && p[1] == 'a' && p[2] == 't' && p[3] == 'e' && p[4] == '=') {
        proof {
            if p@.take(5) == "date="@ {
                assert(p@.take(5)[0] == 'd' && p@.take(5)[1] == 'a' && p@.take(5)[2] == 't');
                assert(p@.take(5)[3] == 'e' && p@.take(5)[4] == '=');
            }
        }
        return None;
    }
    proof {
        assert(p@.take(5) =~= "date="@);
    }
    let rest = string_of_range(p, 5, p.len());
    proof {
        assert(rest@ =~= p@.skip(5));
    }
    parse_i64_text(rest.as_str())
}

/// The expiration date a request query names ([`query_date`]).
pub fn expiration_from_query(query: &str) -> (r: Option<i64>)
    ensures
        r == query_date(query@),
{
    let pieces = split_chars(query, '&');
    let ghost ps = split_on(query@, '&');
    let mut i: usize = 0;
    while i < pieces.len()
        invariant
            i <= pieces@.len() == ps.len(),
            ps == split_on(query@, '&'),
            forall|k: int| 0 <= k < pieces@.len() ==> (#[trigger] pieces@[k])@ == ps[k],
            first_date(ps, 0) == first_date(ps, i as int),
        decreases pieces.len() - i,
    {
        if let Some(t) = piece_date(&pieces[i]) {
            return Some(t);
        }
        i = i + 1;
    }
    None
}

/// The expiration date of an option chain: the one the payload gives, else
/// the one the request's query names, else 0.
pub open spec fn chain_expiration_of(given: Option<i64>, query: Option<Seq<char>>) -> i64 {
    match given {
        Some(t) => t,
        None => match query {
            Some(q) => match query_date(q) {
                Some(t) => t,
                None => 0,
            },
            None => 0,
        },
    }
}

/// The expiration date of an option chain ([`chain_expiration_of`]).
pub fn chain_expiration(given: Option<i64>, query: Option<&str>) -> (r: i64)
    ensures
        r == chain_expiration_of(
            given,
            match query {
                Some(q) => Some(q@),
                None => None,
            },
        ),
{
    match given {
        Some(t) => t,
        None => match query {
            Some(q) => match expiration_from_query(q) {
                Some(t) => t,
                None => 0,
            },
            None => 0,
        },
    }
}

} // verus!
