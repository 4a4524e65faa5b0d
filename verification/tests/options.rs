use yfinance_rs::client::CacheMode;
use yfinance_rs::options::{
    chain_expiration, expiration_from_query, options_query, options_step, OptionsAction, OptionsEvent,
    OptionsState,
};

#[test]
fn options_fetch_reads_the_cache_first_when_used() {
    let (s, a) = options_step(OptionsState::Start, OptionsEvent::Begin, CacheMode::Use);
    assert_eq!((s, a), (OptionsState::AwaitingCache, OptionsAction::ReadCache));
    let (s, a) = options_step(s, OptionsEvent::CacheHit, CacheMode::Use);
    assert_eq!((s, a), (OptionsState::Done, OptionsAction::Accept { store: false }));
    let (s, a) = options_step(OptionsState::Start, OptionsEvent::Begin, CacheMode::Refresh);
    assert_eq!(
        (s, a),
        (OptionsState::AwaitingResponse { with_crumb: false }, OptionsAction::Send { with_crumb: false })
    );
}

#[test]
fn options_fetch_stores_fresh_bodies_unless_bypassed() {
    let waiting = OptionsState::AwaitingResponse { with_crumb: false };
    let ok = OptionsEvent::Response { status: 200 };
    assert_eq!(options_step(waiting, ok, CacheMode::Use).1, OptionsAction::Accept { store: true });
    assert_eq!(options_step(waiting, ok, CacheMode::Bypass).1, OptionsAction::Accept { store: false });
}

#[test]
fn options_fetch_retries_once_with_the_crumb() {
    let waiting = OptionsState::AwaitingResponse { with_crumb: false };
    let (s, a) = options_step(waiting, OptionsEvent::Response { status: 401 }, CacheMode::Use);
    assert_eq!((s, a), (OptionsState::AwaitingCrumb { status: 401 }, OptionsAction::FetchCrumb));
    let (s2, a2) = options_step(s, OptionsEvent::Crumb { present: true }, CacheMode::Use);
    assert_eq!(
        (s2, a2),
        (OptionsState::AwaitingResponse { with_crumb: true }, OptionsAction::Send { with_crumb: true })
    );
    let (_, a3) = options_step(s2, OptionsEvent::Response { status: 403 }, CacheMode::Use);
    assert_eq!(a3, OptionsAction::Fail { status: 403, with_crumb: true });
    let (_, a4) = options_step(s, OptionsEvent::Crumb { present: false }, CacheMode::Use);
    assert_eq!(a4, OptionsAction::Fail { status: 401, with_crumb: false });
    let (_, a5) = options_step(waiting, OptionsEvent::Response { status: 500 }, CacheMode::Use);
    assert_eq!(a5, OptionsAction::Fail { status: 500, with_crumb: false });
    let (_, a6) = options_step(OptionsState::Done, OptionsEvent::Begin, CacheMode::Use);
    assert_eq!(a6, OptionsAction::Ignore);
}

#[test]
fn options_query_has_date_then_crumb() {
    assert_eq!(
        options_query(Some(1700000000), Some("abc")),
        vec![("date".to_string(), "1700000000".to_string()), ("crumb".to_string(), "abc".to_string())]
    );
    assert_eq!(options_query(None, None), vec![]);
    assert_eq!(options_query(Some(-5), None), vec![("date".to_string(), "-5".to_string())]);
}

#[test]
fn expiration_is_read_from_the_first_date_piece() {
    assert_eq!(expiration_from_query("date=1700000000&crumb=x"), Some(1700000000));
    assert_eq!(expiration_from_query("a=1&date=abc&date=5"), Some(5));
    assert_eq!(expiration_from_query("date=+7"), Some(7));
    assert_eq!(expiration_from_query("date=-3"), Some(-3));
    assert_eq!(expiration_from_query("xdate=4"), None);
    assert_eq!(expiration_from_query(""), None);
    assert_eq!(expiration_from_query("date=99999999999999999999"), None);
}

#[test]
fn chain_expiration_prefers_the_payload() {
    assert_eq!(chain_expiration(Some(1), Some("date=9")), 1);
    assert_eq!(chain_expiration(None, Some("date=9")), 9);
    assert_eq!(chain_expiration(None, Some("crumb=z")), 0);
    assert_eq!(chain_expiration(None, None), 0);
}
