use std::time::Duration;
use yfinance_rs::actions::{
    capital_gains_of, dec_to_u32, dividends_of, extract_actions, parse_i64_text, parse_u32_text,
    splits_of, Action,
};
use yfinance_rs::adjust::{AdjustmentPlan, SplitRatio};
use yfinance_rs::chart::{
    CapitalGainEvent, DividendEvent, Events, Fetched, QuoteBlock, SplitEvent, WireValue,
};
use yfinance_rs::client::{ApiPreference, CacheMode, RetryConfig, YfClient};
use yfinance_rs::decimal::Dec;
use yfinance_rs::dump::{
    debug_digest, extract_js_object_after, extract_title, extracted_json_text, limit_chars, script_label,
    ScanPastEnd,
};
use yfinance_rs::info::{fast_info_of, info_of, info_summary, FastInfoError, Money, Quote};
use yfinance_rs::quote::{quote_for, quote_from_node, QuoteMissing, QuoteNode};
use yfinance_rs::json::{parse_json, Json};
use yfinance_rs::response::history_response;
use yfinance_rs::profile::{
    profile_load_step, summary_outcome, Fund, Profile, ProfileLoadAction, ProfileLoadEvent,
    ProfileLoadState, SummaryError, SummaryOutcome,
};
use yfinance_rs::search::{
    classify_status, search_hits, search_step, SearchAction, SearchBuilder, SearchEvent,
    SearchFailure, SearchQuoteNode, SearchState,
};
use yfinance_rs::stream::{
    after_websocket, initial_transport, ws_frame_payload, FrameError, StreamMethod, Transport,
};
use yfinance_rs::symbol::checked_symbol;

fn client() -> YfClient {
    YfClient {
        base_chart: String::new(),
        base_quote: String::new(),
        base_quote_api: String::new(),
        base_quote_v7: String::new(),
        base_options_v7: String::new(),
        base_news: String::new(),
        base_insider_search: String::new(),
        base_stream: String::new(),
        user_agent: String::new(),
        retry: RetryConfig {
            enabled: false,
            max_retries: 0,
            base_delay: Duration::from_millis(0),
            max_delay: Duration::from_millis(0),
            jitter: false,
        },
        api_preference: ApiPreference::ApiOnly,
    }
}

#[test]
fn title_and_object_extraction() {
    assert_eq!(extract_title("<html><title>Apple (AAPL)</title>").as_deref(), Some("Apple (AAPL)"));
    assert_eq!(extract_title("<title>open"), None);
    let s = "x root.App.main = \n {\"a\":\"}\\\"\",\"b\":{}} ; tail";
    assert_eq!(
        extract_js_object_after("root.App.main =", s).unwrap().as_deref(),
        Some("{\"a\":\"}\\\"\",\"b\":{}}")
    );
    assert_eq!(extract_js_object_after("root.App.main =", "root.App.main = [1]"), Ok(None));
    assert_eq!(
        extract_js_object_after("root.App.main =", "root.App.main = {\"a\":1"),
        Ok(Some("{\"a\":1".to_string()))
    );
    assert_eq!(extract_js_object_after("root.App.main =", "root.App.main = {\"a\\"), Err(ScanPastEnd));
}

#[test]
fn labels_and_limits() {
    assert_eq!(
        script_label("<script type=\"application/json\" data-sveltekit-fetched data-url=\"https://x/y?z=1\">"),
        "sveltekit-fetched https://x/y?z=1\">"
    );
    assert_eq!(script_label("<script data-sveltekit-fetched>"), "sveltekit-fetched ");
    assert_eq!(script_label("<script id=\"__NEXT_DATA__\" type=\"application/json\">"), "__NEXT_DATA__");
    assert_eq!(script_label("<script type=\"application/json\">"), "application/json script");
    assert_eq!(limit_chars("héllo", 10), "héllo");
    assert_eq!(limit_chars("héllo", 2), "hé\n… [truncated]");
}

#[test]
fn search_builder_query() {
    let c = client();
    let b = SearchBuilder::new(&c, "apple").lang("en-US").news_count(3);
    let q = b.query_params();
    let pairs: Vec<(&str, &str)> = q.iter().map(|(k, v)| (k.as_str(), v.as_str())).collect();
    assert_eq!(
        pairs,
        vec![("q", "apple"), ("quotesCount", "10"), ("newsCount", "3"), ("listsCount", "0"), ("lang", "en-US")]
    );
    assert_eq!(b.base, "https://query2.finance.yahoo.com/v1/finance/search");
    let b = b.search_base("http://localhost/s".to_string()).region("US").quotes_count(1).lists_count(2).cache_mode(CacheMode::Bypass).retry_policy(None);
    assert_eq!(b.base, "http://localhost/s");
    assert_eq!(b.region.as_deref(), Some("US"));
}

#[test]
fn search_steps_retry_once_with_crumb() {
    let (s, a) = search_step(SearchState::Start, SearchEvent::Begin, CacheMode::Use);
    assert_eq!(a, SearchAction::ReadCache);
    let (s, a) = search_step(s, SearchEvent::CacheMiss, CacheMode::Use);
    assert_eq!(a, SearchAction::Send { with_crumb: false });
    let (s, a) = search_step(s, SearchEvent::Response { status: 401 }, CacheMode::Use);
    assert_eq!(a, SearchAction::FetchCrumb);
    let (s, a) = search_step(s, SearchEvent::Crumb { present: true }, CacheMode::Use);
    assert_eq!(a, SearchAction::Send { with_crumb: true });
    let (s2, a) = search_step(s, SearchEvent::Response { status: 403 }, CacheMode::Use);
    assert_eq!(a, SearchAction::Fail(SearchFailure::Status(403)));
    assert_eq!(s2, SearchState::Done);
    let (_, a) = search_step(s, SearchEvent::Response { status: 200 }, CacheMode::Refresh);
    assert_eq!(a, SearchAction::Parse { store: true });
    let (_, a) = search_step(SearchState::Start, SearchEvent::Begin, CacheMode::Bypass);
    assert_eq!(a, SearchAction::Send { with_crumb: false });
    let (_, a) = search_step(SearchState::AwaitingCrumb, SearchEvent::Crumb { present: false }, CacheMode::Use);
    assert_eq!(a, SearchAction::Fail(SearchFailure::CrumbNotSet));
    let (_, a) = search_step(SearchState::AwaitingCache, SearchEvent::CacheHit, CacheMode::Use);
    assert_eq!(a, SearchAction::Parse { store: false });
    let (_, a) = search_step(SearchState::Done, SearchEvent::Begin, CacheMode::Use);
    assert_eq!(a, SearchAction::Ignore);
}

#[test]
fn status_classification() {
    assert_eq!(classify_status(404), SearchFailure::NotFound);
    assert_eq!(classify_status(429), SearchFailure::RateLimited);
    assert_eq!(classify_status(503), SearchFailure::ServerError(503));
    assert_eq!(classify_status(418), SearchFailure::Status(418));
}

#[test]
fn search_hits_fill_defaults() {
    let hits = search_hits(Some(vec![SearchQuoteNode {
        symbol: None,
        shortname: None,
        longname: Some("Long".into()),
        quote_type: Some("EQUITY".into()),
        exchange: Some("NMS".into()),
    }]));
    assert_eq!(hits[0].symbol, "");
    assert_eq!(hits[0].name.as_deref(), Some("Long"));
    assert!(search_hits(None).is_empty());
}

#[test]
fn integer_parsing_follows_std() {
    for s in ["0", "+7", "-7", "42", "", "+", "-", "4294967295", "4294967296", "1a", " 1", "-0"] {
        assert_eq!(parse_u32_text(s), s.parse::<u32>().ok(), "{s}");
    }
    for s in ["0", "-9223372036854775808", "9223372036854775807", "9223372036854775808", "+12", "-", "x", "1700000000"] {
        assert_eq!(parse_i64_text(s), s.parse::<i64>().ok(), "{s}");
    }
}

fn dec(m: i128, scale: u32) -> Dec {
    Dec::try_from_i128_with_scale(m, scale).unwrap()
}

#[test]
fn decimals_truncate_and_saturate() {
    assert_eq!(dec_to_u32(dec(1262838, 6)), 1);
    assert_eq!(dec_to_u32(dec(-25, 1)), 0);
    assert_eq!(dec_to_u32(dec(10_000_000_000, 0)), u32::MAX);
    assert_eq!(dec_to_u32(dec(7, 0)), 7);
}

#[test]
fn actions_are_extracted_and_ordered() {
    let events = Events {
        dividends: Some(vec![
            ("300".into(), DividendEvent { amount: WireValue::Value(dec(5, 1)), date: None, currency: None }),
            ("x".into(), DividendEvent { amount: WireValue::Value(dec(1, 0)), date: Some(50), currency: None }),
            ("400".into(), DividendEvent { amount: WireValue::Null, date: None, currency: None }),
        ]),
        splits: Some(vec![
            ("200".into(), SplitEvent { numerator: None, denominator: None, split_ratio: Some("4/1".into()), date: None }),
            ("250".into(), SplitEvent { numerator: Some(dec(0, 0)), denominator: Some(dec(1, 0)), split_ratio: None, date: None }),
        ]),
        capital_gains: Some(vec![(
            "100".into(),
            CapitalGainEvent { amount: WireValue::Value(dec(2, 0)), date: None, currency: None },
        )]),
    };
    let (actions, splits) = extract_actions(&Some(events));
    let times: Vec<i64> = actions
        .iter()
        .map(|a| match a {
            Action::Dividend { ts, .. } | Action::CapitalGain { ts, .. } | Action::Split { ts, .. } => *ts,
        })
        .collect();
    assert_eq!(times, vec![50, 100, 200, 250, 300]);
    assert!(matches!(actions[2], Action::Split { numerator: 4, denominator: 1, .. }));
    assert!(matches!(actions[3], Action::Split { numerator: 0, denominator: 1, .. }));
    assert_eq!(splits, vec![(200, SplitRatio::new(4, 1))]);
    let (a, s) = extract_actions(&None);
    assert!(a.is_empty() && s.is_empty());
}

#[test]
fn actions_of_equal_time_keep_their_kind_order() {
    let events = Events {
        dividends: Some(vec![(
            "100".into(),
            DividendEvent { amount: WireValue::Value(dec(1, 0)), date: None, currency: None },
        )]),
        splits: Some(vec![
            ("100".into(), SplitEvent { numerator: Some(dec(2, 0)), denominator: Some(dec(1, 0)), split_ratio: None, date: None }),
            ("90".into(), SplitEvent { numerator: Some(dec(3, 0)), denominator: Some(dec(1, 0)), split_ratio: None, date: None }),
        ]),
        capital_gains: Some(vec![(
            "100".into(),
            CapitalGainEvent { amount: WireValue::Value(dec(2, 0)), date: None, currency: None },
        )]),
    };
    let (actions, splits) = extract_actions(&Some(events));
    assert!(matches!(actions[0], Action::Split { ts: 90, numerator: 3, .. }));
    assert!(matches!(actions[1], Action::Dividend { ts: 100, .. }));
    assert!(matches!(actions[2], Action::CapitalGain { ts: 100, .. }));
    assert!(matches!(actions[3], Action::Split { ts: 100, numerator: 2, .. }));
    assert_eq!(splits, vec![(90, SplitRatio::new(3, 1)), (100, SplitRatio::new(2, 1))]);
}

fn two_bars_around_a_split() -> Fetched {
    let prices = || vec![WireValue::Value(dec(100, 0)), WireValue::Value(dec(50, 0))];
    Fetched {
        ts: vec![100, 200],
        quote: QuoteBlock {
            open: prices(),
            high: prices(),
            low: prices(),
            close: prices(),
            volume: vec![Some(1), Some(1)],
        },
        adjclose: vec![],
        events: Some(Events {
            dividends: Some(vec![(
                "100".into(),
                DividendEvent { amount: WireValue::Value(dec(1, 0)), date: None, currency: None },
            )]),
            splits: Some(vec![(
                "150".into(),
                SplitEvent { numerator: Some(dec(2, 0)), denominator: Some(dec(1, 0)), split_ratio: None, date: None },
            )]),
            capital_gains: None,
        }),
        meta: None,
    }
}

#[test]
fn history_response_adjusts_for_later_splits_when_asked() {
    let fetched = two_bars_around_a_split();
    let adjusted = history_response(&fetched, true, false);
    assert!(adjusted.adjusted && !adjusted.repaired);
    assert!(matches!(adjusted.plan, Some(AdjustmentPlan::SplitAdjusted)));
    let closes: Vec<(Dec, Dec)> = adjusted.candles.iter().map(|c| (c.close, c.close_unadj)).collect();
    assert_eq!(closes, vec![(dec(50, 0), dec(100, 0)), (dec(50, 0), dec(50, 0))]);
    assert_eq!(adjusted.rows.len(), 2);
    assert!(adjusted.dropped.is_empty() && adjusted.meta.is_none());

    let raw = history_response(&fetched, false, false);
    assert!(!raw.adjusted && !raw.repaired && raw.plan.is_none());
    let closes: Vec<Dec> = raw.candles.iter().map(|c| c.close).collect();
    assert_eq!(closes, vec![dec(100, 0), dec(50, 0)]);
    assert_eq!(raw.actions.len(), 2);
}

#[test]
fn actions_are_sorted_out_by_kind() {
    let raw = history_response(&two_bars_around_a_split(), false, false);
    assert_eq!(dividends_of(&raw.actions), vec![(100, dec(1, 0))]);
    assert_eq!(splits_of(&raw.actions), vec![(150, 2, 1)]);
    assert!(capital_gains_of(&raw.actions).is_empty());
}

#[test]
fn stream_transports() {
    assert_eq!(initial_transport(StreamMethod::Polling), Transport::Polling);
    assert_eq!(initial_transport(StreamMethod::Websocket), Transport::WebSocket);
    assert_eq!(after_websocket(StreamMethod::WebsocketWithFallback, true), Some(Transport::Polling));
    assert_eq!(after_websocket(StreamMethod::WebsocketWithFallback, false), None);
    assert_eq!(after_websocket(StreamMethod::Websocket, true), None);
}

#[test]
fn stream_method_defaults_to_websocket_with_fallback() {
    assert_eq!(StreamMethod::default(), StreamMethod::WebsocketWithFallback);
}

#[test]
fn debug_digest_collects_scripts_next_data_and_bootstrap() {
    let html = [
        "<title>T &amp; Co</title>",
        r#"<script type="application/json" id="__NEXT_DATA__">{"b":1}</script>"#,
        r#"<script type="application/json" data-url="/q" data-sveltekit-fetched>{"body":"{\"x\":2}"}</script>"#,
        r#"<script type="application/json">not json</script>"#,
        "root.App.main = {\"a\": [1]};",
    ]
    .concat();
    let d = debug_digest("AAPL", &html).unwrap();
    assert!(d.min_html.starts_with("<!doctype html>"));
    assert!(d.min_html.contains("<!-- compact debug for AAPL -->\n"));
    assert!(d.min_html.contains("<h1>title</h1><pre>T &amp;amp; Co</pre>\n"));
    assert!(d.min_html.contains("<h2>__NEXT_DATA__</h2><pre>{\n  &quot;b&quot;: 1\n}</pre>\n"));
    assert!(d.min_html.contains("<h2>sveltekit-fetched /q</h2><pre>{\n  &quot;x&quot;: 2\n}</pre>\n"));
    assert!(!d.min_html.contains("not json"));
    assert!(d.min_html.ends_with("<h2>root.App.main (snippet)</h2>\n<pre>{\n  &quot;a&quot;: [\n    1\n  ]\n}</pre>\n"));
    assert_eq!(d.next_json.as_deref(), Some("{\n  \"b\": 1\n}"));
    assert_eq!(d.root_app.as_deref(), Some("{\n  \"a\": [\n    1\n  ]\n}"));
    let bare = debug_digest("X", "<p>nothing</p>").unwrap();
    assert!(bare.next_json.is_none() && bare.root_app.is_none());
    assert!(debug_digest("X", "root.App.main = {\"a\\").is_err());
}

#[test]
fn extracted_json_is_pretty_when_it_parses() {
    assert_eq!(extracted_json_text("{\"a\":1}"), "{\n  \"a\": 1\n}");
    assert_eq!(extracted_json_text("not json"), "not json");
}

#[test]
fn quote_summary_outcomes() {
    let env = |s: &str| parse_json(s).unwrap();
    let found = summary_outcome(&env(r#"{"quoteSummary":{"result":[{"a":1},{"b":2}],"error":null}}"#), 0);
    assert!(matches!(found, SummaryOutcome::Found(Json::Object(ref m)) if m[0].0 == "b"));
    let crumb = env(r#"{"quoteSummary":{"error":{"description":"Invalid Crumb"}}}"#);
    assert!(matches!(summary_outcome(&crumb, 0), SummaryOutcome::RefreshCrumb));
    assert!(matches!(
        summary_outcome(&crumb, 1),
        SummaryOutcome::Failed(SummaryError::Api(ref d)) if d == "Invalid Crumb"
    ));
    assert!(matches!(
        summary_outcome(&env(r#"{"quoteSummary":{"result":[]}}"#), 0),
        SummaryOutcome::Failed(SummaryError::EmptyResult)
    ));
    assert!(matches!(summary_outcome(&env("{}"), 0), SummaryOutcome::Failed(SummaryError::EmptyResult)));
}

fn money(m: i128, cur: Option<&str>) -> Money {
    Money { amount: Dec::try_from_i128_with_scale(m, 2).unwrap(), currency: cur.map(Into::into) }
}

fn sample_quote() -> Quote {
    Quote {
        symbol: "AAPL".into(),
        shortname: Some("Apple".into()),
        price: Some(money(19000, None)),
        previous_close: Some(money(18900, Some("USD"))),
        exchange: Some("NMS".into()),
        market_state: Some("REGULAR".into()),
        day_volume: Some(42),
    }
}

#[test]
fn fast_info_takes_the_quote_and_its_currency() {
    let f = fast_info_of(sample_quote()).unwrap();
    assert_eq!(f.symbol, "AAPL");
    assert_eq!(f.name.as_deref(), Some("Apple"));
    assert_eq!(f.currency.as_deref(), Some("USD"));
    assert_eq!(f.last.unwrap().amount.mantissa(), 19000);
}

#[test]
fn fast_info_needs_a_price_or_a_previous_close() {
    let mut q = sample_quote();
    q.price = None;
    let f = fast_info_of(q.clone()).unwrap();
    assert_eq!(f.currency.as_deref(), Some("USD"));
    assert!(f.last.is_none());
    q.previous_close = None;
    assert_eq!(fast_info_of(q).unwrap_err(), FastInfoError::NoPrice);
}

#[test]
fn info_summary_uses_the_quote_or_the_symbol() {
    let i = info_summary("aapl", Some(sample_quote()), Some("US0378331005".into()));
    assert_eq!(i.symbol, "AAPL");
    assert_eq!(i.volume, Some(42));
    assert_eq!(i.isin.as_deref(), Some("US0378331005"));
    let j = info_summary("MSFT", None, None);
    assert_eq!(j.symbol, "MSFT");
    assert!(j.name.is_none() && j.currency.is_none() && j.last.is_none());
}

#[test]
fn stream_frames_carry_base64_bare_or_wrapped() {
    assert_eq!(ws_frame_payload("  aGk=\n"), Ok(b"hi".to_vec()));
    assert_eq!(ws_frame_payload(r#" {"message":"aGk="} "#), Ok(b"hi".to_vec()));
    assert_eq!(ws_frame_payload(r#"{"type":"ack"}"#), Err(FrameError::MissingMessage));
    assert_eq!(ws_frame_payload(r#"{"message":5}"#), Err(FrameError::MissingMessage));
    assert_eq!(ws_frame_payload("{not json"), Err(FrameError::Base64));
    assert_eq!(ws_frame_payload("aGk"), Err(FrameError::Base64));
}

#[test]
fn stream_symbols_are_canonical() {
    assert_eq!(checked_symbol("  brk.b\t").as_deref(), Some("BRK.B"));
    assert_eq!(checked_symbol("^GSPC").as_deref(), Some("^GSPC"));
    assert_eq!(checked_symbol(" "), None);
    assert_eq!(checked_symbol("A B"), None);
    assert_eq!(checked_symbol("\u{e9}"), None);
    assert_eq!(checked_symbol(&"X".repeat(64)).map(|s| s.len()), Some(64));
    assert_eq!(checked_symbol(&"X".repeat(65)), None);
}

fn node() -> QuoteNode {
    QuoteNode {
        symbol: None,
        short_name: Some("Apple".into()),
        regular_market_price: Some(money(19000, Some("USD"))),
        regular_market_previous_close: None,
        full_exchange_name: None,
        exchange: Some("NMS".into()),
        market: Some("us_market".into()),
        market_cap_figure_exchange: None,
        market_state: Some("REGULAR".into()),
        regular_market_volume: Some(7),
    }
}

#[test]
fn quotes_take_the_first_exchange_name_and_the_asked_symbol() {
    let q = quote_from_node("AAPL", node());
    assert_eq!(q.symbol, "AAPL");
    assert_eq!(q.exchange.as_deref(), Some("NMS"));
    assert_eq!(q.day_volume, Some(7));
    let mut named = node();
    named.symbol = Some("MSFT".into());
    named.full_exchange_name = Some("NasdaqGS".into());
    let last = quote_for("AAPL", vec![node(), named]).unwrap();
    assert_eq!(last.symbol, "MSFT");
    assert_eq!(last.exchange.as_deref(), Some("NasdaqGS"));
    assert_eq!(quote_for("AAPL", vec![]).err(), Some(QuoteMissing::NoResult));
}

fn fund(isin: Option<&str>) -> Profile {
    Profile::Fund(Fund {
        name: "Index".into(),
        family: None,
        kind: "ETF".into(),
        isin: isin.map(Into::into),
    })
}

#[test]
fn info_needs_the_profile_but_not_the_quote() {
    let err: Result<Profile, &str> = Err("profile failed");
    assert_eq!(info_of("AAPL", Some(sample_quote()), err).err(), Some("profile failed"));
    let i = info_of::<&str>("aapl", None, Ok(fund(Some("US0000000001")))).unwrap();
    assert_eq!(i.symbol, "AAPL");
    assert_eq!(i.isin.as_deref(), Some("US0000000001"));
    assert!(i.last.is_none() && i.volume.is_none());
    let j = info_of::<&str>("aapl", Some(sample_quote()), Ok(fund(None))).unwrap();
    assert_eq!(j.symbol, "AAPL");
    assert_eq!(j.volume, Some(42));
    assert!(j.isin.is_none());
}

fn run_profile_load(pref: ApiPreference, outcomes: &[bool]) -> Vec<ProfileLoadAction> {
    let mut state = ProfileLoadState::Start;
    let mut event = ProfileLoadEvent::Begin;
    let mut actions = Vec::new();
    let mut next = outcomes.iter();
    loop {
        let (s, a) = profile_load_step(pref, state, event);
        state = s;
        actions.push(a);
        event = match a {
            ProfileLoadAction::EnsureCredentials => ProfileLoadEvent::Credentials { ok: *next.next().unwrap() },
            ProfileLoadAction::CallApi => ProfileLoadEvent::Api { ok: *next.next().unwrap() },
            ProfileLoadAction::Scrape => ProfileLoadEvent::Scrape { ok: *next.next().unwrap() },
            _ => return actions,
        };
    }
}

#[test]
fn profile_loads_fall_back_to_the_page_after_an_api_failure() {
    let both = ApiPreference::ApiThenScrape;
    assert_eq!(run_profile_load(both, &[true, true]), vec![ProfileLoadAction::EnsureCredentials, ProfileLoadAction::CallApi, ProfileLoadAction::ReturnApi]);
    assert_eq!(
        run_profile_load(both, &[true, false, true]),
        vec![ProfileLoadAction::EnsureCredentials, ProfileLoadAction::CallApi, ProfileLoadAction::Scrape, ProfileLoadAction::ReturnScrape]
    );
    assert_eq!(run_profile_load(both, &[false]), vec![ProfileLoadAction::EnsureCredentials, ProfileLoadAction::FailCredentials]);
    assert_eq!(
        run_profile_load(ApiPreference::ApiOnly, &[true, false]),
        vec![ProfileLoadAction::EnsureCredentials, ProfileLoadAction::CallApi, ProfileLoadAction::FailApi]
    );
    assert_eq!(run_profile_load(ApiPreference::ScrapeOnly, &[false]), vec![ProfileLoadAction::Scrape, ProfileLoadAction::FailScrape]);
    assert_eq!(
        profile_load_step(both, ProfileLoadState::Done, ProfileLoadEvent::Begin),
        (ProfileLoadState::Done, ProfileLoadAction::Ignore)
    );
}
