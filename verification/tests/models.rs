use std::time::Duration;
use yfinance_rs::client::{ApiPreference, CacheMode, Interval, Range, RetryConfig, YfClient};
use yfinance_rs::history::{HistoryBuilder, PeriodError};
use yfinance_rs::holders::{
    insider_roster_from, insider_transactions_from, HoldersBuilder, InsiderRosterHolderNode,
    InsiderTransactionNode, RawNum,
};
use yfinance_rs::news::{articles_from, CanonicalUrl, Content, NewsBuilder, NewsTab, Provider, StreamItem};
use yfinance_rs::profile::{
    profile_from_api, profile_from_store, AssetProfileNode, FundProfileNode, PriceNode, Profile,
    ProfileError, ProfileResult, QuoteSummaryStore, QuoteTypeNode,
};
use yfinance_rs::quote::{QuotesBuilder, QuotesRequestError};
use yfinance_rs::stream::{StreamBuilder, StreamMethod, StreamStartError};
use yfinance_rs::ticker::Ticker;

fn client() -> YfClient {
    YfClient {
        base_chart: "https://query1.finance.yahoo.com/v8/finance/chart/".into(),
        base_quote: "https://finance.yahoo.com/quote/".into(),
        base_quote_api: "https://query1.finance.yahoo.com/v10/finance/quoteSummary/".into(),
        base_quote_v7: "https://query1.finance.yahoo.com/v7/finance/quote".into(),
        base_options_v7: "https://query1.finance.yahoo.com/v7/finance/options/".into(),
        base_news: "https://finance.yahoo.com/xhr/ncp".into(),
        base_insider_search: "https://markets.businessinsider.com/ajax/SearchController_Suggest".into(),
        base_stream: "wss://streamer.finance.yahoo.com/?version=2".into(),
        user_agent: "ua".into(),
        retry: RetryConfig {
            enabled: true,
            max_retries: 4,
            base_delay: Duration::from_millis(200),
            max_delay: Duration::from_secs(3),
            jitter: true,
        },
        api_preference: ApiPreference::ApiThenScrape,
    }
}

#[test]
fn history_builder_defaults_and_setters() {
    let c = client();
    let hb = HistoryBuilder::new(&c, "AAPL");
    assert_eq!(hb.range, Some(Range::M6));
    assert_eq!(hb.interval, Interval::D1);
    assert!(hb.auto_adjust && hb.include_actions && !hb.include_prepost && !hb.keepna);
    let hb = hb.between(10, 20);
    assert_eq!(hb.range, None);
    assert_eq!(hb.period, Some((10, 20)));
    let hb = hb.range(Range::Y1).interval(Interval::W1).prepost(true).keepna(true).actions(false).auto_adjust(false);
    assert_eq!(hb.period, None);
    assert_eq!(hb.range, Some(Range::Y1));
    assert_eq!(hb.interval, Interval::W1);
    assert!(hb.include_prepost && hb.keepna && !hb.include_actions && !hb.auto_adjust);
    assert_eq!(hb.cache_mode(CacheMode::Bypass).cache_mode, CacheMode::Bypass);
}

#[test]
fn ticker_derives_requests() {
    let c = client();
    let t = Ticker::new(&c, "MSFT").cache_mode(CacheMode::Refresh).retry_policy(None);
    let news = t.news_builder();
    assert_eq!(news.symbol, "MSFT");
    assert_eq!(news.count, 10);
    assert_eq!(news.tab, NewsTab::News);
    assert_eq!(news.cache_mode, CacheMode::Refresh);
    let hb = t.history_builder();
    assert_eq!(hb.cache_mode, CacheMode::Use);
    let h = t.history_request(Some(Range::Y5), None, true);
    assert_eq!(h.range, Some(Range::Y5));
    assert_eq!(h.interval, Interval::D1);
    assert!(h.include_prepost && h.auto_adjust && h.include_actions);
    assert_eq!(h.cache_mode, CacheMode::Refresh);
    let a = t.actions_request(None);
    assert_eq!(a.range, Some(Range::Max));
    assert_eq!(a.cache_mode, CacheMode::Refresh);
    let m = t.metadata_request(None);
    assert_eq!(m.range, Some(Range::M6));
    assert_eq!(m.cache_mode, CacheMode::Refresh);
    let hold = t.holders_builder();
    assert_eq!(hold.symbol, "MSFT");
    assert_eq!(hold.cache_mode, CacheMode::Refresh);
    assert!(t.isin_lookup_applies());
    assert!(!Ticker::new(&c, "^GSPC").isin_lookup_applies());
}

#[test]
fn news_builder_setters() {
    let c = client();
    let nb = NewsBuilder::new(&c, "AAPL").count(25).tab(NewsTab::PressReleases);
    assert_eq!(nb.count, 25);
    assert_eq!(nb.tab.as_str(), "pressRelease");
    assert_eq!(NewsTab::All.as_str(), "newsAll");
    assert_eq!(NewsTab::News.as_str(), "latestNews");
}

fn item(id: &str, title: Option<&str>, date: Option<&str>, ad: bool) -> StreamItem {
    StreamItem {
        id: id.into(),
        content: Some(Content {
            title: title.map(Into::into),
            pub_date: date.map(Into::into),
            provider: Some(Provider { display_name: Some("Reuters".into()) }),
            canonical_url: Some(CanonicalUrl { url: Some("https://example.com/a".into()) }),
        }),
        ad,
    }
}

#[test]
fn articles_skip_ads_and_undated_items() {
    let items = vec![
        item("1", Some("Headline"), Some("2024-01-02T03:04:05Z"), false),
        item("2", Some("Ad"), Some("2024-01-02T03:04:05Z"), true),
        item("3", None, Some("2024-01-02T03:04:05Z"), false),
        item("4", Some("Bad date"), Some("yesterday"), false),
        item("5", Some("Offset"), Some("2024-01-02T05:04:05+02:00"), false),
    ];
    let out = articles_from(items, 10);
    assert_eq!(out.len(), 2);
    assert_eq!(out[0].uuid, "1");
    assert_eq!(out[0].title, "Headline");
    assert_eq!(out[0].publisher.as_deref(), Some("Reuters"));
    assert_eq!(out[0].link.as_deref(), Some("https://example.com/a"));
    assert_eq!(out[0].provider_publish_time, 1_704_164_645);
    assert_eq!(out[1].provider_publish_time, 1_704_164_645);
}

#[test]
fn articles_are_capped_at_the_count() {
    let items: Vec<StreamItem> = (0..5)
        .map(|k| item(&k.to_string(), Some("T"), Some("2024-01-02T03:04:05Z"), false))
        .collect();
    let out = articles_from(items, 3);
    assert_eq!(out.len(), 3);
    assert_eq!(out[2].uuid, "2");
    assert!(articles_from(vec![], 0).is_empty());
}

#[test]
fn insider_rows_default_missing_values() {
    let rows = insider_transactions_from(Some(vec![InsiderTransactionNode {
        insider: Some("Jane".into()),
        position: None,
        transaction: Some("Sale".into()),
        shares: Some(RawNum { raw: Some(100) }),
        value: None,
        start_date: Some(RawNum { raw: None }),
        url: None,
    }]));
    assert_eq!(rows.len(), 1);
    assert_eq!(rows[0].insider, "Jane");
    assert_eq!(rows[0].position, "");
    assert_eq!(rows[0].shares, 100);
    assert_eq!(rows[0].value, 0);
    assert_eq!(rows[0].start_date, 0);
    assert!(insider_transactions_from(None).is_empty());
    let roster = insider_roster_from(Some(vec![InsiderRosterHolderNode {
        name: Some("Bob".into()),
        relation: Some("CEO".into()),
        most_recent_transaction: None,
        latest_transaction_date: Some(RawNum { raw: Some(5) }),
        shares_owned_directly: Some(RawNum { raw: Some(7) }),
        position_direct_date: None,
    }]));
    assert_eq!(roster[0].position, "CEO");
    assert_eq!(roster[0].latest_transaction_date, 5);
    assert_eq!(roster[0].shares_owned_directly, 7);
    let hb = HoldersBuilder::new(client(), "AAPL").cache_mode(CacheMode::Bypass);
    assert_eq!(hb.cache_mode, CacheMode::Bypass);
}

#[test]
fn quote_and_stream_builders_need_symbols() {
    let qb = QuotesBuilder::new(client());
    assert_eq!(qb.check_request(), Err(QuotesRequestError::NoSymbols));
    let qb = qb.add_symbol("AAPL").symbols(vec!["MSFT".into(), "GOOG".into()]).add_symbol("TSLA");
    assert_eq!(qb.symbols, vec!["MSFT", "GOOG", "TSLA"]);
    assert_eq!(qb.check_request(), Ok(()));
    let c = client();
    let sb = StreamBuilder::new(&c);
    assert_eq!(sb.method, StreamMethod::WebsocketWithFallback);
    assert_eq!(sb.cfg.interval, Duration::from_secs(1));
    assert!(sb.cfg.diff_only);
    assert_eq!(sb.check_start(), Err(StreamStartError::NoSymbols));
    let sb = sb.add_symbol("AAPL").interval(Duration::from_secs(5)).diff_only(false).method(StreamMethod::Polling);
    assert_eq!(sb.check_start(), Ok(()));
    assert_eq!(sb.cfg.interval, Duration::from_secs(5));
    assert!(!sb.cfg.diff_only);
}

fn asset() -> AssetProfileNode {
    AssetProfileNode {
        address1: Some("One Apple Park Way".into()),
        address2: None,
        city: Some("Cupertino".into()),
        state: Some("CA".into()),
        country: Some("United States".into()),
        zip: Some("95014".into()),
        sector: Some("Technology".into()),
        industry: Some("Consumer Electronics".into()),
        website: Some("https://www.apple.com".into()),
        long_business_summary: Some("Apple designs...".into()),
        isin: Some("US0378331005".into()),
    }
}

fn qt(kind: Option<&str>, long: Option<&str>, short: Option<&str>) -> Option<QuoteTypeNode> {
    Some(QuoteTypeNode { quote_type: kind.map(Into::into), long_name: long.map(Into::into), short_name: short.map(Into::into) })
}

#[test]
fn api_profile_maps_equity_and_fund() {
    let r = ProfileResult { asset_profile: Some(asset()), fund_profile: None, quote_type: qt(Some("EQUITY"), None, Some("Apple")) };
    match profile_from_api(r, "AAPL").unwrap() {
        Profile::Company(c) => {
            assert_eq!(c.name, "Apple");
            assert_eq!(c.isin.as_deref(), Some("US0378331005"));
            assert_eq!(c.address.unwrap().city.as_deref(), Some("Cupertino"));
        }
        other => panic!("unexpected {other:?}"),
    }
    let f = ProfileResult {
        asset_profile: None,
        fund_profile: Some(FundProfileNode { legal_type: None, family: Some("Vanguard".into()), isin: None }),
        quote_type: qt(Some("ETF"), None, None),
    };
    let p = profile_from_api(f, "VOO").unwrap();
    assert_eq!(p.isin(), None);
    match p {
        Profile::Fund(f) => {
            assert_eq!(f.name, "VOO");
            assert_eq!(f.kind, "Fund");
            assert_eq!(f.family.as_deref(), Some("Vanguard"));
        }
        other => panic!("unexpected {other:?}"),
    }
}

#[test]
fn api_profile_errors() {
    let r = ProfileResult { asset_profile: None, fund_profile: None, quote_type: qt(Some("EQUITY"), None, None) };
    assert_eq!(profile_from_api(r, "X").unwrap_err(), ProfileError::AssetProfileMissing);
    let r = ProfileResult { asset_profile: None, fund_profile: None, quote_type: qt(Some("ETF"), None, None) };
    assert_eq!(profile_from_api(r, "X").unwrap_err(), ProfileError::FundProfileMissing);
    let r = ProfileResult { asset_profile: None, fund_profile: None, quote_type: qt(Some("INDEX"), None, None) };
    let e = profile_from_api(r, "X").unwrap_err();
    assert_eq!(e.message(), "unsupported quoteType: INDEX");
    let r = ProfileResult { asset_profile: Some(asset()), fund_profile: None, quote_type: None };
    assert_eq!(profile_from_api(r, "X").unwrap_err().message(), "unsupported quoteType: ");
}

#[test]
fn store_profile_infers_kind_and_name() {
    let s = QuoteSummaryStore {
        quote_type: None,
        price: Some(PriceNode { long_name: Some("Apple Inc.".into()), short_name: None }),
        summary_profile: Some(asset()),
        fund_profile: None,
    };
    match profile_from_store(s, "AAPL").unwrap() {
        Profile::Company(c) => {
            assert_eq!(c.name, "Apple Inc.");
            assert_eq!(c.isin, None);
        }
        other => panic!("unexpected {other:?}"),
    }
    let s = QuoteSummaryStore {
        quote_type: qt(None, None, None),
        price: None,
        summary_profile: Some(asset()),
        fund_profile: Some(FundProfileNode { legal_type: Some("Exchange Traded Fund".into()), family: None, isin: None }),
    };
    match profile_from_store(s, "SPY").unwrap() {
        Profile::Fund(f) => {
            assert_eq!(f.name, "SPY");
            assert_eq!(f.kind, "Exchange Traded Fund");
        }
        other => panic!("unexpected {other:?}"),
    }
    let s = QuoteSummaryStore { quote_type: None, price: None, summary_profile: None, fund_profile: None };
    assert_eq!(profile_from_store(s, "X").unwrap_err().message(), "unsupported or unknown quoteType: ");
    let s = QuoteSummaryStore { quote_type: qt(Some("EQUITY"), None, None), price: None, summary_profile: None, fund_profile: None };
    assert_eq!(profile_from_store(s, "X").unwrap_err(), ProfileError::SummaryProfileMissing);
}

#[test]
fn checked_period_needs_utc_times() {
    let c = client();
    let hb = HistoryBuilder::new(&c, "AAPL").checked_between(1_600_000_000, 1_700_000_000).unwrap();
    assert_eq!(hb.period, Some((1_600_000_000, 1_700_000_000)));
    assert_eq!(hb.range, None);
    let far = i64::MAX;
    assert_eq!(
        HistoryBuilder::new(&c, "AAPL").checked_between(far, 0).err(),
        Some(PeriodError::InvalidStart)
    );
    assert_eq!(
        HistoryBuilder::new(&c, "AAPL").checked_between(0, far).err(),
        Some(PeriodError::InvalidEnd)
    );
}

#[test]
fn utc_times_end_where_chrono_dates_end() {
    let c = client();
    let (first, last) = (-8_334_601_228_800i64, 8_210_266_876_799i64);
    assert!(HistoryBuilder::new(&c, "AAPL").checked_between(first, last).is_ok());
    assert_eq!(
        HistoryBuilder::new(&c, "AAPL").checked_between(first - 1, last).err(),
        Some(PeriodError::InvalidStart)
    );
    assert_eq!(
        HistoryBuilder::new(&c, "AAPL").checked_between(first, last + 1).err(),
        Some(PeriodError::InvalidEnd)
    );
}

#[test]
fn retry_delays_double_up_to_the_maximum() {
    let cfg = RetryConfig {
        enabled: true,
        max_retries: 6,
        base_delay: Duration::from_millis(100),
        max_delay: Duration::from_millis(500),
        jitter: false,
    };
    let delays: Vec<Option<u128>> = (0..7).map(|r| cfg.retry_delay_millis(r)).collect();
    assert_eq!(
        delays,
        vec![Some(100), Some(200), Some(400), Some(500), Some(500), Some(500), None]
    );
    let off = RetryConfig { enabled: false, ..cfg };
    assert_eq!(off.retry_delay_millis(0), None);
    let small_cap = RetryConfig {
        base_delay: Duration::from_secs(2),
        max_delay: Duration::from_secs(1),
        ..cfg
    };
    assert_eq!(small_cap.retry_delay_millis(0), Some(1000));
}
