//! News articles: the request builder, the article rows, and the filtering
//! of the news stream payload into articles.
use crate::client::{CacheMode, RetryConfig, YfClient};
use chrono::DateTime;
use vstd::prelude::*;

verus! {

/// The category of news to fetch.
#[derive(Debug, Clone, Copy, PartialEq, Eq, Structural)]
pub enum NewsTab {
    /// The latest news articles (the default).
    News,
    /// All news-related content.
    All,
    /// Official press releases.
    PressReleases,
}

impl NewsTab {
    /// The default tab, [`NewsTab::News`].
    pub fn default_tab() -> (t: NewsTab)
        ensures
            t == NewsTab::News,
    {
        NewsTab::News
    }

    /// The query reference of the tab.
    pub fn as_str(&self) -> (s: &'static str)
        ensures
            s@ == (match *self {
                NewsTab::News => "latestNews"@,
                NewsTab::All => "newsAll"@,
                NewsTab::PressReleases => "pressRelease"@,
            }),
    {
        match self {
            NewsTab::News => "latestNews",
            NewsTab::All => "newsAll",
            NewsTab::PressReleases => "pressRelease",
        }
    }
}

/// A builder for fetching news articles for a specific symbol.
#[derive(Debug)]
pub struct NewsBuilder<'a> {
    /// The client configuration.
    pub client: &'a YfClient,
    /// The ticker symbol.
    pub symbol: String,
    /// The maximum number of articles.
    pub count: u32,
    /// The category of news.
    pub tab: NewsTab,
    /// How the cache is used.
    pub cache_mode: CacheMode,
    /// A retry policy overriding the client's.
    pub retry_override: Option<RetryConfig>,
}

impl<'a> NewsBuilder<'a> {
    /// A builder for `symbol`: ten articles of the latest news.
    pub fn new(client: &'a YfClient, symbol: &str) -> (r: NewsBuilder<'a>)
        ensures
            *r.client == *client,
            r.symbol@ == symbol@,
            r.count == 10,
            r.tab == NewsTab::News,
            r.cache_mode == CacheMode::Use,
            r.retry_override is None,
    {
        NewsBuilder {
            client,
            symbol: symbol.to_owned(),
            count: 10,
            tab: NewsTab::default_tab(),
            cache_mode: CacheMode::Use,
            retry_override: None,
        }
    }

    /// Sets the cache mode.
    pub fn cache_mode(self, mode: CacheMode) -> (r: NewsBuilder<'a>)
        ensures
            r == (NewsBuilder { cache_mode: mode, ..self }),
    {
        NewsBuilder { cache_mode: mode, ..self }
    }

    /// Overrides the retry policy.
    pub fn retry_policy(self, cfg: Option<RetryConfig>) -> (r: NewsBuilder<'a>)
        ensures
            r == (NewsBuilder { retry_override: cfg, ..self }),
    {
        NewsBuilder { retry_override: cfg, ..self }
    }

    /// Sets the maximum number of articles.
    pub fn count(self, count: u32) -> (r: NewsBuilder<'a>)
        ensures
            r == (NewsBuilder { count, ..self }),
    {
        NewsBuilder { count, ..self }
    }

    /// Sets the category of news.
    pub fn tab(self, tab: NewsTab) -> (r: NewsBuilder<'a>)
        ensures
            r == (NewsBuilder { tab, ..self }),
    {
        NewsBuilder { tab, ..self }
    }
}

/// A single news article for a ticker.
#[derive(Debug, Clone, PartialEq, Eq)]
pub struct NewsArticle {
    /// A unique identifier.
    pub uuid: String,
    /// The headline.
    pub title: String,
    /// The publisher.
    pub publisher: Option<String>,
    /// A direct link.
    pub link: Option<String>,
    /// Publication time, Unix seconds.
    pub provider_publish_time: i64,
}

/// The publisher of a stream item.
#[derive(Debug)]
pub struct Provider {
    pub display_name: Option<String>,
}

/// The canonical link of a stream item.
#[derive(Debug)]
pub struct CanonicalUrl {
    pub url: Option<String>,
}

/// The content of a stream item.
#[derive(Debug)]
pub struct Content {
    pub title: Option<String>,
    pub pub_date: Option<String>,
    pub provider: Option<Provider>,
    pub canonical_url: Option<CanonicalUrl>,
}

/// One item of the news stream.
#[derive(Debug)]
pub struct StreamItem {
    pub id: String,
    pub content: Option<Content>,
    /// Whether the item carries an advertisement block.
    pub ad: bool,
}

/// The Unix time of an RFC 3339 date-time, `None` when the text is not one
/// (the result of `chrono::DateTime::parse_from_rfc3339`).
pub uninterp spec fn rfc3339_seconds(text: Seq<char>) -> Option<i64>;

/// The Unix time of an RFC 3339 date-time (`DateTime::parse_from_rfc3339`, then `timestamp`).
#[verifier::external_body]
fn parse_rfc3339(text: &str) -> (r: Option<i64>)
    ensures
        r == rfc3339_seconds(text@),
{
    DateTime::parse_from_rfc3339(text).ok().map(|dt| dt.timestamp())
}

/// The article a stream item gives, if any: advertisements, items without
/// content, title or publication date, and items whose date is not RFC 3339
/// give none.
pub open spec fn article_of(item: StreamItem) -> Option<(Seq<char>, Seq<char>, Option<Seq<char>>, Option<Seq<char>>, i64)> {
    if item.ad {
        None
    } else {
        match item.content {
            None => None,
            Some(c) => match (c.title, c.pub_date) {
                (Some(title), Some(date)) => match rfc3339_seconds(date@) {
                    Some(ts) => Some((
                        item.id@,
                        title@,
                        match c.provider {
                            Some(p) => match p.display_name {
                                Some(n) => Some(n@),
                                None => None,
                            },
                            None => None,
                        },
                        match c.canonical_url {
                            Some(u) => match u.url {
                                Some(l) => Some(l@),
                                None => None,
                            },
                            None => None,
                        },
                        ts,
                    )),
                    None => None,
                },
                _ => None,
            },
        }
    }
}

/// The view of an article as `(uuid, title, publisher, link, time)`.
pub open spec fn article_view(a: NewsArticle) -> (Seq<char>, Seq<char>, Option<Seq<char>>, Option<Seq<char>>, i64) {
    (
        a.uuid@,
        a.title@,
        match a.publisher {
            Some(p) => Some(p@),
            None => None,
        },
        match a.link {
            Some(l) => Some(l@),
            None => None,
        },
        a.provider_publish_time,
    )
}

/// The articles of `items`, in order: those items that give one.
pub open spec fn articles_of(items: Seq<StreamItem>) -> Seq<(Seq<char>, Seq<char>, Option<Seq<char>>, Option<Seq<char>>, i64)>
    decreases items.len(),
{
    if items.len() == 0 {
        Seq::empty()
    } else {
        let rest = articles_of(items.drop_last());
        match article_of(items.last()) {
            Some(a) => rest.push(a),
            None => rest,
        }
    }
}

fn article_from(item: StreamItem) -> (r: Option<NewsArticle>)
    ensures
        match r {
            Some(a) => article_of(item) == Some(article_view(a)),
            None => article_of(item) is None,
        },
{
    if item.ad {
        return None;
    }
    let content = match item.content {
        Some(c) => c,
        None => return None,
    };
    let title = match content.title {
        Some(t) => t,
        None => return None,
    };
    let date = match content.pub_date {
        Some(d) => d,
        None => return None,
    };
    let ts = match parse_rfc3339(date.as_str()) {
        Some(ts) => ts,
        None => return None,
    };
    let publisher = match content.provider {
        Some(p) => p.display_name,
        None => None,
    };
    let link = match content.canonical_url {
        Some(u) => u.url,
        None => None,
    };
    Some(NewsArticle { uuid: item.id, title, publisher, link, provider_publish_time: ts })
}

/// The first `count` of `s`, or all of it when it is shorter.
pub open spec fn at_most<T>(s: Seq<T>, count: nat) -> Seq<T> {
    if s.len() <= count {
        s
    } else {
        s.take(count as int)
    }
}

/// The articles of the news stream, in stream order (see [`article_of`]),
/// at most `count` of them: the first `count` articles when there are more.
pub fn articles_from(items: Vec<StreamItem>, count: u32) -> (out: Vec<NewsArticle>)
    ensures
        out@.map_values(|a: NewsArticle| article_view(a)) == at_most(articles_of(items@), count as nat),
        out@.len() <= count,
{
    let mut out: Vec<NewsArticle> = Vec::new();
    let ghost all_items = items@;
    for item in it: items
        invariant
            all_items == it.seq(),
            out@.map_values(|a: NewsArticle| article_view(a)) == articles_of(all_items.take(it.index() as int)),
    {
        let ghost k = it.index() as int;
        proof {
            assert(all_items.take(k + 1).drop_last() =~= all_items.take(k));
            assert(all_items.take(k + 1).last() == all_items[k]);
        }
        let ghost before = out@;
        match article_from(item) {
            Some(a) => {
                out.push(a);
                proof {
                    assert(out@.map_values(|a: NewsArticle| article_view(a)) =~= before.map_values(
                        |a: NewsArticle| article_view(a),
                    ).push(article_view(a)));
                }
            },
            None => {},
        }
    }
    proof {
        assert(all_items.take(all_items.len() as int) =~= all_items);
    }
    if out.len() > count as usize {
        let ghost before = out@;
        out.truncate(count as usize);
        proof {
            assert(out@.map_values(|a: NewsArticle| article_view(a)) =~= before.map_values(
                |a: NewsArticle| article_view(a),
            ).take(count as int));
        }
    }
    out
}

} // verus!
