//! Company and fund profiles, built from the quote-summary API result or
//! from the summary store of a scraped quote page.
use crate::client::ApiPreference;
use crate::json::{lemma_view_of_containers, member, member_text, Json, JsonView};
use crate::scrape::{contains_chars, contains_text};
use crate::text::{chars_of, push_str, text_eq};
use vstd::prelude::*;

verus! {

/// Represents a physical address for a company.
#[derive(Debug, Clone, PartialEq, Eq)]
pub struct Address {
    /// Street address line 1.
    pub street1: Option<String>,
    /// Street address line 2.
    pub street2: Option<String>,
    /// City.
    pub city: Option<String>,
    /// State or province.
    pub state: Option<String>,
    /// Country.
    pub country: Option<String>,
    /// Postal code.
    pub zip: Option<String>,
}

/// Represents the profile of a publicly traded company.
#[derive(Debug, Clone, PartialEq, Eq)]
pub struct Company {
    /// The full name of the company.
    pub name: String,
    /// The business sector the company operates in.
    pub sector: Option<String>,
    /// The specific industry within the sector.
    pub industry: Option<String>,
    /// The company's official website.
    pub website: Option<String>,
    /// The physical address of the company's headquarters.
    pub address: Option<Address>,
    /// A summary of the company's business operations.
    pub summary: Option<String>,
    /// The International Securities Identification Number.
    pub isin: Option<String>,
}

/// Represents the profile of a fund (e.g., an ETF).
#[derive(Debug, Clone, PartialEq, Eq)]
pub struct Fund {
    /// The full name of the fund.
    pub name: String,
    /// The family of funds it belongs to (e.g., "iShares").
    pub family: Option<String>,
    /// The legal type of the fund (e.g., "Exchange Traded Fund").
    pub kind: String,
    /// The International Securities Identification Number.
    pub isin: Option<String>,
}

/// Either a `Company` or a `Fund` profile.
#[derive(Debug, Clone, PartialEq, Eq)]
pub enum Profile {
    /// The profile for a company stock.
    Company(Company),
    /// The profile for a fund.
    Fund(Fund),
}

/// The text of an optional string.
pub open spec fn text_of(o: Option<String>) -> Option<Seq<char>> {
    match o {
        Some(s) => Some(s@),
        None => None,
    }
}

impl Profile {
    /// The ISIN of the company or fund, if available.
    pub fn isin(&self) -> (r: Option<&str>)
        ensures
            match r {
                Some(s) => text_of(
                    match self {
                        Profile::Company(c) => c.isin,
                        Profile::Fund(f) => f.isin,
                    },
                ) == Some(s@),
                None => match self {
                    Profile::Company(c) => c.isin is None,
                    Profile::Fund(f) => f.isin is None,
                },
            },
    {
        let isin = match self {
            Profile::Company(c) => &c.isin,
            Profile::Fund(f) => &f.isin,
        };
        match isin {
            Some(s) => Some(s.as_str()),
            None => None,
        }
    }
}

/// Why a profile could not be built.
#[derive(Debug, Clone, PartialEq, Eq)]
pub enum ProfileError {
    /// An equity result without its `assetProfile` module.
    AssetProfileMissing,
    /// An equity store without its `summaryProfile`.
    SummaryProfileMissing,
    /// A fund result without its `fundProfile`.
    FundProfileMissing,
    /// The API result names a quote type other than `EQUITY` or `ETF`.
    UnsupportedQuoteType(String),
    /// The store's quote type, given or inferred, is neither `EQUITY` nor `ETF`.
    UnknownQuoteType(String),
}

/// The message under which a profile error is reported.
pub open spec fn profile_error_message(e: ProfileError) -> Seq<char> {
    match e {
        ProfileError::AssetProfileMissing => "assetProfile missing"@,
        ProfileError::SummaryProfileMissing => "summaryProfile missing"@,
        ProfileError::FundProfileMissing => "fundProfile missing"@,
        ProfileError::UnsupportedQuoteType(k) => "unsupported quoteType: "@ + k@,
        ProfileError::UnknownQuoteType(k) => "unsupported or unknown quoteType: "@ + k@,
    }
}

impl ProfileError {
    /// The message under which the error is reported.
    pub fn message(&self) -> (m: String)
        ensures
            m@ == profile_error_message(*self),
    {
        let mut m = String::new();
        match self {
            ProfileError::AssetProfileMissing => push_str(&mut m, "assetProfile missing"),
            ProfileError::SummaryProfileMissing => push_str(&mut m, "summaryProfile missing"),
            ProfileError::FundProfileMissing => push_str(&mut m, "fundProfile missing"),
            ProfileError::UnsupportedQuoteType(k) => {
                push_str(&mut m, "unsupported quoteType: ");
                push_str(&mut m, k.as_str());
            },
            ProfileError::UnknownQuoteType(k) => {
                push_str(&mut m, "unsupported or unknown quoteType: ");
                push_str(&mut m, k.as_str());
            },
        }
        m
    }
}

/// The `assetProfile` module of a quote-summary result.
#[derive(Debug, Clone)]
pub struct AssetProfileNode {
    pub address1: Option<String>,
    pub address2: Option<String>,
    pub city: Option<String>,
    pub state: Option<String>,
    pub country: Option<String>,
    pub zip: Option<String>,
    pub sector: Option<String>,
    pub industry: Option<String>,
    pub website: Option<String>,
    pub long_business_summary: Option<String>,
    pub isin: Option<String>,
}

/// The `fundProfile` module of a quote-summary result.
#[derive(Debug, Clone)]
pub struct FundProfileNode {
    pub legal_type: Option<String>,
    pub family: Option<String>,
    pub isin: Option<String>,
}

/// The `quoteType` module of a quote-summary result or store.
#[derive(Debug, Clone)]
pub struct QuoteTypeNode {
    pub quote_type: Option<String>,
    pub long_name: Option<String>,
    pub short_name: Option<String>,
}

/// The first result of a quote-summary API call for the profile modules.
#[derive(Debug, Clone)]
pub struct ProfileResult {
    pub asset_profile: Option<AssetProfileNode>,
    pub fund_profile: Option<FundProfileNode>,
    pub quote_type: Option<QuoteTypeNode>,
}

/// The `price` node of a summary store.
#[derive(Debug, Clone)]
pub struct PriceNode {
    pub long_name: Option<String>,
    pub short_name: Option<String>,
}

/// The summary store of a scraped quote page.
#[derive(Debug, Clone)]
pub struct QuoteSummaryStore {
    pub quote_type: Option<QuoteTypeNode>,
    pub price: Option<PriceNode>,
    pub summary_profile: Option<AssetProfileNode>,
    pub fund_profile: Option<FundProfileNode>,
}

/// The long name, else the short name.
pub open spec fn long_or_short(long: Option<String>, short: Option<String>) -> Option<Seq<char>> {
    match text_of(long) {
        Some(n) => Some(n),
        None => text_of(short),
    }
}

/// The display name of a quote type node, if it has one.
pub open spec fn quote_type_name(q: Option<QuoteTypeNode>) -> Option<Seq<char>> {
    match q {
        Some(q) => long_or_short(q.long_name, q.short_name),
        None => None,
    }
}

/// The quote type named by a quote type node, if any.
pub open spec fn quote_type_kind(q: Option<QuoteTypeNode>) -> Option<Seq<char>> {
    match q {
        Some(q) => text_of(q.quote_type),
        None => None,
    }
}

/// `c` is the company profile of an asset profile `sp` under `name`, with
/// the ISIN `isin`.
pub open spec fn company_of(c: Company, sp: AssetProfileNode, name: Seq<char>, isin: Option<String>) -> bool {
    &&& c.name@ == name
    &&& c.sector == sp.sector
    &&& c.industry == sp.industry
    &&& c.website == sp.website
    &&& c.summary == sp.long_business_summary
    &&& c.address == Some(
        Address {
            street1: sp.address1,
            street2: sp.address2,
            city: sp.city,
            state: sp.state,
            country: sp.country,
            zip: sp.zip,
        },
    )
    &&& c.isin == isin
}

/// `f` is the fund profile of `fp` under `name`, with the ISIN `isin`; a
/// fund without a legal type is of kind `Fund`.
pub open spec fn fund_of(f: Fund, fp: FundProfileNode, name: Seq<char>, isin: Option<String>) -> bool {
    &&& f.name@ == name
    &&& f.family == fp.family
    &&& f.kind@ == (match text_of(fp.legal_type) {
        Some(k) => k,
        None => "Fund"@,
    })
    &&& f.isin == isin
}

/// The name of the profile of an API result: the quote type's long name,
/// else its short name, else the symbol.
pub open spec fn api_name(r: ProfileResult, symbol: Seq<char>) -> Seq<char> {
    match quote_type_name(r.quote_type) {
        Some(n) => n,
        None => symbol,
    }
}

/// The quote type of an API result, empty when absent.
pub open spec fn api_kind(r: ProfileResult) -> Seq<char> {
    match quote_type_kind(r.quote_type) {
        Some(k) => k,
        None => Seq::empty(),
    }
}

fn clone_text(s: &String) -> (r: String)
    ensures
        r@ == s@,
{
    s.clone()
}

fn clone_opt_text(o: &Option<String>) -> (r: Option<String>)
    ensures
        text_of(r) == text_of(*o),
{
    match o {
        Some(s) => Some(clone_text(s)),
        None => None,
    }
}

/// The long name, else the short name, of a node's name pair.
fn name_of(long: &Option<String>, short: &Option<String>) -> (r: Option<String>)
    ensures
        text_of(r) == long_or_short(*long, *short),
{
    match long {
        Some(n) => Some(clone_text(n)),
        None => clone_opt_text(short),
    }
}

fn quote_type_name_of(q: &Option<QuoteTypeNode>) -> (r: Option<String>)
    ensures
        text_of(r) == quote_type_name(*q),
{
    match q {
        Some(q) => name_of(&q.long_name, &q.short_name),
        None => None,
    }
}

fn company_from(sp: AssetProfileNode, name: String, with_isin: bool) -> (c: Company)
    ensures
        company_of(c, sp, name@, if with_isin { sp.isin } else { None }),
{
    let address = Address {
        street1: sp.address1,
        street2: sp.address2,
        city: sp.city,
        state: sp.state,
        country: sp.country,
        zip: sp.zip,
    };
    let isin = if with_isin {
        sp.isin
    } else {
        None
    };
    Company {
        name,
        sector: sp.sector,
        industry: sp.industry,
        website: sp.website,
        summary: sp.long_business_summary,
        address: Some(address),
        isin,
    }
}

fn fund_from(fp: FundProfileNode, name: String, with_isin: bool) -> (f: Fund)
    ensures
        fund_of(f, fp, name@, if with_isin { fp.isin } else { None }),
{
    let kind = match fp.legal_type {
        Some(k) => k,
        None => "Fund".to_owned(),
    };
    let isin = if with_isin {
        fp.isin
    } else {
        None
    };
    Fund { name, family: fp.family, kind, isin }
}

/// The profile of a quote-summary API result for `symbol`: a company for
/// quote type `EQUITY` (which needs the asset profile), a fund for `ETF`
/// (which needs the fund profile), an error otherwise.
pub fn profile_from_api(first: ProfileResult, symbol: &str) -> (r: Result<Profile, ProfileError>)
    ensures
        api_kind(first) == "EQUITY"@ ==> match first.asset_profile {
            Some(sp) => (r matches Ok(Profile::Company(c)) && company_of(c, sp, api_name(first, symbol@), sp.isin)),
            None => r == Err::<Profile, ProfileError>(ProfileError::AssetProfileMissing),
        },
        api_kind(first) == "ETF"@ ==> match first.fund_profile {
            Some(fp) => (r matches Ok(Profile::Fund(f)) && fund_of(f, fp, api_name(first, symbol@), fp.isin)),
            None => r == Err::<Profile, ProfileError>(ProfileError::FundProfileMissing),
        },
        api_kind(first) != "EQUITY"@ && api_kind(first) != "ETF"@ ==> (r matches Err(
            ProfileError::UnsupportedQuoteType(k),
        ) && k@ == api_kind(first)),
{
    proof {
        reveal_strlit("EQUITY");
        reveal_strlit("ETF");
    }
    let kind = match &first.quote_type {
        Some(q) => match &q.quote_type {
            Some(k) => clone_text(k),
            None => String::new(),
        },
        None => String::new(),
    };
    let name = match quote_type_name_of(&first.quote_type) {
        Some(n) => n,
        None => symbol.to_owned(),
    };
    if text_eq(kind.as_str(), "EQUITY") {
        assert("EQUITY"@.len() != "ETF"@.len());
        match first.asset_profile {
            Some(sp) => Ok(Profile::Company(company_from(sp, name, true))),
            None => Err(ProfileError::AssetProfileMissing),
        }
    } else if text_eq(kind.as_str(), "ETF") {
        match first.fund_profile {
            Some(fp) => Ok(Profile::Fund(fund_from(fp, name, true))),
            None => Err(ProfileError::FundProfileMissing),
        }
    } else {
        Err(ProfileError::UnsupportedQuoteType(kind))
    }
}

/// The name of the profile in a summary store: the quote type's long name,
/// else its short name, else the price node's long name, else its short
/// name, else the symbol.
pub open spec fn store_name(store: QuoteSummaryStore, symbol: Seq<char>) -> Seq<char> {
    match quote_type_name(store.quote_type) {
        Some(n) => n,
        None => match store.price {
            Some(p) => match long_or_short(p.long_name, p.short_name) {
                Some(n) => n,
                None => symbol,
            },
            None => symbol,
        },
    }
}

/// The quote type of a summary store: the one it names, else `ETF` when it
/// has a fund profile, else `EQUITY` when it has a summary profile, else
/// empty.
pub open spec fn store_kind(store: QuoteSummaryStore) -> Seq<char> {
    match quote_type_kind(store.quote_type) {
        Some(k) => k,
        None => if store.fund_profile is Some {
            "ETF"@
        } else if store.summary_profile is Some {
            "EQUITY"@
        } else {
            Seq::empty()
        },
    }
}

/// The profile in the summary store of a scraped page for `symbol`: a
/// company for quote type `EQUITY`, a fund for `ETF`, an error otherwise.
/// A scraped profile carries no ISIN.
pub fn profile_from_store(store: QuoteSummaryStore, symbol: &str) -> (r: Result<Profile, ProfileError>)
    ensures
        store_kind(store) == "EQUITY"@ ==> match store.summary_profile {
            Some(sp) => (r matches Ok(Profile::Company(c)) && company_of(c, sp, store_name(store, symbol@), None)),
            None => r == Err::<Profile, ProfileError>(ProfileError::SummaryProfileMissing),
        },
        store_kind(store) == "ETF"@ ==> match store.fund_profile {
            Some(fp) => (r matches Ok(Profile::Fund(f)) && fund_of(f, fp, store_name(store, symbol@), None)),
            None => r == Err::<Profile, ProfileError>(ProfileError::FundProfileMissing),
        },
        store_kind(store) != "EQUITY"@ && store_kind(store) != "ETF"@ ==> (r matches Err(
            ProfileError::UnknownQuoteType(k),
        ) && k@ == store_kind(store)),
{
    proof {
        reveal_strlit("EQUITY");
        reveal_strlit("ETF");
    }
    let name = match quote_type_name_of(&store.quote_type) {
        Some(n) => n,
        None => match &store.price {
            Some(p) => match name_of(&p.long_name, &p.short_name) {
                Some(n) => n,
                None => symbol.to_owned(),
            },
            None => symbol.to_owned(),
        },
    };
    let named_kind = match &store.quote_type {
        Some(q) => clone_opt_text(&q.quote_type),
        None => None,
    };
    let kind = match named_kind {
        Some(k) => k,
        None => if store.fund_profile.is_some() {
            "ETF".to_owned()
        } else if store.summary_profile.is_some() {
            "EQUITY".to_owned()
        } else {
            String::new()
        },
    };
    if text_eq(kind.as_str(), "EQUITY") {
        assert("EQUITY"@.len() != "ETF"@.len());
        match store.summary_profile {
            Some(sp) => Ok(Profile::Company(company_from(sp, name, false))),
            None => Err(ProfileError::SummaryProfileMissing),
        }
    } else if text_eq(kind.as_str(), "ETF") {
        match store.fund_profile {
            Some(fp) => Ok(Profile::Fund(fund_from(fp, name, false))),
            None => Err(ProfileError::FundProfileMissing),
        }
    } else {
        Err(ProfileError::UnknownQuoteType(kind))
    }
}

/// A member value other than `null`.
pub open spec fn present(x: Option<JsonView>) -> Option<JsonView> {
    match x {
        Some(JsonView::Null) => None,
        other => other,
    }
}

/// The error a quote summary answer reports: the description of its
/// `quoteSummary.error` (empty when it has none), when that error is set.
pub open spec fn summary_error_text(env: JsonView) -> Option<Seq<char>> {
    match present(member(env, "quoteSummary"@)) {
        Some(qs) => match present(member(qs, "error"@)) {
            Some(e) => Some(
                match member_text(e, "description"@) {
                    Some(d) => d,
                    None => Seq::empty(),
                },
            ),
            None => None,
        },
        None => None,
    }
}

/// The result a quote summary answer carries: the last element of its
/// `quoteSummary.result` array.
pub open spec fn summary_result(env: JsonView) -> Option<JsonView> {
    match present(member(env, "quoteSummary"@)) {
        Some(qs) => match member(qs, "result"@) {
            Some(JsonView::Array(items)) => if items.len() > 0 {
                Some(items.last())
            } else {
                None
            },
            _ => None,
        },
        None => None,
    }
}

/// Why a quote summary answer gave no result.
#[derive(Debug, Clone, PartialEq, Eq)]
pub enum SummaryError {
    /// The answer reports this error.
    Api(String),
    /// The answer has no result.
    EmptyResult,
}

/// What to do with a quote summary answer.
#[derive(Debug)]
pub enum SummaryOutcome {
    /// The crumb was refused: refresh the credentials and ask again.
    RefreshCrumb,
    /// Give up with this error.
    Failed(SummaryError),
    /// The result.
    Found(Json),
}

/// What to do with the quote summary answer `env` to attempt `attempt`
/// (counted from 0): a reported error fails, except that an `Invalid Crumb`
/// error to the first attempt asks for fresh credentials and another attempt;
/// otherwise the last result is found, or the answer fails as empty.
pub fn summary_outcome(env: &Json, attempt: u32) -> (r: SummaryOutcome)
    ensures
        match summary_error_text(env@) {
            Some(d) => if attempt == 0 && contains_text(d, "Invalid Crumb"@) {
                r is RefreshCrumb
            } else {
                r matches SummaryOutcome::Failed(SummaryError::Api(m)) && m@ == d
            },
            None => match summary_result(env@) {
                Some(x) => r matches SummaryOutcome::Found(j) && j@ == x,
                None => r matches SummaryOutcome::Failed(SummaryError::EmptyResult),
            },
        },
{
    let qs = match env.get("quoteSummary") {
        Some(Json::Null) => None,
        Some(q) => Some(q),
        None => None,
    };
    if let Some(q) = qs {
        let err = match q.get("error") {
            Some(Json::Null) => None,
            Some(e) => Some(e),
            None => None,
        };
        if let Some(e) = err {
            let d: String = match e.get("description") {
                Some(x) => match x.as_str() {
                    Some(t) => t.to_owned(),
                    None => String::new(),
                },
                None => String::new(),
            };
            proof {
                assert(d@ == summary_error_text(env@)->0);
            }
            let dc = chars_of(d.as_str());
            let marker = chars_of("Invalid Crumb");
            if attempt == 0 && contains_chars(&dc, &marker) {
                return SummaryOutcome::RefreshCrumb;
            }
            return SummaryOutcome::Failed(SummaryError::Api(d));
        }
        if let Some(res) = q.get("result") {
            proof {
                lemma_view_of_containers(*res);
            }
            if let Some(items) = res.as_array() {
                if items.len() > 0 {
                    let last = items[items.len() - 1].duplicate();
                    return SummaryOutcome::Found(last);
                }
            }
        }
    }
    SummaryOutcome::Failed(SummaryError::EmptyResult)
}

/// Where loading a profile stands.
#[derive(Debug, Clone, Copy, PartialEq, Eq, Structural)]
pub enum ProfileLoadState {
    /// Nothing done yet.
    Start,
    /// Waiting for the session cookies and crumb.
    AwaitingCredentials,
    /// Waiting for the quote summary API.
    AwaitingApi,
    /// Waiting for the quote page scrape.
    AwaitingScrape,
    /// Finished.
    Done,
}

/// What happened since the last step of a profile load.
#[derive(Debug, Clone, Copy, PartialEq, Eq, Structural)]
pub enum ProfileLoadEvent {
    /// The load begins.
    Begin,
    /// The credentials were obtained (`ok`) or could not be.
    Credentials { ok: bool },
    /// The quote summary API gave a profile (`ok`) or failed.
    Api { ok: bool },
    /// The quote page gave a profile (`ok`) or failed.
    Scrape { ok: bool },
}

/// What the caller of a profile load does next.
#[derive(Debug, Clone, Copy, PartialEq, Eq, Structural)]
pub enum ProfileLoadAction {
    /// Obtain the session cookies and crumb.
    EnsureCredentials,
    /// Ask the quote summary API.
    CallApi,
    /// Scrape the quote page.
    Scrape,
    /// Return the profile the API gave.
    ReturnApi,
    /// Return the profile the page gave.
    ReturnScrape,
    /// Fail with the credentials error.
    FailCredentials,
    /// Fail with the API error.
    FailApi,
    /// Fail with the page error.
    FailScrape,
    /// Nothing: the event does not fit the state.
    Ignore,
}

/// The step of a profile load by source preference: the API path first
/// obtains credentials, a credentials failure ends the load, and an API
/// failure falls back to the page only under
/// [`ApiPreference::ApiThenScrape`], its error dropped; the page-only path
/// scrapes at once.
pub open spec fn profile_load_transition(
    pref: ApiPreference,
    state: ProfileLoadState,
    event: ProfileLoadEvent,
) -> (ProfileLoadState, ProfileLoadAction) {
    match (state, event) {
        (ProfileLoadState::Start, ProfileLoadEvent::Begin) => if pref == ApiPreference::ScrapeOnly {
            (ProfileLoadState::AwaitingScrape, ProfileLoadAction::Scrape)
        } else {
            (ProfileLoadState::AwaitingCredentials, ProfileLoadAction::EnsureCredentials)
        },
        (ProfileLoadState::AwaitingCredentials, ProfileLoadEvent::Credentials { ok }) => if ok {
            (ProfileLoadState::AwaitingApi, ProfileLoadAction::CallApi)
        } else {
            (ProfileLoadState::Done, ProfileLoadAction::FailCredentials)
        },
        (ProfileLoadState::AwaitingApi, ProfileLoadEvent::Api { ok }) => if ok {
            (ProfileLoadState::Done, ProfileLoadAction::ReturnApi)
        } else if pref == ApiPreference::ApiThenScrape {
            (ProfileLoadState::AwaitingScrape, ProfileLoadAction::Scrape)
        } else {
            (ProfileLoadState::Done, ProfileLoadAction::FailApi)
        },
        (ProfileLoadState::AwaitingScrape, ProfileLoadEvent::Scrape { ok }) => if ok {
            (ProfileLoadState::Done, ProfileLoadAction::ReturnScrape)
        } else {
            (ProfileLoadState::Done, ProfileLoadAction::FailScrape)
        },
        _ => (state, ProfileLoadAction::Ignore),
    }
}

/// One step of a profile load ([`profile_load_transition`]).
pub fn profile_load_step(pref: ApiPreference, state: ProfileLoadState, event: ProfileLoadEvent) -> (r: (
    ProfileLoadState,
    ProfileLoadAction,
))
    ensures
        r == profile_load_transition(pref, state, event),
{
    match (state, event) {
        (ProfileLoadState::Start, ProfileLoadEvent::Begin) => {
            if pref == ApiPreference::ScrapeOnly {
                (ProfileLoadState::AwaitingScrape, ProfileLoadAction::Scrape)
            } else {
                (ProfileLoadState::AwaitingCredentials, ProfileLoadAction::EnsureCredentials)
            }
        },
        (ProfileLoadState::AwaitingCredentials, ProfileLoadEvent::Credentials { ok }) => {
            if ok {
                (ProfileLoadState::AwaitingApi, ProfileLoadAction::CallApi)
            } else {
                (ProfileLoadState::Done, ProfileLoadAction::FailCredentials)
            }
        },
        (ProfileLoadState::AwaitingApi, ProfileLoadEvent::Api { ok }) => {
            if ok {
                (ProfileLoadState::Done, ProfileLoadAction::ReturnApi)
            } else if pref == ApiPreference::ApiThenScrape {
                (ProfileLoadState::AwaitingScrape, ProfileLoadAction::Scrape)
            } else {
                (ProfileLoadState::Done, ProfileLoadAction::FailApi)
            }
        },
        (ProfileLoadState::AwaitingScrape, ProfileLoadEvent::Scrape { ok }) => {
            if ok {
                (ProfileLoadState::Done, ProfileLoadAction::ReturnScrape)
            } else {
                (ProfileLoadState::Done, ProfileLoadAction::FailScrape)
            }
        },
        _ => (state, ProfileLoadAction::Ignore),
    }
}

/// A credentials failure ends the load: neither the API nor the page is
/// asked, then or later.
pub proof fn lemma_credentials_failure_ends_load(pref: ApiPreference, later: ProfileLoadEvent)
    ensures
        profile_load_transition(
            pref,
            ProfileLoadState::AwaitingCredentials,
            ProfileLoadEvent::Credentials { ok: false },
        ) == (ProfileLoadState::Done, ProfileLoadAction::FailCredentials),
        profile_load_transition(pref, ProfileLoadState::Done, later) == (
            ProfileLoadState::Done,
            ProfileLoadAction::Ignore,
        ),
{
}

/// The API is asked only once credentials were obtained.
pub proof fn lemma_api_only_after_credentials(
    pref: ApiPreference,
    state: ProfileLoadState,
    event: ProfileLoadEvent,
)
    ensures
        profile_load_transition(pref, state, event).1 == ProfileLoadAction::CallApi ==> state
            == ProfileLoadState::AwaitingCredentials && event == (ProfileLoadEvent::Credentials { ok: true }),
{
}

/// The page is scraped only right after an API failure when the API comes
/// first, or at the start when the page is the only source.
pub proof fn lemma_scrape_only_after_api_failure(
    pref: ApiPreference,
    state: ProfileLoadState,
    event: ProfileLoadEvent,
)
    ensures
        profile_load_transition(pref, state, event).1 == ProfileLoadAction::Scrape ==> {
            ||| pref == ApiPreference::ApiThenScrape && state == ProfileLoadState::AwaitingApi && event
                == (ProfileLoadEvent::Api { ok: false })
            ||| pref == ApiPreference::ScrapeOnly && state == ProfileLoadState::Start && event
                == ProfileLoadEvent::Begin
        },
{
}

/// A profile the API gives is returned, and the page is not scraped.
pub proof fn lemma_api_success_is_returned(pref: ApiPreference)
    ensures
        profile_load_transition(pref, ProfileLoadState::AwaitingApi, ProfileLoadEvent::Api { ok: true })
            == (ProfileLoadState::Done, ProfileLoadAction::ReturnApi),
{
}

/// The name of an API profile is the quote type's long name whenever it
/// has one; its short name only when the long name is absent; the symbol
/// when the quote type names nothing.
pub proof fn lemma_api_name_prefers_the_long_name(r: ProfileResult, symbol: Seq<char>)
    ensures
        r.quote_type is Some && r.quote_type->0.long_name is Some ==> api_name(r, symbol)
            == r.quote_type->0.long_name->0@,
        r.quote_type is Some && r.quote_type->0.long_name is None && r.quote_type->0.short_name is Some
            ==> api_name(r, symbol) == r.quote_type->0.short_name->0@,
        r.quote_type is Some && r.quote_type->0.long_name is None && r.quote_type->0.short_name is None
            ==> api_name(r, symbol) == symbol,
        r.quote_type is None ==> api_name(r, symbol) == symbol,
{
}

/// The name of a scraped profile is the quote type's long name whenever it
/// has one, its short name only when the long name is absent; without a
/// quote type, the price node's long name before its short name.
pub proof fn lemma_store_name_prefers_the_long_name(store: QuoteSummaryStore, symbol: Seq<char>)
    ensures
        store.quote_type is Some && store.quote_type->0.long_name is Some ==> store_name(store, symbol)
            == store.quote_type->0.long_name->0@,
        store.quote_type is Some && store.quote_type->0.long_name is None && store.quote_type->0.short_name
            is Some ==> store_name(store, symbol) == store.quote_type->0.short_name->0@,
        store.quote_type is None && store.price is Some && store.price->0.long_name is Some ==> store_name(
            store,
            symbol,
        ) == store.price->0.long_name->0@,
        store.quote_type is None && store.price is Some && store.price->0.long_name is None
            && store.price->0.short_name is Some ==> store_name(store, symbol)
            == store.price->0.short_name->0@,
        store.quote_type is None && store.price is None ==> store_name(store, symbol) == symbol,
{
}

/// A company profile takes each field from its own place in the asset
/// profile: the sector from the sector, the industry from the industry,
/// the website and summary from theirs, and the address from the address
/// fields.
pub proof fn lemma_company_fields_keep_their_places(
    c: Company,
    sp: AssetProfileNode,
    name: Seq<char>,
    isin: Option<String>,
)
    requires
        company_of(c, sp, name, isin),
    ensures
        c.name@ == name,
        c.sector == sp.sector,
        c.industry == sp.industry,
        c.website == sp.website,
        c.summary == sp.long_business_summary,
        c.address matches Some(a) && a.street1 == sp.address1 && a.street2 == sp.address2 && a.city
            == sp.city && a.state == sp.state && a.country == sp.country && a.zip == sp.zip,
        c.isin == isin,
{
}

/// A fund profile takes its family from the fund profile's family and its
/// kind from the legal type, `Fund` when there is none.
pub proof fn lemma_fund_fields_keep_their_places(f: Fund, fp: FundProfileNode, name: Seq<char>, isin: Option<String>)
    requires
        fund_of(f, fp, name, isin),
    ensures
        f.name@ == name,
        f.family == fp.family,
        fp.legal_type matches Some(k) ==> f.kind@ == k@,
        fp.legal_type is None ==> f.kind@ == "Fund"@,
        f.isin == isin,
{
}

} // verus!
