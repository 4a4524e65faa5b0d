//! Finding the quote summary store in the JSON payloads of a quote page: the
//! searches over a JSON tree, the normalisation of a store-like object, and
//! the two strategies that read the page's JSON scripts.
use crate::json::{
    lemma_view_of_containers, member, member_from, members_view, parse_json, parsed_json, Json, JsonView,
};
use crate::scrape::{contains_chars, contains_text, iter_json_scripts, json_scripts_from};
use crate::text::chars_of;
use crate::text::text_eq;
use vstd::prelude::*;

verus! {

/// The summary store held directly by `v`: its `QuoteSummaryStore` member when
/// that is an object, else the `QuoteSummaryStore` member of its `stores`
/// member when that is an object.
pub open spec fn direct_store(v: JsonView) -> Option<JsonView> {
    let by_key = match member(v, "QuoteSummaryStore"@) {
        Some(q) => if q is Object {
            Some(q)
        } else {
            None
        },
        None => None,
    };
    match by_key {
        Some(q) => Some(q),
        None => match member(v, "stores"@) {
            Some(s) => match member(s, "QuoteSummaryStore"@) {
                Some(q) => if q is Object {
                    Some(q)
                } else {
                    None
                },
                None => None,
            },
            None => None,
        },
    }
}

/// The first summary store found in `v`, depth first: an object's own store
/// before those of its member values, in order; an array's items in order.
pub open spec fn store_in(v: JsonView) -> Option<JsonView>
    decreases v, 0int,
{
    match v {
        JsonView::Object(ms) => match direct_store(v) {
            Some(q) => Some(q),
            None => store_in_members(ms, 0),
        },
        JsonView::Array(items) => store_in_items(items, 0),
        _ => None,
    }
}

/// The first summary store found in the values of `ms[i..]`.
pub open spec fn store_in_members(ms: Seq<(Seq<char>, JsonView)>, i: int) -> Option<JsonView>
    decreases ms, ms.len() - i,
{
    if 0 <= i < ms.len() {
        match store_in(ms[i].1) {
            Some(q) => Some(q),
            None => store_in_members(ms, i + 1),
        }
    } else {
        None
    }
}

/// The first summary store found in `items[i..]`.
pub open spec fn store_in_items(items: Seq<JsonView>, i: int) -> Option<JsonView>
    decreases items, items.len() - i,
{
    if 0 <= i < items.len() {
        match store_in(items[i]) {
            Some(q) => Some(q),
            None => store_in_items(items, i + 1),
        }
    } else {
        None
    }
}

/// The summary store held directly by `v` ([`direct_store`]).
fn direct_store_of(v: &Json) -> (r: Option<&Json>)
    ensures
        match r {
            Some(q) => direct_store(v@) == Some(q@),
            None => direct_store(v@) is None,
        },
{
    if let Some(q) = v.get("QuoteSummaryStore") {
        if q.is_object() {
            return Some(q);
        }
    }
    if let Some(stores) = v.get("stores") {
        if let Some(q) = stores.get("QuoteSummaryStore") {
            if q.is_object() {
                return Some(q);
            }
        }
    }
    None
}

/// The first summary store in `v`, depth first ([`store_in`]).
pub fn find_quote_summary_store_in_value(v: &Json) -> (r: Option<&Json>)
    ensures
        match r {
            Some(q) => store_in(v@) == Some(q@),
            None => store_in(v@) is None,
        },
    decreases v,
{
    proof {
        lemma_view_of_containers(*v);
    }
    match v {
        Json::Object(members) => {
            if let Some(q) = direct_store_of(v) {
                return Some(q);
            }
            let ghost ms = members_view(members@);
            let mut i: usize = 0;
            while i < members.len()
                invariant
                    *v == Json::Object(*members),
                    i <= members@.len() == ms.len(),
                    ms == members_view(members@),
                    store_in(v@) == store_in_members(ms, i as int),
                decreases members.len() - i,
            {
                proof {
                    assert(decreases_to!(*v => (*v)->Object_0));
                    assert(decreases_to!(*members => members[i as int]));
                    assert(decreases_to!(members[i as int] => members[i as int].1));
                    assert(ms[i as int].1 == members@[i as int].1@);
                }
                if let Some(q) = find_quote_summary_store_in_value(&members[i].1) {
                    return Some(q);
                }
                i = i + 1;
            }
            None
        },
        Json::Array(items) => {
            let mut i: usize = 0;
            while i < items.len()
                invariant
                    *v == Json::Array(*items),
                    i <= items@.len(),
                    store_in(v@) == store_in_items(v@->Array_0, i as int),
                    v@->Array_0.len() == items@.len(),
                    forall|j: int| 0 <= j < items@.len() ==> v@->Array_0[j] == (#[trigger] items@[j])@,
                decreases items.len() - i,
            {
                proof {
                    assert(decreases_to!(*v => (*v)->Array_0));
                    assert(decreases_to!(*items => items[i as int]));
                }
                if let Some(q) = find_quote_summary_store_in_value(&items[i]) {
                    return Some(q);
                }
                i = i + 1;
            }
            None
        },
        _ => None,
    }
}

/// The first `quoteSummary` member found in `v`, depth first: an object's
/// own member before those of its member values, in order; an array's items
/// in order.
pub open spec fn summary_in(v: JsonView) -> Option<JsonView>
    decreases v, 0int,
{
    match v {
        JsonView::Object(ms) => match member(v, "quoteSummary"@) {
            Some(q) => Some(q),
            None => summary_in_members(ms, 0),
        },
        JsonView::Array(items) => summary_in_items(items, 0),
        _ => None,
    }
}

/// The first `quoteSummary` member found in the values of `ms[i..]`.
pub open spec fn summary_in_members(ms: Seq<(Seq<char>, JsonView)>, i: int) -> Option<JsonView>
    decreases ms, ms.len() - i,
{
    if 0 <= i < ms.len() {
        match summary_in(ms[i].1) {
            Some(q) => Some(q),
            None => summary_in_members(ms, i + 1),
        }
    } else {
        None
    }
}

/// The first `quoteSummary` member found in `items[i..]`.
pub open spec fn summary_in_items(items: Seq<JsonView>, i: int) -> Option<JsonView>
    decreases items, items.len() - i,
{
    if 0 <= i < items.len() {
        match summary_in(items[i]) {
            Some(q) => Some(q),
            None => summary_in_items(items, i + 1),
        }
    } else {
        None
    }
}

/// The first `quoteSummary` member in `v`, depth first ([`summary_in`]).
pub fn find_quote_summary_value_in_value(v: &Json) -> (r: Option<&Json>)
    ensures
        match r {
            Some(q) => summary_in(v@) == Some(q@),
            None => summary_in(v@) is None,
        },
    decreases v,
{
    proof {
        lemma_view_of_containers(*v);
    }
    match v {
        Json::Object(members) => {
            if let Some(q) = v.get("quoteSummary") {
                return Some(q);
            }
            let ghost ms = members_view(members@);
            let mut i: usize = 0;
            while i < members.len()
                invariant
                    *v == Json::Object(*members),
                    i <= members@.len() == ms.len(),
                    ms == members_view(members@),
                    summary_in(v@) == summary_in_members(ms, i as int),
                decreases members.len() - i,
            {
                proof {
                    assert(decreases_to!(*v => (*v)->Object_0));
                    assert(decreases_to!(*members => members[i as int]));
                    assert(decreases_to!(members[i as int] => members[i as int].1));
                    assert(ms[i as int].1 == members@[i as int].1@);
                }
                if let Some(q) = find_quote_summary_value_in_value(&members[i].1) {
                    return Some(q);
                }
                i = i + 1;
            }
            None
        },
        Json::Array(items) => {
            let mut i: usize = 0;
            while i < items.len()
                invariant
                    *v == Json::Array(*items),
                    i <= items@.len(),
                    summary_in(v@) == summary_in_items(v@->Array_0, i as int),
                    v@->Array_0.len() == items@.len(),
                    forall|j: int| 0 <= j < items@.len() ==> v@->Array_0[j] == (#[trigger] items@[j])@,
                decreases items.len() - i,
            {
                proof {
                    assert(decreases_to!(*v => (*v)->Array_0));
                    assert(decreases_to!(*items => items[i as int]));
                }
                if let Some(q) = find_quote_summary_value_in_value(&items[i]) {
                    return Some(q);
                }
                i = i + 1;
            }
            None
        },
        _ => None,
    }
}

/// Whether a member key names a company profile.
pub open spec fn is_profile_key(k: Seq<char>) -> bool {
    k == "assetProfile"@ || k == "summaryProfile"@
}

/// `ms` without its `assetProfile` and `summaryProfile` members.
pub open spec fn without_profiles(ms: Seq<(Seq<char>, JsonView)>) -> Seq<(Seq<char>, JsonView)>
    decreases ms.len(),
{
    if ms.len() == 0 {
        ms
    } else {
        let rest = without_profiles(ms.drop_last());
        if is_profile_key(ms.last().0) {
            rest
        } else {
            rest.push(ms.last())
        }
    }
}

/// A store-like object with its `assetProfile` member renamed
/// `summaryProfile` (replacing one of that name); anything else unchanged.
pub open spec fn normalized(v: JsonView) -> JsonView {
    match v {
        JsonView::Object(ms) => match member_from(ms, "assetProfile"@, 0) {
            Some(ap) => JsonView::Object(without_profiles(ms).push(("summaryProfile"@, ap))),
            None => v,
        },
        _ => v,
    }
}

/// Renames the `assetProfile` member of a store-like object to
/// `summaryProfile` ([`normalized`]).
pub fn normalize_store_like(v: Json) -> (r: Json)
    ensures
        r@ == normalized(v@),
{
    proof {
        lemma_view_of_containers(v);
    }
    if v.get("assetProfile").is_none() {
        return v;
    }
    match v {
        Json::Object(members) => {
            let ghost orig = members@;
            let ghost ms = members_view(orig);
            let _len = members.len();
            let mut rest = members;
            let mut out: Vec<(String, Json)> = Vec::new();
            let mut ap: Option<Json> = None;
            let mut k: usize = 0;
            while rest.len() > 0
                invariant
                    k <= orig.len() <= usize::MAX,
                    ms == members_view(orig),
                    rest@ == orig.subrange(k as int, orig.len() as int),
                    members_view(out@) == without_profiles(ms.take(k as int)),
                    member_from(ms, "assetProfile"@, 0) is Some,
                    match ap {
                        Some(a) => member_from(ms, "assetProfile"@, 0) == Some(a@),
                        None => member_from(ms, "assetProfile"@, 0) == member_from(
                            ms,
                            "assetProfile"@,
                            k as int,
                        ),
                    },
                decreases rest.len(),
            {
                let (key, val) = rest.remove(0);
                proof {
                    assert(orig[k as int] == (key, val));
                    assert(ms[k as int] == (key@, val@));
                    assert(ms.take(k + 1).drop_last() =~= ms.take(k as int));
                    assert(ms.take(k + 1).last() == ms[k as int]);
                }
                if text_eq(key.as_str(), "assetProfile") {
                    if ap.is_none() {
                        ap = Some(val);
                    }
                } else if !text_eq(key.as_str(), "summaryProfile") {
                    let ghost before = out@;
                    out.push((key, val));
                    proof {
                        assert(members_view(out@) =~= members_view(before).push((key@, val@)));
                    }
                }
                k = k + 1;
                proof {
                    assert(rest@ =~= orig.subrange(k as int, orig.len() as int));
                }
            }
            proof {
                assert(ms.take(k as int) =~= ms);
            }
            match ap {
                Some(a) => {
                    let ghost before = out@;
                    out.push((String::from_str("summaryProfile"), a));
                    let r = Json::Object(out);
                    proof {
                        lemma_view_of_containers(r);
                        assert(members_view(out@) =~= members_view(before).push(("summaryProfile"@, a@)));
                    }
                    r
                },
                None => Json::Object(out),
            }
        },
        other => other,
    }
}

/// Whether a quote summary result looks like a profile payload: it has a
/// `quoteType`, `assetProfile`, `summaryProfile` or `fundProfile` member.
pub open spec fn looks_like_profile(r0: JsonView) -> bool {
    ||| member(r0, "quoteType"@) is Some
    ||| member(r0, "assetProfile"@) is Some
    ||| member(r0, "summaryProfile"@) is Some
    ||| member(r0, "fundProfile"@) is Some
}

/// The store-like object of a quote summary (`qs`, or its `quoteSummary`
/// member where it has one): the first element of its `result` array,
/// normalised, when that looks like a profile payload.
pub open spec fn store_like_of_summary(qs: JsonView) -> Option<JsonView> {
    let summary = match member(qs, "quoteSummary"@) {
        Some(s) => s,
        None => qs,
    };
    match member(summary, "result"@) {
        Some(JsonView::Array(items)) => if items.len() > 0 && looks_like_profile(items[0]) {
            Some(normalized(items[0]))
        } else {
            None
        },
        _ => None,
    }
}

/// The store-like object of a quote summary value ([`store_like_of_summary`]).
pub fn extract_store_like_from_quote_summary_value(qs_val: &Json) -> (r: Option<Json>)
    ensures
        match r {
            Some(s) => store_like_of_summary(qs_val@) == Some(s@),
            None => store_like_of_summary(qs_val@) is None,
        },
{
    let summary = match qs_val.get("quoteSummary") {
        Some(s) => s,
        None => qs_val,
    };
    let items = match summary.get("result") {
        Some(r) => match r.as_array() {
            Some(items) => items,
            None => return None,
        },
        None => return None,
    };
    if items.len() == 0 {
        return None;
    }
    let r0 = &items[0];
    let has_quote_type = r0.get("quoteType").is_some();
    let has_profile = r0.get("assetProfile").is_some() || r0.get("summaryProfile").is_some();
    let has_fund = r0.get("fundProfile").is_some();
    if !(has_quote_type || has_profile || has_fund) {
        return None;
    }
    Some(normalize_store_like(r0.duplicate()))
}

/// The store-like object a payload gives: its first summary store,
/// normalised, else the store-like object of its first `quoteSummary` member.
pub open spec fn payload_store(p: JsonView) -> Option<JsonView> {
    match store_in(p) {
        Some(q) => Some(normalized(q)),
        None => match summary_in(p) {
            Some(qs) => store_like_of_summary(qs),
            None => None,
        },
    }
}

/// The payload a `body` member carries: the document its text parses to when
/// it is a string; itself when it is an object or an array.
pub open spec fn body_payload(b: JsonView) -> Option<JsonView> {
    match b {
        JsonView::Str(s) => parsed_json(s),
        JsonView::Object(_) => Some(b),
        JsonView::Array(_) => Some(b),
        _ => None,
    }
}

/// The store-like object the payload of `v`'s `body` member gives.
pub open spec fn body_store(v: JsonView) -> Option<JsonView> {
    match member(v, "body"@) {
        Some(b) => match body_payload(b) {
            Some(p) => payload_store(p),
            None => None,
        },
        None => None,
    }
}

/// The store-like object a payload gives ([`payload_store`]).
pub fn payload_store_of(p: &Json) -> (r: Option<Json>)
    ensures
        match r {
            Some(s) => payload_store(p@) == Some(s@),
            None => payload_store(p@) is None,
        },
{
    if let Some(q) = find_quote_summary_store_in_value(p) {
        return Some(normalize_store_like(q.duplicate()));
    }
    if let Some(qs) = find_quote_summary_value_in_value(p) {
        return extract_store_like_from_quote_summary_value(qs);
    }
    None
}

/// The store-like object the payload of `v`'s `body` member gives
/// ([`body_store`]); a string body is parsed as JSON first.
pub fn body_store_of(v: &Json) -> (r: Option<Json>)
    ensures
        match r {
            Some(s) => body_store(v@) == Some(s@),
            None => body_store(v@) is None,
        },
{
    let b = match v.get("body") {
        Some(b) => b,
        None => return None,
    };
    match b {
        Json::Str(s) => match parse_json(s.as_str()) {
            Some(p) => payload_store_of(&p),
            None => None,
        },
        Json::Object(_) => payload_store_of(b),
        Json::Array(_) => payload_store_of(b),
        _ => None,
    }
}

/// The store-like object of the first of `nodes[j..]` whose `data` member
/// gives one ([`store_like_of_summary`]).
pub open spec fn nodes_store(nodes: Seq<JsonView>, j: int) -> Option<JsonView>
    decreases nodes.len() - j,
{
    if 0 <= j < nodes.len() {
        let here = match member(nodes[j], "data"@) {
            Some(d) => store_like_of_summary(d),
            None => None,
        };
        match here {
            Some(s) => Some(s),
            None => nodes_store(nodes, j + 1),
        }
    } else {
        None
    }
}

/// The store-like object of the first node, over the `nodes` arrays of
/// `outer[i..]` in order, that gives one.
pub open spec fn fetched_array_store(outer: Seq<JsonView>, i: int) -> Option<JsonView>
    decreases outer.len() - i,
{
    if 0 <= i < outer.len() {
        let here = match member(outer[i], "nodes"@) {
            Some(JsonView::Array(nodes)) => nodes_store(nodes, 0),
            _ => None,
        };
        match here {
            Some(s) => Some(s),
            None => fetched_array_store(outer, i + 1),
        }
    } else {
        None
    }
}

/// What a SvelteKit fetched-data script gives: for a JSON array, the first
/// node data with a profile-like quote summary; for a JSON object, what its
/// `body` payload gives.
pub open spec fn fetched_script_store(inner: Seq<char>) -> Option<JsonView> {
    match parsed_json(inner) {
        Some(JsonView::Array(outer)) => fetched_array_store(outer, 0),
        Some(JsonView::Object(ms)) => body_store(JsonView::Object(ms)),
        _ => None,
    }
}

/// Strategy C over `scripts[i..]`: the first script whose tag carries
/// `data-sveltekit-fetched` and whose text gives a store-like object.
pub open spec fn sveltekit_from(scripts: Seq<(Seq<char>, Seq<char>)>, i: int) -> Option<JsonView>
    decreases scripts.len() - i,
{
    if 0 <= i < scripts.len() {
        let here = if contains_text(scripts[i].0, "data-sveltekit-fetched"@) {
            fetched_script_store(scripts[i].1)
        } else {
            None
        };
        match here {
            Some(s) => Some(s),
            None => sveltekit_from(scripts, i + 1),
        }
    } else {
        None
    }
}

/// What any JSON script gives: what its document gives as a payload, else
/// what the payload of its `body` member gives.
pub open spec fn generic_script_store(inner: Seq<char>) -> Option<JsonView> {
    match parsed_json(inner) {
        Some(v) => match payload_store(v) {
            Some(s) => Some(s),
            None => body_store(v),
        },
        None => None,
    }
}

/// Strategy D over `scripts[i..]`: the first script whose text gives a
/// store-like object.
pub open spec fn generic_from(scripts: Seq<(Seq<char>, Seq<char>)>, i: int) -> Option<JsonView>
    decreases scripts.len() - i,
{
    if 0 <= i < scripts.len() {
        match generic_script_store(scripts[i].1) {
            Some(s) => Some(s),
            None => generic_from(scripts, i + 1),
        }
    } else {
        None
    }
}

/// The store-like object of the first node of `nodes` whose data gives one.
fn nodes_store_of(nodes: &Vec<Json>) -> (r: Option<Json>)
    ensures
        match r {
            Some(s) => nodes_store(crate::json::items_view(nodes@), 0) == Some(s@),
            None => nodes_store(crate::json::items_view(nodes@), 0) is None,
        },
{
    let ghost ns = crate::json::items_view(nodes@);
    let mut j: usize = 0;
    while j < nodes.len()
        invariant
            j <= nodes@.len() == ns.len(),
            ns == crate::json::items_view(nodes@),
            nodes_store(ns, 0) == nodes_store(ns, j as int),
        decreases nodes.len() - j,
    {
        if let Some(d) = nodes[j].get("data") {
            if let Some(s) = extract_store_like_from_quote_summary_value(d) {
                return Some(s);
            }
        }
        j = j + 1;
    }
    None
}

/// What a SvelteKit fetched-data script's text gives ([`fetched_script_store`]).
pub fn fetched_script_store_of(inner: &str) -> (r: Option<Json>)
    ensures
        match r {
            Some(s) => fetched_script_store(inner@) == Some(s@),
            None => fetched_script_store(inner@) is None,
        },
{
    let parsed = match parse_json(inner) {
        Some(p) => p,
        None => return None,
    };
    proof {
        lemma_view_of_containers(parsed);
    }
    match &parsed {
        Json::Array(outer) => {
            let ghost os = crate::json::items_view(outer@);
            let mut i: usize = 0;
            while i < outer.len()
                invariant
                    i <= outer@.len() == os.len(),
                    os == crate::json::items_view(outer@),
                    fetched_script_store(inner@) == fetched_array_store(os, 0),
                    fetched_array_store(os, 0) == fetched_array_store(os, i as int),
                decreases outer.len() - i,
            {
                if let Some(n) = outer[i].get("nodes") {
                    if let Some(nodes) = n.as_array() {
                        if let Some(s) = nodes_store_of(nodes) {
                            return Some(s);
                        }
                    }
                }
                i = i + 1;
            }
            None
        },
        Json::Object(_) => body_store_of(&parsed),
        _ => None,
    }
}

/// Strategy C: the SvelteKit fetched-data scripts of the page
/// ([`sveltekit_from`] over [`json_scripts_from`]).
pub fn try_sveltekit_json(body: &str) -> (r: Option<Json>)
    ensures
        match r {
            Some(s) => sveltekit_from(json_scripts_from(body@, 0), 0) == Some(s@),
            None => sveltekit_from(json_scripts_from(body@, 0), 0) is None,
        },
{
    let scripts = iter_json_scripts(body);
    let ghost sc = json_scripts_from(body@, 0);
    let marker = chars_of("data-sveltekit-fetched");
    let mut i: usize = 0;
    while i < scripts.len()
        invariant
            i <= scripts@.len() == sc.len(),
            sc == json_scripts_from(body@, 0),
            marker@ == "data-sveltekit-fetched"@,
            forall|j: int|
                0 <= j < scripts@.len() ==> (#[trigger] scripts@[j]).0@ == sc[j].0 && scripts@[j].1@
                    == sc[j].1,
            sveltekit_from(sc, 0) == sveltekit_from(sc, i as int),
        decreases scripts.len() - i,
    {
        let attrs = chars_of(scripts[i].0.as_str());
        if contains_chars(&attrs, &marker) {
            if let Some(s) = fetched_script_store_of(scripts[i].1.as_str()) {
                return Some(s);
            }
        }
        i = i + 1;
    }
    None
}

/// What any JSON script's text gives ([`generic_script_store`]).
pub fn generic_script_store_of(inner: &str) -> (r: Option<Json>)
    ensures
        match r {
            Some(s) => generic_script_store(inner@) == Some(s@),
            None => generic_script_store(inner@) is None,
        },
{
    let v = match parse_json(inner) {
        Some(v) => v,
        None => return None,
    };
    if let Some(s) = payload_store_of(&v) {
        return Some(s);
    }
    body_store_of(&v)
}

/// Strategy D: every JSON script of the page ([`generic_from`] over
/// [`json_scripts_from`]).
pub fn try_generic_json_scripts(body: &str) -> (r: Option<Json>)
    ensures
        match r {
            Some(s) => generic_from(json_scripts_from(body@, 0), 0) == Some(s@),
            None => generic_from(json_scripts_from(body@, 0), 0) is None,
        },
{
    let scripts = iter_json_scripts(body);
    let ghost sc = json_scripts_from(body@, 0);
    let mut i: usize = 0;
    while i < scripts.len()
        invariant
            i <= scripts@.len() == sc.len(),
            sc == json_scripts_from(body@, 0),
            forall|j: int|
                0 <= j < scripts@.len() ==> (#[trigger] scripts@[j]).0@ == sc[j].0 && scripts@[j].1@
                    == sc[j].1,
            generic_from(sc, 0) == generic_from(sc, i as int),
        decreases scripts.len() - i,
    {
        if let Some(s) = generic_script_store_of(scripts[i].1.as_str()) {
            return Some(s);
        }
        i = i + 1;
    }
    None
}

/// The summary store found in a value is always an object.
pub proof fn lemma_store_is_object(v: JsonView)
    ensures
        store_in(v) matches Some(q) ==> q is Object,
    decreases v, 0int,
{
    match v {
        JsonView::Object(ms) => {
            lemma_members_store_is_object(ms, 0);
        },
        JsonView::Array(items) => {
            lemma_items_store_is_object(items, 0);
        },
        _ => {},
    }
}

proof fn lemma_members_store_is_object(ms: Seq<(Seq<char>, JsonView)>, i: int)
    ensures
        store_in_members(ms, i) matches Some(q) ==> q is Object,
    decreases ms, ms.len() - i,
{
    if 0 <= i < ms.len() {
        lemma_store_is_object(ms[i].1);
        lemma_members_store_is_object(ms, i + 1);
    }
}

proof fn lemma_items_store_is_object(items: Seq<JsonView>, i: int)
    ensures
        store_in_items(items, i) matches Some(q) ==> q is Object,
    decreases items, items.len() - i,
{
    if 0 <= i < items.len() {
        lemma_store_is_object(items[i]);
        lemma_items_store_is_object(items, i + 1);
    }
}

proof fn lemma_without_profiles_keys(ms: Seq<(Seq<char>, JsonView)>)
    ensures
        forall|k: int|
            0 <= k < without_profiles(ms).len() ==> !is_profile_key(#[trigger] without_profiles(ms)[k].0),
    decreases ms.len(),
{
    if ms.len() > 0 {
        let rest = without_profiles(ms.drop_last());
        lemma_without_profiles_keys(ms.drop_last());
        let wp = without_profiles(ms);
        assert forall|k: int| 0 <= k < wp.len() implies !is_profile_key(#[trigger] wp[k].0) by {
            if k < rest.len() {
                assert(wp[k] == rest[k]);
            }
        }
    }
}

proof fn lemma_no_member(ms: Seq<(Seq<char>, JsonView)>, key: Seq<char>, i: int)
    requires
        forall|k: int| 0 <= k < ms.len() ==> (#[trigger] ms[k]).0 != key,
    ensures
        member_from(ms, key, i) is None,
    decreases ms.len() - i,
{
    if 0 <= i < ms.len() {
        lemma_no_member(ms, key, i + 1);
    }
}

/// A normalised store-like object is its own normalisation: it has no
/// `assetProfile` member left, and anything else is left alone.
pub proof fn lemma_normalized_is_stable(v: JsonView)
    ensures
        normalized(normalized(v)) == normalized(v),
{
    if let JsonView::Object(ms) = v {
        if let Some(ap) = member_from(ms, "assetProfile"@, 0) {
            let wp = without_profiles(ms);
            lemma_without_profiles_keys(ms);
            let n = wp.push(("summaryProfile"@, ap));
            assert forall|k: int| 0 <= k < n.len() implies (#[trigger] n[k]).0 != "assetProfile"@ by {
                if k < wp.len() {
                    assert(!is_profile_key(wp[k].0));
                } else {
                    assert(n[k].0 == "summaryProfile"@);
                    reveal_strlit("summaryProfile");
                    reveal_strlit("assetProfile");
                    assert("summaryProfile"@[0] != "assetProfile"@[0]);
                }
            }
            lemma_no_member(n, "assetProfile"@, 0);
        }
    }
}

/// The store-like object a payload gives is always an object.
pub proof fn lemma_payload_store_is_object(p: JsonView)
    ensures
        payload_store(p) matches Some(s) ==> s is Object,
{
    lemma_store_is_object(p);
}

proof fn lemma_sveltekit_is_object(scripts: Seq<(Seq<char>, Seq<char>)>, i: int)
    ensures
        sveltekit_from(scripts, i) matches Some(s) ==> s is Object,
    decreases scripts.len() - i,
{
    if 0 <= i < scripts.len() {
        match parsed_json(scripts[i].1) {
            Some(JsonView::Array(outer)) => lemma_fetched_array_is_object(outer, 0),
            Some(JsonView::Object(ms)) => {
                if let Some(b) = member(JsonView::Object(ms), "body"@) {
                    if let Some(p) = body_payload(b) {
                        lemma_payload_store_is_object(p);
                    }
                }
            },
            _ => {},
        }
        lemma_sveltekit_is_object(scripts, i + 1);
    }
}

proof fn lemma_fetched_array_is_object(outer: Seq<JsonView>, i: int)
    ensures
        fetched_array_store(outer, i) matches Some(s) ==> s is Object,
    decreases outer.len() - i,
{
    if 0 <= i < outer.len() {
        if let Some(JsonView::Array(nodes)) = member(outer[i], "nodes"@) {
            lemma_nodes_is_object(nodes, 0);
        }
        lemma_fetched_array_is_object(outer, i + 1);
    }
}

proof fn lemma_nodes_is_object(nodes: Seq<JsonView>, j: int)
    ensures
        nodes_store(nodes, j) matches Some(s) ==> s is Object,
    decreases nodes.len() - j,
{
    if 0 <= j < nodes.len() {
        lemma_nodes_is_object(nodes, j + 1);
    }
}

proof fn lemma_generic_is_object(scripts: Seq<(Seq<char>, Seq<char>)>, i: int)
    ensures
        generic_from(scripts, i) matches Some(s) ==> s is Object,
    decreases scripts.len() - i,
{
    if 0 <= i < scripts.len() {
        if let Some(v) = parsed_json(scripts[i].1) {
            lemma_payload_store_is_object(v);
            if let Some(b) = member(v, "body"@) {
                if let Some(p) = body_payload(b) {
                    lemma_payload_store_is_object(p);
                }
            }
        }
        lemma_generic_is_object(scripts, i + 1);
    }
}

/// What the page's JSON scripts give as a summary store (strategies C and D)
/// is always a JSON object.
pub proof fn lemma_script_stores_are_objects(body: Seq<char>)
    ensures
        sveltekit_from(json_scripts_from(body, 0), 0) matches Some(s) ==> s is Object,
        generic_from(json_scripts_from(body, 0), 0) matches Some(s) ==> s is Object,
{
    lemma_sveltekit_is_object(json_scripts_from(body, 0), 0);
    lemma_generic_is_object(json_scripts_from(body, 0), 0);
}

} // verus!
