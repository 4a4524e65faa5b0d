use yfinance_rs::isin::{extract_from_json_value, parse_as_json_value, ProbeFailed};
use yfinance_rs::json::{json_text, parse_json, Json};
use yfinance_rs::payload::{
    body_store_of, extract_store_like_from_quote_summary_value, find_quote_summary_store_in_value,
    find_quote_summary_value_in_value, normalize_store_like, payload_store_of, try_generic_json_scripts,
    try_sveltekit_json,
};

fn to_value(j: &Json) -> serde_json::Value {
    match j {
        Json::Null => serde_json::Value::Null,
        Json::Bool(b) => serde_json::Value::Bool(*b),
        Json::Number(n) => serde_json::Value::Number(n.clone()),
        Json::Str(s) => serde_json::Value::String(s.clone()),
        Json::Array(items) => serde_json::Value::Array(items.iter().map(to_value).collect()),
        Json::Object(members) => {
            serde_json::Value::Object(members.iter().map(|(k, v)| (k.clone(), to_value(v))).collect())
        }
    }
}

fn parse(s: &str) -> Json {
    parse_json(s).unwrap()
}

fn text(j: &Json) -> String {
    serde_json::to_string(&to_value(j)).unwrap()
}

#[test]
fn parse_json_reads_documents_and_refuses_other_text() {
    let j = parse(r#"{"b":[1,"x",null,true],"a":{"c":2.5}}"#);
    assert_eq!(text(&j), r#"{"a":{"c":2.5},"b":[1,"x",null,true]}"#);
    assert!(parse_json("{not json").is_none());
    assert!(parse_json("[1] trailing").is_none());
}

#[test]
fn json_text_writes_compact_text_with_keys_in_order() {
    let j = parse(r#"{ "b" : 2, "a" : [1, "x", null, true] }"#);
    assert_eq!(json_text(&j), r#"{"a":[1,"x",null,true],"b":2}"#);
    assert_eq!(json_text(&Json::Str("q\"".into())), r#""q\"""#);
}

#[test]
fn get_reads_object_members_only() {
    let j = parse(r#"{"a":"text","b":[1]}"#);
    assert_eq!(j.get("a").and_then(Json::as_str), Some("text"));
    assert!(j.get("b").unwrap().is_array());
    assert!(j.get("z").is_none());
    assert!(parse("[1]").get("a").is_none());
    assert!(j.as_object().is_some());
    assert!(parse("\"s\"").as_object().is_none());
}

#[test]
fn duplicate_copies_the_whole_tree() {
    let j = parse(r#"{"a":[1,{"b":null}],"c":"d"}"#);
    assert_eq!(text(&j.duplicate()), text(&j));
}

#[test]
fn store_search_prefers_own_store_then_stores_then_children() {
    let own = parse(r#"{"QuoteSummaryStore":{"x":1},"z":{"QuoteSummaryStore":{"y":2}}}"#);
    assert_eq!(text(find_quote_summary_store_in_value(&own).unwrap()), r#"{"x":1}"#);
    let stores = parse(r#"{"QuoteSummaryStore":"not an object","stores":{"QuoteSummaryStore":{"s":1}}}"#);
    assert_eq!(text(find_quote_summary_store_in_value(&stores).unwrap()), r#"{"s":1}"#);
    let nested = parse(r#"[1,{"a":{"context":{"stores":{"QuoteSummaryStore":{"n":3}}}}}]"#);
    assert_eq!(text(find_quote_summary_store_in_value(&nested).unwrap()), r#"{"n":3}"#);
    assert!(find_quote_summary_store_in_value(&parse(r#"{"QuoteSummaryStore":[1]}"#)).is_none());
}

#[test]
fn summary_search_finds_the_first_quote_summary() {
    let j = parse(r#"{"a":[{"quoteSummary":{"result":[]}}],"b":{"quoteSummary":1}}"#);
    assert_eq!(text(find_quote_summary_value_in_value(&j).unwrap()), r#"{"result":[]}"#);
    assert!(find_quote_summary_value_in_value(&parse(r#"{"a":1}"#)).is_none());
}

#[test]
fn normalize_renames_the_asset_profile() {
    let j = parse(r#"{"assetProfile":{"a":1},"summaryProfile":{"b":2},"c":3}"#);
    assert_eq!(text(&normalize_store_like(j)), r#"{"c":3,"summaryProfile":{"a":1}}"#);
    let k = parse(r#"{"summaryProfile":{"b":2}}"#);
    assert_eq!(text(&normalize_store_like(k)), r#"{"summaryProfile":{"b":2}}"#);
    assert_eq!(text(&normalize_store_like(parse("[1]"))), "[1]");
}

#[test]
fn store_like_of_a_quote_summary_needs_a_profile_shape() {
    let qs = parse(r#"{"quoteSummary":{"result":[{"assetProfile":{"x":1},"price":{}}]}}"#);
    let s = extract_store_like_from_quote_summary_value(&qs).unwrap();
    assert_eq!(text(&s), r#"{"price":{},"summaryProfile":{"x":1}}"#);
    let direct = parse(r#"{"result":[{"quoteType":{"q":1}}]}"#);
    assert_eq!(text(&extract_store_like_from_quote_summary_value(&direct).unwrap()), r#"{"quoteType":{"q":1}}"#);
    assert!(extract_store_like_from_quote_summary_value(&parse(r#"{"result":[{"price":{}}]}"#)).is_none());
    assert!(extract_store_like_from_quote_summary_value(&parse(r#"{"result":[]}"#)).is_none());
    assert!(extract_store_like_from_quote_summary_value(&parse(r#"{"result":{}}"#)).is_none());
}

#[test]
fn payloads_give_a_store_or_a_summary_result() {
    let p = parse(r#"{"x":{"QuoteSummaryStore":{"assetProfile":{"a":1}}}}"#);
    assert_eq!(text(&payload_store_of(&p).unwrap()), r#"{"summaryProfile":{"a":1}}"#);
    let q = parse(r#"{"quoteSummary":{"result":[{"fundProfile":{"f":1}}]}}"#);
    assert_eq!(text(&payload_store_of(&q).unwrap()), r#"{"fundProfile":{"f":1}}"#);
    let body = parse(r#"{"body":"{\"QuoteSummaryStore\":{\"k\":1}}"}"#);
    assert_eq!(text(&body_store_of(&body).unwrap()), r#"{"k":1}"#);
    assert!(body_store_of(&parse(r#"{"body":5}"#)).is_none());
    assert!(body_store_of(&parse(r#"{"body":"not json"}"#)).is_none());
}

#[test]
fn sveltekit_scripts_give_node_data_or_body() {
    let nodes: String = [
        r#"<script type="application/json">{"QuoteSummaryStore":{"plain":1}}</script>"#,
        r#"<script type="application/json" data-sveltekit-fetched>"#,
        r#"[{"nodes":[{"data":{"x":1}},{"data":{"quoteSummary":{"result":[{"quoteType":{"t":1}}]}}}]}]"#,
        r#"</script>"#,
    ]
    .concat();
    assert_eq!(text(&try_sveltekit_json(&nodes).unwrap()), r#"{"quoteType":{"t":1}}"#);
    let body: String = [
        r#"<script type="application/json" data-sveltekit-fetched data-url="x">"#,
        r#"{"status":200,"body":"{\"quoteSummary\":{\"result\":[{\"assetProfile\":{\"a\":2}}]}}"}"#,
        r#"</script>"#,
    ]
    .concat();
    assert_eq!(text(&try_sveltekit_json(&body).unwrap()), r#"{"summaryProfile":{"a":2}}"#);
    assert!(try_sveltekit_json(r#"<script type="application/json">{"QuoteSummaryStore":{"p":1}}</script>"#).is_none());
}

#[test]
fn generic_scripts_are_read_in_order() {
    let page: String = [
        r#"<script type="application/json">not json</script>"#,
        r#"<script type="application/json">{"a":1}</script>"#,
        r#"<script type="application/json">{"body":{"quoteSummary":{"result":[{"summaryProfile":{"s":1}}]}}}</script>"#,
        r#"<script type="application/json">{"QuoteSummaryStore":{"late":1}}</script>"#,
    ]
    .concat();
    assert_eq!(text(&try_generic_json_scripts(&page).unwrap()), r#"{"summaryProfile":{"s":1}}"#);
    assert!(try_generic_json_scripts("<p>no scripts</p>").is_none());
}

#[test]
fn isin_from_keyed_entries() {
    let v = parse(r#"{"Suggestions":[{"Symbol":"MSFT","Isin":"US5949181045"},{"Symbol":"aapl","Isin":"us0378331005"}]}"#);
    assert_eq!(extract_from_json_value(&v, "aapl"), Ok(Some("US0378331005".to_string())));
    let no_symbol = parse(r#"[{"isin":"US0378331005"}]"#);
    assert_eq!(extract_from_json_value(&no_symbol, "aapl"), Ok(Some("US0378331005".to_string())));
    assert_eq!(extract_from_json_value(&v, "goog"), Ok(None));
}

#[test]
fn isin_from_summaries_and_symbol_members() {
    let by_value = parse(r#"{"items":[{"value":"AAPL|US0378331005|Apple Inc."}]}"#);
    assert_eq!(extract_from_json_value(&by_value, "aapl"), Ok(Some("US0378331005".to_string())));
    let by_member = parse(r#"{"items":[{"symbol":"AAPL.O","code":"us0378331005"}]}"#);
    assert_eq!(extract_from_json_value(&by_member, "aapl"), Ok(Some("US0378331005".to_string())));
    let nested = parse(r#"{"outer":{"list":[{"Isin":"US0378331005","Symbol":"AAPL"}]}}"#);
    assert_eq!(extract_from_json_value(&nested, "aapl"), Ok(Some("US0378331005".to_string())));
    let keyed_first = parse(r#"{"data":[{"Isin":"US0378331005"}],"other":[{"Isin":"US5949181045"}]}"#);
    assert_eq!(extract_from_json_value(&keyed_first, "msft"), Ok(Some("US0378331005".to_string())));
}

#[test]
fn isin_probe_failures_are_reported() {
    let v = parse(r#"[{"Isin":"AB12345678é"}]"#);
    assert_eq!(extract_from_json_value(&v, "x"), Err(ProbeFailed));
    assert_eq!(parse_as_json_value("not json", "aapl"), Ok(None));
    assert_eq!(
        parse_as_json_value(r#"{"results":[{"Symbol":"AAPL","ISIN":"US0378331005"}]}"#, "aapl"),
        Ok(Some("US0378331005".to_string()))
    );
}

#[test]
fn normalizing_twice_changes_nothing_more() {
    let j = parse(r#"{"assetProfile":{"a":1},"summaryProfile":{"b":2},"c":3}"#);
    let once = normalize_store_like(j);
    let once_text = text(&once);
    assert_eq!(text(&normalize_store_like(once)), once_text);
}
