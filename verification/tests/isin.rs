use yfinance_rs::isin::{
    isin_probe_fails, looks_like_isin, normalize_sym, parse_as_flat_suggest, pick_from_parts,
    probe_isin, resolve_isin, scan_raw_body, split_parts, split_tokens, to_ascii_upper,
    FlatSuggest, ProbeFailed,
};

fn strings(v: &[&str]) -> Vec<String> {
    v.iter().map(|s| s.to_string()).collect()
}

#[test]
fn looks_like_isin_checks_the_shape() {
    assert!(looks_like_isin("US0378331005"));
    assert!(looks_like_isin("  us0378331005 \n"));
    assert!(!looks_like_isin("US037833100X"));
    assert!(!looks_like_isin("1S0378331005"));
    assert!(!looks_like_isin("US03783310"));
    assert!(!looks_like_isin("US03783-1005"));
}

#[test]
fn probing_a_split_character_fails() {
    assert!(isin_probe_fails("AB12345678é"));
    assert_eq!(probe_isin("AB12345678é"), None);
    assert!(!isin_probe_fails("AB1234567é"));
    assert_eq!(probe_isin("AB1234567é"), Some(false));
    assert_eq!(probe_isin("US0378331005"), Some(true));
    assert!(!isin_probe_fails("é"));
}

#[test]
fn normalize_sym_cuts_and_lowercases() {
    assert_eq!(normalize_sym("  BRK-B "), "brk");
    assert_eq!(normalize_sym("AAPL"), "aapl");
    assert_eq!(normalize_sym("VOD.L"), "vod");
    assert_eq!(normalize_sym("a:b.c"), "a:b");
    assert_eq!(normalize_sym("X Y:Z"), "x y");
}

#[test]
fn split_helpers_follow_str_split() {
    assert_eq!(split_tokens("a | b||c "), strings(&["a", "b", "", "c"]));
    assert_eq!(split_parts("a | b||c "), strings(&["a", "b", "c"]));
    assert_eq!(split_tokens(""), strings(&[""]));
    assert_eq!(to_ascii_upper("us03é"), "US03é");
}

#[test]
fn pick_from_parts_needs_matching_first_part() {
    let parts = strings(&["AAPL", "Apple Inc", "us0378331005"]);
    assert_eq!(pick_from_parts(&parts, "aapl"), Ok(Some("US0378331005".to_string())));
    assert_eq!(pick_from_parts(&parts, "msft"), Ok(None));
    assert_eq!(pick_from_parts(&[], "aapl"), Ok(None));
    let bad = strings(&["AAPL", "AB12345678é", "US0378331005"]);
    assert_eq!(pick_from_parts(&bad, "aapl"), Err(ProbeFailed));
}

fn entry(value: Option<&str>, symbol: Option<&str>, isin: Option<&str>) -> FlatSuggest {
    FlatSuggest {
        value: value.map(str::to_string),
        symbol: symbol.map(str::to_string),
        isin: isin.map(str::to_string),
    }
}

#[test]
fn flat_suggest_prefers_the_matching_symbol() {
    let records = vec![
        entry(None, Some("MSFT"), Some("US5949181045")),
        entry(None, Some("AAPL"), Some("us0378331005")),
    ];
    assert_eq!(parse_as_flat_suggest(&records, "aapl"), Ok(Some("US0378331005".to_string())));
    assert_eq!(parse_as_flat_suggest(&records, "goog"), Ok(Some("US5949181045".to_string())));
    let by_value = vec![entry(Some("AAPL|Apple|US0378331005"), None, None)];
    assert_eq!(parse_as_flat_suggest(&by_value, "aapl"), Ok(Some("US0378331005".to_string())));
    assert_eq!(parse_as_flat_suggest(&by_value, "goog"), Ok(Some("US0378331005".to_string())));
    assert_eq!(parse_as_flat_suggest(&vec![], "goog"), Ok(None));
}

#[test]
fn raw_scan_finds_the_first_isin_shaped_run() {
    assert_eq!(scan_raw_body("xx us0378331005 yy"), Some("US0378331005".to_string()));
    assert_eq!(scan_raw_body("AUS0378331005"), Some("AUS037833100".to_string()));
    assert_eq!(scan_raw_body("no isin"), None);
}

#[test]
fn resolve_isin_tries_each_source() {
    let json = r#"{"Suggestions":[{"Symbol":"AAPL","Isin":"us0378331005"}]}"#;
    let records = vec![entry(None, Some("AAPL"), Some("US0000000000"))];
    assert_eq!(resolve_isin("AAPL", json, Some(records)), Ok(Some("US0378331005".to_string())));
    let records = vec![entry(None, Some("AAPL"), Some("US0378331005"))];
    assert_eq!(resolve_isin("AAPL", "", Some(records)), Ok(Some("US0378331005".to_string())));
    assert_eq!(resolve_isin("AAPL", "a US0378331005", None), Ok(Some("US0378331005".to_string())));
    assert_eq!(resolve_isin("AAPL", "", Some(vec![])), Ok(None));
}
