use yfinance_rs::scrape::{
    escape_html, extract_bootstrap_json, extract_crumb, find_matching_brace, iter_json_scripts,
    truncate, try_quote_summary_store_literal, try_root_app_main, wrap_store_text, ExtractError,
};

fn chars(s: &str) -> Vec<char> {
    s.chars().collect()
}

#[test]
fn truncate_keeps_short_text_and_marks_long_text() {
    assert_eq!(truncate("hello", 5), "hello");
    assert_eq!(truncate("hello", 10), "hello");
    assert_eq!(truncate("hello world", 5), "hello …[trunc]");
    assert_eq!(truncate("héllo", 3), "hé …[trunc]");
}

#[test]
fn escape_html_replaces_markup_characters() {
    assert_eq!(
        escape_html("<a href=\"x\">Tom & Jerry's</a>"),
        "&lt;a href=&quot;x&quot;&gt;Tom &amp; Jerry&#39;s&lt;/a&gt;"
    );
    assert_eq!(escape_html("plain ünïcode"), "plain ünïcode");
    let escaped = escape_html("<>\"'&");
    assert!(!escaped.contains('<') && !escaped.contains('>') && !escaped.contains('"') && !escaped.contains('\''));
}

#[test]
fn extract_crumb_unescapes_slashes() {
    let body = r#"xx "CrumbStore":{"crumb":"ab\u002Fcd\u002F"} yy"#;
    assert_eq!(extract_crumb(body).as_deref(), Some("ab/cd/"));
    assert_eq!(extract_crumb("no crumb here"), None);
    assert_eq!(extract_crumb(r#""CrumbStore":{"crumb":"unterminated"#), None);
}

#[test]
fn find_matching_brace_skips_strings_and_escapes() {
    let s = chars(r#"x{"a":"}\"{",b:{c:1}}tail"#);
    assert_eq!(find_matching_brace(&s, 1), Some(20));
    assert_eq!(find_matching_brace(&s, 0), None);
    assert_eq!(find_matching_brace(&chars("{{}"), 0), None);
    assert_eq!(find_matching_brace(&chars("{}"), 5), None);
}

#[test]
fn iter_json_scripts_keeps_json_scripts_in_order() {
    let html = [
        "<script>var a = 1;</script>",
        "<script type=\"application/json\" data-sveltekit-fetched>{\"a\":1}</script>",
        "<p>text</p><script type=\"application/json\">[2]</script>",
        "<script type=\"application/json\">unterminated",
    ]
    .join("");
    let html = html.as_str();
    let scripts = iter_json_scripts(html);
    assert_eq!(scripts.len(), 2);
    assert_eq!(scripts[0].0, "<script type=\"application/json\" data-sveltekit-fetched>");
    assert_eq!(scripts[0].1, "{\"a\":1}");
    assert_eq!(scripts[1].1, "[2]");
}

#[test]
fn root_app_main_is_trimmed_up_to_the_last_semicolon() {
    let body = "<script>root.App.main =  {\"context\":{}};\n  ;</script>";
    assert_eq!(try_root_app_main(body).as_deref(), Some("{\"context\":{}};"));
    assert_eq!(try_root_app_main("root.App.main = {}"), None);
    assert_eq!(try_root_app_main("nothing"), None);
}

#[test]
fn quote_summary_store_literal_is_wrapped() {
    let body = r#"junk "QuoteSummaryStore" : {"price":{"x":"}"}} more"#;
    assert_eq!(
        try_quote_summary_store_literal(body).as_deref(),
        Some(r#"{"context":{"dispatcher":{"stores":{"QuoteSummaryStore":{"price":{"x":"}"}}}}}}"#)
    );
    assert_eq!(try_quote_summary_store_literal(r#""QuoteSummaryStore": {"#), None);
}

#[test]
fn bootstrap_strategies_are_tried_in_order() {
    let text = |r: Result<String, ExtractError>| match r {
        Ok(t) => t,
        other => panic!("expected a text, got {other:?}"),
    };
    let a = "root.App.main = {\"a\":1};<script type=\"application/json\">{\"QuoteSummaryStore\":{\"c\":3}}</script>";
    assert_eq!(text(extract_bootstrap_json(a)), "{\"a\":1}");
    let b = r#""QuoteSummaryStore":{"b":2}"#;
    assert_eq!(
        text(extract_bootstrap_json(b)),
        r#"{"context":{"dispatcher":{"stores":{"QuoteSummaryStore":{"b":2}}}}}"#
    );
    let d = r#"<script type="application/json">{"props":{"stores":{"Quote\u0053ummaryStore":{"d":4}}}}</script>"#;
    assert_eq!(
        text(extract_bootstrap_json(d)),
        r#"{"context":{"dispatcher":{"stores":{"QuoteSummaryStore":{"d":4}}}}}"#
    );
    assert_eq!(extract_bootstrap_json("none").err(), Some(ExtractError::BootstrapNotFound));
}

#[test]
fn wrap_store_text_frames_the_store() {
    assert_eq!(
        wrap_store_text("{\"x\":1}"),
        r#"{"context":{"dispatcher":{"stores":{"QuoteSummaryStore":{"x":1}}}}}"#
    );
}
