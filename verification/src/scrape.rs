//! Markup scanning of a quote page: `<script>` blocks, the legacy bootstrap
//! assignment, a literal `QuoteSummaryStore` object, the crumb, and the small
//! text helpers used around them.
//!
//! Positions are character positions: every delimiter searched for is ASCII,
//! so each search and slice lands on the same characters as it would on the
//! UTF-8 bytes.
use crate::text::{
    chars_of, find_from, first_occurrence, last_char_between, push_char, push_range, push_str,
    replace_all, replace_text, rfind_char_between, skip_white_space, string_of_range,
    trim_end_position, trimmed, ws_end,
};
use crate::json::{json_text, value_of_view, value_text};
use crate::payload::{generic_from, sveltekit_from, try_generic_json_scripts, try_sveltekit_json};
use vstd::prelude::*;
use vstd::string::StringSliceAdditionalSpecFns;
use vstd::utf8::{decode_utf8, encode_utf8, encode_utf8_decode_utf8, is_char_boundary};

verus! {

/// `s` cut to its first `n` bytes with a marker appended, or `s` itself when
/// it has at most `n` bytes.
pub fn truncate(s: &str, n: usize) -> (r: String)
    requires
        s.spec_bytes().len() <= n || is_char_boundary(s.spec_bytes(), n as int),
    ensures
        s.spec_bytes().len() <= n ==> r@ == s@,
        s.spec_bytes().len() > n ==> r@ == decode_utf8(s.spec_bytes().subrange(0, n as int))
            + " …[trunc]"@,
{
    let len = s.as_bytes().len();
    if len <= n {
        s.to_owned()
    } else {
        let (head, _tail) = s.split_at(n);
        let mut out = head.to_owned();
        push_str(&mut out, " …[trunc]");
        proof {
            encode_utf8_decode_utf8(head@);
            assert(head.spec_bytes() == encode_utf8(head@));
            assert(decode_utf8(s.spec_bytes().subrange(0, n as int)) == head@);
        }
        out
    }
}

/// The HTML escape of one character.
pub open spec fn escape_char(c: char) -> Seq<char> {
    if c == '&' {
        seq!['&', 'a', 'm', 'p', ';']
    } else if c == '<' {
        seq!['&', 'l', 't', ';']
    } else if c == '>' {
        seq!['&', 'g', 't', ';']
    } else if c == '"' {
        seq!['&', 'q', 'u', 'o', 't', ';']
    } else if c == '\'' {
        seq!['&', '#', '3', '9', ';']
    } else {
        seq![c]
    }
}

/// `s` with `& < > " '` replaced by their HTML entities.
pub open spec fn escaped(s: Seq<char>) -> Seq<char>
    decreases s.len(),
{
    if s.len() == 0 {
        Seq::empty()
    } else {
        escaped(s.drop_last()) + escape_char(s.last())
    }
}

/// Escaped text holds no `<`, `>`, `"` or `'`: every markup character of the
/// input became an entity.
pub proof fn lemma_escaped_has_no_markup(s: Seq<char>)
    ensures
        forall|i: int|
            0 <= i < escaped(s).len() ==> {
                let c = #[trigger] escaped(s)[i];
                c != '<' && c != '>' && c != '"' && c != '\''
            },
    decreases s.len(),
{
    if s.len() > 0 {
        lemma_escaped_has_no_markup(s.drop_last());
        let prefix = escaped(s.drop_last());
        let tail = escape_char(s.last());
        assert forall|i: int| 0 <= i < escaped(s).len() implies {
            let c = #[trigger] escaped(s)[i];
            c != '<' && c != '>' && c != '"' && c != '\''
        } by {
            if i < prefix.len() {
                assert(escaped(s)[i] == prefix[i]);
            } else {
                assert(escaped(s)[i] == tail[i - prefix.len()]);
            }
        }
    }
}

/// Escapes `s` for inclusion in HTML text or attribute values.
pub fn escape_html(s: &str) -> (r: String)
    ensures
        r@ == escaped(s@),
{
    let mut out = String::new();
    let ghost all = s@;
    for ch in it: s.chars()
        invariant
            all == it.seq(),
            all == s@,
            out@ == escaped(all.take(it.index() as int)),
    {
        proof {
            let t = all.take(it.index() + 1);
            assert(t.drop_last() =~= all.take(it.index() as int));
            assert(t.last() == ch);
            reveal_strlit("&amp;");
            reveal_strlit("&lt;");
            reveal_strlit("&gt;");
            reveal_strlit("&quot;");
            reveal_strlit("&#39;");
        }
        if ch == '&' {
            push_str(&mut out, "&amp;");
        } else if ch == '<' {
            push_str(&mut out, "&lt;");
        } else if ch == '>' {
            push_str(&mut out, "&gt;");
        } else if ch == '"' {
            push_str(&mut out, "&quot;");
        } else if ch == '\'' {
            push_str(&mut out, "&#39;");
        } else {
            push_char(&mut out, ch);
        }
    }
    proof {
        assert(all.take(all.len() as int) =~= all);
    }
    out
}

/// The text that opens the crumb in a quote page.
pub open spec fn crumb_key() -> Seq<char> {
    "\"CrumbStore\":{\"crumb\":\""@
}

/// The crumb of a quote page: the text between the crumb key and the next
/// `"`, with `\u002F` unescaped to `/`.
pub open spec fn crumb_of(body: Seq<char>) -> Option<Seq<char>> {
    match first_occurrence(body, crumb_key(), 0) {
        None => None,
        Some(p) => {
            let start = p + crumb_key().len();
            match first_occurrence(body, seq!['"'], start) {
                None => None,
                Some(end) => Some(replace_all(body.subrange(start, end), "\\u002F"@, "/"@)),
            }
        },
    }
}

/// Extracts the crumb from a quote page.
pub fn extract_crumb(body: &str) -> (r: Option<String>)
    ensures
        match r {
            Some(c) => crumb_of(body@) == Some(c@),
            None => crumb_of(body@) is None,
        },
{
    let key = "\"CrumbStore\":{\"crumb\":\"";
    let cs = chars_of(body);
    let kc = chars_of(key);
    let n = cs.len();
    let p = match find_from(&cs, &kc, 0) {
        Some(p) => p,
        None => return None,
    };
    let start = p + kc.len();
    let quote = vec!['"'];
    proof {
        assert(quote@ =~= seq!['"']);
    }
    let end = match find_from(&cs, &quote, start) {
        Some(e) => e,
        None => return None,
    };
    let escaped_crumb = string_of_range(&cs, start, end);
    proof {
        reveal_strlit("\\u002F");
    }
    Some(replace_text(escaped_crumb.as_str(), "\\u002F", "/"))
}

/// The scanner state of a brace match: current position, nesting depth, and
/// whether the scan is inside a string literal.
pub open spec fn brace_scan(s: Seq<char>, j: int, depth: int, in_str: bool) -> Option<int>
    decreases s.len() - j,
    when j >= 0
{
    if j >= s.len() {
        None
    } else if in_str {
        if s[j] == '\\' {
            if j + 2 >= s.len() {
                None
            } else {
                brace_scan(s, j + 2, depth, true)
            }
        } else {
            brace_scan(s, j + 1, depth, s[j] != '"')
        }
    } else if s[j] == '"' {
        brace_scan(s, j + 1, depth, true)
    } else if s[j] == '{' {
        brace_scan(s, j + 1, depth + 1, false)
    } else if s[j] == '}' {
        if depth - 1 == 0 {
            Some(j)
        } else {
            brace_scan(s, j + 1, depth - 1, false)
        }
    } else {
        brace_scan(s, j + 1, depth, false)
    }
}

/// The position of the `}` that closes the `{` at `start`, skipping braces
/// inside string literals (where `\` escapes the next character).
pub open spec fn matching_brace(s: Seq<char>, start: int) -> Option<int> {
    if 0 <= start < s.len() && s[start] == '{' {
        brace_scan(s, start, 0, false)
    } else {
        None
    }
}

proof fn lemma_brace_scan_bounds(s: Seq<char>, j: int, depth: int, in_str: bool)
    requires
        j >= 0,
    ensures
        brace_scan(s, j, depth, in_str) matches Some(e) ==> j <= e < s.len() && s[e] == '}',
    decreases s.len() - j,
{
    if j < s.len() {
        if in_str {
            if s[j] == '\\' {
                if j + 2 < s.len() {
                    lemma_brace_scan_bounds(s, j + 2, depth, true);
                }
            } else {
                lemma_brace_scan_bounds(s, j + 1, depth, s[j] != '"');
            }
        } else if s[j] == '"' {
            lemma_brace_scan_bounds(s, j + 1, depth, true);
        } else if s[j] == '{' {
            lemma_brace_scan_bounds(s, j + 1, depth + 1, false);
        } else if s[j] == '}' {
            if depth - 1 != 0 {
                lemma_brace_scan_bounds(s, j + 1, depth - 1, false);
            }
        } else {
            lemma_brace_scan_bounds(s, j + 1, depth, false);
        }
    }
}

/// The position of the `}` matching the `{` at `start`, if `s[start]` is `{`
/// and the object closes.
pub fn find_matching_brace(s: &Vec<char>, start: usize) -> (r: Option<usize>)
    ensures
        match r {
            Some(e) => matching_brace(s@, start as int) == Some(e as int),
            None => matching_brace(s@, start as int) is None,
        },
        r matches Some(e) ==> start <= e < s.len() && s@[e as int] == '}',
{
    if start >= s.len() || s[start] != '{' {
        return None;
    }
    let ghost goal = brace_scan(s@, start as int, 0, false);
    let mut depth: usize = 0;
    let mut in_str = false;
    let mut j = start;
    while j < s.len()
        invariant
            start <= j,
            start < s.len(),
            s@[start as int] == '{',
            depth <= j - start,
            goal == brace_scan(s@, j as int, depth as int, in_str),
            goal == matching_brace(s@, start as int),
            !in_str && j > start ==> depth > 0,
            in_str ==> depth > 0,
        decreases s.len() - j,
    {
        let c = s[j];
        if in_str {
            if c == '\\' {
                if s.len() - j <= 2 {
                    assert(brace_scan(s@, j as int, depth as int, in_str) is None);
                    return None;
                }
                j = j + 2;
                continue;
            } else if c == '"' {
                in_str = false;
            }
            j = j + 1;
            continue;
        }
        if c == '"' {
            in_str = true;
            proof {
                if j == start {
                    assert(false);
                }
            }
        } else if c == '{' {
            depth = depth + 1;
        } else if c == '}' {
            proof {
                if j == start {
                    assert(false);
                }
            }
            depth = depth - 1;
            if depth == 0 {
                proof {
                    lemma_brace_scan_bounds(s@, start as int, 0, false);
                }
                return Some(j);
            }
        }
        j = j + 1;
    }
    None
}

/// The text that opens a `<script>` element.
pub open spec fn script_open() -> Seq<char> {
    "<script"@
}

/// The text that closes a `<script>` element.
pub open spec fn script_close() -> Seq<char> {
    "</script>"@
}

/// The attribute that marks a JSON script.
pub open spec fn json_type_attr() -> Seq<char> {
    "type=\"application/json\""@
}

/// Whether `needle` occurs in `hay`.
pub open spec fn contains_text(hay: Seq<char>, needle: Seq<char>) -> bool {
    first_occurrence(hay, needle, 0) is Some
}

/// The JSON scripts of `html` from position `pos` on: for each `<script ...>`
/// element in order, its opening tag and its inner text, kept where the tag
/// declares `type="application/json"`. Scanning stops at an opening tag
/// without `>` or an element without `</script>`.
pub open spec fn json_scripts_from(html: Seq<char>, pos: int) -> Seq<(Seq<char>, Seq<char>)>
    decreases html.len() - pos,
    when 0 <= pos
{
    match first_occurrence(html, script_open(), pos) {
        None => Seq::empty(),
        Some(si) => match first_occurrence(html, seq!['>'], si) {
            None => Seq::empty(),
            Some(oe) => match first_occurrence(html, script_close(), oe + 1) {
                None => Seq::empty(),
                Some(close) => {
                    let tag = html.subrange(si, oe + 1);
                    let next = close + script_close().len();
                    if pos <= si <= oe && oe + 1 <= close && next <= html.len() {
                        if contains_text(tag, json_type_attr()) {
                            seq![(tag, html.subrange(oe + 1, close))] + json_scripts_from(html, next)
                        } else {
                            json_scripts_from(html, next)
                        }
                    } else {
                        Seq::empty()
                    }
                },
            },
        },
    }
}

/// Whether `needle` occurs in `hay` (`str::contains`).
pub fn contains_chars(hay: &Vec<char>, needle: &Vec<char>) -> (b: bool)
    ensures
        b == contains_text(hay@, needle@),
{
    match find_from(hay, needle, 0) {
        Some(_) => true,
        None => false,
    }
}

/// The next `<script ...>...</script>` element at or after `pos`: where
/// `<script` starts, where the `>` closing its opening tag stands, where
/// `</script>` starts, and whether the opening tag declares JSON.
fn next_script(
    cs: &Vec<char>,
    pos: usize,
    open_tag: &Vec<char>,
    gt: &Vec<char>,
    close_tag: &Vec<char>,
    json_attr: &Vec<char>,
) -> (r: Option<(usize, usize, usize, bool)>)
    requires
        open_tag@ == script_open(),
        close_tag@ == script_close(),
        close_tag@.len() == 9,
        json_attr@ == json_type_attr(),
        gt@ == seq!['>'],
        pos <= cs.len(),
    ensures
        match r {
            None => json_scripts_from(cs@, pos as int) == Seq::<(Seq<char>, Seq<char>)>::empty(),
            Some((si, oe, close, is_json)) => {
                &&& pos <= si <= oe
                &&& oe + 1 <= close
                &&& close + 9 <= cs.len()
                &&& json_scripts_from(cs@, pos as int) == if is_json {
                    seq![(cs@.subrange(si as int, oe + 1), cs@.subrange(oe + 1, close as int))]
                        + json_scripts_from(cs@, close + 9)
                } else {
                    json_scripts_from(cs@, close + 9)
                }
            },
        },
{
    let si = match find_from(cs, open_tag, pos) {
        Some(si) => si,
        None => return None,
    };
    let oe = match find_from(cs, gt, si) {
        Some(oe) => oe,
        None => return None,
    };
    let close = match find_from(cs, close_tag, oe + 1) {
        Some(c) => c,
        None => return None,
    };
    let mut tag_chars: Vec<char> = Vec::new();
    let mut k = si;
    while k <= oe
        invariant
            si <= k <= oe + 1,
            oe < cs.len(),
            tag_chars@ == cs@.subrange(si as int, k as int),
        decreases oe + 1 - k,
    {
        proof {
            assert(cs@.subrange(si as int, k + 1) =~= cs@.subrange(si as int, k as int).push(
                cs@[k as int],
            ));
        }
        tag_chars.push(cs[k]);
        k = k + 1;
    }
    let is_json = contains_chars(&tag_chars, json_attr);
    Some((si, oe, close, is_json))
}

/// The opening tag and inner text of every JSON `<script>` element of `html`,
/// in document order.
pub fn iter_json_scripts(html: &str) -> (r: Vec<(String, String)>)
    ensures
        r@.len() == json_scripts_from(html@, 0).len(),
        forall|i: int|
            0 <= i < r@.len() ==> (#[trigger] r@[i]).0@ == json_scripts_from(html@, 0)[i].0
                && r@[i].1@ == json_scripts_from(html@, 0)[i].1,
{
    let cs = chars_of(html);
    let open_tag = chars_of("<script");
    let close_tag = chars_of("</script>");
    let json_attr = chars_of("type=\"application/json\"");
    let gt = vec!['>'];
    proof {
        assert(gt@ =~= seq!['>']);
        reveal_strlit("</script>");
    }
    let mut res: Vec<(String, String)> = Vec::new();
    let mut pos: usize = 0;
    let ghost mut done: Seq<(Seq<char>, Seq<char>)> = Seq::empty();
    proof {
        assert(done + json_scripts_from(html@, 0) =~= json_scripts_from(html@, 0));
    }
    loop
        invariant
            cs@ == html@,
            open_tag@ == script_open(),
            close_tag@ == script_close(),
            close_tag@.len() == 9,
            json_attr@ == json_type_attr(),
            gt@ == seq!['>'],
            pos <= cs.len(),
            json_scripts_from(html@, 0) == done + json_scripts_from(html@, pos as int),
            res@.len() == done.len(),
            forall|i: int|
                0 <= i < res@.len() ==> (#[trigger] res@[i]).0@ == done[i].0 && res@[i].1@ == done[i].1,
        ensures
            json_scripts_from(html@, 0) == done,
            res@.len() == done.len(),
            forall|i: int|
                0 <= i < res@.len() ==> (#[trigger] res@[i]).0@ == done[i].0 && res@[i].1@ == done[i].1,
        decreases cs.len() - pos,
    {
        let next = next_script(&cs, pos, &open_tag, &gt, &close_tag, &json_attr);
        match next {
            None => {
                proof {
                    assert(done + Seq::<(Seq<char>, Seq<char>)>::empty() =~= done);
                }
                break;
            },
            Some((si, oe, close, is_json)) => {
                let ghost rest = json_scripts_from(html@, close + 9);
                if is_json {
                    let ghost item = (cs@.subrange(si as int, oe + 1), cs@.subrange(oe + 1, close as int));
                    let tag = string_of_range(&cs, si, oe + 1);
                    let inner = string_of_range(&cs, oe + 1, close);
                    res.push((tag, inner));
                    proof {
                        let before = done;
                        done = done.push(item);
                        assert(before + (seq![item] + rest) =~= done + rest);
                    }
                }
                pos = close + 9;
            },
        }
    }
    res
}

/// The text that starts the legacy bootstrap assignment.
pub open spec fn root_app_main() -> Seq<char> {
    "root.App.main"@
}

/// Strategy A: the value assigned by `root.App.main = ...;`. After the
/// marker comes the first `=`; the value runs from there, white space
/// skipped, to the last `;` before the next `</script>` (or the end), and is
/// trimmed.
pub open spec fn root_app_main_payload(b: Seq<char>) -> Option<Seq<char>> {
    match first_occurrence(b, root_app_main(), 0) {
        None => None,
        Some(st) => match first_occurrence(b, seq!['='], st) {
            None => None,
            Some(eq) => {
                let p = ws_end(b, eq + 1, b.len() as int);
                let end = match first_occurrence(b, script_close(), p) {
                    Some(e) => e,
                    None => b.len() as int,
                };
                match last_char_between(b, ';', p, end) {
                    None => None,
                    Some(semi) => Some(trimmed(b, p, semi)),
                }
            },
        },
    }
}

/// Strategy A: the legacy `root.App.main = {...};` bootstrap.
pub fn try_root_app_main(body: &str) -> (r: Option<String>)
    ensures
        match r {
            Some(j) => root_app_main_payload(body@) == Some(j@),
            None => root_app_main_payload(body@) is None,
        },
{
    let cs = chars_of(body);
    let marker = chars_of("root.App.main");
    let eq_sign = vec!['='];
    let n = cs.len();
    proof {
        assert(eq_sign@ =~= seq!['=']);
    }
    let st = match find_from(&cs, &marker, 0) {
        Some(st) => st,
        None => return None,
    };
    let eq = match find_from(&cs, &eq_sign, st) {
        Some(e) => e,
        None => return None,
    };
    let p = skip_white_space(&cs, eq + 1, cs.len());
    let close_tag = chars_of("</script>");
    let end = match find_from(&cs, &close_tag, p) {
        Some(e) => {
            proof {
                reveal_strlit("</script>");
            }
            e
        },
        None => cs.len(),
    };
    let semi = match rfind_char_between(&cs, ';', p, end) {
        Some(s) => s,
        None => return None,
    };
    let a = skip_white_space(&cs, p, semi);
    let z = trim_end_position(&cs, a, semi);
    Some(string_of_range(&cs, a, z))
}

/// The key that names the summary store.
pub open spec fn store_key() -> Seq<char> {
    "\"QuoteSummaryStore\""@
}

/// `store` placed at `context.dispatcher.stores.QuoteSummaryStore` of a JSON
/// object text.
pub open spec fn wrapped_store(store: Seq<char>) -> Seq<char> {
    "{\"context\":{\"dispatcher\":{\"stores\":{\"QuoteSummaryStore\":"@ + store + "}}}}"@
}

/// Strategy B: the object that follows the first `"QuoteSummaryStore"` key,
/// from the first `{` after the key to its matching `}`, wrapped.
pub open spec fn store_literal_payload(b: Seq<char>) -> Option<Seq<char>> {
    match first_occurrence(b, store_key(), 0) {
        None => None,
        Some(pos) => match first_occurrence(b, seq!['{'], pos + store_key().len()) {
            None => None,
            Some(start) => match matching_brace(b, start) {
                None => None,
                Some(end) => Some(wrapped_store(b.subrange(start, end + 1))),
            },
        },
    }
}

/// Strategy B: a literal `"QuoteSummaryStore": {...}` object in the page.
pub fn try_quote_summary_store_literal(body: &str) -> (r: Option<String>)
    ensures
        match r {
            Some(j) => store_literal_payload(body@) == Some(j@),
            None => store_literal_payload(body@) is None,
        },
{
    let cs = chars_of(body);
    let key = chars_of("\"QuoteSummaryStore\"");
    let brace = vec!['{'];
    let n = cs.len();
    proof {
        assert(brace@ =~= seq!['{']);
    }
    let pos = match find_from(&cs, &key, 0) {
        Some(p) => p,
        None => return None,
    };
    let start = match find_from(&cs, &brace, pos + key.len()) {
        Some(s) => s,
        None => return None,
    };
    let end = match find_matching_brace(&cs, start) {
        Some(e) => e,
        None => return None,
    };
    let mut out = String::new();
    push_str(&mut out, "{\"context\":{\"dispatcher\":{\"stores\":{\"QuoteSummaryStore\":");
    push_range(&mut out, &cs, start, end + 1);
    push_str(&mut out, "}}}}");
    Some(out)
}

/// Why no bootstrap JSON could be had from a page.
#[derive(Debug, Clone, Copy, PartialEq, Eq, Structural)]
pub enum ExtractError {
    /// No strategy found the bootstrap data.
    BootstrapNotFound,
}

/// The JSON text `store` placed at `context.dispatcher.stores.QuoteSummaryStore`
/// ([`wrapped_store`]).
pub fn wrap_store_text(store: &str) -> (r: String)
    ensures
        r@ == wrapped_store(store@),
{
    let mut out = String::new();
    push_str(&mut out, "{\"context\":{\"dispatcher\":{\"stores\":{\"QuoteSummaryStore\":");
    push_str(&mut out, store);
    push_str(&mut out, "}}}}");
    out
}

/// The bootstrap JSON text of a quote page: strategy A
/// ([`root_app_main_payload`]), else strategy B ([`store_literal_payload`]),
/// else strategy C over the page's JSON scripts ([`sveltekit_from`]), else
/// strategy D ([`generic_from`]). The store-like object that C or D finds is
/// written as serde_json's compact text ([`json_text`]) and placed at
/// `context.dispatcher.stores.QuoteSummaryStore` ([`wrapped_store`]).
pub fn extract_bootstrap_json(body: &str) -> (r: Result<String, ExtractError>)
    ensures
        match root_app_main_payload(body@) {
            Some(a) => r matches Ok(j) && j@ == a,
            None => match store_literal_payload(body@) {
                Some(b) => r matches Ok(j) && j@ == b,
                None => match sveltekit_from(json_scripts_from(body@, 0), 0) {
                    Some(c) => r matches Ok(j) && j@ == wrapped_store(value_text(value_of_view(c))),
                    None => match generic_from(json_scripts_from(body@, 0), 0) {
                        Some(d) => r matches Ok(j) && j@ == wrapped_store(value_text(value_of_view(d))),
                        None => r matches Err(ExtractError::BootstrapNotFound),
                    },
                },
            },
        },
{
    if let Some(a) = try_root_app_main(body) {
        return Ok(a);
    }
    if let Some(b) = try_quote_summary_store_literal(body) {
        return Ok(b);
    }
    if let Some(c) = try_sveltekit_json(body) {
        return Ok(wrap_store_text(&json_text(&c)));
    }
    if let Some(d) = try_generic_json_scripts(body) {
        return Ok(wrap_store_text(&json_text(&d)));
    }
    Err(ExtractError::BootstrapNotFound)
}

} // verus!
