//! The text work behind a debug dump of a quote page: its title, the object
//! assigned after a marker, labels for its JSON scripts, and length limits.
use crate::text::{
    chars_of, find_from, first_occurrence, is_white_space, matches_at, occurs_at, push_str,
    string_of_range, white_space,
};
use crate::isin::{trim_all, trimmed_string};
use crate::json::{member_text, parse_json, parsed_json, value_of_json, value_of_view};
use crate::scrape::{contains_text, escape_html, escaped, iter_json_scripts, json_scripts_from};
use vstd::prelude::*;

verus! {

/// The text between the first `<title>` and the next `</title>`.
pub open spec fn title_of(h: Seq<char>) -> Option<Seq<char>> {
    match first_occurrence(h, "<title>"@, 0) {
        None => None,
        Some(i) => {
            let s = i + "<title>"@.len();
            match first_occurrence(h, "</title>"@, s) {
                None => None,
                Some(j) => Some(h.subrange(s, j)),
            }
        },
    }
}

/// The title of an HTML page ([`title_of`]).
pub fn extract_title(html: &str) -> (r: Option<String>)
    ensures
        match r {
            Some(t) => title_of(html@) == Some(t@),
            None => title_of(html@) is None,
        },
{
    let cs = chars_of(html);
    let open = chars_of("<title>");
    let close = chars_of("</title>");
    let n = cs.len();
    let i = match find_from(&cs, &open, 0) {
        Some(i) => i,
        None => return None,
    };
    let s = i + open.len();
    let j = match find_from(&cs, &close, s) {
        Some(j) => j,
        None => return None,
    };
    Some(string_of_range(&cs, s, j))
}

/// Whether `c` is ASCII white space (space, tab, line feed, form feed,
/// carriage return).
pub open spec fn is_ascii_ws(c: char) -> bool {
    c == ' ' || c == '\t' || c == '\n' || c == '\x0C' || c == '\r'
}

/// The first position at or after `i` that is not ASCII white space.
pub open spec fn ascii_ws_end(s: Seq<char>, i: int) -> int
    decreases s.len() - i,
{
    if 0 <= i < s.len() && is_ascii_ws(s[i]) {
        ascii_ws_end(s, i + 1)
    } else {
        i
    }
}

/// Where a scan of an object's text ends when it stands at `j` outside a
/// string, at nesting `depth`: just after the `}` that brings the depth to
/// zero, or at the end of the text.
pub open spec fn object_scan(s: Seq<char>, j: int, depth: int) -> int
    decreases s.len() - j, 1int,
    when 0 <= j
{
    if j >= s.len() {
        j
    } else if s[j] == '{' {
        object_scan(s, j + 1, depth + 1)
    } else if s[j] == '}' {
        if depth - 1 == 0 {
            j + 1
        } else {
            object_scan(s, j + 1, depth - 1)
        }
    } else if s[j] == '"' {
        string_scan(s, j + 1, depth)
    } else {
        object_scan(s, j + 1, depth)
    }
}

/// Where the scan ends when it stands at `j` inside a string; `\` skips the
/// next character. The end lies past the text when the text ends with a `\`
/// inside a string.
pub open spec fn string_scan(s: Seq<char>, j: int, depth: int) -> int
    decreases s.len() - j, 0int,
    when 0 <= j
{
    if j >= s.len() {
        j
    } else if s[j] == '\\' {
        if j + 2 > s.len() {
            j + 2
        } else {
            string_scan(s, j + 2, depth)
        }
    } else if s[j] == '"' {
        object_scan(s, j + 1, depth)
    } else {
        string_scan(s, j + 1, depth)
    }
}

/// Where the object after `pattern` starts: the first `{` after the
/// pattern's first occurrence and ASCII white space; `None` when the pattern
/// does not occur or something else follows it.
pub open spec fn object_start(pattern: Seq<char>, s: Seq<char>) -> Option<int> {
    match first_occurrence(s, pattern, 0) {
        None => None,
        Some(p) => {
            let i = ascii_ws_end(s, p + pattern.len());
            if i < s.len() && s[i] == '{' {
                Some(i)
            } else {
                None
            }
        },
    }
}

/// The text of the object after `pattern`: from its `{` to the matching
/// `}`, or to the end of the text when it does not close.
pub open spec fn object_after(pattern: Seq<char>, s: Seq<char>) -> Option<Seq<char>> {
    match object_start(pattern, s) {
        None => None,
        Some(i) => Some(s.subrange(i, object_scan(s, i, 0))),
    }
}

/// The scan of the object ran past the end of the text: the text ends with
/// a `\` inside a string of the object.
#[derive(Debug, Clone, Copy, PartialEq, Eq, Structural)]
pub struct ScanPastEnd;

/// The object assigned after `pattern` in `s` ([`object_after`]); an error
/// where the scan of the object runs past the end of the text.
pub fn extract_js_object_after(pattern: &str, s: &str) -> (r: Result<Option<String>, ScanPastEnd>)
    ensures
        match object_start(pattern@, s@) {
            None => r matches Ok(None),
            Some(i) => if object_scan(s@, i, 0) > s@.len() {
                r is Err
            } else {
                r matches Ok(Some(t)) && object_after(pattern@, s@) == Some(t@)
            },
        },
{
    let cs = chars_of(s);
    let pc = chars_of(pattern);
    let n = cs.len();
    let p = match find_from(&cs, &pc, 0) {
        Some(p) => p,
        None => return Ok(None),
    };
    let mut i = p + pc.len();
    while i < n && (cs[i] == ' ' || cs[i] == '\t' || cs[i] == '\n' || cs[i] == '\x0C' || cs[i] == '\r')
        invariant
            p + pc@.len() <= i <= n,
            n == cs@.len(),
            ascii_ws_end(cs@, (p + pc@.len()) as int) == ascii_ws_end(cs@, i as int),
        decreases n - i,
    {
        i = i + 1;
    }
    if i >= n || cs[i] != '{' {
        return Ok(None);
    }
    let ghost goal = object_scan(cs@, i as int, 0);
    let mut j = i;
    let mut depth: usize = 0;
    let mut in_string = false;
    let mut done = false;
    proof {
        assert(ascii_ws_end(cs@, i as int) == i);
        assert(object_start(pattern@, s@) == Some(i as int));
    }
    while !done && j < n
        invariant
            n == cs@.len(),
            cs@ == s@,
            object_start(pattern@, s@) == Some(i as int),
            i < n,
            cs@[i as int] == '{',
            i <= j <= n,
            depth <= j - i,
            goal == object_scan(cs@, i as int, 0),
            !done ==> goal == if in_string {
                string_scan(cs@, j as int, depth as int)
            } else {
                object_scan(cs@, j as int, depth as int)
            },
            done ==> goal == j,
            !done && !in_string && j > i ==> depth > 0,
            !done && in_string ==> depth > 0,
        decreases n - j + if done { 0int } else { 1int },
    {
        let c = cs[j];
        if in_string {
            if c == '\\' {
                if n - j < 2 {
                    return Err(ScanPastEnd);
                } else {
                    j = j + 2;
                }
            } else if c == '"' {
                in_string = false;
                j = j + 1;
            } else {
                j = j + 1;
            }
        } else if c == '{' {
            depth = depth + 1;
            j = j + 1;
        } else if c == '}' {
            if depth == 1 {
                j = j + 1;
                done = true;
            } else {
                depth = depth - 1;
                j = j + 1;
            }
        } else if c == '"' {
            in_string = true;
            j = j + 1;
        } else {
            j = j + 1;
        }
    }
    Ok(Some(string_of_range(&cs, i, j)))
}

/// `s` limited to `max` characters: the first `max` characters and a
/// truncation note when it is longer.
pub open spec fn limited(s: Seq<char>, max: nat) -> Seq<char> {
    if s.len() <= max {
        s
    } else {
        s.take(max as int) + "\n… [truncated]"@
    }
}

/// `s` limited to `max` characters ([`limited`]).
pub fn limit_chars(s: &str, max: usize) -> (r: String)
    ensures
        r@ == limited(s@, max as nat),
{
    let cs = chars_of(s);
    if cs.len() <= max {
        return s.to_owned();
    }
    let mut out = string_of_range(&cs, 0, max);
    push_str(&mut out, "\n… [truncated]");
    proof {
        assert(cs@.subrange(0, max as int) =~= s@.take(max as int));
    }
    out
}

/// Whether a white-space separated token of `s` starts at `k`.
pub open spec fn token_starts_at(s: Seq<char>, k: int) -> bool {
    &&& 0 <= k < s.len()
    &&& !is_white_space(s[k])
    &&& (k == 0 || is_white_space(s[k - 1]))
}

/// The first token of `s` at or after `k` that starts with `data-url=`.
pub open spec fn url_token_from(s: Seq<char>, k: int) -> Option<int>
    decreases s.len() - k,
{
    if k < 0 || k >= s.len() {
        None
    } else if token_starts_at(s, k) && occurs_at(s, "data-url="@, k) {
        Some(k)
    } else {
        url_token_from(s, k + 1)
    }
}

/// Where the token at `k` ends: the first white space at or after `k`, or
/// the end of `s`.
pub open spec fn token_end(s: Seq<char>, k: int) -> int
    decreases s.len() - k,
{
    if k < 0 || k >= s.len() || is_white_space(s[k]) {
        k
    } else {
        token_end(s, k + 1)
    }
}

/// `t` with every leading copy of `p` removed (`str::trim_start_matches`).
pub open spec fn strip_prefixes(t: Seq<char>, p: Seq<char>) -> Seq<char>
    decreases t.len(),
{
    if p.len() > 0 && p.len() <= t.len() && t.take(p.len() as int) == p {
        strip_prefixes(t.skip(p.len() as int), p)
    } else {
        t
    }
}

/// `t` without leading `"` characters.
pub open spec fn strip_leading_quotes(t: Seq<char>) -> Seq<char>
    decreases t.len(),
{
    if t.len() > 0 && t[0] == '"' {
        strip_leading_quotes(t.skip(1))
    } else {
        t
    }
}

/// `t` without trailing `"` characters.
pub open spec fn strip_trailing_quotes(t: Seq<char>) -> Seq<char>
    decreases t.len(),
{
    if t.len() > 0 && t.last() == '"' {
        strip_trailing_quotes(t.drop_last())
    } else {
        t
    }
}

/// The `data-url` of a script tag's attributes: the first token starting
/// with `data-url=`, without that prefix (repeated) and without surrounding
/// quotes; empty when there is none.
pub open spec fn data_url(s: Seq<char>) -> Seq<char> {
    match url_token_from(s, 0) {
        None => Seq::empty(),
        Some(k) => strip_trailing_quotes(
            strip_leading_quotes(strip_prefixes(s.subrange(k, token_end(s, k)), "data-url="@)),
        ),
    }
}

/// The heading of a JSON script in a debug dump: a fetched SvelteKit blob
/// with its `data-url`, the Next.js data, or a plain JSON script.
pub open spec fn script_label_of(attrs: Seq<char>) -> Seq<char> {
    if first_occurrence(attrs, "data-sveltekit-fetched"@, 0) is Some {
        "sveltekit-fetched "@ + data_url(attrs)
    } else if first_occurrence(attrs, "id=\"__NEXT_DATA__\""@, 0) is Some {
        "__NEXT_DATA__"@
    } else {
        "application/json script"@
    }
}

fn data_url_of(cs: &Vec<char>) -> (r: String)
    ensures
        r@ == data_url(cs@),
{
    let key = chars_of("data-url=");
    proof {
        reveal_strlit("data-url=");
    }
    let n = cs.len();
    let mut k: usize = 0;
    let mut found = false;
    while k < n
        invariant_except_break
            n == cs@.len(),
            k <= n,
            !found,
            key@ == "data-url="@,
            url_token_from(cs@, 0) == url_token_from(cs@, k as int),
        ensures
            n == cs@.len(),
            key@ == "data-url="@,
            found ==> k < n && url_token_from(cs@, 0) == Some(k as int),
            !found ==> url_token_from(cs@, 0) is None,
        decreases n - k,
    {
        let starts = !white_space(cs[k]) && (k == 0 || white_space(cs[k - 1]));
        if starts && matches_at(cs, &key, k) {
            found = true;
            break;
        }
        k = k + 1;
    }
    if !found {
        return String::new();
    }
    let mut e = k;
    while e < n && !white_space(cs[e])
        invariant
            n == cs@.len(),
            k <= e <= n,
            token_end(cs@, k as int) == token_end(cs@, e as int),
        decreases n - e,
    {
        e = e + 1;
    }
    let plen = key.len();
    let mut a = k;
    while plen <= e - a && matches_at(cs, &key, a)
        invariant
            k <= a <= e <= n,
            n == cs@.len(),
            plen == key@.len(),
            plen == 9,
            strip_prefixes(cs@.subrange(k as int, e as int), key@) == strip_prefixes(
                cs@.subrange(a as int, e as int),
                key@,
            ),
        decreases e - a,
    {
        proof {
            let t = cs@.subrange(a as int, e as int);
            assert(t.take(plen as int) =~= cs@.subrange(a as int, a + plen));
            assert(t.skip(plen as int) =~= cs@.subrange(a + plen, e as int));
        }
        a = a + plen;
    }
    proof {
        let t = cs@.subrange(a as int, e as int);
        if plen <= t.len() {
            assert(t.take(plen as int) =~= cs@.subrange(a as int, a + plen));
        }
    }
    let mut b = a;
    while b < e && cs[b] == '"'
        invariant
            a <= b <= e <= n,
            n == cs@.len(),
            strip_leading_quotes(cs@.subrange(a as int, e as int)) == strip_leading_quotes(
                cs@.subrange(b as int, e as int),
            ),
        decreases e - b,
    {
        proof {
            assert(cs@.subrange(b as int, e as int).skip(1) =~= cs@.subrange(b + 1, e as int));
        }
        b = b + 1;
    }
    let mut z = e;
    while z > b && cs[z - 1] == '"'
        invariant
            b <= z <= e <= n,
            n == cs@.len(),
            strip_leading_quotes(cs@.subrange(a as int, e as int)) == cs@.subrange(b as int, e as int),
            strip_trailing_quotes(cs@.subrange(b as int, e as int)) == strip_trailing_quotes(
                cs@.subrange(b as int, z as int),
            ),
        decreases z,
    {
        proof {
            assert(cs@.subrange(b as int, z as int).drop_last() =~= cs@.subrange(b as int, z - 1));
        }
        z = z - 1;
    }
    string_of_range(cs, b, z)
}

/// The heading of a JSON script in a debug dump ([`script_label_of`]).
pub fn script_label(attrs: &str) -> (r: String)
    ensures
        r@ == script_label_of(attrs@),
{
    let cs = chars_of(attrs);
    let svelte = chars_of("data-sveltekit-fetched");
    let next_data = chars_of("id=\"__NEXT_DATA__\"");
    let mut out = String::new();
    if find_from(&cs, &svelte, 0).is_some() {
        push_str(&mut out, "sveltekit-fetched ");
        let url = data_url_of(&cs);
        push_str(&mut out, url.as_str());
    } else if find_from(&cs, &next_data, 0).is_some() {
        push_str(&mut out, "__NEXT_DATA__");
    } else {
        push_str(&mut out, "application/json script");
    }
    out
}

/// The pretty text `serde_json::to_string_pretty` writes for a value tree;
/// a function of the tree alone (objects are written in the order of
/// serde_json's map, by key).
pub uninterp spec fn pretty_text(v: serde_json::Value) -> Seq<char>;

/// Writes a value tree as pretty-printed JSON text with
/// `serde_json::to_string_pretty`. Trusted: the text is [`pretty_text`] of
/// the tree. The call cannot fail on a value tree (its keys are strings and
/// the text goes to memory), so the error arm is never taken; nothing is
/// stated of it.
#[verifier::external_body]
fn pretty_value_text(v: &serde_json::Value) -> (s: String)
    ensures
        s@ == pretty_text(*v),
{
    serde_json::to_string_pretty(v).unwrap_or_default()
}

/// The document `text` denotes ([`parsed_json`]), written back
/// pretty-printed by serde_json; `None` when the text is not a JSON document.
pub open spec fn pretty_json_of(text: Seq<char>) -> Option<Seq<char>> {
    match parsed_json(text) {
        Some(j) => Some(pretty_text(value_of_view(j))),
        None => None,
    }
}

/// The document `text` denotes, written back pretty-printed
/// ([`pretty_json_of`]).
fn pretty_json_text(text: &str) -> (r: Option<String>)
    ensures
        match r {
            Some(p) => pretty_json_of(text@) == Some(p@),
            None => pretty_json_of(text@) is None,
        },
        parsed_json(text@) is None ==> r is None,
{
    match parse_json(text) {
        Some(j) => {
            let v = value_of_json(&j);
            Some(pretty_value_text(&v))
        },
        None => None,
    }
}

/// The longest text of a debug section.
pub open spec fn section_limit() -> nat {
    5000
}

/// A text that looks like JSON, written back pretty-printed: trimmed, it
/// starts with `{` or `[` and parses.
pub open spec fn jsonish_pretty(s: Seq<char>) -> Option<Seq<char>> {
    let t = trim_all(s);
    if t.len() > 0 && (t[0] == '{' || t[0] == '[') {
        pretty_json_of(t)
    } else {
        None
    }
}

/// What the digest shows of a JSON script: for a script that parses, the
/// JSON-looking text of its `body` member when that parses, else the
/// script itself; for one that does not, its text when it looks like JSON.
pub open spec fn script_pretty(inner: Seq<char>) -> Option<Seq<char>> {
    match parsed_json(inner) {
        Some(v) => {
            let by_body = match member_text(v, "body"@) {
                Some(b) => jsonish_pretty(b),
                None => None,
            };
            match by_body {
                Some(p) => Some(p),
                None => pretty_json_of(inner),
            }
        },
        None => jsonish_pretty(inner),
    }
}

/// The digest section of one JSON script: its label and its pretty text,
/// limited and escaped; nothing for a script with nothing to show.
pub open spec fn script_section(attrs: Seq<char>, inner: Seq<char>) -> Seq<char> {
    match script_pretty(inner) {
        Some(p) => "<h2>"@ + escaped(script_label_of(attrs)) + "</h2><pre>"@ + escaped(
            limited(p, section_limit()),
        ) + "</pre>\n"@,
        None => Seq::empty(),
    }
}

/// The sections of the first `n` scripts, in order.
pub open spec fn scripts_digest(scripts: Seq<(Seq<char>, Seq<char>)>, n: int) -> Seq<char>
    decreases n,
{
    if n <= 0 {
        Seq::empty()
    } else {
        scripts_digest(scripts, n - 1) + script_section(scripts[n - 1].0, scripts[n - 1].1)
    }
}

/// The head of the digest of `symbol`'s page.
pub open spec fn digest_head(symbol: Seq<char>) -> Seq<char> {
    "<!doctype html><meta charset=\"utf-8\">\n<style>pre{white-space:pre-wrap;font:12px/1.3 ui-monospace,monospace}</style>\n"@
        + "<!-- compact debug for "@ + symbol + " -->\n"@
}

/// The title section of the digest.
pub open spec fn title_section(html: Seq<char>) -> Seq<char> {
    match title_of(html) {
        Some(t) => "<h1>title</h1><pre>"@ + escaped(t) + "</pre>\n"@,
        None => Seq::empty(),
    }
}

/// The marker before the legacy bootstrap object.
pub open spec fn root_marker() -> Seq<char> {
    "root.App.main ="@
}

/// The legacy bootstrap section of the digest: the object after the marker,
/// pretty-printed, limited and escaped, when it parses.
pub open spec fn root_section(html: Seq<char>) -> Seq<char> {
    match object_after(root_marker(), html) {
        Some(js) => match pretty_json_of(js) {
            Some(p) => "<h2>root.App.main (snippet)</h2>\n<pre>"@ + escaped(limited(p, section_limit()))
                + "</pre>\n"@,
            None => Seq::empty(),
        },
        None => Seq::empty(),
    }
}

/// The compact HTML digest of `symbol`'s page `html`: head, title, the
/// sections of its JSON scripts, and the legacy bootstrap snippet.
pub open spec fn min_html_spec(symbol: Seq<char>, html: Seq<char>) -> Seq<char> {
    let scripts = json_scripts_from(html, 0);
    digest_head(symbol) + title_section(html) + scripts_digest(scripts, scripts.len() as int) + root_section(
        html,
    )
}

/// The text of the first of `scripts[i..]` whose tag names it the Next.js
/// data.
pub open spec fn next_data_from(scripts: Seq<(Seq<char>, Seq<char>)>, i: int) -> Option<Seq<char>>
    decreases scripts.len() - i,
{
    if 0 <= i < scripts.len() {
        if contains_text(scripts[i].0, "id=\"__NEXT_DATA__\""@) {
            Some(scripts[i].1)
        } else {
            next_data_from(scripts, i + 1)
        }
    } else {
        None
    }
}

/// A JSON text that parses, pretty-printed where serde_json writes it back,
/// else as it is; `None` when it does not parse.
pub open spec fn pretty_or_raw(t: Seq<char>) -> Option<Seq<char>> {
    if parsed_json(t) is Some {
        match pretty_json_of(t) {
            Some(p) => Some(p),
            None => Some(t),
        }
    } else {
        None
    }
}

/// The Next.js data of the page, when its script parses.
pub open spec fn next_json_spec(html: Seq<char>) -> Option<Seq<char>> {
    match next_data_from(json_scripts_from(html, 0), 0) {
        Some(inner) => pretty_or_raw(inner),
        None => None,
    }
}

/// The legacy bootstrap object of the page, when it parses.
pub open spec fn root_app_spec(html: Seq<char>) -> Option<Seq<char>> {
    match object_after(root_marker(), html) {
        Some(js) => pretty_or_raw(js),
        None => None,
    }
}

/// Whether reading the legacy bootstrap object runs past the end of the page.
pub open spec fn root_scan_past_end(html: Seq<char>) -> bool {
    match object_start(root_marker(), html) {
        Some(i) => object_scan(html, i, 0) > html.len(),
        None => false,
    }
}

/// The debug digest of a quote page: the compact HTML, the Next.js data and
/// the legacy bootstrap object.
#[derive(Debug)]
pub struct DebugDigest {
    pub min_html: String,
    pub next_json: Option<String>,
    pub root_app: Option<String>,
}

fn jsonish_pretty_of(s: &str) -> (r: Option<String>)
    ensures
        match r {
            Some(p) => jsonish_pretty(s@) == Some(p@),
            None => jsonish_pretty(s@) is None,
        },
{
    let cs = chars_of(s);
    let t = trimmed_string(&cs);
    let tc = chars_of(t.as_str());
    if tc.len() > 0 && (tc[0] == '{' || tc[0] == '[') {
        pretty_json_text(t.as_str())
    } else {
        None
    }
}

fn script_pretty_of(inner: &str) -> (r: Option<String>)
    ensures
        match r {
            Some(p) => script_pretty(inner@) == Some(p@),
            None => script_pretty(inner@) is None,
        },
{
    match parse_json(inner) {
        Some(v) => {
            if let Some(b) = v.get("body") {
                if let Some(bt) = b.as_str() {
                    if let Some(p) = jsonish_pretty_of(bt) {
                        return Some(p);
                    }
                }
            }
            pretty_json_text(inner)
        },
        None => jsonish_pretty_of(inner),
    }
}

fn pretty_or_raw_of(t: &str) -> (r: Option<String>)
    ensures
        match r {
            Some(p) => pretty_or_raw(t@) == Some(p@),
            None => pretty_or_raw(t@) is None,
        },
{
    match pretty_json_text(t) {
        Some(p) => Some(p),
        None => if parse_json(t).is_some() {
            Some(t.to_owned())
        } else {
            None
        },
    }
}

/// The debug digest of `symbol`'s quote page `html` ([`min_html_spec`],
/// [`next_json_spec`], [`root_app_spec`]); an error where reading the legacy
/// bootstrap object runs past the end of the page.
pub fn debug_digest(symbol: &str, html: &str) -> (r: Result<DebugDigest, ScanPastEnd>)
    ensures
        root_scan_past_end(html@) <==> r is Err,
        r matches Ok(d) ==> {
            &&& d.min_html@ == min_html_spec(symbol@, html@)
            &&& match d.next_json {
                Some(n) => next_json_spec(html@) == Some(n@),
                None => next_json_spec(html@) is None,
            }
            &&& match d.root_app {
                Some(a) => root_app_spec(html@) == Some(a@),
                None => root_app_spec(html@) is None,
            }
        },
{
    let js = extract_js_object_after("root.App.main =", html)?;
    let mut out = String::new();
    push_str(
        &mut out,
        "<!doctype html><meta charset=\"utf-8\">\n<style>pre{white-space:pre-wrap;font:12px/1.3 ui-monospace,monospace}</style>\n",
    );
    push_str(&mut out, "<!-- compact debug for ");
    push_str(&mut out, symbol);
    push_str(&mut out, " -->\n");
    let ghost head = out@;
    proof {
        assert(head =~= digest_head(symbol@));
    }
    if let Some(t) = extract_title(html) {
        push_str(&mut out, "<h1>title</h1><pre>");
        push_str(&mut out, escape_html(t.as_str()).as_str());
        push_str(&mut out, "</pre>\n");
    }
    let ghost titled = out@;
    proof {
        assert(titled =~= head + title_section(html@));
    }
    let scripts = iter_json_scripts(html);
    let ghost sc = json_scripts_from(html@, 0);
    let mut next_json: Option<String> = None;
    let mut next_seen = false;
    let mut i: usize = 0;
    proof {
        assert(out@ =~= titled + scripts_digest(sc, 0));
    }
    while i < scripts.len()
        invariant
            i <= scripts@.len() == sc.len(),
            sc == json_scripts_from(html@, 0),
            forall|j: int|
                0 <= j < scripts@.len() ==> (#[trigger] scripts@[j]).0@ == sc[j].0 && scripts@[j].1@
                    == sc[j].1,
            out@ == titled + scripts_digest(sc, i as int),
            !next_seen ==> next_data_from(sc, 0) == next_data_from(sc, i as int) && next_json is None,
            next_seen ==> next_data_from(sc, 0) is Some && match next_json {
                Some(n) => next_json_spec(html@) == Some(n@),
                None => next_json_spec(html@) is None,
            },
        decreases scripts.len() - i,
    {
        let ghost before = out@;
        if let Some(p) = script_pretty_of(scripts[i].1.as_str()) {
            push_str(&mut out, "<h2>");
            push_str(&mut out, escape_html(script_label(scripts[i].0.as_str()).as_str()).as_str());
            push_str(&mut out, "</h2><pre>");
            push_str(&mut out, escape_html(limit_chars(p.as_str(), 5000).as_str()).as_str());
            push_str(&mut out, "</pre>\n");
        }
        proof {
            assert(out@ =~= before + script_section(sc[i as int].0, sc[i as int].1));
        }
        if !next_seen {
            let attrs = chars_of(scripts[i].0.as_str());
            let marker = chars_of("id=\"__NEXT_DATA__\"");
            if crate::scrape::contains_chars(&attrs, &marker) {
                next_seen = true;
                next_json = pretty_or_raw_of(scripts[i].1.as_str());
            }
        }
        i = i + 1;
    }
    let root_app = match js {
        Some(j) => {
            if let Some(p) = pretty_json_text(j.as_str()) {
                push_str(&mut out, "<h2>root.App.main (snippet)</h2>\n<pre>");
                push_str(&mut out, escape_html(limit_chars(p.as_str(), 5000).as_str()).as_str());
                push_str(&mut out, "</pre>\n");
            }
            pretty_or_raw_of(j.as_str())
        },
        None => None,
    };
    Ok(DebugDigest { min_html: out, next_json, root_app })
}

/// The extracted bootstrap JSON as a debug dump writes it: pretty-printed
/// where it parses, else as it is.
pub fn extracted_json_text(json: &str) -> (r: String)
    ensures
        r@ == match pretty_json_of(json@) {
            Some(p) => p,
            None => json@,
        },
{
    match pretty_json_text(json) {
        Some(p) => p,
        None => json.to_owned(),
    }
}

} // verus!
