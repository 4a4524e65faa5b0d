//! ISIN lookup: recognising ISIN-shaped tokens, normalising symbols, and
//! picking the ISIN that belongs to a symbol out of a search response.
//!
//! Probing a string for ISIN shape measures its trimmed text in UTF-8 bytes
//! and fails when byte 11 falls inside a character of a 12-byte text that
//! starts with two ASCII letters; the searches report such a failure as
//! [`ProbeFailed`].
use crate::text::{
    chars_of, find_from, first_occurrence, is_first_occurrence, lemma_char_occurs_at,
    lemma_first_char_occurrence, lemma_first_occurrence_props, lemma_no_char_occurrence, occurs_at,
    occurs_from, push_char, skip_white_space, split_chars, split_on, is_white_space, lemma_trim_commutes,
    lemma_ws_back_unique, lemma_ws_end_unique, is_ws_back, is_ws_end, ws_back, ws_end, string_of_range, trim_end_position, trimmed,
};
use crate::json::{
    lemma_view_of_containers, member, member_text, members_view, parse_json, parsed_json, text_of,
    Json, JsonView,
};
use vstd::prelude::*;

verus! {

/// Whether `c` is an ASCII letter.
pub open spec fn is_ascii_alpha(c: char) -> bool {
    ('a' <= c && c <= 'z') || ('A' <= c && c <= 'Z')
}

/// Whether `c` is an ASCII digit.
pub open spec fn is_ascii_digit(c: char) -> bool {
    '0' <= c && c <= '9'
}

/// Whether `c` is an ASCII letter or digit.
pub open spec fn is_ascii_alnum(c: char) -> bool {
    is_ascii_alpha(c) || is_ascii_digit(c)
}

/// `s` with white space trimmed from both ends.
pub open spec fn trim_all(s: Seq<char>) -> Seq<char> {
    trimmed(s, 0, s.len() as int)
}

/// The shape of an ISIN: two letters, nine letters or digits, one check digit.
pub open spec fn isin_shape(t: Seq<char>) -> bool {
    &&& t.len() == 12
    &&& is_ascii_alpha(t[0])
    &&& is_ascii_alpha(t[1])
    &&& forall|k: int| 2 <= k < 11 ==> is_ascii_alnum(#[trigger] t[k])
    &&& is_ascii_digit(t[11])
}

/// The number of bytes of `c` in UTF-8.
pub open spec fn utf8_width(c: char) -> nat {
    if (c as u32) < 0x80 {
        1
    } else if (c as u32) < 0x800 {
        2
    } else if (c as u32) < 0x10000 {
        3
    } else {
        4
    }
}

/// The number of bytes of `s` in UTF-8.
pub open spec fn utf8_len(s: Seq<char>) -> nat
    decreases s.len(),
{
    if s.len() == 0 {
        0
    } else {
        utf8_len(s.drop_last()) + utf8_width(s.last())
    }
}

/// Whether probing `s` for ISIN shape fails: its trimmed text is 12 bytes
/// long and starts with two ASCII letters, and no character ends at byte 11.
pub open spec fn isin_probe_panics(s: Seq<char>) -> bool {
    let t = trim_all(s);
    &&& utf8_len(t) == 12
    &&& t.len() >= 2
    &&& is_ascii_alpha(t[0])
    &&& is_ascii_alpha(t[1])
    &&& !exists|k: int| 0 <= k <= t.len() && #[trigger] utf8_len(t.take(k)) == 11
}

/// Whether `s`, trimmed, has the shape of an ISIN; `None` where the probe fails.
pub open spec fn isin_probe(s: Seq<char>) -> Option<bool> {
    if isin_probe_panics(s) {
        None
    } else {
        Some(isin_shape(trim_all(s)))
    }
}

/// Why an ISIN search could not be completed: probing one of the strings it
/// had to look at failed.
#[derive(Debug, Clone, Copy, PartialEq, Eq, Structural)]
pub struct ProbeFailed;

fn ascii_alpha(c: char) -> (b: bool)
    ensures
        b == is_ascii_alpha(c),
{
    ('a' <= c && c <= 'z') || ('A' <= c && c <= 'Z')
}

fn ascii_digit(c: char) -> (b: bool)
    ensures
        b == is_ascii_digit(c),
{
    '0' <= c && c <= '9'
}

fn ascii_alnum(c: char) -> (b: bool)
    ensures
        b == is_ascii_alnum(c),
{
    ascii_alpha(c) || ascii_digit(c)
}

fn utf8_width_of(c: char) -> (w: u64)
    ensures
        w == utf8_width(c),
{
    let v = c as u32;
    if v < 0x80 {
        1
    } else if v < 0x800 {
        2
    } else if v < 0x10000 {
        3
    } else {
        4
    }
}

/// Whether `cs[a..z]` has the shape of an ISIN.
fn shape_between(cs: &Vec<char>, a: usize, z: usize) -> (b: bool)
    requires
        a <= z <= cs.len(),
    ensures
        b == isin_shape(cs@.subrange(a as int, z as int)),
{
    let ghost t = cs@.subrange(a as int, z as int);
    if z - a != 12 {
        return false;
    }
    if !ascii_alpha(cs[a]) || !ascii_alpha(cs[a + 1]) {
        return false;
    }
    let mut k = a + 2;
    while k < a + 11
        invariant
            z == a + 12,
            z <= cs.len(),
            a + 2 <= k <= a + 11,
            t == cs@.subrange(a as int, z as int),
            forall|j: int| 2 <= j < k - a ==> is_ascii_alnum(#[trigger] t[j]),
        decreases a + 11 - k,
    {
        if !ascii_alnum(cs[k]) {
            assert(t[k - a] == cs@[k as int]);
            return false;
        }
        k = k + 1;
    }
    ascii_digit(cs[a + 11])
}

/// The trimmed bounds of `cs`: where `trim` lets it begin and end.
fn trim_bounds(cs: &Vec<char>) -> (r: (usize, usize))
    ensures
        r.0 <= r.1 <= cs.len(),
        cs@.subrange(r.0 as int, r.1 as int) == trimmed(cs@, 0, cs@.len() as int),
{
    let a = skip_white_space(cs, 0, cs.len());
    let z = trim_end_position(cs, a, cs.len());
    (a, z)
}

/// Whether `s`, trimmed, has the shape of an ISIN: two ASCII letters, nine
/// ASCII letters or digits, and an ASCII digit.
pub fn looks_like_isin(s: &str) -> (b: bool)
    requires
        !isin_probe_panics(s@),
    ensures
        b == isin_shape(trim_all(s@)),
{
    let cs = chars_of(s);
    let (a, z) = trim_bounds(&cs);
    shape_between(&cs, a, z)
}

proof fn lemma_utf8_take_step(t: Seq<char>, k: int)
    requires
        0 <= k < t.len(),
    ensures
        utf8_len(t.take(k + 1)) == utf8_len(t.take(k)) + utf8_width(t[k]),
{
    assert(t.take(k + 1).drop_last() =~= t.take(k));
}

proof fn lemma_utf8_take_mono(t: Seq<char>, j: int, k: int)
    requires
        0 <= j <= k <= t.len(),
    ensures
        utf8_len(t.take(j)) + (k - j) <= utf8_len(t.take(k)),
    decreases k - j,
{
    if j < k {
        lemma_utf8_take_mono(t, j, k - 1);
        lemma_utf8_take_step(t, k - 1);
    }
}

/// Whether probing `s` for ISIN shape fails ([`isin_probe_panics`]).
pub fn isin_probe_fails(s: &str) -> (b: bool)
    ensures
        b == isin_probe_panics(s@),
{
    let cs = chars_of(s);
    let (a, z) = trim_bounds(&cs);
    let ghost t = cs@.subrange(a as int, z as int);
    proof {
        assert(t == trim_all(s@));
        assert(t.take(t.len() as int) =~= t);
    }
    if z - a < 2 || !ascii_alpha(cs[a]) || !ascii_alpha(cs[a + 1]) {
        return false;
    }
    let n = z - a;
    let mut sum: u64 = 0;
    let mut k: usize = 0;
    let mut hit = false;
    proof {
        assert(t.take(0) =~= Seq::<char>::empty());
    }
    while k < n && sum <= 12
        invariant
            n == z - a,
            a <= z <= cs.len(),
            t == cs@.subrange(a as int, z as int),
            k <= n,
            sum == utf8_len(t.take(k as int)),
            sum <= 16,
            hit <==> exists|j: int| 0 <= j < k && #[trigger] utf8_len(t.take(j)) == 11,
        decreases n - k,
    {
        if sum == 11 {
            hit = true;
        }
        proof {
            lemma_utf8_take_step(t, k as int);
            assert(t[k as int] == cs@[a + k]);
            assert forall|j: int| 0 <= j < k + 1 && #[trigger] utf8_len(t.take(j)) == 11 implies (j < k
                || sum == 11) by {}
        }
        sum = sum + utf8_width_of(cs[a + k]);
        k = k + 1;
    }
    if k < n {
        proof {
            lemma_utf8_take_mono(t, k as int, t.len() as int);
        }
        return false;
    }
    let found = hit || sum == 11;
    proof {
        assert(found <==> exists|j: int| 0 <= j <= t.len() && #[trigger] utf8_len(t.take(j)) == 11) by {
            if sum == 11 {
                assert(utf8_len(t.take(k as int)) == 11);
            }
        }
    }
    sum == 12 && !found
}

/// Probes `s` for ISIN shape: `None` where the probe fails, else whether
/// `s`, trimmed, has the shape of an ISIN.
pub fn probe_isin(s: &str) -> (r: Option<bool>)
    ensures
        r == isin_probe(s@),
{
    if isin_probe_fails(s) {
        None
    } else {
        Some(looks_like_isin(s))
    }
}

/// The ASCII upper case of `c`.
pub open spec fn upper_char(c: char) -> char {
    if 'a' <= c && c <= 'z' {
        ((c as u32) - 32) as char
    } else {
        c
    }
}

/// The ASCII lower case of `c`.
pub open spec fn lower_char(c: char) -> char {
    if 'A' <= c && c <= 'Z' {
        ((c as u32) + 32) as char
    } else {
        c
    }
}

/// `s` with ASCII letters in upper case.
pub open spec fn ascii_upper(s: Seq<char>) -> Seq<char> {
    s.map_values(|c: char| upper_char(c))
}

/// `s` with ASCII letters in lower case.
pub open spec fn ascii_lower(s: Seq<char>) -> Seq<char> {
    s.map_values(|c: char| lower_char(c))
}

fn to_upper_char(c: char) -> (r: char)
    ensures
        r == upper_char(c),
{
    if 'a' <= c && c <= 'z' {
        let v = (c as u32) - 32;
        char_from_code(v)
    } else {
        c
    }
}

fn to_lower_char(c: char) -> (r: char)
    ensures
        r == lower_char(c),
{
    if 'A' <= c && c <= 'Z' {
        let v = (c as u32) + 32;
        char_from_code(v)
    } else {
        c
    }
}

/// The character with an ASCII code.
fn char_from_code(v: u32) -> (c: char)
    requires
        v < 0x80,
    ensures
        c == v as char,
{
    (v as u8) as char
}

/// The ASCII upper case of `cs[a..z]`.
fn upper_between(cs: &Vec<char>, a: usize, z: usize) -> (r: String)
    requires
        a <= z <= cs.len(),
    ensures
        r@ == ascii_upper(cs@.subrange(a as int, z as int)),
{
    let mut out = String::new();
    let mut k = a;
    while k < z
        invariant
            a <= k <= z <= cs.len(),
            out@ == ascii_upper(cs@.subrange(a as int, k as int)),
        decreases z - k,
    {
        proof {
            assert(ascii_upper(cs@.subrange(a as int, k + 1)) =~= ascii_upper(
                cs@.subrange(a as int, k as int),
            ).push(upper_char(cs@[k as int])));
        }
        push_char(&mut out, to_upper_char(cs[k]));
        k = k + 1;
    }
    out
}

/// The ASCII upper case of `s`.
pub fn to_ascii_upper(s: &str) -> (r: String)
    ensures
        r@ == ascii_upper(s@),
{
    let cs = chars_of(s);
    proof {
        assert(cs@.subrange(0, cs@.len() as int) =~= cs@);
    }
    upper_between(&cs, 0, cs.len())
}

/// The separators that end the base of a symbol, in the order they are tried.
pub open spec fn symbol_separators() -> Seq<char> {
    seq!['.', ':', ' ', '\t', '\n', '\r']
}

/// `t` cut at the first occurrence of the first separator from
/// `symbol_separators()[k..]` that occurs in it.
pub open spec fn cut_at_separator(t: Seq<char>, k: int) -> Seq<char>
    decreases 6 - k,
{
    if k < 0 || k >= 6 {
        t
    } else {
        match first_occurrence(t, seq![symbol_separators()[k]], 0) {
            Some(i) => t.take(i),
            None => cut_at_separator(t, k + 1),
        }
    }
}

/// The normal form of a symbol: trimmed, `-` turned into `.`, cut at the
/// first separator found (trying `.`, `:`, space, tab, newline, carriage
/// return in turn), in ASCII lower case.
pub open spec fn normalized_symbol(s: Seq<char>) -> Seq<char> {
    let t = trim_all(s).map_values(|c: char| if c == '-' { '.' } else { c });
    ascii_lower(cut_at_separator(t, 0))
}

/// The normal form of a symbol ([`normalized_symbol`]).
pub fn normalize_sym(s: &str) -> (r: String)
    ensures
        r@ == normalized_symbol(s@),
{
    let cs = chars_of(s);
    let (a, z) = trim_bounds(&cs);
    let ghost trimmed_text = cs@.subrange(a as int, z as int);
    let mut t: Vec<char> = Vec::new();
    let mut k = a;
    while k < z
        invariant
            a <= k <= z <= cs.len(),
            trimmed_text == cs@.subrange(a as int, z as int),
            t@ == cs@.subrange(a as int, k as int).map_values(|c: char| if c == '-' { '.' } else { c }),
        decreases z - k,
    {
        let c = cs[k];
        let d = if c == '-' {
            '.'
        } else {
            c
        };
        proof {
            assert(cs@.subrange(a as int, k + 1).map_values(|c: char| if c == '-' { '.' } else { c })
                =~= cs@.subrange(a as int, k as int).map_values(
                |c: char| if c == '-' { '.' } else { c },
            ).push(d));
        }
        t.push(d);
        k = k + 1;
    }
    let seps = vec!['.', ':', ' ', '\t', '\n', '\r'];
    proof {
        assert(seps@ =~= symbol_separators());
    }
    let mut end = t.len();
    let mut j: usize = 0;
    let mut found = false;
    while j < 6
        invariant
            seps@ == symbol_separators(),
            j <= 6,
            end <= t.len(),
            !found ==> end == t.len() && cut_at_separator(t@, 0) == cut_at_separator(t@, j as int),
            found ==> cut_at_separator(t@, 0) == t@.take(end as int) && j == 6,
        decreases 6 - j,
    {
        let sep = vec![seps[j]];
        proof {
            assert(sep@ =~= seq![symbol_separators()[j as int]]);
        }
        match find_from(&t, &sep, 0) {
            Some(idx) => {
                end = idx;
                found = true;
                j = 6;
            },
            None => {
                j = j + 1;
            },
        }
    }
    proof {
        assert(t@.take(t@.len() as int) =~= t@);
        assert(cut_at_separator(t@, 0) == t@.subrange(0, end as int));
    }
    let mut out = String::new();
    let mut m: usize = 0;
    while m < end
        invariant
            m <= end <= t.len(),
            out@ == ascii_lower(t@.subrange(0, m as int)),
        decreases end - m,
    {
        proof {
            assert(ascii_lower(t@.subrange(0, m + 1)) =~= ascii_lower(t@.subrange(0, m as int)).push(
                lower_char(t@[m as int]),
            ));
        }
        push_char(&mut out, to_lower_char(t[m]));
        m = m + 1;
    }
    out
}

/// The pieces of `s` between `|` separators (`str::split('|')`).
pub open spec fn split_bar(s: Seq<char>) -> Seq<Seq<char>> {
    split_on(s, '|')
}

/// The pieces of `ps`, trimmed, without the empty ones.
pub open spec fn nonempty_trimmed(ps: Seq<Seq<char>>) -> Seq<Seq<char>>
    decreases ps.len(),
{
    if ps.len() == 0 {
        Seq::empty()
    } else {
        let rest = nonempty_trimmed(ps.drop_last());
        let t = trim_all(ps.last());
        if t.len() > 0 {
            rest.push(t)
        } else {
            rest
        }
    }
}

/// The texts of a sequence of strings.
pub open spec fn texts(v: Seq<String>) -> Seq<Seq<char>> {
    v.map_values(|x: String| x@)
}

/// The trimmed pieces of `s` between `|` separators.
pub open spec fn bar_tokens(s: Seq<char>) -> Seq<Seq<char>> {
    split_bar(s).map_values(|p: Seq<char>| trim_all(p))
}

/// The trimmed, nonempty pieces of `s` between `|` separators.
pub open spec fn bar_parts(s: Seq<char>) -> Seq<Seq<char>> {
    nonempty_trimmed(split_bar(s))
}

/// The index of the first of `ps[i..]` that has ISIN shape: `Some(None)`
/// when none has, `None` when a probe fails first.
pub open spec fn first_isin_index(ps: Seq<Seq<char>>, i: int) -> Option<Option<int>>
    decreases ps.len() - i,
{
    if i < 0 || i >= ps.len() {
        Some(None)
    } else {
        match isin_probe(ps[i]) {
            None => None,
            Some(true) => Some(Some(i)),
            Some(false) => first_isin_index(ps, i + 1),
        }
    }
}

/// The ISIN among `parts` for the symbol `target`: where the first part
/// normalises to `target`, the first part with ISIN shape, upper-cased.
/// `None` when a probe fails first.
pub open spec fn pick_spec(parts: Seq<Seq<char>>, target: Seq<char>) -> Option<Option<Seq<char>>> {
    if parts.len() == 0 || normalized_symbol(parts[0]) != target {
        Some(None)
    } else {
        match first_isin_index(parts, 0) {
            None => None,
            Some(None) => Some(None),
            Some(Some(i)) => Some(Some(ascii_upper(parts[i]))),
        }
    }
}

/// `r` is the outcome `s` of a search: `None` a failed probe, `Some(x)` the
/// answer `x`.
pub open spec fn search_result(r: Result<Option<String>, ProbeFailed>, s: Option<Option<Seq<char>>>) -> bool {
    match s {
        None => r is Err,
        Some(None) => r matches Ok(None),
        Some(Some(x)) => r matches Ok(Some(h)) && h@ == x,
    }
}

fn text_equal(a: &String, b: &str) -> (r: bool)
    ensures
        r == (a@ == b@),
{
    crate::text::text_eq(a.as_str(), b)
}

/// The pieces of `s` between `|` separators.
fn split_bar_chars(s: &str) -> (r: Vec<Vec<char>>)
    ensures
        r@.len() == split_bar(s@).len(),
        forall|k: int| 0 <= k < r@.len() ==> (#[trigger] r@[k])@ == split_bar(s@)[k],
{
    split_chars(s, '|')
}

/// The trimmed text of `cs`.
pub(crate) fn trimmed_string(cs: &Vec<char>) -> (r: String)
    ensures
        r@ == trim_all(cs@),
{
    let (a, z) = trim_bounds(cs);
    string_of_range(cs, a, z)
}

/// The trimmed pieces of `s` between `|` separators.
pub fn split_tokens(s: &str) -> (r: Vec<String>)
    ensures
        texts(r@) == bar_tokens(s@),
{
    let pieces = split_bar_chars(s);
    let mut out: Vec<String> = Vec::new();
    let mut k: usize = 0;
    while k < pieces.len()
        invariant
            k <= pieces.len(),
            pieces@.len() == split_bar(s@).len(),
            forall|j: int| 0 <= j < pieces@.len() ==> (#[trigger] pieces@[j])@ == split_bar(s@)[j],
            texts(out@) == bar_tokens(s@).take(k as int),
        decreases pieces.len() - k,
    {
        let t = trimmed_string(&pieces[k]);
        proof {
            assert(bar_tokens(s@).take(k + 1) =~= bar_tokens(s@).take(k as int).push(t@));
            assert(texts(out@.push(t)) =~= texts(out@).push(t@));
        }
        out.push(t);
        k = k + 1;
    }
    proof {
        assert(bar_tokens(s@).take(k as int) =~= bar_tokens(s@));
    }
    out
}

/// The trimmed, nonempty pieces of `s` between `|` separators.
pub fn split_parts(s: &str) -> (r: Vec<String>)
    ensures
        texts(r@) == bar_parts(s@),
{
    let pieces = split_bar_chars(s);
    let ghost ps = split_bar(s@);
    let mut out: Vec<String> = Vec::new();
    let mut k: usize = 0;
    proof {
        assert(ps.take(0) =~= Seq::<Seq<char>>::empty());
        assert(texts(out@) =~= Seq::<Seq<char>>::empty());
    }
    while k < pieces.len()
        invariant
            k <= pieces.len(),
            ps == split_bar(s@),
            pieces@.len() == ps.len(),
            forall|j: int| 0 <= j < pieces@.len() ==> (#[trigger] pieces@[j])@ == ps[j],
            texts(out@) == nonempty_trimmed(ps.take(k as int)),
        decreases pieces.len() - k,
    {
        let t = trimmed_string(&pieces[k]);
        proof {
            assert(ps.take(k + 1).drop_last() =~= ps.take(k as int));
            assert(ps.take(k + 1).last() == ps[k as int]);
        }
        if !t.as_str().is_empty() {
            proof {
                assert(texts(out@.push(t)) =~= texts(out@).push(t@));
            }
            out.push(t);
        }
        k = k + 1;
    }
    proof {
        assert(ps.take(k as int) =~= ps);
    }
    out
}

/// The index of the first of `parts` that has ISIN shape.
fn first_isin(parts: &[String]) -> (r: Result<Option<usize>, ProbeFailed>)
    ensures
        match first_isin_index(texts(parts@), 0) {
            None => r is Err,
            Some(None) => r matches Ok(None),
            Some(Some(i)) => r matches Ok(Some(j)) && j == i && j < parts.len(),
        },
{
    let ghost ps = texts(parts@);
    let mut i: usize = 0;
    while i < parts.len()
        invariant
            i <= parts.len(),
            ps == texts(parts@),
            first_isin_index(ps, 0) == first_isin_index(ps, i as int),
        decreases parts.len() - i,
    {
        match probe_isin(parts[i].as_str()) {
            None => return Err(ProbeFailed),
            Some(true) => return Ok(Some(i)),
            Some(false) => {},
        }
        i = i + 1;
    }
    Ok(None)
}

/// The ISIN among `parts` for the normalised symbol `target_norm`
/// ([`pick_spec`]).
pub fn pick_from_parts(parts: &[String], target_norm: &str) -> (r: Result<Option<String>, ProbeFailed>)
    ensures
        search_result(r, pick_spec(texts(parts@), target_norm@)),
{
    if parts.len() == 0 {
        return Ok(None);
    }
    let first = normalize_sym(parts[0].as_str());
    if !text_equal(&first, target_norm) {
        return Ok(None);
    }
    match first_isin(parts) {
        Err(e) => Err(e),
        Ok(None) => Ok(None),
        Ok(Some(i)) => Ok(Some(to_ascii_upper(parts[i].as_str()))),
    }
}

/// One entry of a flat ISIN search response.
#[derive(Debug, Clone)]
pub struct FlatSuggest {
    /// A `|`-separated summary: symbol first, then further fields.
    pub value: Option<String>,
    /// The entry's symbol.
    pub symbol: Option<String>,
    /// The entry's ISIN.
    pub isin: Option<String>,
}

/// Whether an entry's symbol normalises to `target`.
pub open spec fn symbol_matches(sym: Option<String>, target: Seq<char>) -> bool {
    match sym {
        Some(s) => normalized_symbol(s@) == target,
        None => false,
    }
}

/// What the first pass makes of one entry: its ISIN, if it has ISIN shape
/// and the entry's symbol matches; else the ISIN among its value's parts.
pub open spec fn first_pass_entry(r: FlatSuggest, target: Seq<char>) -> Option<Option<Seq<char>>> {
    let by_isin: Option<Option<Seq<char>>> = match r.isin {
        None => Some(None),
        Some(x) => match isin_probe(x@) {
            None => None,
            Some(false) => Some(None),
            Some(true) => if symbol_matches(r.symbol, target) {
                Some(Some(ascii_upper(x@)))
            } else {
                Some(None)
            },
        },
    };
    match by_isin {
        Some(None) => match r.value {
            None => Some(None),
            Some(v) => pick_spec(bar_parts(v@), target),
        },
        other => other,
    }
}

/// What the second pass makes of one entry: its ISIN, if it has ISIN shape;
/// else the first of its value's trimmed pieces with ISIN shape.
pub open spec fn second_pass_entry(r: FlatSuggest) -> Option<Option<Seq<char>>> {
    let by_isin: Option<Option<Seq<char>>> = match r.isin {
        None => Some(None),
        Some(x) => match isin_probe(x@) {
            None => None,
            Some(false) => Some(None),
            Some(true) => Some(Some(ascii_upper(x@))),
        },
    };
    match by_isin {
        Some(None) => match r.value {
            None => Some(None),
            Some(v) => match first_isin_index(bar_tokens(v@), 0) {
                None => None,
                Some(None) => Some(None),
                Some(Some(k)) => Some(Some(ascii_upper(bar_tokens(v@)[k]))),
            },
        },
        other => other,
    }
}

/// The first answer of the first pass over `rs[i..]`.
pub open spec fn first_pass(rs: Seq<FlatSuggest>, target: Seq<char>, i: int) -> Option<Option<Seq<char>>>
    decreases rs.len() - i,
{
    if i < 0 || i >= rs.len() {
        Some(None)
    } else {
        match first_pass_entry(rs[i], target) {
            Some(None) => first_pass(rs, target, i + 1),
            other => other,
        }
    }
}

/// The first answer of the second pass over `rs[i..]`.
pub open spec fn second_pass(rs: Seq<FlatSuggest>, i: int) -> Option<Option<Seq<char>>>
    decreases rs.len() - i,
{
    if i < 0 || i >= rs.len() {
        Some(None)
    } else {
        match second_pass_entry(rs[i]) {
            Some(None) => second_pass(rs, i + 1),
            other => other,
        }
    }
}

/// The ISIN a flat response gives for the normalised symbol `target`: the
/// first pass, which asks for the symbol, then the second, which takes any
/// ISIN.
pub open spec fn flat_suggest_isin(rs: Seq<FlatSuggest>, target: Seq<char>) -> Option<Option<Seq<char>>> {
    match first_pass(rs, target, 0) {
        Some(None) => second_pass(rs, 0),
        other => other,
    }
}

fn first_pass_step(r: &FlatSuggest, target_norm: &str) -> (res: Result<Option<String>, ProbeFailed>)
    ensures
        search_result(res, first_pass_entry(*r, target_norm@)),
{
    if let Some(x) = &r.isin {
        match probe_isin(x.as_str()) {
            None => return Err(ProbeFailed),
            Some(true) => {
                if let Some(sym) = &r.symbol {
                    let n = normalize_sym(sym.as_str());
                    if text_equal(&n, target_norm) {
                        return Ok(Some(to_ascii_upper(x.as_str())));
                    }
                }
            },
            Some(false) => {},
        }
    }
    match &r.value {
        None => Ok(None),
        Some(v) => {
            let parts = split_parts(v.as_str());
            pick_from_parts(parts.as_slice(), target_norm)
        },
    }
}

fn second_pass_step(r: &FlatSuggest) -> (res: Result<Option<String>, ProbeFailed>)
    ensures
        search_result(res, second_pass_entry(*r)),
{
    if let Some(x) = &r.isin {
        match probe_isin(x.as_str()) {
            None => return Err(ProbeFailed),
            Some(true) => return Ok(Some(to_ascii_upper(x.as_str()))),
            Some(false) => {},
        }
    }
    match &r.value {
        None => Ok(None),
        Some(v) => {
            let tokens = split_tokens(v.as_str());
            match first_isin(tokens.as_slice()) {
                Err(e) => Err(e),
                Ok(None) => Ok(None),
                Ok(Some(k)) => Ok(Some(to_ascii_upper(tokens[k].as_str()))),
            }
        },
    }
}

/// The ISIN a flat search response gives for the normalised symbol
/// `input_norm` ([`flat_suggest_isin`]).
pub fn parse_as_flat_suggest(records: &Vec<FlatSuggest>, input_norm: &str) -> (r: Result<Option<String>, ProbeFailed>)
    ensures
        search_result(r, flat_suggest_isin(records@, input_norm@)),
{
    let mut i: usize = 0;
    while i < records.len()
        invariant
            i <= records.len(),
            first_pass(records@, input_norm@, 0) == first_pass(records@, input_norm@, i as int),
        decreases records.len() - i,
    {
        match first_pass_step(&records[i], input_norm) {
            Ok(None) => {},
            other => return other,
        }
        i = i + 1;
    }
    let mut j: usize = 0;
    while j < records.len()
        invariant
            j <= records.len(),
            first_pass(records@, input_norm@, 0) == Some(None::<Seq<char>>),
            second_pass(records@, 0) == second_pass(records@, j as int),
        decreases records.len() - j,
    {
        match second_pass_step(&records[j]) {
            Ok(None) => {},
            other => return other,
        }
        j = j + 1;
    }
    Ok(None)
}

/// Whether the twelve characters of `b` ending at `i` are ASCII letters or
/// digits.
pub open spec fn alnum_window(b: Seq<char>, i: int) -> bool {
    &&& 11 <= i < b.len()
    &&& forall|k: int| i - 11 <= k <= i ==> is_ascii_alnum(#[trigger] b[k])
}

/// The first run of twelve ASCII letters and digits in `b[i..]`, by where it
/// ends, that has ISIN shape, upper-cased.
pub open spec fn raw_scan_from(b: Seq<char>, i: int) -> Option<Seq<char>>
    decreases b.len() - i,
{
    if i < 0 || i >= b.len() {
        None
    } else if alnum_window(b, i) && isin_shape(b.subrange(i - 11, i + 1)) {
        Some(ascii_upper(b.subrange(i - 11, i + 1)))
    } else {
        raw_scan_from(b, i + 1)
    }
}

/// The first ISIN-shaped run of twelve ASCII letters and digits in `body`
/// ([`raw_scan_from`]).
pub fn scan_raw_body(body: &str) -> (r: Option<String>)
    ensures
        match r {
            Some(s) => raw_scan_from(body@, 0) == Some(s@),
            None => raw_scan_from(body@, 0) is None,
        },
{
    let cs = chars_of(body);
    let mut run: usize = 0;
    let mut i: usize = 0;
    while i < cs.len()
        invariant
            cs@ == body@,
            i <= cs.len(),
            run <= 12,
            run <= i,
            forall|k: int| i - run <= k < i ==> is_ascii_alnum(#[trigger] cs@[k]),
            run < 12 ==> (i - run == 0 || !is_ascii_alnum(cs@[i - run - 1])),
            raw_scan_from(body@, 0) == raw_scan_from(body@, i as int),
        decreases cs.len() - i,
    {
        if ascii_alnum(cs[i]) {
            if run < 12 {
                run = run + 1;
            }
        } else {
            run = 0;
        }
        proof {
            if run == 12 {
                assert(alnum_window(cs@, i as int));
            } else {
                if alnum_window(cs@, i as int) {
                    let k = i - run;
                    if run > 0 {
                        assert(is_ascii_alnum(cs@[k - 1]));
                    } else {
                        assert(is_ascii_alnum(cs@[i as int]));
                    }
                }
            }
        }
        if run == 12 && shape_between(&cs, i - 11, i + 1) {
            return Some(upper_between(&cs, i - 11, i + 1));
        }
        i = i + 1;
    }
    None
}

/// The ISIN found for `symbol` in a search response `body`: the one its JSON
/// shapes give ([`body_json_isin`]), else the one a flat response gives
/// ([`flat_suggest_isin`]; `flat` is the body read as a list of flat
/// entries, `None` when it is not one), else the first ISIN-shaped run in the
/// raw body. `None` when probing a text fails first.
pub open spec fn isin_resolution(
    symbol: Seq<char>,
    body: Seq<char>,
    flat: Option<Seq<FlatSuggest>>,
) -> Option<Option<Seq<char>>> {
    let target = normalized_symbol(symbol);
    match body_json_isin(body, target) {
        Some(None) => {
            let by_flat = match flat {
                Some(rs) => flat_suggest_isin(rs, target),
                None => Some(None),
            };
            match by_flat {
                Some(None) => Some(raw_scan_from(body, 0)),
                other => other,
            }
        },
        other => other,
    }
}

/// Resolves the ISIN of `symbol` from a search response `body`
/// ([`isin_resolution`]), given the body read as a list of flat entries
/// (`flat`, `None` when it is not one).
pub fn resolve_isin(symbol: &str, body: &str, flat: Option<Vec<FlatSuggest>>) -> (r: Result<
    Option<String>,
    ProbeFailed,
>)
    ensures
        search_result(
            r,
            isin_resolution(
                symbol@,
                body@,
                match flat {
                    Some(rs) => Some(rs@),
                    None => None,
                },
            ),
        ),
{
    let input_norm = normalize_sym(symbol);
    match parse_as_json_value(body, input_norm.as_str()) {
        Ok(None) => {},
        other => return other,
    }
    if let Some(records) = flat {
        match parse_as_flat_suggest(&records, input_norm.as_str()) {
            Ok(None) => {},
            other => return other,
        }
    }
    Ok(scan_raw_body(body))
}

proof fn lemma_upper_keeps_shape(t: Seq<char>)
    requires
        isin_shape(t),
    ensures
        isin_shape(ascii_upper(t)),
        forall|k: int| 0 <= k < ascii_upper(t).len() ==> !('a' <= #[trigger] ascii_upper(t)[k] && ascii_upper(t)[k] <= 'z'),
{
    let u = ascii_upper(t);
    assert forall|k: int| 0 <= k < 12 implies (is_ascii_alpha(t[k]) ==> is_ascii_alpha(#[trigger] u[k])) && (
    is_ascii_digit(t[k]) ==> u[k] == t[k]) && !('a' <= u[k] && u[k] <= 'z') by {
        assert(u[k] == upper_char(t[k]));
    }
    assert forall|k: int| 2 <= k < 11 implies is_ascii_alnum(#[trigger] u[k]) by {
        assert(is_ascii_alnum(t[k]));
    }
}

/// What the raw scan of a body finds has the shape of an ISIN and has no
/// lower-case letters.
pub proof fn lemma_raw_scan_shape(b: Seq<char>, i: int)
    ensures
        raw_scan_from(b, i) matches Some(x) ==> isin_shape(x) && forall|k: int|
            0 <= k < x.len() ==> !('a' <= #[trigger] x[k] && x[k] <= 'z'),
    decreases b.len() - i,
{
    if 0 <= i < b.len() {
        if alnum_window(b, i) && isin_shape(b.subrange(i - 11, i + 1)) {
            lemma_upper_keeps_shape(b.subrange(i - 11, i + 1));
        } else {
            lemma_raw_scan_shape(b, i + 1);
        }
    }
}

proof fn lemma_cut_is_prefix(t: Seq<char>, k: int)
    ensures
        exists|j: int| 0 <= j <= t.len() && cut_at_separator(t, k) == #[trigger] t.take(j),
    decreases 6 - k,
{
    if k < 0 || k >= 6 {
        assert(t.take(t.len() as int) =~= t);
        assert(cut_at_separator(t, k) == t.take(t.len() as int));
    } else {
        let sep = seq![symbol_separators()[k]];
        lemma_first_occurrence_props(t, sep, 0);
        match first_occurrence(t, sep, 0) {
            Some(i) => {
                assert(occurs_at(t, sep, i));
                assert(cut_at_separator(t, k) == t.take(i));
            },
            None => {
                lemma_cut_is_prefix(t, k + 1);
                let j = choose|j: int| 0 <= j <= t.len() && cut_at_separator(t, k + 1) == #[trigger] t.take(j);
                assert(cut_at_separator(t, k) == t.take(j));
            },
        }
    }
}

proof fn lemma_cut_has_no_dot(t: Seq<char>)
    ensures
        forall|i: int| 0 <= i < cut_at_separator(t, 0).len() ==> #[trigger] cut_at_separator(t, 0)[i] != '.',
{
    let dot = seq!['.'];
    assert(symbol_separators()[0] == '.');
    assert(seq![symbol_separators()[0]] == dot);
    lemma_first_occurrence_props(t, dot, 0);
    match first_occurrence(t, dot, 0) {
        Some(p) => {
            assert forall|i: int| 0 <= i < cut_at_separator(t, 0).len() implies #[trigger] cut_at_separator(
                t,
                0,
            )[i] != '.' by {
                lemma_char_occurs_at(t, '.', i);
            }
        },
        None => {
            lemma_cut_is_prefix(t, 1);
            let j = choose|j: int| 0 <= j <= t.len() && cut_at_separator(t, 1) == #[trigger] t.take(j);
            assert forall|i: int| 0 <= i < cut_at_separator(t, 0).len() implies #[trigger] cut_at_separator(
                t,
                0,
            )[i] != '.' by {
                lemma_char_occurs_at(t, '.', i);
                assert(!occurs_at(t, dot, i));
            }
        },
    }
}

/// A normalised symbol has no `.`, no `-` and no ASCII upper-case letter.
pub proof fn lemma_normalized_symbol_shape(s: Seq<char>)
    ensures
        forall|k: int|
            0 <= k < normalized_symbol(s).len() ==> {
                let c = #[trigger] normalized_symbol(s)[k];
                c != '.' && c != '-' && !('A' <= c && c <= 'Z')
            },
{
    let t = trim_all(s).map_values(|c: char| if c == '-' { '.' } else { c });
    let cut = cut_at_separator(t, 0);
    lemma_cut_has_no_dot(t);
    lemma_cut_is_prefix(t, 0);
    let j = choose|j: int| 0 <= j <= t.len() && cut_at_separator(t, 0) == #[trigger] t.take(j);
    assert forall|k: int| 0 <= k < normalized_symbol(s).len() implies {
        let c = #[trigger] normalized_symbol(s)[k];
        c != '.' && c != '-' && !('A' <= c && c <= 'Z')
    } by {
        assert(normalized_symbol(s)[k] == lower_char(cut[k]));
        assert(cut[k] == t[k]);
        assert(cut[k] != '.');
    }
}

/// The keys under which a search response lists its entries, in the order
/// they are tried.
pub open spec fn list_key(k: int) -> Seq<char> {
    if k == 0 {
        "Suggestions"@
    } else if k == 1 {
        "suggestions"@
    } else if k == 2 {
        "items"@
    } else if k == 3 {
        "results"@
    } else if k == 4 {
        "Result"@
    } else {
        "data"@
    }
}

/// The arrays under the first `n` list keys of `v`, in key order.
pub open spec fn keyed_arrays(v: JsonView, n: int) -> Seq<JsonView>
    decreases n,
{
    if n <= 0 {
        Seq::empty()
    } else {
        let rest = keyed_arrays(v, n - 1);
        match member(v, list_key(n - 1)) {
            Some(a) => if a is Array {
                rest.push(a)
            } else {
                rest
            },
            None => rest,
        }
    }
}

/// The array values among `ms[..n]`, in order.
pub open spec fn array_values(ms: Seq<(Seq<char>, JsonView)>, n: int) -> Seq<JsonView>
    decreases n,
{
    if n <= 0 {
        Seq::empty()
    } else {
        let rest = array_values(ms, n - 1);
        if ms[n - 1].1 is Array {
            rest.push(ms[n - 1].1)
        } else {
            rest
        }
    }
}

/// The arrays among the values of `ms[..n]` and, for each object value,
/// among that object's own values, in order.
pub open spec fn nested_arrays(ms: Seq<(Seq<char>, JsonView)>, n: int) -> Seq<JsonView>
    decreases n,
{
    if n <= 0 {
        Seq::empty()
    } else {
        let rest = nested_arrays(ms, n - 1);
        let x = ms[n - 1].1;
        match x {
            JsonView::Array(_) => rest.push(x),
            JsonView::Object(ims) => rest + array_values(ims, ims.len() as int),
            _ => rest,
        }
    }
}

/// The arrays of a search response that may list entries: the response
/// itself when it is an array; for an object, the arrays under its list keys,
/// or, when there are none, the arrays among its values and their values.
pub open spec fn candidate_arrays(v: JsonView) -> Seq<JsonView> {
    match v {
        JsonView::Array(_) => seq![v],
        JsonView::Object(ms) => {
            let ka = keyed_arrays(v, 6);
            if ka.len() > 0 {
                ka
            } else {
                nested_arrays(ms, ms.len() as int)
            }
        },
        _ => Seq::empty(),
    }
}

/// The symbol of an entry: its `Symbol` text, else its `symbol` text.
pub open spec fn symbol_text(item: JsonView) -> Option<Seq<char>> {
    match member_text(item, "Symbol"@) {
        Some(s) => Some(s),
        None => member_text(item, "symbol"@),
    }
}

/// The summary of an entry: its `Value` text, else its `value` text, else empty.
pub open spec fn value_text(item: JsonView) -> Seq<char> {
    match member_text(item, "Value"@) {
        Some(s) => s,
        None => match member_text(item, "value"@) {
            Some(s) => s,
            None => Seq::empty(),
        },
    }
}

/// The keys under which an entry may give its ISIN, in the order tried.
pub open spec fn isin_key(k: int) -> Seq<char> {
    if k == 0 {
        "Isin"@
    } else if k == 1 {
        "isin"@
    } else {
        "ISIN"@
    }
}

/// What the ISIN keys of an entry from key `k` on give for `target`: the
/// first ISIN-shaped text under them, upper-cased, when the entry's symbol is
/// missing, empty or normalises to `target`.
pub open spec fn keyed_isin(item: JsonView, target: Seq<char>, k: int) -> Option<Option<Seq<char>>>
    decreases 3 - k,
{
    if 0 <= k < 3 {
        let here: Option<Option<Seq<char>>> = match member_text(item, isin_key(k)) {
            None => Some(None),
            Some(x) => match isin_probe(x) {
                None => None,
                Some(false) => Some(None),
                Some(true) => {
                    let sym = match symbol_text(item) {
                        Some(s) => s,
                        None => Seq::empty(),
                    };
                    if sym.len() == 0 || normalized_symbol(sym) == target {
                        Some(Some(ascii_upper(x)))
                    } else {
                        Some(None)
                    }
                },
            },
        };
        match here {
            Some(None) => keyed_isin(item, target, k + 1),
            other => other,
        }
    } else {
        Some(None)
    }
}

/// The first text among the values of `ms[i..]` with ISIN shape, upper-cased.
pub open spec fn member_isin(ms: Seq<(Seq<char>, JsonView)>, i: int) -> Option<Option<Seq<char>>>
    decreases ms.len() - i,
{
    if 0 <= i < ms.len() {
        match text_of(ms[i].1) {
            None => member_isin(ms, i + 1),
            Some(s) => match isin_probe(s) {
                None => None,
                Some(true) => Some(Some(ascii_upper(s))),
                Some(false) => member_isin(ms, i + 1),
            },
        }
    } else {
        Some(None)
    }
}

/// What one entry of a search response gives for `target`: what its ISIN
/// keys give; else the ISIN among its summary's parts ([`pick_spec`]); else,
/// when its symbol normalises to `target`, its first ISIN-shaped text value.
pub open spec fn entry_isin(item: JsonView, target: Seq<char>) -> Option<Option<Seq<char>>> {
    match item {
        JsonView::Object(ms) => match keyed_isin(item, target, 0) {
            Some(None) => {
                let by_value = if value_text(item).len() > 0 {
                    pick_spec(bar_parts(value_text(item)), target)
                } else {
                    Some(None)
                };
                match by_value {
                    Some(None) => match symbol_text(item) {
                        Some(sym) => if normalized_symbol(sym) == target {
                            member_isin(ms, 0)
                        } else {
                            Some(None)
                        },
                        None => Some(None),
                    },
                    other => other,
                }
            },
            other => other,
        },
        _ => Some(None),
    }
}

/// The first answer the entries `items[j..]` give.
pub open spec fn items_isin(items: Seq<JsonView>, target: Seq<char>, j: int) -> Option<Option<Seq<char>>>
    decreases items.len() - j,
{
    if 0 <= j < items.len() {
        match entry_isin(items[j], target) {
            Some(None) => items_isin(items, target, j + 1),
            other => other,
        }
    } else {
        Some(None)
    }
}

/// The first answer the entries of the arrays `arrs[a..]` give, in order.
pub open spec fn arrays_isin(arrs: Seq<JsonView>, target: Seq<char>, a: int) -> Option<Option<Seq<char>>>
    decreases arrs.len() - a,
{
    if 0 <= a < arrs.len() {
        let here = match arrs[a] {
            JsonView::Array(items) => items_isin(items, target, 0),
            _ => Some(None),
        };
        match here {
            Some(None) => arrays_isin(arrs, target, a + 1),
            other => other,
        }
    } else {
        Some(None)
    }
}

/// The ISIN a JSON search response gives for the normalised symbol `target`.
pub open spec fn json_isin(v: JsonView, target: Seq<char>) -> Option<Option<Seq<char>>> {
    arrays_isin(candidate_arrays(v), target, 0)
}

/// The ISIN the response `body`, read as JSON, gives for `target`; none when
/// it is not JSON.
pub open spec fn body_json_isin(body: Seq<char>, target: Seq<char>) -> Option<Option<Seq<char>>> {
    match parsed_json(body) {
        Some(v) => json_isin(v, target),
        None => Some(None),
    }
}

/// The list key `k` as text.
fn list_key_text(k: usize) -> (r: &'static str)
    requires
        k < 6,
    ensures
        r@ == list_key(k as int),
{
    if k == 0 {
        "Suggestions"
    } else if k == 1 {
        "suggestions"
    } else if k == 2 {
        "items"
    } else if k == 3 {
        "results"
    } else if k == 4 {
        "Result"
    } else {
        "data"
    }
}

/// The ISIN key `k` as text.
fn isin_key_text(k: usize) -> (r: &'static str)
    requires
        k < 3,
    ensures
        r@ == isin_key(k as int),
{
    if k == 0 {
        "Isin"
    } else if k == 1 {
        "isin"
    } else {
        "ISIN"
    }
}

/// The views of a list of values.
pub open spec fn refs_view(r: Seq<&Json>) -> Seq<JsonView> {
    Seq::new(r.len(), |j: int| r[j]@)
}

/// The arrays of a search response that may list entries ([`candidate_arrays`]).
fn candidate_arrays_of(v: &Json) -> (r: Vec<&Json>)
    ensures
        refs_view(r@) == candidate_arrays(v@),
{
    proof {
        lemma_view_of_containers(*v);
    }
    let mut arrays: Vec<&Json> = Vec::new();
    match v {
        Json::Array(_) => {
            arrays.push(v);
            proof {
                assert(refs_view(arrays@) =~= seq![v@]);
            }
        },
        Json::Object(members) => {
            let mut k: usize = 0;
            proof {
                assert(refs_view(arrays@) =~= keyed_arrays(v@, 0));
            }
            while k < 6
                invariant
                    k <= 6,
                    refs_view(arrays@) == keyed_arrays(v@, k as int),
                decreases 6 - k,
            {
                if let Some(a) = v.get(list_key_text(k)) {
                    if a.is_array() {
                        let ghost before = arrays@;
                        arrays.push(a);
                        proof {
                            assert(refs_view(arrays@) =~= refs_view(before).push(a@));
                        }
                    }
                }
                k = k + 1;
            }
            if arrays.len() == 0 {
                let ghost ms = members_view(members@);
                let mut i: usize = 0;
                proof {
                    assert(refs_view(arrays@) =~= nested_arrays(ms, 0));
                }
                while i < members.len()
                    invariant
                        i <= members@.len() == ms.len(),
                        ms == members_view(members@),
                        refs_view(arrays@) == nested_arrays(ms, i as int),
                    decreases members.len() - i,
                {
                    let x = &members[i].1;
                    proof {
                        assert(ms[i as int].1 == x@);
                    }
                    if x.is_array() {
                        let ghost before = arrays@;
                        arrays.push(x);
                        proof {
                            assert(refs_view(arrays@) =~= refs_view(before).push(x@));
                        }
                    } else if let Some(inner) = x.as_object() {
                        let ghost before = refs_view(arrays@);
                        let ghost ims = members_view(inner@);
                        let mut j: usize = 0;
                        proof {
                            assert(before + array_values(ims, 0) =~= before);
                        }
                        while j < inner.len()
                            invariant
                                j <= inner@.len() == ims.len(),
                                ims == members_view(inner@),
                                refs_view(arrays@) == before + array_values(ims, j as int),
                            decreases inner.len() - j,
                        {
                            let y = &inner[j].1;
                            proof {
                                assert(ims[j as int].1 == y@);
                            }
                            if y.is_array() {
                                let ghost prev = arrays@;
                                arrays.push(y);
                                proof {
                                    assert(refs_view(arrays@) =~= refs_view(prev).push(y@));
                                    assert(before + array_values(ims, j + 1) =~= (before + array_values(
                                        ims,
                                        j as int,
                                    )).push(y@));
                                }
                            }
                            j = j + 1;
                        }
                    }
                    i = i + 1;
                }
            }
        },
        _ => {
            proof {
                assert(refs_view(arrays@) =~= Seq::<JsonView>::empty());
            }
        },
    }
    arrays
}

/// The text of `item[key]`, when that is a string.
fn member_text_of<'a>(item: &'a Json, key: &str) -> (r: Option<&'a str>)
    ensures
        match r {
            Some(t) => member_text(item@, key@) == Some(t@),
            None => member_text(item@, key@) is None,
        },
{
    match item.get(key) {
        Some(x) => x.as_str(),
        None => None,
    }
}

/// The symbol of an entry ([`symbol_text`]).
fn symbol_of(item: &Json) -> (r: Option<&str>)
    ensures
        match r {
            Some(t) => symbol_text(item@) == Some(t@),
            None => symbol_text(item@) is None,
        },
{
    match member_text_of(item, "Symbol") {
        Some(t) => Some(t),
        None => member_text_of(item, "symbol"),
    }
}

/// The summary of an entry ([`value_text`]).
fn value_of(item: &Json) -> (r: &str)
    ensures
        r@ == value_text(item@),
{
    match member_text_of(item, "Value") {
        Some(t) => t,
        None => match member_text_of(item, "value") {
            Some(t) => t,
            None => {
                proof {
                    reveal_strlit("");
                }
                ""
            },
        },
    }
}

/// What the ISIN keys of an entry give ([`keyed_isin`]).
fn keyed_isin_of(item: &Json, target_norm: &str) -> (r: Result<Option<String>, ProbeFailed>)
    ensures
        search_result(r, keyed_isin(item@, target_norm@, 0)),
{
    let mut k: usize = 0;
    while k < 3
        invariant
            k <= 3,
            keyed_isin(item@, target_norm@, 0) == keyed_isin(item@, target_norm@, k as int),
        decreases 3 - k,
    {
        if let Some(x) = member_text_of(item, isin_key_text(k)) {
            match probe_isin(x) {
                None => return Err(ProbeFailed),
                Some(true) => {
                    let matches = match symbol_of(item) {
                        None => true,
                        Some(sym) => {
                            let n = normalize_sym(sym);
                            chars_of(sym).len() == 0 || text_equal(&n, target_norm)
                        },
                    };
                    if matches {
                        return Ok(Some(to_ascii_upper(x)));
                    }
                },
                Some(false) => {},
            }
        }
        k = k + 1;
    }
    Ok(None)
}

/// The first ISIN-shaped text value among `members` ([`member_isin`]).
fn member_isin_of(members: &Vec<(String, Json)>) -> (r: Result<Option<String>, ProbeFailed>)
    ensures
        search_result(r, member_isin(members_view(members@), 0)),
{
    let ghost ms = members_view(members@);
    let mut i: usize = 0;
    while i < members.len()
        invariant
            i <= members@.len() == ms.len(),
            ms == members_view(members@),
            member_isin(ms, 0) == member_isin(ms, i as int),
        decreases members.len() - i,
    {
        proof {
            assert(ms[i as int].1 == members@[i as int].1@);
        }
        if let Some(t) = members[i].1.as_str() {
            match probe_isin(t) {
                None => return Err(ProbeFailed),
                Some(true) => return Ok(Some(to_ascii_upper(t))),
                Some(false) => {},
            }
        }
        i = i + 1;
    }
    Ok(None)
}

/// What one entry of a search response gives ([`entry_isin`]).
fn entry_isin_of(item: &Json, target_norm: &str) -> (r: Result<Option<String>, ProbeFailed>)
    ensures
        search_result(r, entry_isin(item@, target_norm@)),
{
    proof {
        lemma_view_of_containers(*item);
    }
    let members = match item.as_object() {
        Some(m) => m,
        None => return Ok(None),
    };
    match keyed_isin_of(item, target_norm) {
        Ok(None) => {},
        other => return other,
    }
    let vt = value_of(item);
    if chars_of(vt).len() > 0 {
        let parts = split_parts(vt);
        match pick_from_parts(parts.as_slice(), target_norm) {
            Ok(None) => {},
            other => return other,
        }
    }
    match symbol_of(item) {
        Some(sym) => {
            let n = normalize_sym(sym);
            if text_equal(&n, target_norm) {
                member_isin_of(members)
            } else {
                Ok(None)
            }
        },
        None => Ok(None),
    }
}

/// The ISIN a JSON search response gives for the normalised symbol
/// `target_norm` ([`json_isin`]); `Err` where probing a text fails first.
pub fn extract_from_json_value(v: &Json, target_norm: &str) -> (r: Result<Option<String>, ProbeFailed>)
    ensures
        search_result(r, json_isin(v@, target_norm@)),
{
    let arrays = candidate_arrays_of(v);
    let ghost arrs = candidate_arrays(v@);
    let mut a: usize = 0;
    while a < arrays.len()
        invariant
            a <= arrays@.len() == arrs.len(),
            refs_view(arrays@) == arrs,
            arrs == candidate_arrays(v@),
            arrays_isin(arrs, target_norm@, 0) == arrays_isin(arrs, target_norm@, a as int),
        decreases arrays.len() - a,
    {
        proof {
            assert(arrs[a as int] == arrays@[a as int]@);
        }
        if let Some(items) = arrays[a].as_array() {
            let ghost its = crate::json::items_view(items@);
            let mut j: usize = 0;
            while j < items.len()
                invariant
                    j <= items@.len() == its.len(),
                    its == crate::json::items_view(items@),
                    a < arrs.len(),
                    arrs == candidate_arrays(v@),
                    arrays_isin(arrs, target_norm@, 0) == arrays_isin(arrs, target_norm@, a as int),
                    arrs[a as int] == JsonView::Array(its),
                    items_isin(its, target_norm@, 0) == items_isin(its, target_norm@, j as int),
                decreases items.len() - j,
            {
                match entry_isin_of(&items[j], target_norm) {
                    Ok(None) => {},
                    other => {
                        proof {
                            assert(items_isin(its, target_norm@, 0) == entry_isin(its[j as int], target_norm@));
                        }
                        return other;
                    },
                }
                j = j + 1;
            }
        }
        a = a + 1;
    }
    Ok(None)
}

/// The ISIN the response `body`, read as JSON, gives for the normalised
/// symbol `input_norm` ([`body_json_isin`]).
pub fn parse_as_json_value(body: &str, input_norm: &str) -> (r: Result<Option<String>, ProbeFailed>)
    ensures
        search_result(r, body_json_isin(body@, input_norm@)),
{
    match parse_json(body) {
        Some(v) => extract_from_json_value(&v, input_norm),
        None => Ok(None),
    }
}

/// A text the ISIN lookup may give: trimmed, it has the shape of an ISIN and
/// no lower-case ASCII letter.
pub open spec fn isin_answer(x: Seq<char>) -> bool {
    &&& isin_shape(trim_all(x))
    &&& forall|k: int| 0 <= k < trim_all(x).len() ==> !('a' <= #[trigger] trim_all(x)[k] && trim_all(x)[k] <= 'z')
}

/// Whether an outcome, where it is an answer, is an ISIN answer.
pub open spec fn answer_is_isin(r: Option<Option<Seq<char>>>) -> bool {
    r matches Some(Some(x)) ==> isin_answer(x)
}

proof fn lemma_upper_answer(x: Seq<char>)
    requires
        isin_probe(x) == Some(true),
    ensures
        isin_answer(ascii_upper(x)),
{
    let u = ascii_upper(x);
    assert forall|j: int| 0 <= j < x.len() implies is_white_space(#[trigger] x[j]) == is_white_space(u[j]) by {
        assert(u[j] == upper_char(x[j]));
    }
    lemma_trim_commutes(x, u);
    assert(trim_all(u) =~= ascii_upper(trim_all(x)));
    lemma_upper_keeps_shape(trim_all(x));
}

proof fn lemma_shaped_answer(x: Seq<char>)
    requires
        isin_shape(x),
        forall|k: int| 0 <= k < x.len() ==> !('a' <= #[trigger] x[k] && x[k] <= 'z'),
    ensures
        isin_answer(x),
{
    assert(is_ws_end(x, 0, 12, 0));
    lemma_ws_end_unique(x, 0, 12, 0);
    assert(is_ws_back(x, 0, 12, 12));
    lemma_ws_back_unique(x, 0, 12, 12);
    assert(trim_all(x) =~= x);
}

proof fn lemma_first_isin_index_probed(ps: Seq<Seq<char>>, i: int)
    ensures
        first_isin_index(ps, i) matches Some(Some(k)) ==> 0 <= k < ps.len() && isin_probe(ps[k]) == Some(
            true,
        ),
    decreases ps.len() - i,
{
    if 0 <= i < ps.len() {
        lemma_first_isin_index_probed(ps, i + 1);
    }
}

proof fn lemma_pick_answer(parts: Seq<Seq<char>>, target: Seq<char>)
    ensures
        answer_is_isin(pick_spec(parts, target)),
{
    lemma_first_isin_index_probed(parts, 0);
    if let Some(Some(k)) = first_isin_index(parts, 0) {
        lemma_upper_answer(parts[k]);
    }
}

proof fn lemma_keyed_answer(item: JsonView, target: Seq<char>, k: int)
    ensures
        answer_is_isin(keyed_isin(item, target, k)),
    decreases 3 - k,
{
    if 0 <= k < 3 {
        if let Some(x) = member_text(item, isin_key(k)) {
            if isin_probe(x) == Some(true) {
                lemma_upper_answer(x);
            }
        }
        lemma_keyed_answer(item, target, k + 1);
    }
}

proof fn lemma_member_answer(ms: Seq<(Seq<char>, JsonView)>, i: int)
    ensures
        answer_is_isin(member_isin(ms, i)),
    decreases ms.len() - i,
{
    if 0 <= i < ms.len() {
        if let Some(t) = text_of(ms[i].1) {
            if isin_probe(t) == Some(true) {
                lemma_upper_answer(t);
            }
        }
        lemma_member_answer(ms, i + 1);
    }
}

proof fn lemma_entry_answer(item: JsonView, target: Seq<char>)
    ensures
        answer_is_isin(entry_isin(item, target)),
{
    if let JsonView::Object(ms) = item {
        lemma_keyed_answer(item, target, 0);
        lemma_pick_answer(bar_parts(value_text(item)), target);
        lemma_member_answer(ms, 0);
    }
}

proof fn lemma_items_answer(items: Seq<JsonView>, target: Seq<char>, j: int)
    ensures
        answer_is_isin(items_isin(items, target, j)),
    decreases items.len() - j,
{
    if 0 <= j < items.len() {
        lemma_entry_answer(items[j], target);
        lemma_items_answer(items, target, j + 1);
    }
}

proof fn lemma_arrays_answer(arrs: Seq<JsonView>, target: Seq<char>, a: int)
    ensures
        answer_is_isin(arrays_isin(arrs, target, a)),
    decreases arrs.len() - a,
{
    if 0 <= a < arrs.len() {
        if let JsonView::Array(items) = arrs[a] {
            lemma_items_answer(items, target, 0);
        }
        lemma_arrays_answer(arrs, target, a + 1);
    }
}

proof fn lemma_first_pass_answer(rs: Seq<FlatSuggest>, target: Seq<char>, i: int)
    ensures
        answer_is_isin(first_pass(rs, target, i)),
    decreases rs.len() - i,
{
    if 0 <= i < rs.len() {
        let r = rs[i];
        if let Some(x) = r.isin {
            if isin_probe(x@) == Some(true) {
                lemma_upper_answer(x@);
            }
        }
        if let Some(v) = r.value {
            lemma_pick_answer(bar_parts(v@), target);
        }
        lemma_first_pass_answer(rs, target, i + 1);
    }
}

proof fn lemma_second_pass_answer(rs: Seq<FlatSuggest>, i: int)
    ensures
        answer_is_isin(second_pass(rs, i)),
    decreases rs.len() - i,
{
    if 0 <= i < rs.len() {
        let r = rs[i];
        if let Some(x) = r.isin {
            if isin_probe(x@) == Some(true) {
                lemma_upper_answer(x@);
            }
        }
        if let Some(v) = r.value {
            lemma_first_isin_index_probed(bar_tokens(v@), 0);
            if let Some(Some(k)) = first_isin_index(bar_tokens(v@), 0) {
                lemma_upper_answer(bar_tokens(v@)[k]);
            }
        }
        lemma_second_pass_answer(rs, i + 1);
    }
}

/// Whatever ISIN the lookup finds, in the JSON shapes of the response, in
/// its flat entries or in the raw body, is, trimmed, twelve characters in
/// the shape of an ISIN, with no lower-case letter.
pub proof fn lemma_resolved_isin_shape(symbol: Seq<char>, body: Seq<char>, flat: Option<Seq<FlatSuggest>>)
    ensures
        answer_is_isin(isin_resolution(symbol, body, flat)),
{
    let target = normalized_symbol(symbol);
    if let Some(v) = parsed_json(body) {
        lemma_arrays_answer(candidate_arrays(v), target, 0);
    }
    if let Some(rs) = flat {
        lemma_first_pass_answer(rs, target, 0);
        lemma_second_pass_answer(rs, 0);
    }
    lemma_raw_scan_shape(body, 0);
    if let Some(x) = raw_scan_from(body, 0) {
        lemma_shaped_answer(x);
    }
}

} // verus!
