//! Text scanning over character sequences: searching, trimming and
//! building strings.
use vstd::prelude::*;
use vstd::string::StringExecFns;

verus! {

/// Whether `needle` occurs in `hay` at position `i`.
pub open spec fn occurs_at(hay: Seq<char>, needle: Seq<char>, i: int) -> bool {
    0 <= i && i + needle.len() <= hay.len() && hay.subrange(i, i + needle.len() as int) == needle
}

/// Whether `needle` occurs in `hay` at some position in `from..`.
pub open spec fn occurs_from(hay: Seq<char>, needle: Seq<char>, from: int) -> bool {
    exists|i: int| from <= i && #[trigger] occurs_at(hay, needle, i)
}

/// The first position at or after `from` where `needle` occurs in `hay`.
#[verifier::opaque]
pub open spec fn first_occurrence(hay: Seq<char>, needle: Seq<char>, from: int) -> Option<int> {
    if occurs_from(hay, needle, from) {
        Some(choose|i: int| from <= i && occurs_at(hay, needle, i) && forall|j: int| from <= j < i ==> !occurs_at(hay, needle, j))
    } else {
        None
    }
}

/// Whether `i` is the first position at or after `from` where `needle` occurs.
pub open spec fn is_first_occurrence(hay: Seq<char>, needle: Seq<char>, from: int, i: int) -> bool {
    &&& from <= i
    &&& occurs_at(hay, needle, i)
    &&& forall|j: int| from <= j < i ==> !occurs_at(hay, needle, j)
}

/// The characters of `s` (`str::chars`).
pub fn chars_of(s: &str) -> (r: Vec<char>)
    ensures
        r@ == s@,
{
    let mut r: Vec<char> = Vec::new();
    let ghost all = s@;
    for c in it: s.chars()
        invariant
            all == it.seq(),
            all == s@,
            r@ == all.take(it.index() as int),
    {
        proof {
            assert(all.take(it.index() + 1) =~= all.take(it.index() as int).push(c));
        }
        r.push(c);
    }
    proof {
        assert(all.take(all.len() as int) =~= all);
    }
    r
}

/// Appends a character (`String::push`).
#[verifier::external_body]
pub(crate) fn push_char(s: &mut String, c: char)
    ensures
        final(s)@ == old(s)@.push(c),
{
    s.push(c);
}

/// Appends a string.
pub(crate) fn push_str(s: &mut String, t: &str)
    ensures
        final(s)@ == old(s)@ + t@,
{
    s.append(t);
}

/// The string made of `chars[from..to]`.
pub fn string_of_range(chars: &Vec<char>, from: usize, to: usize) -> (r: String)
    requires
        from <= to <= chars.len(),
    ensures
        r@ == chars@.subrange(from as int, to as int),
{
    let mut r = String::new();
    let mut k = from;
    while k < to
        invariant
            from <= k <= to <= chars.len(),
            r@ == chars@.subrange(from as int, k as int),
        decreases to - k,
    {
        push_char(&mut r, chars[k]);
        proof {
            assert(chars@.subrange(from as int, k + 1) =~= chars@.subrange(from as int, k as int).push(chars@[k as int]));
        }
        k = k + 1;
    }
    r
}

/// Appends `chars[from..to]` to `out`.
pub fn push_range(out: &mut String, chars: &Vec<char>, from: usize, to: usize)
    requires
        from <= to <= chars.len(),
    ensures
        final(out)@ == old(out)@ + chars@.subrange(from as int, to as int),
{
    let mut k = from;
    while k < to
        invariant
            from <= k <= to <= chars.len(),
            out@ == old(out)@ + chars@.subrange(from as int, k as int),
        decreases to - k,
    {
        push_char(out, chars[k]);
        proof {
            assert(chars@.subrange(from as int, k + 1) =~= chars@.subrange(from as int, k as int).push(chars@[k as int]));
        }
        k = k + 1;
    }
}

/// Whether `needle` occurs in `hay` at `i`.
pub fn matches_at(hay: &Vec<char>, needle: &Vec<char>, i: usize) -> (b: bool)
    ensures
        b == occurs_at(hay@, needle@, i as int),
{
    if i > hay.len() || needle.len() > hay.len() - i {
        return false;
    }
    let mut k: usize = 0;
    while k < needle.len()
        invariant
            i + needle.len() <= hay.len(),
            k <= needle.len(),
            forall|j: int| 0 <= j < k ==> hay@[i + j] == needle@[j],
        decreases needle.len() - k,
    {
        if hay[i + k] != needle[k] {
            proof {
                assert(hay@.subrange(i as int, i + needle.len())[k as int] != needle@[k as int]);
            }
            return false;
        }
        k = k + 1;
    }
    proof {
        assert(hay@.subrange(i as int, i + needle.len()) =~= needle@);
    }
    true
}

/// A first occurrence is the one that [`first_occurrence`] names.
pub proof fn lemma_first_occurrence_unique(hay: Seq<char>, needle: Seq<char>, from: int, i: int)
    requires
        is_first_occurrence(hay, needle, from, i),
    ensures
        first_occurrence(hay, needle, from) == Some(i),
{
    reveal(first_occurrence);
    assert(occurs_from(hay, needle, from));
    let c = choose|k: int|
        from <= k && occurs_at(hay, needle, k) && forall|j: int| from <= j < k ==> !occurs_at(hay, needle, j);
    assert(is_first_occurrence(hay, needle, from, c));
    if c < i {
        assert(!occurs_at(hay, needle, c));
    }
    if i < c {
        assert(!occurs_at(hay, needle, i));
    }
}

/// The first position at or after `from` where `needle` occurs in `hay`.
pub fn find_from(hay: &Vec<char>, needle: &Vec<char>, from: usize) -> (r: Option<usize>)
    ensures
        match r {
            Some(i) => is_first_occurrence(hay@, needle@, from as int, i as int),
            None => !occurs_from(hay@, needle@, from as int),
        },
        match r {
            Some(i) => first_occurrence(hay@, needle@, from as int) == Some(i as int),
            None => first_occurrence(hay@, needle@, from as int) is None,
        },
        r matches Some(i) ==> from <= i && i + needle@.len() <= hay@.len(),
{
    let mut i = from;
    loop
        invariant_except_break
            from <= i,
            forall|j: int| from <= j < i ==> !occurs_at(hay@, needle@, j),
        ensures
            from <= i,
            i >= hay.len(),
            forall|j: int| from <= j <= i ==> !occurs_at(hay@, needle@, j),
        decreases hay.len() + 1 - i,
    {
        if matches_at(hay, needle, i) {
            proof {
                lemma_first_occurrence_unique(hay@, needle@, from as int, i as int);
            }
            return Some(i);
        }
        if i >= hay.len() {
            break;
        }
        i = i + 1;
    }
    proof {
        assert forall|j: int| from <= j implies !#[trigger] occurs_at(hay@, needle@, j) by {
            if j > i {
                assert(j + needle@.len() > hay@.len());
            }
        }
        reveal(first_occurrence);
    }
    None
}

/// Whether `c` is a Unicode `White_Space` character (`char::is_whitespace`).
pub open spec fn is_white_space(c: char) -> bool {
    ||| '\t' <= c <= '\r'
    ||| c == ' '
    ||| c == '\u{85}'
    ||| c == '\u{a0}'
    ||| c == '\u{1680}'
    ||| '\u{2000}' <= c <= '\u{200a}'
    ||| c == '\u{2028}'
    ||| c == '\u{2029}'
    ||| c == '\u{202f}'
    ||| c == '\u{205f}'
    ||| c == '\u{3000}'
}

/// Whether `c` is a Unicode `White_Space` character.
pub fn white_space(c: char) -> (b: bool)
    ensures
        b == is_white_space(c),
{
    ('\t' <= c && c <= '\r') || c == ' ' || c == '\u{85}' || c == '\u{a0}' || c == '\u{1680}'
        || ('\u{2000}' <= c && c <= '\u{200a}') || c == '\u{2028}' || c == '\u{2029}' || c
        == '\u{202f}' || c == '\u{205f}' || c == '\u{3000}'
}

/// `k` is the first position in `from..to` that is not white space, or `to`.
pub open spec fn is_ws_end(s: Seq<char>, from: int, to: int, k: int) -> bool {
    &&& from <= k <= to
    &&& forall|j: int| from <= j < k ==> is_white_space(#[trigger] s[j])
    &&& k < to ==> !is_white_space(s[k])
}

/// The first position in `from..to` that is not white space, or `to`: where
/// `trim_start` lets `s[from..to]` begin.
pub open spec fn ws_end(s: Seq<char>, from: int, to: int) -> int {
    choose|k: int| is_ws_end(s, from, to, k)
}

/// `k` is the position after the last character in `from..to` that is not
/// white space, or `from`.
pub open spec fn is_ws_back(s: Seq<char>, from: int, to: int, k: int) -> bool {
    &&& from <= k <= to
    &&& forall|j: int| k <= j < to ==> is_white_space(#[trigger] s[j])
    &&& k > from ==> !is_white_space(s[k - 1])
}

/// Where `trim_end` lets `s[from..to]` end.
pub open spec fn ws_back(s: Seq<char>, from: int, to: int) -> int {
    choose|k: int| is_ws_back(s, from, to, k)
}

/// `s[from..to]` with white space trimmed from both ends (`str::trim`).
pub open spec fn trimmed(s: Seq<char>, from: int, to: int) -> Seq<char> {
    let a = ws_end(s, from, to);
    s.subrange(a, ws_back(s, a, to))
}

pub proof fn lemma_ws_end_unique(s: Seq<char>, from: int, to: int, k: int)
    requires
        is_ws_end(s, from, to, k),
    ensures
        ws_end(s, from, to) == k,
{
    let c = ws_end(s, from, to);
    assert(is_ws_end(s, from, to, c));
    if c < k {
        assert(is_white_space(s[c]));
    }
    if k < c {
        assert(is_white_space(s[k]));
    }
}

pub proof fn lemma_ws_back_unique(s: Seq<char>, from: int, to: int, k: int)
    requires
        is_ws_back(s, from, to, k),
    ensures
        ws_back(s, from, to) == k,
{
    let c = ws_back(s, from, to);
    assert(is_ws_back(s, from, to, c));
    if c < k {
        assert(is_white_space(s[k - 1]));
    }
    if k < c {
        assert(is_white_space(s[c - 1]));
    }
}

/// The first position in `from..to` that is not white space, or `to`.
pub fn skip_white_space(hay: &Vec<char>, from: usize, to: usize) -> (r: usize)
    requires
        from <= to <= hay.len(),
    ensures
        from <= r <= to,
        forall|j: int| from <= j < r ==> is_white_space(hay@[j]),
        r < to ==> !is_white_space(hay@[r as int]),
        r == ws_end(hay@, from as int, to as int),
{
    let mut i = from;
    while i < to && white_space(hay[i])
        invariant
            from <= i <= to <= hay.len(),
            forall|j: int| from <= j < i ==> is_white_space(hay@[j]),
        decreases to - i,
    {
        i = i + 1;
    }
    proof {
        lemma_ws_end_unique(hay@, from as int, to as int, i as int);
    }
    i
}

/// The position after the last character in `from..to` that is not white space,
/// or `from`.
pub fn trim_end_position(hay: &Vec<char>, from: usize, to: usize) -> (r: usize)
    requires
        from <= to <= hay.len(),
    ensures
        from <= r <= to,
        forall|j: int| r <= j < to ==> is_white_space(hay@[j]),
        r > from ==> !is_white_space(hay@[r - 1]),
        r == ws_back(hay@, from as int, to as int),
{
    let mut i = to;
    while i > from && white_space(hay[i - 1])
        invariant
            from <= i <= to <= hay.len(),
            forall|j: int| i <= j < to ==> is_white_space(hay@[j]),
        decreases i,
    {
        i = i - 1;
    }
    proof {
        lemma_ws_back_unique(hay@, from as int, to as int, i as int);
    }
    i
}

/// `i` is the last position in `from..to` where `c` stands.
pub open spec fn is_last_char(s: Seq<char>, c: char, from: int, to: int, i: int) -> bool {
    &&& from <= i < to
    &&& s[i] == c
    &&& forall|j: int| i < j < to ==> s[j] != c
}

/// The last position in `from..to` where `c` stands (`str::rfind`).
pub open spec fn last_char_between(s: Seq<char>, c: char, from: int, to: int) -> Option<int> {
    if exists|i: int| from <= i < to && s[i] == c {
        Some(choose|i: int| is_last_char(s, c, from, to, i))
    } else {
        None
    }
}

/// The last position in `from..to` where `c` stands.
pub fn rfind_char_between(hay: &Vec<char>, c: char, from: usize, to: usize) -> (r: Option<usize>)
    requires
        from <= to <= hay.len(),
    ensures
        match r {
            Some(i) => last_char_between(hay@, c, from as int, to as int) == Some(i as int),
            None => last_char_between(hay@, c, from as int, to as int) is None,
        },
        r matches Some(i) ==> from <= i < to,
{
    let mut i = to;
    while i > from
        invariant
            from <= i <= to <= hay.len(),
            forall|j: int| i <= j < to ==> hay@[j] != c,
        decreases i,
    {
        if hay[i - 1] == c {
            proof {
                let k = (i - 1) as int;
                assert(is_last_char(hay@, c, from as int, to as int, k));
                let w = choose|w: int| is_last_char(hay@, c, from as int, to as int, w);
                assert(is_last_char(hay@, c, from as int, to as int, w));
                if w < k {
                    assert(hay@[k] != c);
                }
                if k < w {
                    assert(hay@[w] != c);
                }
            }
            return Some(i - 1);
        }
        i = i - 1;
    }
    None
}

/// `s` with every non-overlapping occurrence of `pat`, scanned from the left,
/// replaced by `rep` (`str::replace`).
pub open spec fn replace_all(s: Seq<char>, pat: Seq<char>, rep: Seq<char>) -> Seq<char>
    decreases s.len(),
{
    if pat.len() == 0 || s.len() < pat.len() {
        s
    } else if s.take(pat.len() as int) == pat {
        rep + replace_all(s.skip(pat.len() as int), pat, rep)
    } else {
        seq![s[0]] + replace_all(s.skip(1), pat, rep)
    }
}

/// `s` with every occurrence of `pat` replaced by `rep`.
pub fn replace_text(s: &str, pat: &str, rep: &str) -> (r: String)
    requires
        pat@.len() > 0,
    ensures
        r@ == replace_all(s@, pat@, rep@),
{
    let cs = chars_of(s);
    let pc = chars_of(pat);
    let n = cs.len();
    let mut out = String::new();
    let mut i: usize = 0;
    proof {
        assert(s@.skip(0) =~= s@);
        assert(out@ + replace_all(s@, pat@, rep@) =~= replace_all(s@, pat@, rep@));
    }
    while i < n
        invariant
            n == cs.len(),
            i <= n,
            cs@ == s@,
            pc@ == pat@,
            pat@.len() > 0,
            replace_all(s@, pat@, rep@) == out@ + replace_all(s@.skip(i as int), pat@, rep@),
        decreases n - i,
    {
        let ghost rest = s@.skip(i as int);
        let plen = pc.len();
        if matches_at(&cs, &pc, i) {
            proof {
                assert(rest.take(plen as int) =~= s@.subrange(i as int, i + plen));
                assert(rest.skip(plen as int) =~= s@.skip(i + plen));
            }
            push_str(&mut out, rep);
            i = i + plen;
        } else {
            proof {
                assert(rest.skip(1) =~= s@.skip(i + 1));
                if rest.len() >= plen {
                    assert(rest.take(plen as int) =~= s@.subrange(i as int, i + plen));
                } else {
                    assert(rest =~= seq![rest[0]] + rest.skip(1));
                }
            }
            push_char(&mut out, cs[i]);
            i = i + 1;
        }
    }
    proof {
        assert(s@.skip(n as int) =~= Seq::<char>::empty());
        assert(out@ + Seq::<char>::empty() =~= out@);
    }
    out
}

/// Whether `a` and `b` are the same text.
pub fn text_eq(a: &str, b: &str) -> (r: bool)
    ensures
        r == (a@ == b@),
{
    let ac = chars_of(a);
    let bc = chars_of(b);
    if ac.len() != bc.len() {
        return false;
    }
    let mut i: usize = 0;
    while i < ac.len()
        invariant
            ac@ == a@,
            bc@ == b@,
            ac.len() == bc.len(),
            i <= ac.len(),
            forall|j: int| 0 <= j < i ==> ac@[j] == bc@[j],
        decreases ac.len() - i,
    {
        if ac[i] != bc[i] {
            return false;
        }
        i = i + 1;
    }
    proof {
        assert(ac@ =~= bc@);
    }
    true
}

/// The first position where the character `c` stands in `t`, by
/// [`first_occurrence`].
pub proof fn lemma_first_char_occurrence(t: Seq<char>, c: char, i: int)
    requires
        0 <= i < t.len(),
        t[i] == c,
        forall|j: int| 0 <= j < i ==> t[j] != c,
    ensures
        first_occurrence(t, seq![c], 0) == Some(i),
{
    assert(t.subrange(i, i + 1) =~= seq![c]);
    assert forall|j: int| 0 <= j < i implies !occurs_at(t, seq![c], j) by {
        if occurs_at(t, seq![c], j) {
            assert(t.subrange(j, j + 1)[0] == t[j]);
        }
    }
    lemma_first_occurrence_unique(t, seq![c], 0, i);
}

/// A character that does not stand in `t` does not occur in it.
pub proof fn lemma_no_char_occurrence(t: Seq<char>, c: char)
    requires
        forall|j: int| 0 <= j < t.len() ==> t[j] != c,
    ensures
        first_occurrence(t, seq![c], 0) is None,
{
    reveal(first_occurrence);
    assert forall|j: int| 0 <= j implies !#[trigger] occurs_at(t, seq![c], j) by {
        if occurs_at(t, seq![c], j) {
            assert(t.subrange(j, j + 1)[0] == t[j]);
        }
    }
}

/// The decimal digit `d`.
pub open spec fn digit_char(d: nat) -> char {
    ((48 + d) as u32) as char
}

/// The decimal text of `n`.
pub open spec fn nat_text(n: nat) -> Seq<char>
    decreases n,
{
    if n < 10 {
        seq![digit_char(n)]
    } else {
        nat_text(n / 10).push(digit_char(n % 10))
    }
}

/// The decimal text of `v`, with `-` before a negative number
/// (`i64::to_string`).
pub open spec fn int_text(v: int) -> Seq<char> {
    if v < 0 {
        seq!['-'] + nat_text((-v) as nat)
    } else {
        nat_text(v as nat)
    }
}

fn digit(d: u64) -> (c: char)
    requires
        d < 10,
    ensures
        c == digit_char(d as nat),
{
    ((48 + d) as u8) as char
}

fn push_nat_text(out: &mut String, n: u64)
    ensures
        final(out)@ == old(out)@ + nat_text(n as nat),
    decreases n,
{
    if n >= 10 {
        push_nat_text(out, n / 10);
    }
    push_char(out, digit(n % 10));
    proof {
        if n >= 10 {
            assert(old(out)@ + nat_text((n / 10) as nat) + seq![digit_char((n % 10) as nat)] =~= old(out)@ + nat_text(
                n as nat,
            ));
        } else {
            assert(old(out)@ + seq![digit_char((n % 10) as nat)] =~= old(out)@ + nat_text(n as nat));
        }
    }
}

/// The decimal text of `v` ([`int_text`]).
pub fn int_to_text(v: i64) -> (r: String)
    ensures
        r@ == int_text(v as int),
{
    let mut out = String::new();
    if v < 0 {
        push_char(&mut out, '-');
        let m: u64 = if v == i64::MIN {
            9223372036854775808u64
        } else {
            (-v) as u64
        };
        push_nat_text(&mut out, m);
    } else {
        push_nat_text(&mut out, v as u64);
    }
    out
}

proof fn lemma_first_exists(hay: Seq<char>, needle: Seq<char>, from: int, i0: int)
    requires
        from <= i0,
        occurs_at(hay, needle, i0),
    ensures
        exists|i: int| is_first_occurrence(hay, needle, from, i),
    decreases i0 - from,
{
    if occurs_at(hay, needle, from) {
        assert(is_first_occurrence(hay, needle, from, from));
    } else {
        lemma_first_exists(hay, needle, from + 1, i0);
        let i = choose|i: int| #[trigger] is_first_occurrence(hay, needle, from + 1, i);
        assert(is_first_occurrence(hay, needle, from, i));
    }
}

/// What [`first_occurrence`] names: the first occurrence, or no occurrence
/// at all.
pub proof fn lemma_first_occurrence_props(hay: Seq<char>, needle: Seq<char>, from: int)
    ensures
        match first_occurrence(hay, needle, from) {
            Some(i) => is_first_occurrence(hay, needle, from, i),
            None => !occurs_from(hay, needle, from),
        },
{
    reveal(first_occurrence);
    if occurs_from(hay, needle, from) {
        let i0 = choose|i: int| from <= i && #[trigger] occurs_at(hay, needle, i);
        lemma_first_exists(hay, needle, from, i0);
    }
}

/// Where a single character occurs.
pub proof fn lemma_char_occurs_at(hay: Seq<char>, c: char, j: int)
    ensures
        occurs_at(hay, seq![c], j) <==> (0 <= j < hay.len() && hay[j] == c),
{
    if 0 <= j < hay.len() {
        if hay[j] == c {
            assert(hay.subrange(j, j + 1) =~= seq![c]);
        } else {
            assert(hay.subrange(j, j + 1)[0] == hay[j]);
        }
    }
}

/// The pieces of `s` between `sep` separators (`str::split`).
pub open spec fn split_on(s: Seq<char>, sep: char) -> Seq<Seq<char>>
    decreases s.len(),
{
    match first_occurrence(s, seq![sep], 0) {
        Some(i) => if 0 <= i < s.len() {
            seq![s.take(i)] + split_on(s.skip(i + 1), sep)
        } else {
            seq![s]
        },
        None => seq![s],
    }
}

/// The pieces of `s` between `sep` separators ([`split_on`]).
pub fn split_chars(s: &str, sep: char) -> (r: Vec<Vec<char>>)
    ensures
        r@.len() == split_on(s@, sep).len(),
        forall|k: int| 0 <= k < r@.len() ==> (#[trigger] r@[k])@ == split_on(s@, sep)[k],
{
    let cs = chars_of(s);
    let n = cs.len();
    let mut out: Vec<Vec<char>> = Vec::new();
    let mut cur: Vec<char> = Vec::new();
    let mut start: usize = 0;
    let mut i: usize = 0;
    let ghost mut done: Seq<Seq<char>> = Seq::empty();
    proof {
        assert(cs@.skip(0) =~= cs@);
        assert(done + split_on(cs@, sep) =~= split_on(cs@, sep));
    }
    while i < n
        invariant
            n == cs.len(),
            cs@ == s@,
            start <= i <= n,
            cur@ == cs@.subrange(start as int, i as int),
            forall|j: int| start <= j < i ==> cs@[j] != sep,
            split_on(cs@, sep) == done + split_on(cs@.skip(start as int), sep),
            out@.len() == done.len(),
            forall|k: int| 0 <= k < out@.len() ==> (#[trigger] out@[k])@ == done[k],
        decreases n - i,
    {
        if cs[i] == sep {
            proof {
                let u = cs@.skip(start as int);
                assert forall|j: int| 0 <= j < i - start implies u[j] != sep by {
                    assert(u[j] == cs@[start + j]);
                }
                lemma_first_char_occurrence(u, sep, i - start);
                assert(u.take(i - start) =~= cur@);
                assert(u.skip(i - start + 1) =~= cs@.skip(i + 1));
                let before = done;
                done = done.push(cur@);
                assert(before + (seq![cur@] + split_on(cs@.skip(i + 1), sep)) =~= done + split_on(
                    cs@.skip(i + 1),
                    sep,
                ));
            }
            out.push(cur);
            cur = Vec::new();
            start = i + 1;
            proof {
                assert(cur@ =~= cs@.subrange(start as int, start as int));
            }
        } else {
            proof {
                assert(cs@.subrange(start as int, i + 1) =~= cs@.subrange(start as int, i as int).push(
                    cs@[i as int],
                ));
            }
            cur.push(cs[i]);
        }
        i = i + 1;
    }
    proof {
        let u = cs@.skip(start as int);
        assert forall|j: int| 0 <= j < u.len() implies u[j] != sep by {
            assert(u[j] == cs@[start + j]);
        }
        lemma_no_char_occurrence(u, sep);
        assert(u =~= cur@);
        let before = done;
        done = done.push(cur@);
        assert(before + seq![cur@] =~= done);
    }
    out.push(cur);
    out
}

/// Where `trim_start` lets `s[from..to]` begin exists.
pub proof fn lemma_ws_end_exists(s: Seq<char>, from: int, to: int)
    requires
        from <= to,
    ensures
        is_ws_end(s, from, to, ws_end(s, from, to)),
    decreases to - from,
{
    if from == to || !is_white_space(s[from]) {
        assert(is_ws_end(s, from, to, from));
    } else {
        lemma_ws_end_exists(s, from + 1, to);
        let k = ws_end(s, from + 1, to);
        assert(is_ws_end(s, from, to, k));
    }
}

/// Where `trim_end` lets `s[from..to]` end exists.
pub proof fn lemma_ws_back_exists(s: Seq<char>, from: int, to: int)
    requires
        from <= to,
    ensures
        is_ws_back(s, from, to, ws_back(s, from, to)),
    decreases to - from,
{
    if from == to || !is_white_space(s[to - 1]) {
        assert(is_ws_back(s, from, to, to));
    } else {
        lemma_ws_back_exists(s, from, to - 1);
        let k = ws_back(s, from, to - 1);
        assert(is_ws_back(s, from, to, k));
    }
}

/// Trimming commutes with a change of characters that keeps which of them
/// are white space.
pub proof fn lemma_trim_commutes(s: Seq<char>, t: Seq<char>)
    requires
        s.len() == t.len(),
        forall|j: int| 0 <= j < s.len() ==> is_white_space(#[trigger] s[j]) == is_white_space(t[j]),
    ensures
        ws_end(s, 0, s.len() as int) == ws_end(t, 0, t.len() as int),
        ws_back(s, ws_end(s, 0, s.len() as int), s.len() as int) == ws_back(
            t,
            ws_end(t, 0, t.len() as int),
            t.len() as int,
        ),
        0 <= ws_end(s, 0, s.len() as int) <= ws_back(s, ws_end(s, 0, s.len() as int), s.len() as int)
            <= s.len(),
{
    let n = s.len() as int;
    lemma_ws_end_exists(s, 0, n);
    let a = ws_end(s, 0, n);
    assert(is_ws_end(t, 0, n, a)) by {
        assert forall|j: int| 0 <= j < a implies is_white_space(#[trigger] t[j]) by {
            assert(is_white_space(s[j]));
        }
        if a < n {
            assert(!is_white_space(s[a]));
        }
    }
    lemma_ws_end_unique(t, 0, n, a);
    lemma_ws_back_exists(s, a, n);
    let b = ws_back(s, a, n);
    assert(is_ws_back(t, a, n, b)) by {
        assert forall|j: int| b <= j < n implies is_white_space(#[trigger] t[j]) by {
            assert(is_white_space(s[j]));
        }
        if b > a {
            assert(!is_white_space(s[b - 1]));
        }
    }
    lemma_ws_back_unique(t, a, n, b);
}

} // verus!
