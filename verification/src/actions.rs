//! Corporate actions of a chart series: dividends, capital gains and splits,
//! read from the event maps and put in time order, with the split ratios
//! that price adjustment needs.
use crate::adjust::{events_sorted, split_ratio_of, SplitRatio};
use crate::bignat::pow10;
use crate::chart::{CapitalGainEvent, DividendEvent, Events, SplitEvent, WireValue};
use crate::decimal::{lemma_pow10_positive, Dec};
use crate::text::{chars_of, find_from, first_occurrence, string_of_range};
use vstd::prelude::*;
use vstd::seq_lib::{to_multiset_build, to_multiset_insert};

verus! {

/// A corporate action.
#[derive(Debug, Clone, Copy, PartialEq)]
pub enum Action {
    /// A dividend paid at `ts`.
    Dividend { ts: i64, amount: Dec },
    /// A capital gain distributed at `ts`.
    CapitalGain { ts: i64, gain: Dec },
    /// A split `numerator : denominator` at `ts`.
    Split { ts: i64, numerator: u32, denominator: u32 },
}

/// Something that happens at a time.
pub trait Timed {
    /// The time, in Unix seconds.
    spec fn time(&self) -> i64;

    /// The time, in Unix seconds.
    fn time_of(&self) -> (t: i64)
        ensures
            t == self.time(),
    ;
}

impl Timed for Action {
    open spec fn time(&self) -> i64 {
        match *self {
            Action::Dividend { ts, .. } => ts,
            Action::CapitalGain { ts, .. } => ts,
            Action::Split { ts, .. } => ts,
        }
    }

    fn time_of(&self) -> (t: i64) {
        match *self {
            Action::Dividend { ts, .. } => ts,
            Action::CapitalGain { ts, .. } => ts,
            Action::Split { ts, .. } => ts,
        }
    }
}

impl Timed for (i64, SplitRatio) {
    open spec fn time(&self) -> i64 {
        self.0
    }

    fn time_of(&self) -> (t: i64) {
        self.0
    }
}

/// Whether `s` is in time order.
pub open spec fn time_sorted<T: Timed>(s: Seq<T>) -> bool {
    forall|i: int, j: int| 0 <= i <= j < s.len() ==> s[i].time() <= s[j].time()
}

/// `s` with `x` placed after every item whose time is not later than its
/// own, counting from the end: in a time-ordered `s`, the place a stable sort
/// gives an item that comes after all of `s`.
pub open spec fn stable_insert<T: Timed>(s: Seq<T>, x: T) -> Seq<T>
    decreases s.len(),
{
    if s.len() == 0 {
        seq![x]
    } else if s.last().time() > x.time() {
        stable_insert(s.drop_last(), x).push(s.last())
    } else {
        s.push(x)
    }
}

/// `s` sorted by time, items of equal time kept in their order in `s`
/// (`slice::sort_by_key`, which is stable).
pub open spec fn stable_sort<T: Timed>(s: Seq<T>) -> Seq<T>
    decreases s.len(),
{
    if s.len() == 0 {
        s
    } else {
        stable_insert(stable_sort(s.drop_last()), s.last())
    }
}

/// Inserting at the first position, from the end, after which every item is
/// later is the stable insertion.
proof fn lemma_stable_insert_at<T: Timed>(s: Seq<T>, x: T, p: int)
    requires
        0 <= p <= s.len(),
        forall|j: int| p <= j < s.len() ==> #[trigger] s[j].time() > x.time(),
        p == 0 || s[p - 1].time() <= x.time(),
    ensures
        stable_insert(s, x) == s.insert(p, x),
    decreases s.len(),
{
    if s.len() == 0 {
        assert(s.insert(p, x) =~= seq![x]);
    } else if p == s.len() {
        assert(s.last().time() <= x.time());
        assert(s.insert(p, x) =~= s.push(x));
    } else {
        assert(s.last().time() > x.time());
        let d = s.drop_last();
        assert forall|j: int| p <= j < d.len() implies #[trigger] d[j].time() > x.time() by {
            assert(d[j] == s[j]);
        }
        lemma_stable_insert_at(d, x, p);
        assert(d.insert(p, x).push(s.last()) =~= s.insert(p, x));
    }
}

/// Sorting a sequence that is already in time order leaves it as it is.
pub proof fn lemma_stable_sort_keeps_sorted<T: Timed>(s: Seq<T>)
    requires
        time_sorted(s),
    ensures
        stable_sort(s) == s,
    decreases s.len(),
{
    if s.len() > 0 {
        let d = s.drop_last();
        assert(time_sorted(d)) by {
            assert forall|i: int, j: int| 0 <= i <= j < d.len() implies d[i].time() <= d[j].time() by {
                assert(d[i] == s[i] && d[j] == s[j]);
            }
        }
        lemma_stable_sort_keeps_sorted(d);
        if d.len() > 0 {
            assert(d.last() == s[s.len() - 2]);
            assert(s[s.len() - 2].time() <= s[s.len() - 1].time());
        }
        assert(d.push(s.last()) =~= s);
    }
}

/// `v` in time order, items of equal time in their order in `v`
/// ([`stable_sort`]).
pub fn sort_by_time<T: Timed>(v: Vec<T>) -> (r: Vec<T>)
    ensures
        r@ == stable_sort(v@),
        time_sorted(r@),
        r@.to_multiset() == v@.to_multiset(),
{
    let ghost all = v@;
    let mut out: Vec<T> = Vec::new();
    proof {
        assert(all.take(0) =~= Seq::<T>::empty());
    }
    for x in it: v
        invariant
            all == it.seq(),
            time_sorted(out@),
            out@ == stable_sort(all.take(it.index() as int)),
            out@.to_multiset() == all.take(it.index() as int).to_multiset(),
    {
        let t = x.time_of();
        let mut p = out.len();
        while p > 0 && out[p - 1].time_of() > t
            invariant
                p <= out@.len(),
                forall|j: int| p <= j < out@.len() ==> out@[j].time() > t,
            decreases p,
        {
            p = p - 1;
        }
        let ghost before = out@;
        proof {
            lemma_stable_insert_at(before, x, p as int);
            assert(all.take(it.index() + 1).drop_last() =~= all.take(it.index() as int));
            to_multiset_insert(before, p as int, x);
            to_multiset_build(all.take(it.index() as int), x);
            assert(all.take(it.index() + 1) =~= all.take(it.index() as int).push(x));
        }
        out.insert(p, x);
        proof {
            assert(out@ == before.insert(p as int, x));
            assert forall|i: int, j: int| 0 <= i <= j < out@.len() implies out@[i].time() <= out@[j].time() by {
                if i < p && j > p {
                    assert(out@[i] == before[i]);
                    assert(out@[j] == before[j - 1]);
                    if p > 0 {
                        assert(before[i].time() <= before[p - 1].time());
                    }
                } else if i < p && j == p {
                    assert(out@[i] == before[i]);
                    assert(before[i].time() <= before[p - 1].time());
                } else if i == p && j > p {
                    assert(out@[j] == before[j - 1]);
                } else if i > p {
                    assert(out@[i] == before[i - 1]);
                    assert(out@[j] == before[j - 1]);
                } else if j < p {
                    assert(out@[i] == before[i]);
                    assert(out@[j] == before[j]);
                }
            }
        }
    }
    proof {
        assert(all.take(all.len() as int) =~= all);
    }
    out
}

/// The value of a string of decimal digits.
pub open spec fn digits_value(ds: Seq<char>) -> nat
    decreases ds.len(),
{
    if ds.len() == 0 {
        0
    } else {
        digits_value(ds.drop_last()) * 10 + ((ds.last() as u32 - 48) as nat)
    }
}

/// Whether `ds` holds decimal digits only.
pub open spec fn all_digits(ds: Seq<char>) -> bool {
    forall|i: int| 0 <= i < ds.len() ==> '0' <= #[trigger] ds[i] && ds[i] <= '9'
}

/// The `u32` that `s` spells (`str::parse::<u32>`): decimal digits after an
/// optional `+`, at least one, in range.
pub open spec fn parse_u32_spec(s: Seq<char>) -> Option<u32> {
    let ds = if s.len() > 0 && s[0] == '+' {
        s.skip(1)
    } else {
        s
    };
    if ds.len() > 0 && all_digits(ds) && digits_value(ds) <= u32::MAX {
        Some(digits_value(ds) as u32)
    } else {
        None
    }
}

/// The `i64` that `s` spells (`str::parse::<i64>`): decimal digits after an
/// optional sign, at least one, in range.
pub open spec fn parse_i64_spec(s: Seq<char>) -> Option<i64> {
    if s.len() > 0 && s[0] == '-' {
        let ds = s.skip(1);
        if ds.len() > 0 && all_digits(ds) && digits_value(ds) <= 9223372036854775808 {
            Some((-(digits_value(ds) as int)) as i64)
        } else {
            None
        }
    } else {
        let ds = if s.len() > 0 && s[0] == '+' {
            s.skip(1)
        } else {
            s
        };
        if ds.len() > 0 && all_digits(ds) && digits_value(ds) <= i64::MAX {
            Some(digits_value(ds) as i64)
        } else {
            None
        }
    }
}

proof fn lemma_digits_value_grows(ds: Seq<char>, k: int)
    requires
        0 <= k <= ds.len(),
        all_digits(ds),
    ensures
        digits_value(ds.take(k)) <= digits_value(ds),
    decreases ds.len() - k,
{
    if k < ds.len() {
        lemma_digits_value_grows(ds, k + 1);
        assert(ds.take(k + 1).drop_last() =~= ds.take(k));
        assert('0' <= ds[k]);
    } else {
        assert(ds.take(k) =~= ds);
    }
}

/// The value of the digits `cs[from..]`, when they are all digits and the
/// value is at most `bound`.
fn digits_up_to(cs: &Vec<char>, from: usize, bound: u64) -> (r: Option<u64>)
    requires
        from <= cs.len(),
        bound >= 9,
    ensures
        ({
            let ds = cs@.skip(from as int);
            match r {
                Some(v) => ds.len() > 0 && all_digits(ds) && digits_value(ds) <= bound && v == digits_value(ds),
                None => !(ds.len() > 0 && all_digits(ds) && digits_value(ds) <= bound),
            }
        }),
{
    let ghost ds = cs@.skip(from as int);
    if from >= cs.len() {
        return None;
    }
    let mut acc: u64 = 0;
    let mut k = from;
    while k < cs.len()
        invariant
            from <= k <= cs.len(),
            ds == cs@.skip(from as int),
            all_digits(ds.take(k - from)),
            acc == digits_value(ds.take(k - from)),
            acc <= bound,
            bound >= 9,
        decreases cs.len() - k,
    {
        let c = cs[k];
        proof {
            assert(ds[k - from] == c);
            assert(ds.take(k - from + 1).drop_last() =~= ds.take(k - from));
        }
        if c < '0' || c > '9' {
            return None;
        }
        let d = (c as u32 - 48) as u64;
        if acc > (bound - d) / 10 {
            proof {
                assert(acc * 10 + d > bound) by (nonlinear_arith)
                    requires
                        acc > (bound - d) / 10,
                        d <= bound,
                ;
                if all_digits(ds) {
                    lemma_digits_value_grows(ds, k - from + 1);
                }
            }
            return None;
        }
        proof {
            assert(acc * 10 + d <= bound) by (nonlinear_arith)
                requires
                    acc <= (bound - d) / 10,
                    d <= bound,
            ;
        }
        acc = acc * 10 + d;
        k = k + 1;
    }
    proof {
        assert(ds.take(k - from) =~= ds);
    }
    Some(acc)
}

/// Parses a `u32` ([`parse_u32_spec`]).
pub fn parse_u32_text(s: &str) -> (r: Option<u32>)
    ensures
        r == parse_u32_spec(s@),
{
    let cs = chars_of(s);
    let from: usize = if cs.len() > 0 && cs[0] == '+' {
        1
    } else {
        0
    };
    proof {
        if from == 1 {
            assert(cs@.skip(1) =~= s@.skip(1));
        } else {
            assert(cs@.skip(0) =~= s@);
        }
    }
    match digits_up_to(&cs, from, 4294967295) {
        Some(v) => Some(v as u32),
        None => None,
    }
}

/// Parses an `i64` ([`parse_i64_spec`]).
pub fn parse_i64_text(s: &str) -> (r: Option<i64>)
    ensures
        r == parse_i64_spec(s@),
{
    let cs = chars_of(s);
    if cs.len() > 0 && cs[0] == '-' {
        proof {
            assert(cs@.skip(1) =~= s@.skip(1));
        }
        match digits_up_to(&cs, 1, 9223372036854775808) {
            Some(v) => {
                if v == 9223372036854775808 {
                    Some(i64::MIN)
                } else {
                    Some(-(v as i64))
                }
            },
            None => None,
        }
    } else {
        let from: usize = if cs.len() > 0 && cs[0] == '+' {
            1
        } else {
            0
        };
        proof {
            if from == 1 {
                assert(cs@.skip(1) =~= s@.skip(1));
            } else {
                assert(cs@.skip(0) =~= s@);
            }
        }
        match digits_up_to(&cs, from, 9223372036854775807) {
            Some(v) => Some(v as i64),
            None => None,
        }
    }
}

/// The integer part of a decimal, truncated toward zero.
pub open spec fn dec_trunc(v: (int, nat)) -> int {
    if v.0 >= 0 {
        v.0 / (pow10(v.1) as int)
    } else {
        -((-v.0) / (pow10(v.1) as int))
    }
}

/// `x` saturated into the range of `u32`.
pub open spec fn saturate_u32(x: int) -> u32 {
    if x < 0 {
        0
    } else if x > u32::MAX {
        u32::MAX
    } else {
        x as u32
    }
}

/// The integer part of `d` as a `u32`, truncated toward zero and saturated.
pub fn dec_to_u32(d: Dec) -> (r: u32)
    ensures
        r == saturate_u32(dec_trunc(d@)),
{
    let mut m = d.magnitude();
    let scale = d.scale();
    let mut k: u32 = 0;
    proof {
        assert(pow10(0) == 1);
        let a: int = if d@.0 < 0 { -d@.0 } else { d@.0 };
        assert(a / 1 == a);
    }
    while k < scale
        invariant
            k <= scale,
            scale as nat == d@.1,
            m as int == (if d@.0 < 0 { -d@.0 } else { d@.0 }) / (pow10(k as nat) as int),
        decreases scale - k,
    {
        proof {
            lemma_pow10_positive(k as nat);
            vstd::arithmetic::div_mod::lemma_div_denominator(
                if d@.0 < 0 { -d@.0 } else { d@.0 },
                pow10(k as nat) as int,
                10,
            );
            assert(pow10((k + 1) as nat) == 10 * pow10(k as nat));
            assert((pow10(k as nat) as int) * 10 == pow10((k + 1) as nat) as int);
        }
        m = m / 10;
        k = k + 1;
    }
    if d.is_sign_negative() {
        0
    } else if m > 4294967295 {
        4294967295
    } else {
        m as u32
    }
}

/// The time of an event: its key read as an `i64`, else its date, else 0.
pub open spec fn event_time(key: Seq<char>, date: Option<i64>) -> i64 {
    match parse_i64_spec(key) {
        Some(t) => t,
        None => match date {
            Some(d) => d,
            None => 0,
        },
    }
}

fn event_time_of(key: &String, date: Option<i64>) -> (t: i64)
    ensures
        t == event_time(key@, date),
{
    match parse_i64_text(key.as_str()) {
        Some(t) => t,
        None => match date {
            Some(d) => d,
            None => 0,
        },
    }
}

/// The components of a `"n/d"` split ratio text: the text up to the first
/// `/` and the text after it up to the next `/`, each read as a `u32`, 1
/// where absent or unreadable.
pub open spec fn ratio_text_parts(r: Seq<char>) -> (u32, u32) {
    match first_occurrence(r, seq!['/'], 0) {
        None => (
            match parse_u32_spec(r) {
                Some(n) => n,
                None => 1,
            },
            1,
        ),
        Some(p) => {
            let rest_end = match first_occurrence(r, seq!['/'], p + 1) {
                Some(q) => q,
                None => r.len() as int,
            };
            (
                match parse_u32_spec(r.take(p)) {
                    Some(n) => n,
                    None => 1,
                },
                match parse_u32_spec(r.subrange(p + 1, rest_end)) {
                    Some(d) => d,
                    None => 1,
                },
            )
        },
    }
}

/// The components of a split: its numerator and denominator when both are
/// given, truncated and saturated into `u32`; else its ratio text; else 1:1.
pub open spec fn split_components(e: SplitEvent) -> (u32, u32) {
    match (e.numerator, e.denominator) {
        (Some(n), Some(d)) => (saturate_u32(dec_trunc(n@)), saturate_u32(dec_trunc(d@))),
        _ => match e.split_ratio {
            Some(r) => ratio_text_parts(r@),
            None => (1, 1),
        },
    }
}

fn parse_or_one(cs: &Vec<char>, from: usize, to: usize) -> (r: u32)
    requires
        from <= to <= cs.len(),
    ensures
        r == (match parse_u32_spec(cs@.subrange(from as int, to as int)) {
            Some(n) => n,
            None => 1,
        }),
{
    let piece = string_of_range(cs, from, to);
    match parse_u32_text(piece.as_str()) {
        Some(n) => n,
        None => 1,
    }
}

fn ratio_parts(r: &String) -> (p: (u32, u32))
    ensures
        p == ratio_text_parts(r@),
{
    let cs = chars_of(r.as_str());
    let n = cs.len();
    let slash = vec!['/'];
    proof {
        assert(slash@ =~= seq!['/']);
        assert(cs@.subrange(0, cs@.len() as int) =~= cs@);
    }
    match find_from(&cs, &slash, 0) {
        None => (parse_or_one(&cs, 0, cs.len()), 1),
        Some(p) => {
            let end = match find_from(&cs, &slash, p + 1) {
                Some(q) => q,
                None => cs.len(),
            };
            proof {
                assert(cs@.subrange(0, p as int) =~= cs@.take(p as int));
            }
            (parse_or_one(&cs, 0, p), parse_or_one(&cs, p + 1, end))
        },
    }
}

fn split_components_of(e: &SplitEvent) -> (p: (u32, u32))
    ensures
        p == split_components(*e),
{
    match (e.numerator, e.denominator) {
        (Some(n), Some(d)) => (dec_to_u32(n), dec_to_u32(d)),
        _ => match &e.split_ratio {
            Some(r) => ratio_parts(r),
            None => (1, 1),
        },
    }
}

/// The dividends of an event map, in map order: those with an amount.
pub open spec fn dividend_actions(ds: Seq<(String, DividendEvent)>) -> Seq<Action>
    decreases ds.len(),
{
    if ds.len() == 0 {
        Seq::empty()
    } else {
        let rest = dividend_actions(ds.drop_last());
        let (k, e) = ds.last();
        match e.amount {
            WireValue::Value(a) => rest.push(Action::Dividend { ts: event_time(k@, e.date), amount: a }),
            _ => rest,
        }
    }
}

/// The capital gains of an event map, in map order: those with an amount.
pub open spec fn gain_actions(gs: Seq<(String, CapitalGainEvent)>) -> Seq<Action>
    decreases gs.len(),
{
    if gs.len() == 0 {
        Seq::empty()
    } else {
        let rest = gain_actions(gs.drop_last());
        let (k, e) = gs.last();
        match e.amount {
            WireValue::Value(a) => rest.push(Action::CapitalGain { ts: event_time(k@, e.date), gain: a }),
            _ => rest,
        }
    }
}

/// The splits of an event map, in map order.
pub open spec fn split_actions(ss: Seq<(String, SplitEvent)>) -> Seq<Action>
    decreases ss.len(),
{
    if ss.len() == 0 {
        Seq::empty()
    } else {
        let (k, e) = ss.last();
        let (n, d) = split_components(e);
        split_actions(ss.drop_last()).push(Action::Split { ts: event_time(k@, e.date), numerator: n, denominator: d })
    }
}

/// The split ratios of an event map, in map order: those of splits with
/// both components nonzero.
pub open spec fn split_ratios(ss: Seq<(String, SplitEvent)>) -> Seq<(i64, SplitRatio)>
    decreases ss.len(),
{
    if ss.len() == 0 {
        Seq::empty()
    } else {
        let rest = split_ratios(ss.drop_last());
        let (k, e) = ss.last();
        let (n, d) = split_components(e);
        if n > 0 && d > 0 {
            rest.push((event_time(k@, e.date), split_ratio_of(n, d)))
        } else {
            rest
        }
    }
}

/// The entries of an optional event map.
pub open spec fn entries<T>(m: Option<Vec<(String, T)>>) -> Seq<(String, T)> {
    match m {
        Some(v) => v@,
        None => Seq::empty(),
    }
}

/// All actions of a series before ordering: dividends, then capital gains,
/// then splits.
pub open spec fn all_actions(ev: Events) -> Seq<Action> {
    dividend_actions(entries(ev.dividends)) + gain_actions(entries(ev.capital_gains)) + split_actions(
        entries(ev.splits),
    )
}

fn push_dividends(out: &mut Vec<Action>, ds: &Option<Vec<(String, DividendEvent)>>)
    ensures
        final(out)@ == old(out)@ + dividend_actions(entries(*ds)),
{
    if let Some(v) = ds {
        let ghost start = out@;
        let mut i: usize = 0;
        while i < v.len()
            invariant
                i <= v@.len(),
                out@ == start + dividend_actions(v@.take(i as int)),
            decreases v.len() - i,
        {
            proof {
                assert(v@.take(i + 1).drop_last() =~= v@.take(i as int));
            }
            let (k, e) = &v[i];
            if let WireValue::Value(a) = e.amount {
                let ts = event_time_of(k, e.date);
                out.push(Action::Dividend { ts, amount: a });
            }
            i = i + 1;
        }
        proof {
            assert(v@.take(v@.len() as int) =~= v@);
        }
    }
}

fn push_gains(out: &mut Vec<Action>, gs: &Option<Vec<(String, CapitalGainEvent)>>)
    ensures
        final(out)@ == old(out)@ + gain_actions(entries(*gs)),
{
    if let Some(v) = gs {
        let ghost start = out@;
        let mut i: usize = 0;
        while i < v.len()
            invariant
                i <= v@.len(),
                out@ == start + gain_actions(v@.take(i as int)),
            decreases v.len() - i,
        {
            proof {
                assert(v@.take(i + 1).drop_last() =~= v@.take(i as int));
            }
            let (k, e) = &v[i];
            if let WireValue::Value(a) = e.amount {
                let ts = event_time_of(k, e.date);
                out.push(Action::CapitalGain { ts, gain: a });
            }
            i = i + 1;
        }
        proof {
            assert(v@.take(v@.len() as int) =~= v@);
        }
    }
}

fn push_splits(out: &mut Vec<Action>, ratios: &mut Vec<(i64, SplitRatio)>, ss: &Option<Vec<(String, SplitEvent)>>)
    ensures
        final(out)@ == old(out)@ + split_actions(entries(*ss)),
        final(ratios)@ == old(ratios)@ + split_ratios(entries(*ss)),
{
    if let Some(v) = ss {
        let ghost start = out@;
        let ghost start_ratios = ratios@;
        let mut i: usize = 0;
        while i < v.len()
            invariant
                i <= v@.len(),
                out@ == start + split_actions(v@.take(i as int)),
                ratios@ == start_ratios + split_ratios(v@.take(i as int)),
            decreases v.len() - i,
        {
            proof {
                assert(v@.take(i + 1).drop_last() =~= v@.take(i as int));
            }
            let (k, e) = &v[i];
            let ts = event_time_of(k, e.date);
            let (n, d) = split_components_of(e);
            out.push(Action::Split { ts, numerator: n, denominator: d });
            if let Some(r) = SplitRatio::try_new(n, d) {
                ratios.push((ts, r));
            }
            i = i + 1;
        }
        proof {
            assert(v@.take(v@.len() as int) =~= v@);
        }
    }
}

/// The actions of a series (dividends, capital gains, then splits, each in
/// event order) stably sorted by time, and its split ratios stably sorted by
/// time; both empty without events.
pub fn extract_actions(events: &Option<Events>) -> (r: (Vec<Action>, Vec<(i64, SplitRatio)>))
    ensures
        time_sorted(r.0@),
        time_sorted(r.1@),
        match *events {
            None => r.0@.len() == 0 && r.1@.len() == 0,
            Some(ev) => {
                &&& r.0@ == stable_sort(all_actions(ev))
                &&& r.1@ == stable_sort(split_ratios(entries(ev.splits)))
                &&& r.0@.to_multiset() == all_actions(ev).to_multiset()
                &&& r.1@.to_multiset() == split_ratios(entries(ev.splits)).to_multiset()
            },
        },
{
    let ev = match events {
        Some(ev) => ev,
        None => return (Vec::new(), Vec::new()),
    };
    let mut out: Vec<Action> = Vec::new();
    let mut ratios: Vec<(i64, SplitRatio)> = Vec::new();
    push_dividends(&mut out, &ev.dividends);
    push_gains(&mut out, &ev.capital_gains);
    push_splits(&mut out, &mut ratios, &ev.splits);
    proof {
        assert(out@ =~= all_actions(*ev));
        assert(ratios@ =~= split_ratios(entries(ev.splits)));
    }
    (sort_by_time(out), sort_by_time(ratios))
}

/// Split ratios in time order are in the event order that split adjustment
/// relies on ([`crate::adjust::lemma_split_adjustment_covers_later_splits`]).
pub proof fn lemma_split_ratios_in_event_order(events: Seq<(i64, SplitRatio)>)
    requires
        time_sorted(events),
    ensures
        events_sorted(events),
{
    assert forall|a: int, b: int| 0 <= a <= b < events.len() implies events[a].0 <= events[b].0 by {
        assert(events[a].time() <= events[b].time());
    }
}

/// The dividends among `s`, as `(time, amount)`, in order.
pub open spec fn dividends_in(s: Seq<Action>) -> Seq<(i64, Dec)>
    decreases s.len(),
{
    if s.len() == 0 {
        Seq::empty()
    } else {
        let rest = dividends_in(s.drop_last());
        match s.last() {
            Action::Dividend { ts, amount } => rest.push((ts, amount)),
            _ => rest,
        }
    }
}

/// The capital gains among `s`, as `(time, gain)`, in order.
pub open spec fn capital_gains_in(s: Seq<Action>) -> Seq<(i64, Dec)>
    decreases s.len(),
{
    if s.len() == 0 {
        Seq::empty()
    } else {
        let rest = capital_gains_in(s.drop_last());
        match s.last() {
            Action::CapitalGain { ts, gain } => rest.push((ts, gain)),
            _ => rest,
        }
    }
}

/// The splits among `s`, as `(time, numerator, denominator)`, in order.
pub open spec fn splits_in(s: Seq<Action>) -> Seq<(i64, u32, u32)>
    decreases s.len(),
{
    if s.len() == 0 {
        Seq::empty()
    } else {
        let rest = splits_in(s.drop_last());
        match s.last() {
            Action::Split { ts, numerator, denominator } => rest.push((ts, numerator, denominator)),
            _ => rest,
        }
    }
}

/// The dividends among `actions`, as `(time, amount)`, in order.
pub fn dividends_of(actions: &[Action]) -> (r: Vec<(i64, Dec)>)
    ensures
        r@ == dividends_in(actions@),
{
    let mut out: Vec<(i64, Dec)> = Vec::new();
    let mut i: usize = 0;
    while i < actions.len()
        invariant
            i <= actions@.len(),
            out@ == dividends_in(actions@.subrange(0, i as int)),
        decreases actions@.len() - i,
    {
        proof {
            assert(actions@.subrange(0, i as int + 1).drop_last() =~= actions@.subrange(0, i as int));
        }
        match actions[i] {
            Action::Dividend { ts, amount } => out.push((ts, amount)),
            _ => {},
        }
        i = i + 1;
    }
    proof {
        assert(actions@.subrange(0, actions@.len() as int) =~= actions@);
    }
    out
}

/// The capital gains among `actions`, as `(time, gain)`, in order.
pub fn capital_gains_of(actions: &[Action]) -> (r: Vec<(i64, Dec)>)
    ensures
        r@ == capital_gains_in(actions@),
{
    let mut out: Vec<(i64, Dec)> = Vec::new();
    let mut i: usize = 0;
    while i < actions.len()
        invariant
            i <= actions@.len(),
            out@ == capital_gains_in(actions@.subrange(0, i as int)),
        decreases actions@.len() - i,
    {
        proof {
            assert(actions@.subrange(0, i as int + 1).drop_last() =~= actions@.subrange(0, i as int));
        }
        match actions[i] {
            Action::CapitalGain { ts, gain } => out.push((ts, gain)),
            _ => {},
        }
        i = i + 1;
    }
    proof {
        assert(actions@.subrange(0, actions@.len() as int) =~= actions@);
    }
    out
}

/// The splits among `actions`, as `(time, numerator, denominator)`, in
/// order.
pub fn splits_of(actions: &[Action]) -> (r: Vec<(i64, u32, u32)>)
    ensures
        r@ == splits_in(actions@),
{
    let mut out: Vec<(i64, u32, u32)> = Vec::new();
    let mut i: usize = 0;
    while i < actions.len()
        invariant
            i <= actions@.len(),
            out@ == splits_in(actions@.subrange(0, i as int)),
        decreases actions@.len() - i,
    {
        proof {
            assert(actions@.subrange(0, i as int + 1).drop_last() =~= actions@.subrange(0, i as int));
        }
        match actions[i] {
            Action::Split { ts, numerator, denominator } => out.push((ts, numerator, denominator)),
            _ => {},
        }
        i = i + 1;
    }
    proof {
        assert(actions@.subrange(0, actions@.len() as int) =~= actions@);
    }
    out
}

} // verus!
