//! Instrument symbols in canonical form, as `paft` validates them.
use crate::isin::ascii_upper;
use vstd::prelude::*;

verus! {

/// ASCII white space as `u8::is_ascii_whitespace` has it: space, tab, line
/// feed, form feed and carriage return.
pub open spec fn is_ascii_white(c: char) -> bool {
    c == ' ' || c == '\t' || c == '\n' || c == '\x0C' || c == '\r'
}

/// `s` without its leading ASCII white space.
pub open spec fn trim_ascii_start(s: Seq<char>) -> Seq<char>
    decreases s.len(),
{
    if s.len() > 0 && is_ascii_white(s[0]) {
        trim_ascii_start(s.drop_first())
    } else {
        s
    }
}

/// `s` without its trailing ASCII white space.
pub open spec fn trim_ascii_end(s: Seq<char>) -> Seq<char>
    decreases s.len(),
{
    if s.len() > 0 && is_ascii_white(s.last()) {
        trim_ascii_end(s.drop_last())
    } else {
        s
    }
}

/// A character a symbol may hold: printable ASCII other than the space.
pub open spec fn symbol_char(c: char) -> bool {
    '!' <= c <= '~'
}

/// The canonical form of a symbol (`paft::domain::Symbol::new`): trimmed of
/// ASCII white space, it must be 1 to 64 characters of printable ASCII other
/// than the space, and its letters are put in upper case; `None` otherwise.
pub open spec fn canonical_symbol(t: Seq<char>) -> Option<Seq<char>> {
    let s = trim_ascii_end(trim_ascii_start(t));
    if 0 < s.len() <= 64 && forall|i: int| 0 <= i < s.len() ==> #[trigger] symbol_char(s[i]) {
        Some(ascii_upper(s))
    } else {
        None
    }
}

/// `paft::domain::Symbol::new`, read back as text. Trusted: its source
/// trims ASCII white space, refuses an empty result, one longer than 64
/// bytes and one with a non-ASCII, white space or control character, and
/// upper-cases ASCII letters ([`canonical_symbol`]).
#[verifier::external_body]
fn paft_symbol(id: &str) -> (r: Option<String>)
    ensures
        match r {
            Some(s) => canonical_symbol(id@) == Some(s@),
            None => canonical_symbol(id@) is None,
        },
{
    paft::domain::Symbol::new(id).ok().map(|s| s.as_str().to_owned())
}

/// A symbol in canonical form, or `None` when the text is no valid symbol
/// ([`canonical_symbol`]).
pub fn checked_symbol(id: &str) -> (r: Option<String>)
    ensures
        match r {
            Some(s) => canonical_symbol(id@) == Some(s@),
            None => canonical_symbol(id@) is None,
        },
{
    paft_symbol(id)
}

} // verus!
