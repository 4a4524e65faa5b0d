//! JSON documents as plain values, and the searches the page scrapers run
//! over them. Parsing is serde_json's; the tree it yields is converted one for
//! one into [`Json`], which the verified searches read.
use crate::text::text_eq;
use vstd::prelude::*;

verus! {

#[verifier::external_type_specification]
#[verifier::external_body]
pub struct ExJsonNumber(serde_json::Number);

#[verifier::external_type_specification]
#[verifier::external_body]
pub struct ExJsonValue(serde_json::Value);

/// A JSON value. An object holds its members in order, each a key and a value.
#[derive(Debug)]
pub enum Json {
    Null,
    Bool(bool),
    Number(serde_json::Number),
    Str(String),
    Array(Vec<Json>),
    Object(Vec<(String, Json)>),
}

/// The mathematical form of a JSON value: texts as character sequences.
pub enum JsonView {
    Null,
    Bool(bool),
    Number(serde_json::Number),
    Str(Seq<char>),
    Array(Seq<JsonView>),
    Object(Seq<(Seq<char>, JsonView)>),
}

/// The view of a JSON value.
pub open spec fn view_of(j: Json) -> JsonView
    decreases j,
{
    match j {
        Json::Null => JsonView::Null,
        Json::Bool(b) => JsonView::Bool(b),
        Json::Number(n) => JsonView::Number(n),
        Json::Str(s) => JsonView::Str(s@),
        Json::Array(items) => JsonView::Array(
            Seq::new(
                items@.len(),
                |i: int|
                    if 0 <= i < items@.len() {
                        view_of(items@[i])
                    } else {
                        JsonView::Null
                    },
            ),
        ),
        Json::Object(members) => JsonView::Object(
            Seq::new(
                members@.len(),
                |i: int|
                    if 0 <= i < members@.len() {
                        (members@[i].0@, view_of(members@[i].1))
                    } else {
                        (Seq::empty(), JsonView::Null)
                    },
            ),
        ),
    }
}

impl View for Json {
    type V = JsonView;

    open spec fn view(&self) -> JsonView {
        view_of(*self)
    }
}

/// The views of the items of an array.
pub open spec fn items_view(items: Seq<Json>) -> Seq<JsonView> {
    Seq::new(items.len(), |i: int| items[i]@)
}

/// The views of the members of an object.
pub open spec fn members_view(members: Seq<(String, Json)>) -> Seq<(Seq<char>, JsonView)> {
    Seq::new(members.len(), |i: int| (members[i].0@, members[i].1@))
}

/// The view of an array or an object, member by member.
pub proof fn lemma_view_of_containers(j: Json)
    ensures
        j matches Json::Array(items) ==> j@ == JsonView::Array(items_view(items@)),
        j matches Json::Object(members) ==> j@ == JsonView::Object(members_view(members@)),
{
    match j {
        Json::Array(items) => {
            assert(view_of(j) matches JsonView::Array(s) && s =~= items_view(items@));
        },
        Json::Object(members) => {
            assert(view_of(j) matches JsonView::Object(s) && s =~= members_view(members@));
        },
        _ => {},
    }
}

/// What parsing `text` as JSON gives (`serde_json::from_str`): `None` when
/// the text is not a JSON document.
pub uninterp spec fn parsed_json(text: Seq<char>) -> Option<JsonView>;

/// The view of a serde_json value tree once converted into [`Json`]
/// ([`json_of_value`]); a function of the tree alone.
pub uninterp spec fn value_view(v: serde_json::Value) -> JsonView;

/// Parses `text` with `serde_json::from_str` into serde_json's value tree.
/// Trusted: the tree, once converted, is [`parsed_json`] of the text, and the
/// parse fails exactly where that name is `None`.
#[verifier::external_body]
fn parse_value(text: &str) -> (r: Option<serde_json::Value>)
    ensures
        match r {
            Some(v) => parsed_json(text@) == Some(value_view(v)),
            None => parsed_json(text@) is None,
        },
{
    match serde_json::from_str::<serde_json::Value>(text) {
        Ok(v) => Some(v),
        Err(_) => None,
    }
}

/// Converts serde_json's value tree into [`Json`], variant for variant:
/// arrays item by item and objects member by member, in the order
/// serde_json's map yields them (by key), each child converted the same way.
/// It only moves values from one type to the other. Trusted: the result's
/// view is [`value_view`] of the tree.
#[verifier::external_body]
fn json_of_value(v: serde_json::Value) -> (j: Json)
    ensures
        j@ == value_view(v),
{
    match v {
        serde_json::Value::Null => Json::Null,
        serde_json::Value::Bool(b) => Json::Bool(b),
        serde_json::Value::Number(n) => Json::Number(n),
        serde_json::Value::String(s) => Json::Str(s),
        serde_json::Value::Array(a) => Json::Array(a.into_iter().map(json_of_value).collect()),
        serde_json::Value::Object(m) => Json::Object(m.into_iter().map(|(k, x)| (k, json_of_value(x))).collect()),
    }
}

/// serde_json's value tree for a JSON value, built back variant for variant
/// ([`value_of_json`]); a function of the value alone.
pub uninterp spec fn value_of_view(j: JsonView) -> serde_json::Value;

/// The compact text `serde_json::to_string` writes for a value tree; a
/// function of the tree alone (objects are written in the order of
/// serde_json's map, by key).
pub uninterp spec fn value_text(v: serde_json::Value) -> Seq<char>;

/// Builds serde_json's value tree from a [`Json`], variant for variant:
/// arrays item by item and objects member by member, each child built the
/// same way, numbers cloned. It only moves values from one type to the
/// other. Trusted: the tree is [`value_of_view`] of the value's view.
#[verifier::external_body]
pub(crate) fn value_of_json(j: &Json) -> (v: serde_json::Value)
    ensures
        v == value_of_view(j@),
{
    match j {
        Json::Null => serde_json::Value::Null,
        Json::Bool(b) => serde_json::Value::Bool(*b),
        Json::Number(n) => serde_json::Value::Number(n.clone()),
        Json::Str(s) => serde_json::Value::String(s.clone()),
        Json::Array(a) => serde_json::Value::Array(a.iter().map(value_of_json).collect()),
        Json::Object(m) => serde_json::Value::Object(m.iter().map(|(k, x)| (k.clone(), value_of_json(x))).collect()),
    }
}

/// Writes a value tree as compact JSON text with `serde_json::to_string`.
/// Trusted: the text is [`value_text`] of the tree. The call cannot fail on
/// a value tree (its keys are strings and the text goes to memory), so the
/// error arm is never taken; nothing is stated of it.
#[verifier::external_body]
fn value_json_text(v: &serde_json::Value) -> (s: String)
    ensures
        s@ == value_text(*v),
{
    serde_json::to_string(v).unwrap_or_default()
}

/// The compact JSON text serde_json writes for `j`
/// ([`value_text`] of [`value_of_view`]).
pub fn json_text(j: &Json) -> (s: String)
    ensures
        s@ == value_text(value_of_view(j@)),
{
    let v = value_of_json(j);
    value_json_text(&v)
}

/// The JSON document `text` denotes, or `None` when it is not one
/// ([`parsed_json`]).
pub fn parse_json(text: &str) -> (r: Option<Json>)
    ensures
        match r {
            Some(j) => parsed_json(text@) == Some(j@),
            None => parsed_json(text@) is None,
        },
{
    match parse_value(text) {
        Some(v) => Some(json_of_value(v)),
        None => None,
    }
}

/// `serde_json::Number::clone` (a derived `Clone`): trusted to give a number
/// equal to the one cloned.
pub assume_specification[ <serde_json::Number as Clone>::clone ](n: &serde_json::Number) -> (r: serde_json::Number)
    ensures
        r == *n,
;

/// The value of the first of `members[i..]` named `key`.
pub open spec fn member_from(members: Seq<(Seq<char>, JsonView)>, key: Seq<char>, i: int) -> Option<JsonView>
    decreases members.len() - i,
{
    if i < 0 || i >= members.len() {
        None
    } else if members[i].0 == key {
        Some(members[i].1)
    } else {
        member_from(members, key, i + 1)
    }
}

/// `v[key]`: the value of the first member named `key`, when `v` is an
/// object (`Value::get`).
pub open spec fn member(v: JsonView, key: Seq<char>) -> Option<JsonView> {
    match v {
        JsonView::Object(ms) => member_from(ms, key, 0),
        _ => None,
    }
}

/// The text of `v`, when it is a string.
pub open spec fn text_of(v: JsonView) -> Option<Seq<char>> {
    match v {
        JsonView::Str(s) => Some(s),
        _ => None,
    }
}

/// The text of `v[key]`, when that is a string.
pub open spec fn member_text(v: JsonView, key: Seq<char>) -> Option<Seq<char>> {
    match member(v, key) {
        Some(x) => text_of(x),
        None => None,
    }
}

impl Json {
    /// The value of the first member named `key`, when this is an object
    /// ([`member`]).
    pub fn get(&self, key: &str) -> (r: Option<&Json>)
        ensures
            match r {
                Some(x) => member(self@, key@) == Some(x@),
                None => member(self@, key@) is None,
            },
    {
        proof {
            lemma_view_of_containers(*self);
        }
        match self {
            Json::Object(members) => {
                let ghost ms = members_view(members@);
                let mut i: usize = 0;
                while i < members.len()
                    invariant
                        i <= members@.len() == ms.len(),
                        ms == members_view(members@),
                        self@ == JsonView::Object(ms),
                        member_from(ms, key@, 0) == member_from(ms, key@, i as int),
                    decreases members.len() - i,
                {
                    if text_eq(members[i].0.as_str(), key) {
                        proof {
                            assert(ms[i as int] == (members@[i as int].0@, members@[i as int].1@));
                            assert(member_from(ms, key@, i as int) == Some(ms[i as int].1));
                            assert(self@ == JsonView::Object(ms));
                        }
                        return Some(&members[i].1);
                    }
                    proof {
                        assert(ms[i as int] == (members@[i as int].0@, members@[i as int].1@));
                    }
                    i = i + 1;
                }
                None
            },
            _ => None,
        }
    }

    /// The text of this value, when it is a string ([`text_of`]).
    pub fn as_str(&self) -> (r: Option<&str>)
        ensures
            match r {
                Some(s) => text_of(self@) == Some(s@),
                None => text_of(self@) is None,
            },
    {
        match self {
            Json::Str(s) => Some(s.as_str()),
            _ => None,
        }
    }

    /// The items of this value, when it is an array.
    pub fn as_array(&self) -> (r: Option<&Vec<Json>>)
        ensures
            match r {
                Some(items) => self@ == JsonView::Array(items_view(items@)),
                None => !(self@ is Array),
            },
    {
        proof {
            lemma_view_of_containers(*self);
        }
        match self {
            Json::Array(items) => Some(items),
            _ => None,
        }
    }

    /// The members of this value, when it is an object.
    pub fn as_object(&self) -> (r: Option<&Vec<(String, Json)>>)
        ensures
            match r {
                Some(members) => self@ == JsonView::Object(members_view(members@)),
                None => !(self@ is Object),
            },
    {
        proof {
            lemma_view_of_containers(*self);
        }
        match self {
            Json::Object(members) => Some(members),
            _ => None,
        }
    }

    /// Whether this value is an object.
    pub fn is_object(&self) -> (b: bool)
        ensures
            b == (self@ is Object),
    {
        match self {
            Json::Object(_) => true,
            _ => false,
        }
    }

    /// Whether this value is an array.
    pub fn is_array(&self) -> (b: bool)
        ensures
            b == (self@ is Array),
    {
        match self {
            Json::Array(_) => true,
            _ => false,
        }
    }

    /// A copy of this value.
    pub fn duplicate(&self) -> (r: Json)
        ensures
            r@ == self@,
        decreases self,
    {
        proof {
            lemma_view_of_containers(*self);
        }
        match self {
            Json::Null => Json::Null,
            Json::Bool(b) => Json::Bool(*b),
            Json::Number(n) => Json::Number(n.clone()),
            Json::Str(s) => Json::Str(s.clone()),
            Json::Array(items) => {
                let mut out: Vec<Json> = Vec::new();
                let mut i: usize = 0;
                while i < items.len()
                    invariant
                        *self == Json::Array(*items),
                        i <= items@.len(),
                        out@.len() == i,
                        forall|j: int| 0 <= j < i ==> (#[trigger] out@[j])@ == items@[j]@,
                    decreases items.len() - i,
                {
                    proof {
                        assert(decreases_to!(*self => (*self)->Array_0));
                        assert(decreases_to!(*items => items[i as int]));
                    }
                    let c = items[i].duplicate();
                    out.push(c);
                    i = i + 1;
                }
                let r = Json::Array(out);
                proof {
                    lemma_view_of_containers(r);
                    assert(items_view(out@) =~= items_view(items@));
                }
                r
            },
            Json::Object(members) => {
                let mut out: Vec<(String, Json)> = Vec::new();
                let mut i: usize = 0;
                while i < members.len()
                    invariant
                        *self == Json::Object(*members),
                        i <= members@.len(),
                        out@.len() == i,
                        forall|j: int|
                            0 <= j < i ==> (#[trigger] out@[j]).0@ == members@[j].0@ && out@[j].1@
                                == members@[j].1@,
                    decreases members.len() - i,
                {
                    proof {
                        assert(decreases_to!(*self => (*self)->Object_0));
                        assert(decreases_to!(*members => members[i as int]));
                        assert(decreases_to!(members[i as int] => members[i as int].1));
                    }
                    let k = members[i].0.clone();
                    let c = members[i].1.duplicate();
                    out.push((k, c));
                    i = i + 1;
                }
                let r = Json::Object(out);
                proof {
                    lemma_view_of_containers(r);
                    assert(members_view(out@) =~= members_view(members@));
                }
                r
            },
        }
    }
}

} // verus!
