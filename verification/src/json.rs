//! A JSON value as the block records carry it in their operand and field
//! slots.

use vstd::prelude::*;

verus! {

/// A JSON value.
///
/// A number keeps what the block format reads from one: its value as an
/// unsigned 64-bit integer, where it is one.
#[derive(Debug)]
pub enum Json {
    Null,
    Bool(bool),
    Number(Option<u64>),
    Str(String),
    Array(Vec<Json>),
    Object(Vec<(String, Json)>),
}

/// The mathematical value of a [`Json`].
pub ghost enum JsonView {
    Null,
    Bool(bool),
    Number(Option<u64>),
    Str(Seq<char>),
    Array(Seq<JsonView>),
    Object(Seq<(Seq<char>, JsonView)>),
}

/// The mathematical value of `json`.
pub open spec fn json_view(json: Json) -> JsonView
    decreases json,
{
    match json {
        Json::Null => JsonView::Null,
        Json::Bool(b) => JsonView::Bool(b),
        Json::Number(n) => JsonView::Number(n),
        Json::Str(s) => JsonView::Str(s@),
        Json::Array(items) => JsonView::Array(
            Seq::new(
                items.len() as nat,
                |i: int|
                    if 0 <= i < items.len() {
                        json_view(items[i])
                    } else {
                        JsonView::Null
                    },
            ),
        ),
        Json::Object(members) => JsonView::Object(
            Seq::new(
                members.len() as nat,
                |i: int|
                    if 0 <= i < members.len() {
                        (members[i].0@, json_view(members[i].1))
                    } else {
                        (Seq::empty(), JsonView::Null)
                    },
            ),
        ),
    }
}

impl View for Json {
    type V = JsonView;

    open spec fn view(&self) -> JsonView {
        json_view(*self)
    }
}

impl JsonView {
    /// The element at `index` of an array; `Null` where the value is no array
    /// or has no such element.
    pub open spec fn at(self, index: int) -> JsonView {
        match self {
            JsonView::Array(items) => if 0 <= index < items.len() {
                items[index]
            } else {
                JsonView::Null
            },
            _ => JsonView::Null,
        }
    }

    /// The text of a string value.
    pub open spec fn text(self) -> Option<Seq<char>> {
        match self {
            JsonView::Str(s) => Some(s),
            _ => None,
        }
    }

    /// The value of a number that is an unsigned 64-bit integer.
    pub open spec fn unsigned(self) -> Option<u64> {
        match self {
            JsonView::Number(n) => n,
            _ => None,
        }
    }
}

impl Json {
    /// The element at `index` of an array, `None` where [`JsonView::at`] is
    /// `Null` for want of one.
    pub fn at(&self, index: usize) -> (r: Option<&Json>)
        ensures
            match r {
                Some(j) => self@ is Array && index < self@->Array_0.len() && j@ == self@.at(
                    index as int,
                ),
                None => !(self@ is Array && index < self@->Array_0.len()),
            },
    {
        match self {
            Json::Array(items) => if index < items.len() {
                assert(self@->Array_0.len() == items@.len());
                assert(self@->Array_0[index as int] == items@[index as int]@);
                Some(&items[index])
            } else {
                None
            },
            _ => None,
        }
    }

    /// Whether the value is an array.
    pub fn is_array(&self) -> (r: bool)
        ensures
            r == (self@ is Array),
    {
        match self {
            Json::Array(_) => true,
            _ => false,
        }
    }

    /// The text of a string value.
    pub fn as_str(&self) -> (r: Option<&str>)
        ensures
            match r {
                Some(s) => self@.text() == Some(s@),
                None => self@.text() is None,
            },
    {
        match self {
            Json::Str(s) => Some(s.as_str()),
            _ => None,
        }
    }

    /// The value of a number that is an unsigned 64-bit integer.
    pub fn as_u64(&self) -> (r: Option<u64>)
        ensures
            r == self@.unsigned(),
    {
        match self {
            Json::Number(n) => *n,
            _ => None,
        }
    }
}

} // verus!
