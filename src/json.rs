//! Reading the catalog source through serde_json.
//!
//! A parsed JSON value is opaque here: `read_entries` hands back, as plain
//! values, what the catalog loader reads of it.
use vstd::prelude::*;
use serde_json::Value as V;

verus! {

/// What one field of a catalog entry holds.
#[derive(Debug)]
pub enum JsonField {
    /// The entry has no such key.
    Missing,
    /// A string.
    Text(String),
    /// A number, with its value where it is an integer that fits in `i64`.
    Number(Option<i64>),
    /// A boolean.
    Flag(bool),
    /// Any other JSON value (null, array, object).
    Other,
}

/// The four fields of one object of the source array.
#[derive(Debug)]
pub struct RawEntry {
    pub name: JsonField,
    pub start: JsonField,
    pub end: JsonField,
    pub has_picture: JsonField,
}

/// Mathematical form of a `JsonField`.
pub enum FieldView {
    Missing,
    Text(Seq<char>),
    Number(Option<i64>),
    Flag(bool),
    Other,
}

/// Mathematical form of a `RawEntry`.
pub struct EntryView {
    pub name: FieldView,
    pub start: FieldView,
    pub end: FieldView,
    pub has_picture: FieldView,
}

impl View for JsonField {
    type V = FieldView;

    open spec fn view(&self) -> FieldView {
        match self {
            JsonField::Missing => FieldView::Missing,
            JsonField::Text(s) => FieldView::Text(s@),
            JsonField::Number(n) => FieldView::Number(*n),
            JsonField::Flag(b) => FieldView::Flag(*b),
            JsonField::Other => FieldView::Other,
        }
    }
}

impl View for RawEntry {
    type V = EntryView;

    open spec fn view(&self) -> EntryView {
        EntryView {
            name: self.name@,
            start: self.start@,
            end: self.end@,
            has_picture: self.has_picture@,
        }
    }
}

/// Views of the elements of a source array (`None`: not an object).
pub open spec fn entries_view(v: Seq<Option<RawEntry>>) -> Seq<Option<EntryView>> {
    v.map_values(
        |o: Option<RawEntry>|
            match o {
                Some(e) => Some(e@),
                None => None,
            },
    )
}

/// The elements of the JSON array that `text` holds, as serde_json reads
/// them; `None` where `text` is not JSON or not an array.
pub uninterp spec fn entries_of(text: Seq<char>) -> Option<Seq<Option<EntryView>>>;

/// Relies on serde_json::from_str to parse `text`, serde_json::Value::as_array
/// for its elements, Value::as_object to tell objects apart, Value::get for
/// each field, told apart by JSON kind, and serde_json::Number::as_i64.
#[verifier::external_body]
pub(crate) fn read_entries(text: &str) -> (r: Option<Vec<Option<RawEntry>>>)
    ensures
        r is None <==> entries_of(text@) is None,
        r is Some ==> entries_view(r->Some_0@) == entries_of(text@)->Some_0,
{
    let f = |o: &V, k: &str| match o.get(k) {
        None => JsonField::Missing,
        Some(V::String(s)) => JsonField::Text(s.clone()),
        Some(V::Number(n)) => JsonField::Number(n.as_i64()),
        Some(V::Bool(b)) => JsonField::Flag(*b),
        Some(_) => JsonField::Other,
    };
    let v: V = serde_json::from_str(text).ok()?;
    Some(v.as_array()?.iter().map(|o| o.as_object().map(|_| RawEntry {
        name: f(o, "name"), start: f(o, "start"), end: f(o, "end"), has_picture: f(o, "has_picture"),
    })).collect())
}

} // verus!
