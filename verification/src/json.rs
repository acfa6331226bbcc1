//! A JSON document tree: what protocol payloads and assertion objects are
//! read from and written to. Objects keep their entries in order.

use vstd::prelude::*;

use crate::text::str_eq;

verus! {

/// A JSON value.
#[derive(Debug, PartialEq)]
pub enum JsonValue {
    Null,
    Bool(bool),
    /// A non-negative integer.
    PosInt(u64),
    /// A negative integer.
    NegInt(i64),
    /// A number with a fraction or exponent, kept as its JSON text.
    Float(String),
    Str(String),
    Array(Vec<JsonValue>),
    Object(Vec<(String, JsonValue)>),
}

/// The mathematical form of a JSON value.
pub enum JsonView {
    Null,
    Bool(bool),
    PosInt(u64),
    NegInt(i64),
    Float(Seq<char>),
    Str(Seq<char>),
    Array(Seq<JsonView>),
    Object(Seq<(Seq<char>, JsonView)>),
}

impl View for JsonValue {
    type V = JsonView;

    open spec fn view(&self) -> JsonView
        decreases self,
    {
        match self {
            JsonValue::Null => JsonView::Null,
            JsonValue::Bool(b) => JsonView::Bool(*b),
            JsonValue::PosInt(n) => JsonView::PosInt(*n),
            JsonValue::NegInt(n) => JsonView::NegInt(*n),
            JsonValue::Float(t) => JsonView::Float(t@),
            JsonValue::Str(s) => JsonView::Str(s@),
            JsonValue::Array(items) => JsonView::Array(item_views(items@)),
            JsonValue::Object(entries) => JsonView::Object(entry_views(entries@)),
        }
    }
}

/// The views of array items.
pub open spec fn item_views(items: Seq<JsonValue>) -> Seq<JsonView>
    decreases items,
{
    Seq::new(items.len(), |i: int| if 0 <= i < items.len() { items[i].view() } else { JsonView::Null })
}

/// The views of object entries.
pub open spec fn entry_views(entries: Seq<(String, JsonValue)>) -> Seq<(Seq<char>, JsonView)>
    decreases entries,
{
    Seq::new(entries.len(), |i: int| if 0 <= i < entries.len() { (entries[i].0@, entries[i].1.view()) } else { (Seq::empty(), JsonView::Null) })
}

/// The value of the first entry whose key is `key`.
pub open spec fn lookup(entries: Seq<(Seq<char>, JsonView)>, key: Seq<char>) -> Option<JsonView>
    decreases entries.len(),
{
    if entries.len() == 0 {
        None
    } else if entries[0].0 == key {
        Some(entries[0].1)
    } else {
        lookup(entries.drop_first(), key)
    }
}

/// The field `key` of an object value; `None` for other values.
pub open spec fn field(v: JsonView, key: Seq<char>) -> Option<JsonView> {
    match v {
        JsonView::Object(entries) => lookup(entries, key),
        _ => None,
    }
}

/// `Value::as_u64`: a non-negative integer.
pub open spec fn view_u64(v: JsonView) -> Option<u64> {
    match v {
        JsonView::PosInt(n) => Some(n),
        _ => None,
    }
}

/// `Value::as_i64`: an integer in the `i64` range.
pub open spec fn view_i64(v: JsonView) -> Option<i64> {
    match v {
        JsonView::PosInt(n) => if n <= i64::MAX {
            Some(n as i64)
        } else {
            None
        },
        JsonView::NegInt(n) => Some(n),
        _ => None,
    }
}

/// `Value::as_str`.
pub open spec fn view_str(v: JsonView) -> Option<Seq<char>> {
    match v {
        JsonView::Str(s) => Some(s),
        _ => None,
    }
}

/// `Value::as_bool`.
pub open spec fn view_bool(v: JsonView) -> Option<bool> {
    match v {
        JsonView::Bool(b) => Some(b),
        _ => None,
    }
}

/// Lifts a view function over an optional value.
pub open spec fn opt_view(v: Option<&JsonValue>) -> Option<JsonView> {
    match v {
        Some(x) => Some(x@),
        None => None,
    }
}

fn lookup_entries<'a>(entries: &'a Vec<(String, JsonValue)>, key: &str) -> (r: Option<&'a JsonValue>)
    ensures
        opt_view(r) == lookup(entry_views(entries@), key@),
{
    let ghost es = entry_views(entries@);
    let mut i: usize = 0;
    assert(es.skip(0) =~= es);
    while i < entries.len()
        invariant
            i <= entries@.len(),
            es == entry_views(entries@),
            lookup(es, key@) == lookup(es.skip(i as int), key@),
        decreases entries@.len() - i,
    {
        assert(es.skip(i as int).drop_first() =~= es.skip(i + 1));
        assert(es.skip(i as int)[0] == (entries@[i as int].0@, entries@[i as int].1@));
        if str_eq(entries[i].0.as_str(), key) {
            return Some(&entries[i].1);
        }
        i = i + 1;
    }
    None
}

/// Array items are smaller than the array.
proof fn lemma_array_item_smaller(v: JsonValue, i: int)
    requires
        v is Array,
        0 <= i < v->Array_0@.len(),
    ensures
        decreases_to!(v => v->Array_0@[i]),
{
    assert(decreases_to!(v => v->Array_0));
    assert(decreases_to!(v->Array_0 => v->Array_0@));
}

/// Entry values are smaller than the object.
proof fn lemma_entry_value_smaller(v: JsonValue, i: int)
    requires
        v is Object,
        0 <= i < v->Object_0@.len(),
    ensures
        decreases_to!(v => v->Object_0@[i].1),
{
    assert(decreases_to!(v => v->Object_0));
    assert(decreases_to!(v->Object_0 => v->Object_0@));
    assert(decreases_to!(v->Object_0@ => v->Object_0@[i]));
}

impl JsonValue {
    /// The field `key` of an object; `None` when absent or not an object.
    pub fn get(&self, key: &str) -> (r: Option<&JsonValue>)
        ensures
            opt_view(r) == field(self@, key@),
    {
        match self {
            JsonValue::Object(entries) => lookup_entries(entries, key),
            _ => None,
        }
    }

    /// The text of a string value.
    pub fn as_str(&self) -> (r: Option<&str>)
        ensures
            match r {
                Some(s) => view_str(self@) == Some(s@),
                None => view_str(self@) is None,
            },
    {
        match self {
            JsonValue::Str(s) => Some(s.as_str()),
            _ => None,
        }
    }

    /// A non-negative integer value.
    pub fn as_u64(&self) -> (r: Option<u64>)
        ensures
            r == view_u64(self@),
    {
        match self {
            JsonValue::PosInt(n) => Some(*n),
            _ => None,
        }
    }

    /// An integer value in the `i64` range.
    pub fn as_i64(&self) -> (r: Option<i64>)
        ensures
            r == view_i64(self@),
    {
        match self {
            JsonValue::PosInt(n) => if *n <= 9223372036854775807u64 {
                Some(*n as i64)
            } else {
                None
            },
            JsonValue::NegInt(n) => Some(*n),
            _ => None,
        }
    }

    /// A boolean value.
    pub fn as_bool(&self) -> (r: Option<bool>)
        ensures
            r == view_bool(self@),
    {
        match self {
            JsonValue::Bool(b) => Some(*b),
            _ => None,
        }
    }

    /// A deep copy.
    pub fn duplicate(&self) -> (r: JsonValue)
        ensures
            r@ == self@,
        decreases self,
    {
        match self {
            JsonValue::Null => JsonValue::Null,
            JsonValue::Bool(b) => JsonValue::Bool(*b),
            JsonValue::PosInt(n) => JsonValue::PosInt(*n),
            JsonValue::NegInt(n) => JsonValue::NegInt(*n),
            JsonValue::Float(t) => JsonValue::Float(t.clone()),
            JsonValue::Str(s) => JsonValue::Str(s.clone()),
            JsonValue::Array(items) => {
                let mut out: Vec<JsonValue> = Vec::new();
                let mut i: usize = 0;
                while i < items.len()
                    invariant
                        *self == JsonValue::Array(*items),
                        i <= items@.len(),
                        out@.len() == i,
                        forall|j: int| 0 <= j < i ==> #[trigger] out@[j]@ == items@[j]@,
                    decreases items@.len() - i,
                {
                    proof {
                        lemma_array_item_smaller(*self, i as int);
                    }
                    let item = items[i].duplicate();
                    out.push(item);
                    i = i + 1;
                }
                let r = JsonValue::Array(out);
                assert forall|j: int| 0 <= j < out@.len() implies item_views(out@)[j] == item_views(items@)[j] by {
                    assert(out@[j]@ == items@[j]@);
                }
                assert(item_views(out@) =~= item_views(items@));
                r
            },
            JsonValue::Object(entries) => {
                let mut out: Vec<(String, JsonValue)> = Vec::new();
                let mut i: usize = 0;
                while i < entries.len()
                    invariant
                        *self == JsonValue::Object(*entries),
                        i <= entries@.len(),
                        out@.len() == i,
                        forall|j: int| 0 <= j < i ==> #[trigger] out@[j].0@ == entries@[j].0@ && out@[j].1@ == entries@[j].1@,
                    decreases entries@.len() - i,
                {
                    let k = entries[i].0.clone();
                    proof {
                        lemma_entry_value_smaller(*self, i as int);
                    }
                    let v = entries[i].1.duplicate();
                    out.push((k, v));
                    i = i + 1;
                }
                let r = JsonValue::Object(out);
                assert(entry_views(out@) =~= entry_views(entries@));
                r
            },
        }
    }
}

} // verus!
