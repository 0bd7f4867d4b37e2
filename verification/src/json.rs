//! JSON values, and the text that stands for them.

use vstd::prelude::*;

use crate::table::{aligned_entries, distinct_keys, filed, has_key, place, Table};

verus! {

/// The type of a JSON number.
#[verifier::external_type_specification]
#[verifier::external_body]
pub struct ExNumber(serde_json::Number);

/// The type of a JSON value as `serde_json` reads and writes it.
#[verifier::external_type_specification]
#[verifier::external_body]
pub struct ExValue(serde_json::Value);

/// The type of an error of `serde_json`.
#[verifier::external_type_specification]
#[verifier::external_body]
pub struct ExError(serde_json::Error);

/// A JSON value.
#[derive(Debug)]
pub enum Json {
    Null,
    Bool(bool),
    Number(serde_json::Number),
    Str(String),
    Array(Vec<Json>),
    Object(Table<Json>),
}

/// What a JSON value is. An object is what it holds under each key.
pub enum JsonView {
    Null,
    Bool(bool),
    Number(serde_json::Number),
    Str(Seq<char>),
    Array(Seq<JsonView>),
    Object(Map<Seq<char>, JsonView>),
}

impl JsonView {
    /// What an object holds under a key; nothing for any other value.
    pub open spec fn field(self, key: Seq<char>) -> Option<JsonView> {
        match self {
            JsonView::Object(members) => if members.contains_key(key) {
                Some(members[key])
            } else {
                None
            },
            _ => None,
        }
    }

    /// The text of a string; nothing for any other value.
    pub open spec fn text(self) -> Option<Seq<char>> {
        match self {
            JsonView::Str(s) => Some(s),
            _ => None,
        }
    }

    /// The items of an array; nothing for any other value.
    pub open spec fn items(self) -> Option<Seq<JsonView>> {
        match self {
            JsonView::Array(items) => Some(items),
            _ => None,
        }
    }

    /// The members of an object; nothing for any other value.
    pub open spec fn members(self) -> Option<Map<Seq<char>, JsonView>> {
        match self {
            JsonView::Object(members) => Some(members),
            _ => None,
        }
    }

    /// The integer that a number is, if it is one that fits; nothing for any
    /// other value.
    pub open spec fn integer(self) -> Option<i64> {
        match self {
            JsonView::Number(n) => number_int(n),
            _ => None,
        }
    }
}

impl View for Json {
    type V = JsonView;

    open spec fn view(&self) -> JsonView
        decreases self,
    {
        match self {
            Json::Null => JsonView::Null,
            Json::Bool(b) => JsonView::Bool(*b),
            Json::Number(n) => JsonView::Number(*n),
            Json::Str(s) => JsonView::Str(s@),
            Json::Array(items) => JsonView::Array(
                Seq::new(
                    items@.len(),
                    |i: int|
                        if 0 <= i < items@.len() {
                            items@[i].view()
                        } else {
                            JsonView::Null
                        },
                ),
            ),
            Json::Object(table) => JsonView::Object(table.members()),
        }
    }
}

impl Table<Json> {
    /// What the value filed under each key is.
    pub closed spec fn members(self) -> Map<Seq<char>, JsonView>
        decreases self,
    {
        Map::new(
            |k: Seq<char>| has_key(self.entries@, k),
            |k: Seq<char>|
                {
                    let i = place(self.entries@, k);
                    if 0 <= i < self.entries@.len() {
                        self.entries@[i].1.view()
                    } else {
                        JsonView::Null
                    }
                },
        )
    }

    /// The members of a table are the views of what it holds.
    pub proof fn members_are_views(self)
        ensures
            self.members() == self@.map_values(|j: Json| j@),
    {
        self.shows_entries();
        assert(self.members() =~= self@.map_values(|j: Json| j@));
    }
}

// Numbers.

/// The integer that `serde_json::Number::as_i64` finds in a number.
pub uninterp spec fn number_int(n: serde_json::Number) -> Option<i64>;

/// `serde_json::Number::as_i64` depends on the number alone.
pub assume_specification[ serde_json::Number::as_i64 ](n: &serde_json::Number) -> (r: Option<i64>)
    ensures
        r == number_int(*n),
;

/// `serde_json::Number::clone` gives the same number.
pub assume_specification[ <serde_json::Number as Clone>::clone ](
    n: &serde_json::Number,
) -> (r: serde_json::Number)
    ensures
        r == *n,
;

// Values, one level at a time.

/// One level of a JSON value: what kind it is and what lies directly in it.
pub(crate) enum Level {
    Null,
    Bool(bool),
    Number(serde_json::Number),
    Str(String),
    Array(Vec<serde_json::Value>),
    Object(Vec<(String, serde_json::Value)>),
}

/// What a `serde_json::Value` holds.
pub uninterp spec fn held(v: serde_json::Value) -> JsonView;

/// What a value of which one level is known holds.
pub(crate) open spec fn held_in(level: Level) -> JsonView {
    match level {
        Level::Null => JsonView::Null,
        Level::Bool(b) => JsonView::Bool(b),
        Level::Number(n) => JsonView::Number(n),
        Level::Str(s) => JsonView::Str(s@),
        Level::Array(items) => JsonView::Array(
            items@.map_values(|v: serde_json::Value| held(v)),
        ),
        Level::Object(entries) => JsonView::Object(
            filed(entries@).map_values(|v: serde_json::Value| held(v)),
        ),
    }
}

/// Takes a `serde_json::Value` apart by its variants: the level that comes out
/// holds what the value held, and an object's keys, which
/// `serde_json::Map::into_iter` hands out, differ from one another.
#[verifier::external_body]
fn take_apart(v: serde_json::Value) -> (r: Level)
    ensures
        held_in(r) == held(v),
        r matches Level::Object(entries) ==> distinct_keys(entries@),
{
    match v {
        serde_json::Value::Null => Level::Null,
        serde_json::Value::Bool(b) => Level::Bool(b),
        serde_json::Value::Number(n) => Level::Number(n),
        serde_json::Value::String(s) => Level::Str(s),
        serde_json::Value::Array(items) => Level::Array(items),
        serde_json::Value::Object(members) => Level::Object(members.into_iter().collect()),
    }
}

/// Puts a `serde_json::Value` together by its variants: it holds what the level
/// holds. An object is what `serde_json::Map::from_iter` makes of the entries.
#[verifier::external_body]
fn put_together(level: Level) -> (r: serde_json::Value)
    requires
        level matches Level::Object(entries) ==> distinct_keys(entries@),
    ensures
        held(r) == held_in(level),
{
    match level {
        Level::Null => serde_json::Value::Null,
        Level::Bool(b) => serde_json::Value::Bool(b),
        Level::Number(n) => serde_json::Value::Number(n),
        Level::Str(s) => serde_json::Value::String(s),
        Level::Array(items) => serde_json::Value::Array(items),
        Level::Object(entries) => serde_json::Value::Object(entries.into_iter().collect()),
    }
}

// Text.

/// What `serde_json::from_str` makes of a text: the value that it stands for,
/// or the message that says why it stands for none.
pub uninterp spec fn parsed(text: Seq<char>) -> Result<JsonView, Seq<char>>;

/// The text that `serde_json::to_string` writes for a value.
pub uninterp spec fn written(v: JsonView) -> Seq<char>;

/// `serde_json::from_str` reads a whole text as one value. The value, or the
/// message of the error, depends on the text alone.
#[verifier::external_body]
fn read_value(text: &str) -> (r: Result<serde_json::Value, String>)
    ensures
        match r {
            Ok(v) => parsed(text@) == Ok::<JsonView, Seq<char>>(held(v)),
            Err(message) => parsed(text@) == Err::<JsonView, Seq<char>>(message@),
        },
{
    serde_json::from_str(text).map_err(|e: serde_json::Error| e.to_string())
}

/// An object of which every member is a string or an object of strings.
pub open spec fn is_shallow(v: JsonView) -> bool {
    v matches JsonView::Object(members) && forall|k: Seq<char>| #[trigger]
        members.contains_key(k) ==> match members[k] {
            JsonView::Str(_) => true,
            JsonView::Object(inner) => forall|i: Seq<char>| #[trigger]
                inner.contains_key(i) ==> inner[i] is Str,
            _ => false,
        }
}

/// `serde_json::to_string` writes any value, as a text that depends on what the
/// value holds alone. For an object of strings and of objects of strings
/// `serde_json::from_str` gives back what was written. That is left unsaid of
/// other values: a fraction may come back slightly off, and a value nested more
/// than a hundred levels deep is refused.
#[verifier::external_body]
fn write_value(v: &serde_json::Value) -> (r: Result<String, serde_json::Error>)
    ensures
        match r {
            Ok(text) => text@ == written(held(*v)) && (is_shallow(held(*v)) ==> parsed(text@) == Ok::<
                JsonView,
                Seq<char>,
            >(held(*v))),
            Err(_) => false,
        },
{
    serde_json::to_string(v)
}

impl Json {
    /// The value that a `serde_json::Value` holds.
    fn from_value(v: serde_json::Value) -> (r: Json)
        ensures
            r@ == held(v),
        decreases held(v),
    {
        match take_apart(v) {
            Level::Null => Json::Null,
            Level::Bool(b) => Json::Bool(b),
            Level::Number(n) => Json::Number(n),
            Level::Str(s) => Json::Str(s),
            Level::Array(items) => {
                let ghost all = items@;
                let mut out: Vec<Json> = Vec::new();
                for item in it: items
                    invariant
                        it.seq() == all,
                        held(v) == JsonView::Array(
                            all.map_values(|v: serde_json::Value| held(v)),
                        ),
                        out@.len() == it.index(),
                        forall|i: int| 0 <= i < out@.len() ==> (#[trigger] out@[i])@ == held(all[i]),
                {
                    assert(held(item) == held(v)->Array_0[it.index() as int]);
                    out.push(Json::from_value(item));
                }
                let r = Json::Array(out);
                assert(r@->Array_0 =~= held(v)->Array_0);
                r
            },
            Level::Object(entries) => {
                let ghost all = entries@;
                let mut out: Vec<(String, Json)> = Vec::new();
                for entry in it: entries
                    invariant
                        it.seq() == all,
                        held(v) == JsonView::Object(
                            filed(all).map_values(|v: serde_json::Value| held(v)),
                        ),
                        distinct_keys(all),
                        out@.len() == it.index(),
                        forall|i: int|
                            0 <= i < out@.len() ==> (#[trigger] out@[i]).0@ == all[i].0@
                                && out@[i].1@ == held(all[i].1),
                {
                    let (key, value) = entry;
                    assert(all[it.index() as int].0@ == key@);
                    assert(has_key(all, key@));
                    assert(place(all, key@) == it.index());
                    assert(held(value) == held(v)->Object_0[key@]);
                    out.push((key, Json::from_value(value)));
                }
                proof {
                    aligned_entries(all, out@);
                }
                let r = Json::Object(Table::of_entries(out));
                proof {
                    r->Object_0.members_are_views();
                }
                assert(r@->Object_0 =~= held(v)->Object_0);
                r
            },
        }
    }

    /// A `serde_json::Value` that holds this value.
    fn to_value(&self) -> (r: serde_json::Value)
        ensures
            held(r) == self@,
        decreases self,
    {
        let level = match self {
            Json::Null => Level::Null,
            Json::Bool(b) => Level::Bool(*b),
            Json::Number(n) => Level::Number(n.clone()),
            Json::Str(s) => Level::Str(s.clone()),
            Json::Array(items) => {
                let mut out: Vec<serde_json::Value> = Vec::new();
                let mut i: usize = 0;
                while i < items.len()
                    invariant
                        i <= items.len(),
                        *self == Json::Array(*items),
                        out@.len() == i,
                        forall|j: int| 0 <= j < i ==> held(#[trigger] out@[j]) == items@[j]@,
                    decreases items.len() - i,
                {
                    assert(decreases_to!(*self => self->Array_0));
                    out.push(items[i].to_value());
                    i += 1;
                }
                assert(out@.map_values(|v: serde_json::Value| held(v)) =~= self@->Array_0);
                Level::Array(out)
            },
            Json::Object(table) => {
                let mut out: Vec<(String, serde_json::Value)> = Vec::new();
                let mut i: usize = 0;
                while i < table.entries.len()
                    invariant
                        i <= table.entries.len(),
                        *self == Json::Object(*table),
                        out@.len() == i,
                        forall|j: int|
                            0 <= j < i ==> (#[trigger] out@[j]).0@ == table.entries@[j].0@
                                && held(out@[j].1) == table.entries@[j].1@,
                    decreases table.entries.len() - i,
                {
                    assert(decreases_to!(*self => self->Object_0));
                    out.push((table.entries[i].0.clone(), table.entries[i].1.to_value()));
                    i += 1;
                }
                proof {
                    use_type_invariant(table);
                    table.shows_entries();
                    table.members_are_views();
                    aligned_entries(table.entries@, out@);
                }
                assert(filed(out@).map_values(|v: serde_json::Value| held(v)) =~= self@->Object_0);
                Level::Object(out)
            },
        };
        put_together(level)
    }

    /// The value that a text stands for, or why it stands for none.
    pub fn parse(text: &str) -> (r: Result<Json, String>)
        ensures
            match r {
                Ok(v) => parsed(text@) == Ok::<JsonView, Seq<char>>(v@),
                Err(message) => parsed(text@) == Err::<JsonView, Seq<char>>(message@),
            },
    {
        match read_value(text) {
            Ok(v) => Ok(Json::from_value(v)),
            Err(message) => Err(message),
        }
    }

    /// The text that stands for this value.
    pub fn to_text(&self) -> (r: String)
        ensures
            r@ == written(self@),
            is_shallow(self@) ==> parsed(r@) == Ok::<JsonView, Seq<char>>(self@),
    {
        match write_value(&self.to_value()) {
            Ok(text) => text,
            Err(_) => String::new(),
        }
    }

    /// What an object holds under a key.
    pub fn get(&self, key: &str) -> (r: Option<&Json>)
        ensures
            match r {
                Some(v) => self@.field(key@) == Some(v@),
                None => self@.field(key@) is None,
            },
    {
        match self {
            Json::Object(table) => {
                proof {
                    table.members_are_views();
                }
                table.get(key)
            },
            _ => None,
        }
    }

    /// The text of a string.
    pub fn as_str(&self) -> (r: Option<&str>)
        ensures
            match r {
                Some(s) => self@.text() == Some(s@),
                None => self@.text() is None,
            },
    {
        match self {
            Json::Str(s) => Some(s.as_str()),
            _ => None,
        }
    }

    /// The items of an array.
    pub fn as_array(&self) -> (r: Option<&Vec<Json>>)
        ensures
            match r {
                Some(items) => self@.items() == Some(Seq::new(items@.len(), |i: int| items@[i]@)),
                None => self@.items() is None,
            },
    {
        match self {
            Json::Array(items) => {
                assert(self@->Array_0 =~= Seq::new(items@.len(), |i: int| items@[i]@));
                Some(items)
            },
            _ => None,
        }
    }

    /// The members of an object.
    pub fn as_object(&self) -> (r: Option<&Table<Json>>)
        ensures
            match r {
                Some(table) => self@.members() == Some(table.members()),
                None => self@.members() is None,
            },
    {
        match self {
            Json::Object(table) => Some(table),
            _ => None,
        }
    }

    /// The integer that a number is, if it is one that fits.
    pub fn as_i64(&self) -> (r: Option<i64>)
        ensures
            r == self@.integer(),
    {
        match self {
            Json::Number(n) => n.as_i64(),
            _ => None,
        }
    }
}

} // verus!
