//! JSON values: the shape every message of the proxy has.

use vstd::prelude::*;

use serde_json::Value;

use crate::table::TableKey;
use crate::text::{is_white, text_eq};

verus! {

/// A JSON value. An object is a list of entries; where a key occurs twice the
/// later entry counts.
#[derive(Debug)]
pub enum Json {
    Null,
    Bool(bool),
    UInt(u64),
    Int(i64),
    Number(serde_json::Number),
    Str(String),
    Array(Vec<Json>),
    Object(Vec<(String, Json)>),
}

/// The mathematical value of a `Json`.
#[verifier::ext_equal]
pub enum JsonView {
    Null,
    Bool(bool),
    Num(NumberView),
    Str(Seq<char>),
    Arr(Seq<JsonView>),
    Obj(Map<Seq<char>, JsonView>),
}

/// The mathematical value of a JSON number: an integer where `serde_json` keeps
/// one, else the text that it displays.
#[verifier::ext_equal]
pub enum NumberView {
    Int(int),
    Float(Seq<char>),
}

/// A JSON number taken apart.
pub enum NumberParts {
    UInt(u64),
    Int(i64),
    Float(String),
}

impl View for NumberParts {
    type V = NumberView;

    open spec fn view(&self) -> NumberView {
        match self {
            NumberParts::UInt(n) => NumberView::Int(*n as int),
            NumberParts::Int(n) => NumberView::Int(*n as int),
            NumberParts::Float(text) => NumberView::Float(text@),
        }
    }
}

#[verifier::external_type_specification]
#[verifier::external_body]
pub struct ExNumber(serde_json::Number);

#[verifier::external_type_specification]
#[verifier::external_body]
pub struct ExValue(serde_json::Value);

/// What a `serde_json::Number` holds.
pub uninterp spec fn number_view(n: serde_json::Number) -> NumberView;

/// What a `serde_json::Value` holds.
pub uninterp spec fn value_view(v: serde_json::Value) -> JsonView;

/// How deep a `serde_json::Value` is nested.
pub uninterp spec fn value_depth(v: serde_json::Value) -> nat;

/// The value that `serde_json::from_str` reads from a text, if it is JSON.
pub uninterp spec fn json_parse(text: Seq<char>) -> Option<JsonView>;

/// The compact text that `serde_json::to_string` writes for a value.
pub uninterp spec fn json_text(v: JsonView) -> Seq<char>;

/// The indented text that `serde_json::to_string_pretty` writes for a value.
pub uninterp spec fn json_pretty(v: JsonView) -> Seq<char>;

/// A value without fractional numbers, nested at most `depth` deep.
pub open spec fn plain(v: JsonView, depth: nat) -> bool
    decreases depth,
{
    match v {
        JsonView::Num(NumberView::Float(_)) => false,
        JsonView::Arr(items) => depth > 0 && forall|i: int|
            0 <= i < items.len() ==> plain(#[trigger] items[i], (depth - 1) as nat),
        JsonView::Obj(m) => depth > 0 && forall|k: Seq<char>|
            m.contains_key(k) ==> plain(#[trigger] m[k], (depth - 1) as nat),
        _ => true,
    }
}

/// Nesting that `serde_json::from_str` still reads.
pub const MAX_DEPTH: u8 = 127;

/// Takes a `serde_json::Number` apart with `as_u64`, `as_i64` and, for the
/// others, its displayed text.
#[verifier::external_body]
fn number_parts(n: &serde_json::Number) -> (parts: NumberParts)
    ensures
        parts@ == number_view(*n),
{
    match (n.as_u64(), n.as_i64()) {
        (Some(u), _) => NumberParts::UInt(u),
        (None, Some(i)) => NumberParts::Int(i),
        (None, None) => NumberParts::Float(n.to_string()),
    }
}

/// `serde_json::Number::clone`: the clone is the same number.
#[verifier::external_body]
fn clone_number(n: &serde_json::Number) -> (c: serde_json::Number)
    ensures
        c == *n,
{
    n.clone()
}

/// A `serde_json::Value` whose outermost layer is open.
enum Opened<'a> {
    Null,
    Bool(bool),
    Number(&'a serde_json::Number),
    Str(&'a str),
    Array(&'a Vec<Value>),
    Object(Vec<(&'a String, &'a Value)>),
}

/// The parts of a `serde_json::Value`.
enum Parts {
    Null,
    Bool(bool),
    UInt(u64),
    Int(i64),
    Number(serde_json::Number),
    Str(String),
    Array(Vec<Value>),
    Object(Vec<(String, Value)>),
}

/// What the items of an array hold.
spec fn values_view(items: Seq<Value>) -> Seq<JsonView> {
    Seq::new(items.len(), |i: int| value_view(items[i]))
}

/// What an opened value holds.
spec fn opened_view(opened: Opened) -> JsonView {
    match opened {
        Opened::Null => JsonView::Null,
        Opened::Bool(b) => JsonView::Bool(b),
        Opened::Number(n) => JsonView::Num(number_view(*n)),
        Opened::Str(s) => JsonView::Str(s@),
        Opened::Array(items) => JsonView::Arr(values_view(items@)),
        Opened::Object(entries) => JsonView::Obj(
            entries_map(
                Seq::new(entries@.len(), |i: int| (entries@[i].0@, value_view(*entries@[i].1))),
            ),
        ),
    }
}

/// What a value with these parts holds: of entries with the same key the last one
/// counts.
spec fn parts_view(parts: Parts) -> JsonView {
    match parts {
        Parts::Null => JsonView::Null,
        Parts::Bool(b) => JsonView::Bool(b),
        Parts::UInt(n) => JsonView::Num(NumberView::Int(n as int)),
        Parts::Int(n) => JsonView::Num(NumberView::Int(n as int)),
        Parts::Number(n) => JsonView::Num(number_view(n)),
        Parts::Str(s) => JsonView::Str(s@),
        Parts::Array(items) => JsonView::Arr(values_view(items@)),
        Parts::Object(entries) => JsonView::Obj(
            entries_map(
                Seq::new(entries@.len(), |i: int| (entries@[i].0@, value_view(entries@[i].1))),
            ),
        ),
    }
}

/// Opens the outermost layer of a `serde_json::Value`: its variant, with what that
/// holds. What is inside an array or an object is nested less deep than the whole.
#[verifier::external_body]
fn open_value(value: &Value) -> (opened: Opened<'_>)
    ensures
        value_view(*value) == opened_view(opened),
        opened matches Opened::Array(items) ==> forall|i: int|
            0 <= i < items@.len() ==> value_depth(#[trigger] items@[i]) < value_depth(*value),
        opened matches Opened::Object(entries) ==> forall|i: int|
            0 <= i < entries@.len() ==> value_depth(*(#[trigger] entries@[i]).1) < value_depth(
                *value,
            ),
{
    match value {
        Value::Null => Opened::Null,
        Value::Bool(b) => Opened::Bool(*b),
        Value::Number(n) => Opened::Number(n),
        Value::String(s) => Opened::Str(s.as_str()),
        Value::Array(items) => Opened::Array(items),
        Value::Object(entries) => Opened::Object(entries.iter().collect()),
    }
}

/// Makes a `serde_json::Value` of its parts, variant by variant. An object is
/// collected into a `serde_json::Map`, in which a later entry replaces an earlier one
/// with the same key.
#[verifier::external_body]
fn make_value(parts: Parts) -> (value: Value)
    ensures
        value_view(value) == parts_view(parts),
{
    match parts {
        Parts::Null => Value::Null,
        Parts::Bool(b) => Value::Bool(b),
        Parts::UInt(n) => Value::from(n),
        Parts::Int(n) => Value::from(n),
        Parts::Number(n) => Value::Number(n),
        Parts::Str(s) => Value::String(s),
        Parts::Array(items) => Value::Array(items),
        Parts::Object(entries) => Value::Object(entries.into_iter().collect()),
    }
}

/// Turns a `serde_json::Value` into a `Json` that holds the same.
fn import_value(value: &Value) -> (j: Json)
    ensures
        j@ == value_view(*value),
    decreases value_depth(*value),
{
    match open_value(value) {
        Opened::Null => Json::Null,
        Opened::Bool(b) => Json::Bool(b),
        Opened::Number(n) => match number_parts(n) {
            NumberParts::UInt(u) => Json::UInt(u),
            NumberParts::Int(i) => Json::Int(i),
            NumberParts::Float(_) => Json::Number(clone_number(n)),
        },
        Opened::Str(s) => Json::Str(s.to_owned()),
        Opened::Array(items) => {
            let mut out: Vec<Json> = Vec::new();
            let mut i: usize = 0;
            while i < items.len()
                invariant
                    i <= items@.len(),
                    out@.len() == i,
                    forall|k: int| 0 <= k < i ==> (#[trigger] out@[k])@ == value_view(items@[k]),
                    forall|k: int|
                        0 <= k < items@.len() ==> value_depth(#[trigger] items@[k]) < value_depth(
                            *value,
                        ),
                decreases items@.len() - i,
            {
                out.push(import_value(&items[i]));
                i = i + 1;
            }
            proof {
                lemma_array_view(out);
                assert(items_view(out@) =~= values_view(items@));
            }
            Json::Array(out)
        },
        Opened::Object(entries) => {
            let mut out: Vec<(String, Json)> = Vec::new();
            let mut i: usize = 0;
            while i < entries.len()
                invariant
                    i <= entries@.len(),
                    out@.len() == i,
                    forall|k: int|
                        0 <= k < i ==> (#[trigger] out@[k]).0@ == entries@[k].0@ && out@[k].1@
                            == value_view(*entries@[k].1),
                    forall|k: int|
                        0 <= k < entries@.len() ==> value_depth(*(#[trigger] entries@[k]).1)
                            < value_depth(*value),
                decreases entries@.len() - i,
            {
                let (key, inner) = entries[i];
                out.push((key.clone(), import_value(inner)));
                i = i + 1;
            }
            proof {
                lemma_object_view(out);
                assert(entries_view(out@) =~= Seq::new(
                    entries@.len(),
                    |k: int| (entries@[k].0@, value_view(*entries@[k].1)),
                ));
            }
            Json::Object(out)
        },
    }
}

/// Turns a `Json` into a `serde_json::Value` that holds the same.
fn export_value(j: &Json) -> (value: Value)
    ensures
        value_view(value) == j@,
    decreases *j,
{
    let parts = match j {
        Json::Null => Parts::Null,
        Json::Bool(b) => Parts::Bool(*b),
        Json::UInt(n) => Parts::UInt(*n),
        Json::Int(n) => Parts::Int(*n),
        Json::Number(n) => Parts::Number(clone_number(n)),
        Json::Str(s) => Parts::Str(s.clone()),
        Json::Array(items) => {
            let mut out: Vec<Value> = Vec::new();
            let mut i: usize = 0;
            while i < items.len()
                invariant
                    i <= items@.len(),
                    *j == Json::Array(*items),
                    out@.len() == i,
                    forall|k: int| 0 <= k < i ==> value_view(#[trigger] out@[k]) == items@[k]@,
                decreases items@.len() - i,
            {
                assert(j->Array_0 == *items);
                assert(decreases_to!(*j => j->Array_0));
                assert(decreases_to!(items@ => items@[i as int]));
                out.push(export_value(&items[i]));
                i = i + 1;
            }
            proof {
                lemma_array_view(*items);
                assert(values_view(out@) =~= items_view(items@));
            }
            Parts::Array(out)
        },
        Json::Object(entries) => {
            let mut out: Vec<(String, Value)> = Vec::new();
            let mut i: usize = 0;
            while i < entries.len()
                invariant
                    i <= entries@.len(),
                    *j == Json::Object(*entries),
                    out@.len() == i,
                    forall|k: int|
                        0 <= k < i ==> (#[trigger] out@[k]).0@ == entries@[k].0@ && value_view(
                            out@[k].1,
                        ) == entries@[k].1@,
                decreases entries@.len() - i,
            {
                assert(j->Object_0 == *entries);
                assert(decreases_to!(*j => j->Object_0));
                assert(decreases_to!(entries@ => entries@[i as int]));
                assert(decreases_to!(entries@[i as int] => entries@[i as int].1));
                out.push((entries[i].0.clone(), export_value(&entries[i].1)));
                i = i + 1;
            }
            proof {
                lemma_object_view(*entries);
                assert(entries_view(entries@) =~= Seq::new(
                    out@.len(),
                    |k: int| (out@[k].0@, value_view(out@[k].1)),
                ));
            }
            Parts::Object(out)
        },
    };
    make_value(parts)
}

/// `serde_json::from_str` on a text: the value it reads, or `None` where it
/// reports an error.
#[verifier::external_body]
fn parse_value(text: &str) -> (value: Option<Value>)
    ensures
        match value {
            Some(v) => json_parse(text@) == Some(value_view(v)),
            None => json_parse(text@) is None,
        },
{
    serde_json::from_str(text).ok()
}

/// `serde_json::to_string` on a value. The compact text is never empty, holds no
/// line feed and no white space at its ends (control characters inside strings
/// are escaped), and `serde_json::from_str` reads the value back from it, unless
/// a fraction is in it or it is nested deeper than the reader goes.
#[verifier::external_body]
fn value_text(value: &Value) -> (text: String)
    ensures
        text@ == json_text(value_view(*value)),
        text@.len() > 0,
        !is_white(text@.first()),
        !is_white(text@.last()),
        forall|i: int| 0 <= i < text@.len() ==> text@[i] != '\n',
        plain(value_view(*value), MAX_DEPTH as nat) ==> json_parse(text@) == Some(
            value_view(*value),
        ),
{
    serde_json::to_string(value).unwrap_or_default()
}

/// `serde_json::to_string_pretty` on a value.
#[verifier::external_body]
fn value_pretty(value: &Value) -> (text: String)
    ensures
        text@ == json_pretty(value_view(*value)),
{
    serde_json::to_string_pretty(value).unwrap_or_default()
}

/// Reads one JSON value from a text; `None` where the text is not JSON.
pub fn parse(text: &str) -> (j: Option<Json>)
    ensures
        opt_view(j) == json_parse(text@),
{
    match parse_value(text) {
        Some(value) => Some(import_value(&value)),
        None => None,
    }
}

/// The compact JSON text of a value.
pub fn to_text(j: &Json) -> (text: String)
    ensures
        text@ == json_text(j@),
        text@.len() > 0,
        !is_white(text@.first()),
        !is_white(text@.last()),
        forall|i: int| 0 <= i < text@.len() ==> text@[i] != '\n',
        plain(j@, MAX_DEPTH as nat) ==> json_parse(text@) == Some(j@),
{
    let value = export_value(j);
    value_text(&value)
}

/// The indented JSON text of a value.
pub fn to_pretty_text(j: &Json) -> (text: String)
    ensures
        text@ == json_pretty(j@),
{
    let value = export_value(j);
    value_pretty(&value)
}

/// The key and value of each entry, as mathematical values.
pub open spec fn entries_view(entries: Seq<(String, Json)>) -> Seq<(Seq<char>, JsonView)> {
    Seq::new(entries.len(), |i: int| (entries[i].0@, entries[i].1@))
}

/// The values of the items of an array.
pub open spec fn items_view(items: Seq<Json>) -> Seq<JsonView> {
    Seq::new(items.len(), |i: int| items[i]@)
}

/// The mapping that a list of entries stands for: later entries win.
pub open spec fn entries_map(entries: Seq<(Seq<char>, JsonView)>) -> Map<Seq<char>, JsonView>
    decreases entries.len(),
{
    if entries.len() == 0 {
        Map::empty()
    } else {
        entries_map(entries.drop_last()).insert(entries.last().0, entries.last().1)
    }
}

impl View for Json {
    type V = JsonView;

    open spec fn view(&self) -> JsonView
        decreases self,
    {
        match self {
            Json::Null => JsonView::Null,
            Json::Bool(b) => JsonView::Bool(*b),
            Json::UInt(n) => JsonView::Num(NumberView::Int(*n as int)),
            Json::Int(n) => JsonView::Num(NumberView::Int(*n as int)),
            Json::Number(n) => JsonView::Num(number_view(*n)),
            Json::Str(s) => JsonView::Str(s@),
            Json::Array(items) => JsonView::Arr(
                Seq::new(
                    items@.len(),
                    |i: int|
                        if 0 <= i < items@.len() {
                            items@[i].view()
                        } else {
                            JsonView::Null
                        },
                ),
            ),
            Json::Object(entries) => JsonView::Obj(object_map(entries@)),
        }
    }
}

/// The mapping of an object's entries.
pub open spec fn object_map(entries: Seq<(String, Json)>) -> Map<Seq<char>, JsonView>
    decreases entries,
{
    if entries.len() == 0 {
        Map::empty()
    } else {
        object_map(entries.drop_last()).insert(entries.last().0@, entries.last().1.view())
    }
}

/// The field `key` of a value: present only in objects.
pub open spec fn field(v: JsonView, key: Seq<char>) -> Option<JsonView> {
    match v {
        JsonView::Obj(m) => if m.contains_key(key) {
            Some(m[key])
        } else {
            None
        },
        _ => None,
    }
}

/// The field of an optional value.
pub open spec fn opt_field(v: Option<JsonView>, key: Seq<char>) -> Option<JsonView> {
    match v {
        Some(v) => field(v, key),
        None => None,
    }
}

/// The text of a string value.
pub open spec fn str_of(v: Option<JsonView>) -> Option<Seq<char>> {
    match v {
        Some(JsonView::Str(s)) => Some(s),
        _ => None,
    }
}

/// The truth value of a boolean.
pub open spec fn bool_of(v: Option<JsonView>) -> Option<bool> {
    match v {
        Some(JsonView::Bool(b)) => Some(b),
        _ => None,
    }
}

/// The value behind an optional reference.
pub open spec fn ref_view(v: Option<&Json>) -> Option<JsonView> {
    match v {
        Some(j) => Some(j@),
        None => None,
    }
}

/// The value inside an optional `Json`.
pub open spec fn opt_view(v: Option<Json>) -> Option<JsonView> {
    match v {
        Some(j) => Some(j@),
        None => None,
    }
}

/// The text behind an optional string slice.
pub open spec fn opt_str(v: Option<&str>) -> Option<Seq<char>> {
    match v {
        Some(s) => Some(s@),
        None => None,
    }
}

/// An object with no entries.
pub open spec fn empty_object() -> JsonView {
    JsonView::Obj(Map::empty())
}

/// An object with one more (or a replaced) entry; other values become an object
/// with that entry alone.
pub open spec fn with_field(v: JsonView, key: Seq<char>, value: JsonView) -> JsonView {
    match v {
        JsonView::Obj(m) => JsonView::Obj(m.insert(key, value)),
        _ => JsonView::Obj(Map::empty().insert(key, value)),
    }
}

proof fn lemma_array_view(items: Vec<Json>)
    ensures
        Json::Array(items)@ == JsonView::Arr(items_view(items@)),
{
    assert(Json::Array(items)@->Arr_0 =~= items_view(items@));
}

proof fn lemma_object_map(entries: Seq<(String, Json)>)
    ensures
        object_map(entries) == entries_map(entries_view(entries)),
    decreases entries.len(),
{
    if entries.len() > 0 {
        lemma_object_map(entries.drop_last());
        assert(entries_view(entries).drop_last() =~= entries_view(entries.drop_last()));
    }
}

proof fn lemma_object_view(entries: Vec<(String, Json)>)
    ensures
        Json::Object(entries)@ == JsonView::Obj(entries_map(entries_view(entries@))),
{
    lemma_object_map(entries@);
}

proof fn lemma_entries_hit(entries: Seq<(Seq<char>, JsonView)>, i: int, key: Seq<char>)
    requires
        0 <= i < entries.len(),
        entries[i].0 == key,
        forall|j: int| i < j < entries.len() ==> entries[j].0 != key,
    ensures
        entries_map(entries).contains_key(key),
        entries_map(entries)[key] == entries[i].1,
    decreases entries.len(),
{
    if i < entries.len() - 1 {
        lemma_entries_hit(entries.drop_last(), i, key);
    }
}

proof fn lemma_entries_miss(entries: Seq<(Seq<char>, JsonView)>, key: Seq<char>)
    requires
        forall|j: int| 0 <= j < entries.len() ==> entries[j].0 != key,
    ensures
        !entries_map(entries).contains_key(key),
    decreases entries.len(),
{
    if entries.len() > 0 {
        lemma_entries_miss(entries.drop_last(), key);
    }
}

proof fn lemma_entries_update(
    entries: Seq<(Seq<char>, JsonView)>,
    i: int,
    key: Seq<char>,
    value: JsonView,
)
    requires
        0 <= i < entries.len(),
        entries[i].0 == key,
        forall|j: int| i < j < entries.len() ==> entries[j].0 != key,
    ensures
        entries_map(entries.update(i, (key, value))) == entries_map(entries).insert(key, value),
    decreases entries.len(),
{
    let new = entries.update(i, (key, value));
    if i == entries.len() - 1 {
        assert(new.drop_last() =~= entries.drop_last());
        assert(entries_map(new) =~= entries_map(entries).insert(key, value));
    } else {
        lemma_entries_update(entries.drop_last(), i, key, value);
        assert(new.drop_last() =~= entries.drop_last().update(i, (key, value)));
        assert(new.last() == entries.last());
        assert(entries_map(new) =~= entries_map(entries).insert(key, value));
    }
}

/// Position of the entry that counts for `key`.
fn find_entry(entries: &Vec<(String, Json)>, key: &str) -> (found: Option<usize>)
    ensures
        match found {
            Some(i) => {
                &&& i < entries@.len()
                &&& entries@[i as int].0@ == key@
                &&& forall|j: int| i < j < entries@.len() ==> (#[trigger] entries@[j]).0@ != key@
            },
            None => forall|j: int| 0 <= j < entries@.len() ==> (#[trigger] entries@[j]).0@ != key@,
        },
{
    let mut i: usize = entries.len();
    while i > 0
        invariant
            i <= entries@.len(),
            forall|j: int| i <= j < entries@.len() ==> (#[trigger] entries@[j]).0@ != key@,
        decreases i,
    {
        i = i - 1;
        if text_eq(entries[i].0.as_str(), key) {
            return Some(i);
        }
    }
    None
}

impl Json {
    /// An object with no entries.
    pub fn object() -> (j: Json)
        ensures
            j@ == empty_object(),
            j is Object,
    {
        let entries: Vec<(String, Json)> = Vec::new();
        proof {
            lemma_object_view(entries);
        }
        Json::Object(entries)
    }

    /// An array with no items.
    pub fn array() -> (j: Json)
        ensures
            j@ == JsonView::Arr(Seq::empty()),
    {
        let items: Vec<Json> = Vec::new();
        proof {
            lemma_array_view(items);
            assert(items_view(items@) =~= Seq::empty());
        }
        Json::Array(items)
    }

    /// A string value.
    pub fn text(s: &str) -> (j: Json)
        ensures
            j@ == JsonView::Str(s@),
    {
        Json::Str(s.to_owned())
    }

    /// An array holding `items`.
    pub fn from_items(items: Vec<Json>) -> (j: Json)
        ensures
            j@ == JsonView::Arr(items_view(items@)),
    {
        proof {
            lemma_array_view(items);
        }
        Json::Array(items)
    }

    /// The value of the field `key`; `None` where there is none or `self` is no
    /// object.
    pub fn get(&self, key: &str) -> (found: Option<&Json>)
        ensures
            ref_view(found) == field(self@, key@),
    {
        match self {
            Json::Object(entries) => {
                proof {
                    lemma_object_view(*entries);
                }
                match find_entry(entries, key) {
                    Some(i) => {
                        proof {
                            lemma_entries_hit(entries_view(entries@), i as int, key@);
                        }
                        Some(&entries[i].1)
                    },
                    None => {
                        proof {
                            lemma_entries_miss(entries_view(entries@), key@);
                        }
                        None
                    },
                }
            },
            _ => None,
        }
    }

    /// Sets the field `key`. A value that is no object becomes an object first.
    pub fn set(&mut self, key: &str, value: Json)
        ensures
            final(self)@ == with_field(old(self)@, key@, value@),
            *final(self) is Object,
    {
        if !self.is_object() {
            *self = Json::object();
        }
        if let Json::Object(entries) = self {
            let ghost before = entries_view(entries@);
            let ghost old_entries = *entries;
            proof {
                lemma_object_view(old_entries);
            }
            match find_entry(entries, key) {
                Some(i) => {
                    entries.set(i, (key.to_owned(), value));
                    proof {
                        lemma_entries_update(before, i as int, key@, value@);
                        assert(entries_view(entries@) =~= before.update(
                            i as int,
                            (key@, value@),
                        ));
                        lemma_object_view(*entries);
                    }
                },
                None => {
                    entries.push((key.to_owned(), value));
                    proof {
                        assert(entries_view(entries@).drop_last() =~= before);
                        lemma_object_view(*entries);
                    }
                },
            }
        }
    }

    pub fn is_object(&self) -> (b: bool)
        ensures
            b == (self@ is Obj),
            b == (self is Object),
    {
        match self {
            Json::Object(_) => true,
            _ => false,
        }
    }

    pub fn is_array(&self) -> (b: bool)
        ensures
            b == (self@ is Arr),
    {
        match self {
            Json::Array(_) => true,
            _ => false,
        }
    }

    pub fn is_null(&self) -> (b: bool)
        ensures
            b == (self@ is Null),
    {
        match self {
            Json::Null => true,
            _ => false,
        }
    }

    pub fn is_string(&self) -> (b: bool)
        ensures
            b == (self@ is Str),
    {
        match self {
            Json::Str(_) => true,
            _ => false,
        }
    }

    pub fn is_boolean(&self) -> (b: bool)
        ensures
            b == (self@ is Bool),
    {
        match self {
            Json::Bool(_) => true,
            _ => false,
        }
    }

    pub fn as_str(&self) -> (s: Option<&str>)
        ensures
            opt_str(s) == str_of(Some(self@)),
    {
        match self {
            Json::Str(s) => Some(s.as_str()),
            _ => None,
        }
    }

    pub fn as_bool(&self) -> (b: Option<bool>)
        ensures
            b == bool_of(Some(self@)),
    {
        match self {
            Json::Bool(b) => Some(*b),
            _ => None,
        }
    }

    pub fn as_array(&self) -> (items: Option<&Vec<Json>>)
        ensures
            match items {
                Some(items) => self@ == JsonView::Arr(items_view(items@)),
                None => !(self@ is Arr),
            },
    {
        match self {
            Json::Array(items) => {
                proof {
                    lemma_array_view(*items);
                }
                Some(items)
            },
            _ => None,
        }
    }
}

/// What a number is as an id: the two fractional zeros are one.
pub open spec fn number_identity(n: NumberView) -> NumberView {
    match n {
        NumberView::Float(text) => if text == "-0.0"@ {
            NumberView::Float("0.0"@)
        } else {
            n
        },
        NumberView::Int(_) => n,
    }
}

/// What a value is as an id: values are equal exactly where these are. All that is
/// lost is the sign of a fractional zero, wherever it stands in the value.
#[verifier::opaque]
pub open spec fn identity(v: JsonView) -> JsonView
    decreases v,
{
    match v {
        JsonView::Num(n) => JsonView::Num(number_identity(n)),
        JsonView::Arr(items) => JsonView::Arr(
            Seq::new(
                items.len(),
                |i: int|
                    if 0 <= i < items.len() {
                        identity(items[i])
                    } else {
                        JsonView::Null
                    },
            ),
        ),
        JsonView::Obj(m) => JsonView::Obj(
            Map::new(
                |k: Seq<char>| m.contains_key(k),
                |k: Seq<char>|
                    if m.contains_key(k) {
                        identity(m[k])
                    } else {
                        JsonView::Null
                    },
            ),
        ),
        _ => v,
    }
}

/// As an id a value is of its own kind; what holds nothing else is itself, but for the
/// fractional zeros.
pub proof fn lemma_identity_kind(v: JsonView)
    ensures
        v is Null || v is Bool || v is Str ==> identity(v) == v,
        v matches JsonView::Num(n) ==> identity(v) == JsonView::Num(number_identity(n)),
        v is Arr == identity(v) is Arr,
        v is Obj == identity(v) is Obj,
{
    reveal(identity);
}

proof fn lemma_identity_of_items(a: Seq<JsonView>, b: Seq<JsonView>)
    ensures
        (identity(JsonView::Arr(a)) == identity(JsonView::Arr(b))) == (a.len() == b.len()
            && forall|i: int| 0 <= i < a.len() ==> identity(#[trigger] a[i]) == identity(b[i])),
{
    reveal(identity);
    let x = identity(JsonView::Arr(a))->Arr_0;
    let y = identity(JsonView::Arr(b))->Arr_0;
    if a.len() == b.len() && forall|i: int|
        0 <= i < a.len() ==> identity(#[trigger] a[i]) == identity(b[i]) {
        assert(x =~= y);
    }
    if x == y {
        assert(x.len() == y.len());
        assert forall|i: int| 0 <= i < a.len() implies identity(#[trigger] a[i]) == identity(
            b[i],
        ) by {
            assert(x[i] == y[i]);
        }
    }
}

proof fn lemma_identity_of_fields(a: Map<Seq<char>, JsonView>, b: Map<Seq<char>, JsonView>)
    ensures
        (identity(JsonView::Obj(a)) == identity(JsonView::Obj(b))) == (a.dom() == b.dom()
            && forall|k: Seq<char>| #[trigger]
            a.contains_key(k) ==> identity(a[k]) == identity(b[k])),
{
    reveal(identity);
    let x = identity(JsonView::Obj(a))->Obj_0;
    let y = identity(JsonView::Obj(b))->Obj_0;
    assert(x.dom() =~= a.dom());
    assert(y.dom() =~= b.dom());
    if a.dom() == b.dom() && forall|k: Seq<char>| #[trigger]
        a.contains_key(k) ==> identity(a[k]) == identity(b[k]) {
        assert forall|k: Seq<char>| #[trigger] x.contains_key(k) implies x[k] == y[k] by {
            assert(a.contains_key(k));
        }
        assert(x =~= y);
    }
    if x == y {
        assert forall|k: Seq<char>| #[trigger] a.contains_key(k) implies identity(a[k])
            == identity(b[k]) by {
            assert(x.contains_key(k) && x[k] == y[k]);
            assert(b.dom().contains(k));
        }
    }
}

/// Whether two number representations stand for the same number.
fn same_parts(a: &NumberParts, b: &NumberParts) -> (same: bool)
    ensures
        same == (number_identity(a@) == number_identity(b@)),
{
    match (a, b) {
        (NumberParts::UInt(x), NumberParts::UInt(y)) => *x == *y,
        (NumberParts::UInt(x), NumberParts::Int(y)) => *y >= 0 && *x == *y as u64,
        (NumberParts::Int(x), NumberParts::UInt(y)) => *x >= 0 && *y == *x as u64,
        (NumberParts::Int(x), NumberParts::Int(y)) => *x == *y,
        (NumberParts::Float(x), NumberParts::Float(y)) => text_eq(
            unsigned_zero(x.as_str()),
            unsigned_zero(y.as_str()),
        ),
        _ => false,
    }
}

/// The text of a fraction, without the sign of a zero.
fn unsigned_zero(text: &str) -> (unsigned: &str)
    ensures
        NumberView::Float(unsigned@) == number_identity(NumberView::Float(text@)),
{
    if text_eq(text, "-0.0") {
        "0.0"
    } else {
        text
    }
}

impl Json {
    /// The number a numeric value holds.
    fn parts(&self) -> (parts: Option<NumberParts>)
        ensures
            match parts {
                Some(p) => self@ == JsonView::Num(p@),
                None => !(self@ is Num),
            },
    {
        match self {
            Json::UInt(n) => Some(NumberParts::UInt(*n)),
            Json::Int(n) => Some(NumberParts::Int(*n)),
            Json::Number(n) => Some(number_parts(n)),
            _ => None,
        }
    }

    /// Whether two values are equal. The order of an object's entries does not
    /// matter, nor does the sign of a fractional zero.
    pub fn same(&self, other: &Json) -> (same: bool)
        ensures
            same == (identity(self@) == identity(other@)),
        decreases self,
    {
        proof {
            lemma_identity_kind(self@);
            lemma_identity_kind(other@);
        }
        match (self, other) {
            (Json::Null, Json::Null) => true,
            (Json::Bool(a), Json::Bool(b)) => *a == *b,
            (Json::Str(a), Json::Str(b)) => text_eq(a.as_str(), b.as_str()),
            (Json::Array(a), Json::Array(b)) => {
                proof {
                    lemma_array_view(*a);
                    lemma_array_view(*b);
                    lemma_identity_of_items(items_view(a@), items_view(b@));
                }
                if a.len() != b.len() {
                    assert(items_view(a@).len() != items_view(b@).len());
                    return false;
                }
                let mut i: usize = 0;
                while i < a.len()
                    invariant
                        i <= a@.len(),
                        a@.len() == b@.len(),
                        self == Json::Array(*a),
                        (identity(self@) == identity(other@)) == (forall|j: int|
                            0 <= j < items_view(a@).len() ==> identity(
                                #[trigger] items_view(a@)[j],
                            ) == identity(items_view(b@)[j])),
                        forall|j: int|
                            0 <= j < i ==> identity(#[trigger] items_view(a@)[j]) == identity(
                                items_view(b@)[j],
                            ),
                    decreases a@.len() - i,
                {
                    assert(decreases_to!(self => a@[i as int]));
                    if !a[i].same(&b[i]) {
                        assert(identity(items_view(a@)[i as int]) != identity(
                            items_view(b@)[i as int],
                        ));
                        return false;
                    }
                    i = i + 1;
                }
                true
            },
            (Json::Object(a), Json::Object(b)) => {
                let ghost ea = entries_view(a@);
                let ghost eb = entries_view(b@);
                proof {
                    lemma_object_view(*a);
                    lemma_object_view(*b);
                    lemma_identity_of_fields(entries_map(ea), entries_map(eb));
                }
                let mut i: usize = 0;
                while i < a.len()
                    invariant
                        i <= a@.len(),
                        self == Json::Object(*a),
                        ea == entries_view(a@),
                        eb == entries_view(b@),
                        (identity(self@) == identity(other@)) == (entries_map(ea).dom()
                            == entries_map(eb).dom() && forall|k: Seq<char>| #[trigger]
                            entries_map(ea).contains_key(k) ==> identity(entries_map(ea)[k])
                                == identity(entries_map(eb)[k])),
                        forall|j: int|
                            0 <= j < i ==> entries_map(eb).contains_key(
                                (#[trigger] ea[j]).0,
                            ) && identity(entries_map(ea)[ea[j].0]) == identity(
                                entries_map(eb)[ea[j].0],
                            ),
                    decreases a@.len() - i,
                {
                    let key = a[i].0.as_str();
                    assert(ea[i as int].0 == key@);
                    match (find_entry(a, key), find_entry(b, key)) {
                        (Some(x), Some(y)) => {
                            proof {
                                lemma_entries_hit(ea, x as int, key@);
                                lemma_entries_hit(eb, y as int, key@);
                            }
                            assert(decreases_to!(self => a@[x as int].1));
                            if !a[x].1.same(&b[y].1) {
                                return false;
                            }
                        },
                        (Some(x), None) => {
                            proof {
                                lemma_entries_hit(ea, x as int, key@);
                                lemma_entries_miss(eb, key@);
                            }
                            return false;
                        },
                        (None, _) => {
                            assert(a@[i as int].0@ == key@);
                            assert(false);
                        },
                    }
                    i = i + 1;
                }
                let mut j: usize = 0;
                while j < b.len()
                    invariant
                        j <= b@.len(),
                        ea == entries_view(a@),
                        eb == entries_view(b@),
                        (identity(self@) == identity(other@)) == (entries_map(ea).dom()
                            == entries_map(eb).dom() && forall|k: Seq<char>| #[trigger]
                            entries_map(ea).contains_key(k) ==> identity(entries_map(ea)[k])
                                == identity(entries_map(eb)[k])),
                        forall|k: int|
                            0 <= k < j ==> entries_map(ea).contains_key((#[trigger] eb[k]).0),
                    decreases b@.len() - j,
                {
                    let key = b[j].0.as_str();
                    assert(eb[j as int].0 == key@);
                    match find_entry(a, key) {
                        Some(x) => {
                            proof {
                                lemma_entries_hit(ea, x as int, key@);
                            }
                        },
                        None => {
                            proof {
                                lemma_entries_miss(ea, key@);
                                lemma_entries_dom(eb, j as int);
                            }
                            return false;
                        },
                    }
                    j = j + 1;
                }
                proof {
                    let ma = entries_map(ea);
                    let mb = entries_map(eb);
                    assert forall|k: Seq<char>| #[trigger]
                        ma.dom().contains(k) implies mb.dom().contains(k) && identity(ma[k])
                        == identity(mb[k]) by {
                        lemma_entries_key(ea, k);
                    }
                    assert forall|k: Seq<char>| #[trigger]
                        mb.dom().contains(k) implies ma.dom().contains(k) by {
                        lemma_entries_key(eb, k);
                    }
                    assert(ma.dom() =~= mb.dom());
                    assert forall|k: Seq<char>| #[trigger] ma.contains_key(k) implies identity(
                        ma[k],
                    ) == identity(mb[k]) by {
                        assert(ma.dom().contains(k));
                    }
                }
                true
            },
            _ => {
                match (self.parts(), other.parts()) {
                    (Some(a), Some(b)) => same_parts(&a, &b),
                    _ => false,
                }
            },
        }
    }
}

proof fn lemma_entries_dom(entries: Seq<(Seq<char>, JsonView)>, i: int)
    requires
        0 <= i < entries.len(),
    ensures
        entries_map(entries).contains_key(entries[i].0),
    decreases entries.len(),
{
    if i < entries.len() - 1 {
        lemma_entries_dom(entries.drop_last(), i);
    }
}

proof fn lemma_entries_key(entries: Seq<(Seq<char>, JsonView)>, key: Seq<char>)
    requires
        entries_map(entries).contains_key(key),
    ensures
        exists|i: int| 0 <= i < entries.len() && (#[trigger] entries[i]).0 == key,
    decreases entries.len(),
{
    if entries.last().0 == key {
        assert(entries[entries.len() - 1].0 == key);
    } else {
        lemma_entries_key(entries.drop_last(), key);
        let i = choose|i: int|
            0 <= i < entries.drop_last().len() && (#[trigger] entries.drop_last()[i]).0 == key;
        assert(entries[i].0 == key);
    }
}

impl Json {
    /// A copy of the value.
    pub fn copy(&self) -> (j: Json)
        ensures
            j@ == self@,
        decreases self,
    {
        match self {
            Json::Null => Json::Null,
            Json::Bool(b) => Json::Bool(*b),
            Json::UInt(n) => Json::UInt(*n),
            Json::Int(n) => Json::Int(*n),
            Json::Number(n) => Json::Number(clone_number(n)),
            Json::Str(s) => Json::Str(s.clone()),
            Json::Array(items) => {
                let mut copy: Vec<Json> = Vec::new();
                let mut i: usize = 0;
                while i < items.len()
                    invariant
                        i <= items@.len(),
                        self == Json::Array(*items),
                        copy@.len() == i,
                        forall|j: int| 0 <= j < i ==> (#[trigger] copy@[j])@ == items@[j]@,
                    decreases items@.len() - i,
                {
                    assert(self->Array_0 == *items);
                    assert(decreases_to!(self => items@[i as int]));
                    copy.push(items[i].copy());
                    i = i + 1;
                }
                proof {
                    lemma_array_view(*items);
                    lemma_array_view(copy);
                    assert(items_view(copy@) =~= items_view(items@));
                }
                Json::Array(copy)
            },
            Json::Object(entries) => {
                let mut copy: Vec<(String, Json)> = Vec::new();
                let mut i: usize = 0;
                while i < entries.len()
                    invariant
                        i <= entries@.len(),
                        self == Json::Object(*entries),
                        copy@.len() == i,
                        forall|j: int|
                            0 <= j < i ==> (#[trigger] copy@[j]).0@ == entries@[j].0@
                                && copy@[j].1@ == entries@[j].1@,
                    decreases entries@.len() - i,
                {
                    assert(self->Object_0 == *entries);
                    assert(decreases_to!(self => entries@[i as int].1));
                    copy.push((entries[i].0.clone(), entries[i].1.copy()));
                    i = i + 1;
                }
                proof {
                    lemma_object_view(*entries);
                    lemma_object_view(copy);
                    assert(entries_view(copy@) =~= entries_view(entries@));
                }
                Json::Object(copy)
            },
        }
    }
}

impl Clone for Json {
    fn clone(&self) -> (j: Json)
        ensures
            j@ == self@,
    {
        self.copy()
    }
}

impl PartialEq for Json {
    fn eq(&self, other: &Json) -> (same: bool) {
        self.same(other)
    }
}

impl vstd::std_specs::cmp::PartialEqSpecImpl for Json {
    open spec fn obeys_eq_spec() -> bool {
        true
    }

    open spec fn eq_spec(&self, other: &Json) -> bool {
        identity(self@) == identity(other@)
    }
}

impl TableKey for Json {
    type Key = JsonView;

    open spec fn key(&self) -> JsonView {
        identity(self@)
    }

    fn same_key(&self, other: &Json) -> (same: bool) {
        self.same(other)
    }

    fn copy_key(&self) -> (copy: Json) {
        self.copy()
    }
}

/// A field of an object is what stands under its name, and nothing else has fields.
pub proof fn law_fields_are_found_by_name(v: &Json, key: &str, found: Option<&Json>)
    requires
        call_ensures(Json::get, (v, key), found),
    ensures
        found is Some <==> v@ is Obj && v@->Obj_0.contains_key(key@),
        (found matches Some(value) ==> value@ == v@->Obj_0[key@]),
{
}

/// A field that is set is what it was set to, and every other field of the object stays;
/// a value that was no object is one with that field alone.
pub proof fn law_fields_are_set(v: &mut Json, key: &str, value: Json, unit: (), other: Seq<char>)
    requires
        call_ensures(Json::set, (v, key, value), unit),
    ensures
        field(final(v)@, key@) == Some(value@),
        other != key@ && old(v)@ is Obj ==> field(final(v)@, other) == field(old(v)@, other),
        other != key@ && !(old(v)@ is Obj) ==> field(final(v)@, other) is None,
{
}

/// Values are the same as ids where they are equal; numbers are told from texts, and a
/// fraction from a whole number. Only the sign of a fractional zero makes no difference.
pub proof fn law_ids_are_told_apart(a: &Json, b: &Json, same: bool)
    requires
        call_ensures(Json::same, (a, b), same),
    ensures
        a@ == b@ ==> same,
        a@ is Null || a@ is Bool || a@ is Str ==> (same <==> a@ == b@),
        (a@ matches JsonView::Num(NumberView::Int(_)) ==> (same <==> a@ == b@)),
        (a@ matches JsonView::Num(NumberView::Float(x)) ==> x != "0.0"@ && x != "-0.0"@ ==> (same
            <==> a@ == b@)),
        (a@ matches JsonView::Arr(x) ==> (b@ matches JsonView::Arr(y) ==> (same ==> x.len()
            == y.len()))),
        same ==> (a@ is Arr <==> b@ is Arr) && (a@ is Obj <==> b@ is Obj),
{
    lemma_identity_kind(a@);
    lemma_identity_kind(b@);
    if let JsonView::Arr(x) = a@ {
        if let JsonView::Arr(y) = b@ {
            lemma_identity_of_items(x, y);
        }
    }
}

/// A value tells of what kind it is, and gives what it holds.
pub proof fn law_values_tell_their_kind(
    v: &Json,
    object: bool,
    array: bool,
    null: bool,
    string: bool,
    boolean: bool,
    truth: Option<bool>,
    copy: Json,
)
    requires
        call_ensures(Json::is_object, (v,), object),
        call_ensures(Json::is_array, (v,), array),
        call_ensures(Json::is_null, (v,), null),
        call_ensures(Json::is_string, (v,), string),
        call_ensures(Json::is_boolean, (v,), boolean),
        call_ensures(Json::as_bool, (v,), truth),
        call_ensures(Json::copy, (v,), copy),
    ensures
        object <==> v@ is Obj,
        array <==> v@ is Arr,
        null <==> v@ is Null,
        string <==> v@ is Str,
        boolean <==> v@ is Bool,
        truth is Some <==> v@ is Bool,
        (truth matches Some(b) ==> v@ == JsonView::Bool(b)),
        copy@ == v@,
{
}

} // verus!
