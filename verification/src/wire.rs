//! The boundary with `serde_json`, which reads and writes JSON text.
//!
//! The items of that crate that the library leans on are declared here, each
//! with what is believed of it. Everything else in this module is proved.

use crate::value::{self, Json, NumberView, JsonObject, JsonValue};
use vstd::prelude::*;

verus! {

/// `serde_json::Number`, held as it is: the library only hands numbers on, makes
/// them from unsigned integers and reads unsigned integers back.
#[verifier::external_type_specification]
#[verifier::external_body]
pub struct ExNumber(serde_json::Number);

/// What a `serde_json::Number` holds.
pub uninterp spec fn number_view(n: serde_json::Number) -> NumberView;

/// Calls `serde_json::Number::from` on a `u64`: the number holds that integer,
/// as a non-negative one.
#[verifier::external_body]
pub(crate) fn number_from_u64(n: u64) -> (r: serde_json::Number)
    ensures
        number_view(r) == NumberView::Unsigned(n),
{
    serde_json::Number::from(n)
}

/// Calls `serde_json::Number::as_u64`: the integer of a non-negative one, and
/// nothing for a negative integer or a double.
#[verifier::external_body]
pub(crate) fn number_as_u64(n: &serde_json::Number) -> (r: Option<u64>)
    ensures
        r == (match number_view(*n) {
            NumberView::Unsigned(u) => Some(u),
            _ => None::<u64>,
        }),
{
    n.as_u64()
}

/// Calls `serde_json::Number::clone`: the copy holds the same number.
#[verifier::external_body]
pub(crate) fn number_clone(n: &serde_json::Number) -> (r: serde_json::Number)
    ensures
        number_view(r) == number_view(*n),
{
    n.clone()
}

/// `serde_json::Value`, told apart and put together by the two wrappers below.
#[verifier::external_type_specification]
#[verifier::external_body]
pub struct ExValue(serde_json::Value);

/// `serde_json::Map`, the members of an object.
#[verifier::external_type_specification]
#[verifier::external_body]
#[verifier::reject_recursive_types(K)]
#[verifier::reject_recursive_types(V)]
pub struct ExMap<K, V>(serde_json::Map<K, V>);

/// `serde_json::Error`, why a text could not be read.
#[verifier::external_type_specification]
#[verifier::external_body]
pub struct ExError(serde_json::Error);

/// What a `serde_json::Value` holds.
pub uninterp spec fn contents(v: serde_json::Value) -> Json;

/// What a `serde_json::Map` holds.
pub uninterp spec fn members(m: serde_json::Map<String, serde_json::Value>) -> Map<
    Seq<char>,
    Json,
>;

/// The JSON text of a value, as `serde_json` writes it without spaces. It is a
/// function of what the value holds as long as that crate sorts the members of an
/// object, which it does unless its feature `preserve_order` is on, and holds
/// numbers as integers or doubles, which it does unless its feature
/// `arbitrary_precision` is on.
pub uninterp spec fn json_text(v: Json) -> Seq<char>;

/// The value that `serde_json` reads from a text, if the text is JSON.
pub uninterp spec fn json_parsed(text: Seq<char>) -> Option<Json>;

/// The variants of a `serde_json::Value`, by reference.
pub enum Opened<'a> {
    Null,
    Bool(bool),
    Number(&'a serde_json::Number),
    String(&'a String),
    Array(&'a Vec<serde_json::Value>),
    Object(&'a serde_json::Map<String, serde_json::Value>),
}

/// The variants of a `serde_json::Value`, by value.
pub enum Variant {
    Null,
    Bool(bool),
    Number(serde_json::Number),
    String(String),
    Array(Vec<serde_json::Value>),
    Object(serde_json::Map<String, serde_json::Value>),
}

/// What a variant of a `serde_json::Value` holds.
pub open spec fn opened_view(v: Opened<'_>) -> Json {
    match v {
        Opened::Null => Json::Null,
        Opened::Bool(b) => Json::Bool(b),
        Opened::Number(n) => Json::Number(number_view(*n)),
        Opened::String(s) => Json::Str(s@),
        Opened::Array(items) => Json::Array(items@.map_values(|x| contents(x))),
        Opened::Object(m) => Json::Object(members(*m)),
    }
}

/// What a variant of a `serde_json::Value` holds.
pub open spec fn variant_view(v: Variant) -> Json {
    match v {
        Variant::Null => Json::Null,
        Variant::Bool(b) => Json::Bool(b),
        Variant::Number(n) => Json::Number(number_view(n)),
        Variant::String(s) => Json::Str(s@),
        Variant::Array(items) => Json::Array(items@.map_values(|x| contents(x))),
        Variant::Object(m) => Json::Object(members(m)),
    }
}

/// The map that a list of entries of a `serde_json::Map` stands for.
pub open spec fn listed(entries: Seq<(&String, &serde_json::Value)>) -> Map<Seq<char>, Json>
    decreases entries.len(),
{
    if entries.len() == 0 {
        Map::empty()
    } else {
        listed(entries.drop_last()).insert(entries.last().0@, contents(*entries.last().1))
    }
}

/// Tells the variants of `serde_json::Value` apart: the variant holds what the
/// value holds.
#[verifier::external_body]
pub(crate) fn open_value(v: &serde_json::Value) -> (r: Opened<'_>)
    ensures
        opened_view(r) == contents(*v),
{
    match v {
        serde_json::Value::Null => Opened::Null,
        serde_json::Value::Bool(b) => Opened::Bool(*b),
        serde_json::Value::Number(n) => Opened::Number(n),
        serde_json::Value::String(s) => Opened::String(s),
        serde_json::Value::Array(items) => Opened::Array(items),
        serde_json::Value::Object(m) => Opened::Object(m),
    }
}

/// Makes a `serde_json::Value` of one variant: the value holds what the variant
/// holds.
#[verifier::external_body]
pub(crate) fn close_value(v: Variant) -> (r: serde_json::Value)
    ensures
        contents(r) == variant_view(v),
{
    match v {
        Variant::Null => serde_json::Value::Null,
        Variant::Bool(b) => serde_json::Value::Bool(b),
        Variant::Number(n) => serde_json::Value::Number(n),
        Variant::String(s) => serde_json::Value::String(s),
        Variant::Array(items) => serde_json::Value::Array(items),
        Variant::Object(m) => serde_json::Value::Object(m),
    }
}

/// Calls `serde_json::Map::new`: the map is empty.
#[verifier::external_body]
pub(crate) fn map_new() -> (r: serde_json::Map<String, serde_json::Value>)
    ensures
        members(r).dom() == Set::<Seq<char>>::empty(),
{
    serde_json::Map::new()
}

/// Calls `serde_json::Map::insert`: the map holds the value under the key, in
/// place of what it held there, and is otherwise as it was.
#[verifier::external_body]
pub(crate) fn map_insert(
    m: &mut serde_json::Map<String, serde_json::Value>,
    key: String,
    v: serde_json::Value,
)
    ensures
        members(*final(m)) == members(*old(m)).insert(key@, contents(v)),
{
    m.insert(key, v);
}

/// Calls `serde_json::Map::iter` and collects: every entry of the map once, each
/// key with its value.
#[verifier::external_body]
pub(crate) fn map_entries(m: &serde_json::Map<String, serde_json::Value>) -> (r: Vec<
    (&String, &serde_json::Value),
>)
    ensures
        listed(r@) == members(*m),
        forall|i: int, j: int| 0 <= i < j < r@.len() ==> r@[i].0@ != r@[j].0@,
{
    m.iter().collect()
}

/// Whether a value is read back exactly from its own text: it holds no double,
/// whose last digits can change, nests at most `depth` deep, and has no member
/// by the name that `serde_json` keeps for raw text.
pub open spec fn restorable(v: Json, depth: nat) -> bool
    decreases depth,
{
    match v {
        Json::Null => true,
        Json::Bool(_) => true,
        Json::Str(_) => true,
        Json::Number(n) => !(n is Double),
        Json::Array(items) => depth > 0 && forall|i: int|
            0 <= i < items.len() ==> restorable(#[trigger] items[i], (depth - 1) as nat),
        Json::Object(m) => depth > 0 && forall|k: Seq<char>| #[trigger]
            m.contains_key(k) ==> k != "$serde_json::private::RawValue"@ && restorable(
                m[k],
                (depth - 1) as nat,
            ),
    }
}

/// Calls `to_string` of `serde_json::Value`: the compact JSON text of what the
/// value holds. The text has no line break, since control characters are
/// written as escapes, and reading it gives the value back where the value is
/// `restorable` within the depth that the reader accepts.
#[verifier::external_body]
pub(crate) fn print_value(v: &serde_json::Value) -> (r: String)
    ensures
        r@ == json_text(contents(*v)),
        forall|i: int| 0 <= i < r@.len() ==> r@[i] != '\n' && r@[i] != '\r',
        restorable(contents(*v), 127) ==> json_parsed(r@) == Some(contents(*v)),
{
    v.to_string()
}

/// Calls `serde_json::from_str` for a `serde_json::Value`: the value that the
/// text stands for, or an error where the text is not JSON.
#[verifier::external_body]
pub(crate) fn parse_value(text: &str) -> (r: Result<serde_json::Value, serde_json::Error>)
    ensures
        match r {
            Ok(v) => json_parsed(text@) == Some(contents(v)),
            Err(_) => json_parsed(text@) is None,
        },
{
    serde_json::from_str(text)
}

/// What `String::from_utf8_lossy` makes of bytes that are not UTF-8.
pub uninterp spec fn repaired_utf8(bytes: Seq<u8>) -> Seq<char>;

/// The text of bytes: their characters where they are UTF-8, else the text with
/// replacement characters.
pub open spec fn lossy_text(bytes: Seq<u8>) -> Seq<char> {
    if vstd::utf8::valid_utf8(bytes) {
        vstd::utf8::decode_utf8(bytes)
    } else {
        repaired_utf8(bytes)
    }
}

/// Calls `String::from_utf8_lossy`: bytes that are UTF-8 give their text. For
/// others the result is only named; it has U+FFFD in place of what is not UTF-8.
#[verifier::external_body]
pub(crate) fn decode_lossy(bytes: &[u8]) -> (r: String)
    ensures
        r@ == (if vstd::utf8::valid_utf8(bytes@) {
            vstd::utf8::decode_utf8(bytes@)
        } else {
            repaired_utf8(bytes@)
        }),
{
    String::from_utf8_lossy(bytes).into_owned()
}

/// A listing with distinct keys holds each of its entries.
pub proof fn lemma_listed(entries: Seq<(&String, &serde_json::Value)>)
    requires
        forall|i: int, j: int| 0 <= i < j < entries.len() ==> entries[i].0@ != entries[j].0@,
    ensures
        listed(entries).dom().finite(),
        forall|i: int|
            0 <= i < entries.len() ==> {
                &&& listed(entries).contains_key((#[trigger] entries[i]).0@)
                &&& listed(entries)[entries[i].0@] == contents(*entries[i].1)
            },
    decreases entries.len(),
{
    if entries.len() > 0 {
        let front = entries.drop_last();
        lemma_listed(front);
        assert forall|i: int| 0 <= i < entries.len() implies {
            &&& listed(entries).contains_key((#[trigger] entries[i]).0@)
            &&& listed(entries)[entries[i].0@] == contents(*entries[i].1)
        } by {
            if i < front.len() {
                assert(front[i] == entries[i]);
                assert(entries[i].0@ != entries[entries.len() - 1].0@);
            }
        }
    }
}

impl JsonValue {
    /// The value that a `serde_json::Value` holds.
    pub fn from_serde(v: &serde_json::Value) -> (r: JsonValue)
        ensures
            r@ == contents(*v),
        decreases contents(*v),
    {
        match open_value(v) {
            Opened::Null => JsonValue::Null,
            Opened::Bool(b) => JsonValue::Bool(b),
            Opened::Number(n) => JsonValue::Number(number_clone(n)),
            Opened::String(s) => JsonValue::String(s.clone()),
            Opened::Array(items) => {
                let ghost all = items@.map_values(|x| contents(x));
                let mut list: Vec<JsonValue> = Vec::new();
                let mut i: usize = 0;
                while i < items.len()
                    invariant
                        contents(*v) == Json::Array(all),
                        all == items@.map_values(|x| contents(x)),
                        i <= items@.len(),
                        value::items_view(list@) == all.take(i as int),
                    decreases items@.len() - i,
                {
                    assert(all[i as int] == contents(items@[i as int]));
                    assert(decreases_to!(contents(*v) => contents(*v)->Array_0));
                    assert(decreases_to!(all => all[i as int]));
                    let x = JsonValue::from_serde(&items[i]);
                    proof {
                        value::lemma_items_view_push(list@, x);
                    }
                    assert(all.take(i + 1) =~= all.take(i as int).push(all[i as int]));
                    list.push(x);
                    i = i + 1;
                }
                assert(all.take(i as int) =~= all);
                JsonValue::Array(list)
            },
            Opened::Object(m) => {
                let entries = map_entries(m);
                let ghost all = listed(entries@);
                let mut list: Vec<(String, JsonValue)> = Vec::new();
                let mut i: usize = 0;
                proof {
                    lemma_listed(entries@);
                }
                while i < entries.len()
                    invariant
                        contents(*v) == Json::Object(all),
                        all == listed(entries@),
                        all.dom().finite(),
                        forall|j: int|
                            0 <= j < entries@.len() ==> {
                                &&& all.contains_key((#[trigger] entries@[j]).0@)
                                &&& all[entries@[j].0@] == contents(*entries@[j].1)
                            },
                        i <= entries@.len(),
                        value::entries_view(list@) == listed(entries@.take(i as int)),
                    decreases entries@.len() - i,
                {
                    let key = entries[i].0;
                    assert(all[entries@[i as int].0@] == contents(*entries@[i as int].1));
                    assert(decreases_to!(contents(*v) => contents(*v)->Object_0));
                    assert(decreases_to!(all => all[key@]));
                    let x = JsonValue::from_serde(entries[i].1);
                    let e = (key.clone(), x);
                    assert(list@.push(e).drop_last() =~= list@);
                    assert(entries@.take(i + 1).drop_last() =~= entries@.take(i as int));
                    list.push(e);
                    i = i + 1;
                }
                assert(entries@.take(i as int) =~= entries@);
                JsonValue::Object(JsonObject { entries: list })
            },
        }
    }

    /// The `serde_json::Value` that holds this value.
    pub fn to_serde(&self) -> (r: serde_json::Value)
        ensures
            contents(r) == self@,
        decreases self,
    {
        match self {
            JsonValue::Null => close_value(Variant::Null),
            JsonValue::Bool(b) => close_value(Variant::Bool(*b)),
            JsonValue::Number(n) => close_value(Variant::Number(number_clone(n))),
            JsonValue::String(s) => close_value(Variant::String(s.clone())),
            JsonValue::Array(items) => {
                let mut list: Vec<serde_json::Value> = Vec::new();
                let mut i: usize = 0;
                while i < items.len()
                    invariant
                        *self == JsonValue::Array(*items),
                        i <= items@.len(),
                        list@.map_values(|x| contents(x)) == value::items_view(
                            items@.take(i as int),
                        ),
                    decreases items@.len() - i,
                {
                    assert(decreases_to!(*self => self->Array_0));
                    assert(decreases_to!(*items => items@));
                    assert(decreases_to!(items@ => items@[i as int]));
                    let x = items[i].to_serde();
                    assert(items@.take(i + 1).drop_last() =~= items@.take(i as int));
                    assert(list@.push(x).map_values(|x| contents(x)) =~= list@.map_values(
                        |x| contents(x),
                    ).push(contents(x)));
                    list.push(x);
                    i = i + 1;
                }
                assert(items@.take(i as int) =~= items@);
                close_value(Variant::Array(list))
            },
            JsonValue::Object(o) => {
                let mut m = map_new();
                let mut i: usize = 0;
                assert(members(m) =~= Map::<Seq<char>, Json>::empty());
                while i < o.entries.len()
                    invariant
                        *self == JsonValue::Object(*o),
                        i <= o.entries@.len(),
                        members(m) == value::entries_view(o.entries@.take(i as int)),
                    decreases o.entries@.len() - i,
                {
                    assert(decreases_to!(*self => self->Object_0));
                    assert(decreases_to!(*o => o.entries));
                    assert(decreases_to!(o.entries => o.entries@));
                    assert(decreases_to!(o.entries@ => o.entries@[i as int]));
                    assert(decreases_to!(o.entries@[i as int] => o.entries@[i as int].1));
                    let x = o.entries[i].1.to_serde();
                    assert(o.entries@.take(i + 1).drop_last() =~= o.entries@.take(i as int));
                    map_insert(&mut m, o.entries[i].0.clone(), x);
                    i = i + 1;
                }
                assert(o.entries@.take(i as int) =~= o.entries@);
                close_value(Variant::Object(m))
            },
        }
    }

    /// The JSON text of this value. It has no line break, and it is read back as
    /// this value where the value is `restorable`.
    pub fn to_text(&self) -> (r: String)
        ensures
            r@ == json_text(self@),
            forall|i: int| 0 <= i < r@.len() ==> r@[i] != '\n' && r@[i] != '\r',
            restorable(self@, 127) ==> json_parsed(r@) == Some(self@),
    {
        print_value(&self.to_serde())
    }

    /// The value that a JSON text stands for, if it is one.
    pub fn from_text(text: &str) -> (r: Option<JsonValue>)
        ensures
            match r {
                Some(v) => json_parsed(text@) == Some(v@),
                None => json_parsed(text@) is None,
            },
    {
        match parse_value(text) {
            Ok(v) => Some(JsonValue::from_serde(&v)),
            Err(_) => None,
        }
    }
}

} // verus!
