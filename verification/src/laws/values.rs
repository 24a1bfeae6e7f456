//! What JSON values hold, and what is found in them.

use crate::value::{self, Json, JsonObject, JsonValue, NumberView};
use crate::wire;
use vstd::prelude::*;

verus! {

/// A member is found exactly where the value is an object that has it.
pub proof fn law_members_are_found(v: Json, key: Seq<char>, x: Json)
    ensures
        v.get(key) == Some(x) <==> v is Object && v->Object_0.contains_key(key)
            && v->Object_0[key] == x,
{
}

/// A value is text, a list or an unsigned integer exactly where it was made as
/// one.
pub proof fn law_kinds_are_told_apart(v: Json, t: Seq<char>, items: Seq<Json>, n: u64)
    ensures
        v.text() == Some(t) <==> v == Json::Str(t),
        v.items() == Some(items) <==> v == Json::Array(items),
        v.unsigned() == Some(n) <==> v == Json::Number(NumberView::Unsigned(n)),
        value::json_u64(n).unsigned() == Some(n),
{
}

/// The text of a member is there exactly where the member is that string.
pub proof fn law_member_text(v: Json, key: Seq<char>, t: Seq<char>)
    ensures
        v.text_at(key) == Some(t) <==> v is Object && v->Object_0.contains_key(key)
            && v->Object_0[key] == Json::Str(t),
{
}

/// The elements of a member are those of the list that it is, and there are none
/// where it is no list.
pub proof fn law_member_items(v: Json, key: Seq<char>, items: Seq<Json>)
    ensures
        v is Object && v->Object_0.contains_key(key) && v->Object_0[key] == Json::Array(items)
            ==> v.items_at(key) == items,
        v.items_at(key).len() > 0 ==> v is Object && v->Object_0.contains_key(key)
            && v->Object_0[key] == Json::Array(v.items_at(key)),
{
}

/// The default stands in for a member that is not there, and for no other.
pub proof fn law_member_or_default(v: Json, key: Seq<char>, default: Json)
    ensures
        v is Object && v->Object_0.contains_key(key) ==> v.get_or(key, default)
            == v->Object_0[key],
        !(v is Object && v->Object_0.contains_key(key)) ==> v.get_or(key, default) == default,
{
}

/// A value stands for what it was made of.
pub proof fn law_plain_values(b: bool, n: serde_json::Number, s: String)
    ensures
        JsonValue::Null@ == Json::Null,
        JsonValue::Bool(b)@ == Json::Bool(b),
        JsonValue::Number(n)@ == Json::Number(wire::number_view(n)),
        JsonValue::String(s)@ == Json::Str(s@),
{
}

/// A list stands for the list of its elements, place by place.
pub proof fn law_list_values(items: Vec<JsonValue>)
    ensures
        JsonValue::Array(items)@ is Array,
        JsonValue::Array(items)@->Array_0.len() == items@.len(),
        forall|i: int|
            0 <= i < items@.len() ==> #[trigger] JsonValue::Array(items)@->Array_0[i]
                == items@[i]@,
{
    value::lemma_items_view(items@);
}

/// An object has a member exactly where an entry has that name, and the last such
/// entry gives its value.
pub proof fn law_object_values(o: JsonObject, key: Seq<char>, i: int)
    ensures
        JsonValue::Object(o)@ == Json::Object(o@),
        o@.contains_key(key) ==> exists|j: int|
            0 <= j < o.entries@.len() && (#[trigger] o.entries@[j]).0@ == key,
        0 <= i < o.entries@.len() && o.entries@[i].0@ == key && (forall|j: int|
            i < j < o.entries@.len() ==> (#[trigger] o.entries@[j]).0@ != key)
            ==> o@.contains_key(key) && o@[key] == o.entries@[i].1@,
{
    if forall|j: int| 0 <= j < o.entries@.len() ==> (#[trigger] o.entries@[j]).0@ != key {
        value::lemma_entries_absent(o.entries@, key);
    }
    if 0 <= i < o.entries@.len() && o.entries@[i].0@ == key && (forall|j: int|
        i < j < o.entries@.len() ==> (#[trigger] o.entries@[j]).0@ != key) {
        value::lemma_entries_last(o.entries@, i, o.entries@[i]);
    }
}

} // verus!
