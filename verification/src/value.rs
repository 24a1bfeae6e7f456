//! JSON values: the mathematical model, the executable type, and the accessors
//! that the translation is written with.

use crate::text::same_text;
use crate::wire;
use vstd::prelude::*;

verus! {

/// How a JSON number is held: a non-negative integer, a negative integer, or a
/// double given by its bits.
pub enum NumberView {
    Unsigned(u64),
    Negative(i64),
    Double(u64),
}

/// A JSON value as mathematics sees it: text is a sequence of characters, an
/// array a sequence of values, an object a map from names to values.
#[verifier::ext_equal]
pub enum Json {
    Null,
    Bool(bool),
    Number(NumberView),
    Str(Seq<char>),
    Array(Seq<Json>),
    Object(Map<Seq<char>, Json>),
}

impl Json {
    /// The member called `key`, if this is an object that has one.
    pub open spec fn get(self, key: Seq<char>) -> Option<Json> {
        match self {
            Json::Object(m) => if m.contains_key(key) {
                Some(m[key])
            } else {
                None
            },
            _ => None,
        }
    }

    /// The text of a string.
    pub open spec fn text(self) -> Option<Seq<char>> {
        match self {
            Json::Str(s) => Some(s),
            _ => None,
        }
    }

    /// The elements of an array.
    pub open spec fn items(self) -> Option<Seq<Json>> {
        match self {
            Json::Array(s) => Some(s),
            _ => None,
        }
    }

    /// The integer of a number that is a non-negative integer.
    pub open spec fn unsigned(self) -> Option<u64> {
        match self {
            Json::Number(NumberView::Unsigned(n)) => Some(n),
            _ => None,
        }
    }

    /// The text of the member called `key`.
    pub open spec fn text_at(self, key: Seq<char>) -> Option<Seq<char>> {
        match self.get(key) {
            Some(v) => v.text(),
            None => None,
        }
    }

    /// The elements of the member called `key`, none where it is no array.
    pub open spec fn items_at(self, key: Seq<char>) -> Seq<Json> {
        match self.get(key) {
            Some(Json::Array(s)) => s,
            _ => Seq::empty(),
        }
    }

    /// The member called `key`, or `default` in its absence.
    pub open spec fn get_or(self, key: Seq<char>, default: Json) -> Json {
        match self.get(key) {
            Some(v) => v,
            None => default,
        }
    }
}

/// The number `n`.
pub open spec fn json_u64(n: u64) -> Json {
    Json::Number(NumberView::Unsigned(n))
}

/// A JSON value.
pub enum JsonValue {
    Null,
    Bool(bool),
    Number(serde_json::Number),
    String(String),
    Array(Vec<JsonValue>),
    Object(JsonObject),
}

/// The members of a JSON object. Where a name occurs twice, the later entry
/// counts.
pub struct JsonObject {
    pub entries: Vec<(String, JsonValue)>,
}

impl View for JsonValue {
    type V = Json;

    open spec fn view(&self) -> Json {
        value_view(*self)
    }
}

/// What a value stands for.
pub open spec fn value_view(v: JsonValue) -> Json
    decreases v,
{
    match v {
        JsonValue::Null => Json::Null,
        JsonValue::Bool(b) => Json::Bool(b),
        JsonValue::Number(n) => Json::Number(wire::number_view(n)),
        JsonValue::String(s) => Json::Str(s@),
        JsonValue::Array(items) => Json::Array(items_view(items@)),
        JsonValue::Object(o) => Json::Object(entries_view(o.entries@)),
    }
}

/// The values that the elements of an array stand for.
pub open spec fn items_view(items: Seq<JsonValue>) -> Seq<Json>
    decreases items,
{
    if items.len() == 0 {
        Seq::empty()
    } else {
        items_view(items.drop_last()).push(value_view(items.last()))
    }
}

/// The map that a list of entries stands for.
pub open spec fn entries_view(entries: Seq<(String, JsonValue)>) -> Map<Seq<char>, Json>
    decreases entries,
{
    if entries.len() == 0 {
        Map::empty()
    } else {
        entries_view(entries.drop_last()).insert(entries.last().0@, value_view(entries.last().1))
    }
}

impl View for JsonObject {
    type V = Map<Seq<char>, Json>;

    open spec fn view(&self) -> Map<Seq<char>, Json> {
        entries_view(self.entries@)
    }
}

/// The values of an array are those of its elements, place by place.
pub proof fn lemma_items_view(items: Seq<JsonValue>)
    ensures
        items_view(items).len() == items.len(),
        forall|i: int|
            0 <= i < items.len() ==> #[trigger] items_view(items)[i] == items[i]@,
    decreases items.len(),
{
    if items.len() > 0 {
        lemma_items_view(items.drop_last());
    }
}

/// An array grows by the value of what is pushed.
pub proof fn lemma_items_view_push(items: Seq<JsonValue>, v: JsonValue)
    ensures
        items_view(items.push(v)) == items_view(items).push(v@),
{
    assert(items.push(v).drop_last() =~= items);
}

/// Two lists of elements put together stand for their values put together.
pub proof fn lemma_items_view_add(a: Seq<JsonValue>, b: Seq<JsonValue>)
    ensures
        items_view(a + b) == items_view(a) + items_view(b),
{
    lemma_items_view(a);
    lemma_items_view(b);
    lemma_items_view(a + b);
    assert(items_view(a + b) =~= items_view(a) + items_view(b));
}

/// A name that no entry has is not in the map.
pub proof fn lemma_entries_absent(entries: Seq<(String, JsonValue)>, key: Seq<char>)
    requires
        forall|j: int| 0 <= j < entries.len() ==> (#[trigger] entries[j]).0@ != key,
    ensures
        !entries_view(entries).contains_key(key),
    decreases entries.len(),
{
    if entries.len() > 0 {
        assert(entries.last() == entries[entries.len() - 1]);
        assert forall|j: int| 0 <= j < entries.drop_last().len() implies (
        #[trigger] entries.drop_last()[j]).0@ != key by {
            assert(entries.drop_last()[j] == entries[j]);
        }
        lemma_entries_absent(entries.drop_last(), key);
    }
}

/// The last entry of a name says what the map holds there, and another value
/// in its place changes the map there alone.
pub proof fn lemma_entries_last(entries: Seq<(String, JsonValue)>, i: int, e: (String, JsonValue))
    requires
        0 <= i < entries.len(),
        entries[i].0@ == e.0@,
        forall|j: int| i < j < entries.len() ==> (#[trigger] entries[j]).0@ != e.0@,
    ensures
        entries_view(entries).contains_key(e.0@),
        entries_view(entries)[e.0@] == entries[i].1@,
        entries_view(entries.update(i, e)) == entries_view(entries).insert(e.0@, e.1@),
    decreases entries.len(),
{
    let last = entries.len() - 1;
    let front = entries.drop_last();
    if i == last {
        assert(entries.update(i, e).drop_last() =~= front);
        assert(entries_view(entries.update(i, e)) =~= entries_view(entries).insert(
            e.0@,
            e.1@,
        ));
    } else {
        assert forall|j: int| i < j < front.len() implies (#[trigger] front[j]).0@ != e.0@ by {
            assert(front[j] == entries[j]);
        }
        lemma_entries_last(front, i, e);
        assert(entries[last].0@ != e.0@);
        assert(entries.update(i, e).drop_last() =~= front.update(i, e));
        assert(entries_view(entries.update(i, e)) =~= entries_view(entries).insert(
            e.0@,
            e.1@,
        ));
    }
}

impl JsonObject {
    /// The object without members.
    pub fn new() -> (r: JsonObject)
        ensures
            r@ == Map::<Seq<char>, Json>::empty(),
    {
        JsonObject { entries: Vec::new() }
    }

    /// The place of the last entry called `key`, or the number of entries where
    /// there is none.
    fn position(&self, key: &str) -> (r: usize)
        ensures
            r <= self.entries@.len(),
            r < self.entries@.len() ==> self.entries@[r as int].0@ == key@,
            r < self.entries@.len() ==> forall|j: int|
                r < j < self.entries@.len() ==> (#[trigger] self.entries@[j]).0@ != key@,
            r == self.entries@.len() ==> forall|j: int|
                0 <= j < self.entries@.len() ==> (#[trigger] self.entries@[j]).0@ != key@,
    {
        let n: usize = self.entries.len();
        let mut i: usize = n;
        while i > 0
            invariant
                n == self.entries@.len(),
                i <= n,
                forall|j: int| i <= j < n ==> (#[trigger] self.entries@[j]).0@ != key@,
            decreases i,
        {
            i = i - 1;
            if same_text(self.entries[i].0.as_str(), key) {
                return i;
            }
        }
        n
    }

    /// The member called `key`.
    pub fn get(&self, key: &str) -> (r: Option<&JsonValue>)
        ensures
            match r {
                Some(v) => self@.contains_key(key@) && v@ == self@[key@],
                None => !self@.contains_key(key@),
            },
    {
        let i: usize = self.position(key);
        if i < self.entries.len() {
            proof {
                lemma_entries_last(self.entries@, i as int, self.entries@[i as int]);
            }
            Some(&self.entries[i].1)
        } else {
            proof {
                lemma_entries_absent(self.entries@, key@);
            }
            None
        }
    }

    /// Sets the member called `key`, in place of the one there was.
    pub fn insert(&mut self, key: &str, value: JsonValue)
        ensures
            final(self)@ == old(self)@.insert(key@, value@),
    {
        let i: usize = self.position(key);
        let entry = (key.to_owned(), value);
        if i < self.entries.len() {
            proof {
                lemma_entries_last(self.entries@, i as int, entry);
            }
            self.entries.set(i, entry);
        } else {
            assert(self.entries@.push(entry).drop_last() =~= self.entries@);
            self.entries.push(entry);
        }
    }
}

impl JsonValue {
    /// The member called `key`, if this is an object that has one.
    pub fn get(&self, key: &str) -> (r: Option<&JsonValue>)
        ensures
            match r {
                Some(v) => self@.get(key@) == Some(v@),
                None => self@.get(key@) is None,
            },
    {
        match self {
            JsonValue::Object(o) => o.get(key),
            _ => None,
        }
    }

    /// The text of a string.
    pub fn as_str(&self) -> (r: Option<&str>)
        ensures
            match r {
                Some(s) => self@.text() == Some(s@),
                None => self@.text() is None,
            },
    {
        match self {
            JsonValue::String(s) => Some(s.as_str()),
            _ => None,
        }
    }

    /// The elements of an array.
    pub fn as_array(&self) -> (r: Option<&Vec<JsonValue>>)
        ensures
            match r {
                Some(items) => self@.items() == Some(items_view(items@)),
                None => self@.items() is None,
            },
    {
        match self {
            JsonValue::Array(items) => Some(items),
            _ => None,
        }
    }

    /// The integer of a number that is a non-negative integer.
    pub fn as_u64(&self) -> (r: Option<u64>)
        ensures
            r == self@.unsigned(),
    {
        match self {
            JsonValue::Number(n) => wire::number_as_u64(n),
            _ => None,
        }
    }

    /// The text of the member called `key`.
    pub fn text_at(&self, key: &str) -> (r: Option<&str>)
        ensures
            match r {
                Some(s) => self@.text_at(key@) == Some(s@),
                None => self@.text_at(key@) is None,
            },
    {
        match self.get(key) {
            Some(v) => v.as_str(),
            None => None,
        }
    }

    /// The elements of the member called `key`, if it is an array.
    pub fn items_at(&self, key: &str) -> (r: Option<&Vec<JsonValue>>)
        ensures
            match r {
                Some(items) => self@.items_at(key@) == items_view(items@),
                None => self@.items_at(key@) == Seq::<Json>::empty(),
            },
    {
        match self.get(key) {
            Some(v) => v.as_array(),
            None => None,
        }
    }

    /// A copy of the member called `key`, or `default` in its absence.
    pub fn get_or(&self, key: &str, default: JsonValue) -> (r: JsonValue)
        ensures
            r@ == self@.get_or(key@, default@),
    {
        match self.get(key) {
            Some(v) => v.clone(),
            None => default,
        }
    }

    /// The string `s`.
    pub fn of_str(s: &str) -> (r: JsonValue)
        ensures
            r@ == Json::Str(s@),
    {
        JsonValue::String(s.to_owned())
    }

    /// The number `n`.
    pub fn of_u64(n: u64) -> (r: JsonValue)
        ensures
            r@ == json_u64(n),
    {
        JsonValue::Number(wire::number_from_u64(n))
    }

    /// The object without members.
    pub fn empty_object() -> (r: JsonValue)
        ensures
            r@ == Json::Object(Map::empty()),
    {
        JsonValue::Object(JsonObject::new())
    }
}

impl Clone for JsonValue {
    fn clone(&self) -> (r: JsonValue)
        ensures
            r@ == self@,
        decreases self,
    {
        match self {
            JsonValue::Null => JsonValue::Null,
            JsonValue::Bool(b) => JsonValue::Bool(*b),
            JsonValue::Number(n) => JsonValue::Number(wire::number_clone(n)),
            JsonValue::String(s) => JsonValue::String(s.clone()),
            JsonValue::Array(items) => {
                let mut copy: Vec<JsonValue> = Vec::new();
                let mut i: usize = 0;
                while i < items.len()
                    invariant
                        *self == JsonValue::Array(*items),
                        i <= items@.len(),
                        items_view(copy@) == items_view(items@.take(i as int)),
                    decreases items@.len() - i,
                {
                    assert(decreases_to!(*self => self->Array_0));
                    assert(decreases_to!(*items => items@));
                    assert(decreases_to!(items@ => items@[i as int]));
                    assert(decreases_to!(*self => items@[i as int]));
                    let v = items[i].clone();
                    assert(items@.take(i + 1).drop_last() =~= items@.take(i as int));
                    proof {
                        lemma_items_view_push(copy@, v);
                    }
                    copy.push(v);
                    i = i + 1;
                }
                assert(items@.take(i as int) =~= items@);
                JsonValue::Array(copy)
            },
            JsonValue::Object(o) => {
                let mut copy: Vec<(String, JsonValue)> = Vec::new();
                let mut i: usize = 0;
                while i < o.entries.len()
                    invariant
                        *self == JsonValue::Object(*o),
                        i <= o.entries@.len(),
                        entries_view(copy@) == entries_view(o.entries@.take(i as int)),
                    decreases o.entries@.len() - i,
                {
                    assert(decreases_to!(*self => self->Object_0));
                    assert(decreases_to!(*o => o.entries));
                    assert(decreases_to!(o.entries => o.entries@));
                    assert(decreases_to!(o.entries@ => o.entries@[i as int]));
                    assert(decreases_to!(o.entries@[i as int] => o.entries@[i as int].1));
                    assert(decreases_to!(*self => o.entries@[i as int].1));
                    let e = (o.entries[i].0.clone(), o.entries[i].1.clone());
                    assert(o.entries@.take(i + 1).drop_last() =~= o.entries@.take(i as int));
                    assert(copy@.push(e).drop_last() =~= copy@);
                    copy.push(e);
                    i = i + 1;
                }
                assert(o.entries@.take(i as int) =~= o.entries@);
                JsonValue::Object(JsonObject { entries: copy })
            },
        }
    }
}

} // verus!
