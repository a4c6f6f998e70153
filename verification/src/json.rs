//! JSON values.

use vstd::prelude::*;
use vstd::string::*;

use crate::text::same_text;

verus! {

/// A JSON value. An object keeps its entries in the order in which their keys
/// first came.
#[derive(Debug, PartialEq)]
pub enum Json {
    Null,
    Bool(bool),
    /// A whole number.
    Integer(i128),
    /// A number with a fraction or an exponent, as JSON writes it.
    Decimal(String),
    Text(String),
    Array(Vec<Json>),
    Object(Vec<(String, Json)>),
}

/// The mathematical value of a [`Json`].
pub enum JsonView {
    Null,
    Bool(bool),
    Integer(int),
    Decimal(Seq<char>),
    Text(Seq<char>),
    Array(Seq<JsonView>),
    Object(Seq<(Seq<char>, JsonView)>),
}

impl Json {
    pub open spec fn view(&self) -> JsonView
        decreases self,
    {
        match self {
            Json::Null => JsonView::Null,
            Json::Bool(b) => JsonView::Bool(*b),
            Json::Integer(i) => JsonView::Integer(*i as int),
            Json::Decimal(t) => JsonView::Decimal(t@),
            Json::Text(t) => JsonView::Text(t@),
            Json::Array(items) => JsonView::Array(
                Seq::new(
                    items@.len(),
                    |i: int|
                        if 0 <= i < items@.len() {
                            items@[i].view()
                        } else {
                            arbitrary()
                        },
                ),
            ),
            Json::Object(entries) => JsonView::Object(
                Seq::new(
                    entries@.len(),
                    |i: int|
                        if 0 <= i < entries@.len() {
                            (entries@[i].0@, entries@[i].1.view())
                        } else {
                            arbitrary()
                        },
                ),
            ),
        }
    }
}

/// The values of a list of JSON values.
pub open spec fn views(items: Seq<Json>) -> Seq<JsonView> {
    Seq::new(items.len(), |i: int| items[i]@)
}

/// The values of a list of object entries.
pub open spec fn entry_views(entries: Seq<(String, Json)>) -> Seq<(Seq<char>, JsonView)> {
    Seq::new(entries.len(), |i: int| (entries[i].0@, entries[i].1@))
}

impl Json {
    /// What an array and an object amount to.
    pub broadcast proof fn lemma_view(&self)
        ensures
            #![trigger self.view()]
            self matches Json::Array(items) ==> self@ == JsonView::Array(views(items@)),
            self matches Json::Object(entries) ==> self@ == JsonView::Object(entry_views(entries@)),
    {
        match self {
            Json::Array(items) => {
                assert(self@->Array_0 =~= views(items@));
            },
            Json::Object(entries) => {
                assert(self@->Object_0 =~= entry_views(entries@));
            },
            _ => {},
        }
    }
}

impl Clone for Json {
    fn clone(&self) -> (r: Self)
        ensures
            r@ == self@,
        decreases self,
    {
        broadcast use Json::lemma_view;

        match self {
            Json::Null => Json::Null,
            Json::Bool(b) => Json::Bool(*b),
            Json::Integer(i) => Json::Integer(*i),
            Json::Decimal(t) => Json::Decimal(t.clone()),
            Json::Text(t) => Json::Text(t.clone()),
            Json::Array(items) => {
                let mut out: Vec<Json> = Vec::new();
                let mut i: usize = 0;
                while i < items.len()
                    invariant
                        *self == Json::Array(*items),
                        i <= items.len(),
                        out@.len() == i,
                        forall|j: int| 0 <= j < i ==> (#[trigger] out@[j])@ == items@[j]@,
                    decreases items.len() - i,
                {
                    assert(decreases_to!(self->Array_0@ => self->Array_0@[i as int]));
                    let item = items[i].clone();
                    out.push(item);
                    i += 1;
                }
                assert(views(out@) =~= views(items@));
                Json::Array(out)
            },
            Json::Object(entries) => {
                let mut out: Vec<(String, Json)> = Vec::new();
                let mut i: usize = 0;
                while i < entries.len()
                    invariant
                        *self == Json::Object(*entries),
                        i <= entries.len(),
                        out@.len() == i,
                        forall|j: int|
                            0 <= j < i ==> (#[trigger] out@[j]).0@ == entries@[j].0@ && out@[j].1@
                                == entries@[j].1@,
                    decreases entries.len() - i,
                {
                    assert(decreases_to!(self->Object_0@ => self->Object_0@[i as int]));
                    let key = entries[i].0.clone();
                    let value = entries[i].1.clone();
                    out.push((key, value));
                    i += 1;
                }
                assert(entry_views(out@) =~= entry_views(entries@));
                Json::Object(out)
            },
        }
    }
}

/// A copy of a list of values.
pub fn copied(items: &[Json]) -> (r: Vec<Json>)
    ensures
        views(r@) == views(items@),
{
    let mut out: Vec<Json> = Vec::new();
    let mut i: usize = 0;
    while i < items.len()
        invariant
            i <= items@.len(),
            out@.len() == i,
            forall|j: int| 0 <= j < i ==> (#[trigger] out@[j])@ == items@[j]@,
        decreases items.len() - i,
    {
        out.push(items[i].clone());
        i += 1;
    }
    assert(views(out@) =~= views(items@));
    out
}

// -------------------------------------------------------------------- objects

/// The value under `key`, if there is one.
pub open spec fn entry_value(entries: Seq<(Seq<char>, JsonView)>, key: Seq<char>) -> Option<
    JsonView,
>
    decreases entries.len(),
{
    if entries.len() == 0 {
        None
    } else if entries[0].0 == key {
        Some(entries[0].1)
    } else {
        entry_value(entries.skip(1), key)
    }
}

/// The entries with `key` set to `value`: in place where the key is there
/// already, else at the end.
pub open spec fn with_entry(
    entries: Seq<(Seq<char>, JsonView)>,
    key: Seq<char>,
    value: JsonView,
) -> Seq<(Seq<char>, JsonView)>
    decreases entries.len(),
{
    if entries.len() == 0 {
        seq![(key, value)]
    } else if entries[0].0 == key {
        entries.update(0, (key, value))
    } else {
        seq![entries[0]] + with_entry(entries.skip(1), key, value)
    }
}

/// No key occurs twice.
pub open spec fn distinct_keys<V>(entries: Seq<(Seq<char>, V)>) -> bool {
    forall|i: int, j: int| 0 <= i < j < entries.len() ==> entries[i].0 != entries[j].0
}

impl JsonView {
    /// The value of an object's field; nothing else has fields.
    pub open spec fn field(self, key: Seq<char>) -> Option<JsonView> {
        match self {
            JsonView::Object(entries) => entry_value(entries, key),
            _ => None,
        }
    }

    /// The text of an object's field, where the field holds text.
    pub open spec fn text_field(self, key: Seq<char>) -> Option<Seq<char>> {
        match self.field(key) {
            Some(JsonView::Text(t)) => Some(t),
            _ => None,
        }
    }
}

/// Looking up a key finds an entry that has it, and the first such entry.
pub proof fn lemma_entry_value(entries: Seq<(Seq<char>, JsonView)>, key: Seq<char>, i: int)
    requires
        0 <= i < entries.len(),
        entries[i].0 == key,
        forall|j: int| 0 <= j < i ==> (#[trigger] entries[j]).0 != key,
    ensures
        entry_value(entries, key) == Some(entries[i].1),
    decreases i,
{
    if i > 0 {
        let rest = entries.skip(1);
        assert(rest[i - 1] == entries[i]);
        assert forall|j: int| 0 <= j < i - 1 implies (#[trigger] rest[j]).0 != key by {
            assert(rest[j] == entries[j + 1]);
        }
        assert(entries[0].0 != key);
        lemma_entry_value(rest, key, i - 1);
    }
}

proof fn lemma_entry_absent(entries: Seq<(Seq<char>, JsonView)>, key: Seq<char>)
    requires
        forall|j: int| 0 <= j < entries.len() ==> (#[trigger] entries[j]).0 != key,
    ensures
        entry_value(entries, key) is None,
        forall|value: JsonView| #[trigger] with_entry(entries, key, value) == entries.push((key, value)),
    decreases entries.len(),
{
    if entries.len() > 0 {
        let rest = entries.skip(1);
        assert forall|j: int| 0 <= j < rest.len() implies (#[trigger] rest[j]).0 != key by {
            assert(rest[j] == entries[j + 1]);
        }
        lemma_entry_absent(rest, key);
        assert(entries[0].0 != key);
        assert forall|value: JsonView|
            #[trigger] with_entry(entries, key, value) == entries.push((key, value)) by {
            assert(with_entry(rest, key, value) == rest.push((key, value)));
            assert(with_entry(entries, key, value) =~= entries.push((key, value)));
        }
    } else {
        assert forall|value: JsonView|
            #[trigger] with_entry(entries, key, value) == entries.push((key, value)) by {
            assert(with_entry(entries, key, value) =~= entries.push((key, value)));
        }
    }
}

proof fn lemma_entry_replaced(
    entries: Seq<(Seq<char>, JsonView)>,
    key: Seq<char>,
    value: JsonView,
    i: int,
)
    requires
        0 <= i < entries.len(),
        entries[i].0 == key,
        forall|j: int| 0 <= j < i ==> (#[trigger] entries[j]).0 != key,
    ensures
        with_entry(entries, key, value) == entries.update(i, (key, value)),
    decreases i,
{
    if i > 0 {
        let rest = entries.skip(1);
        assert(rest[i - 1] == entries[i]);
        assert forall|j: int| 0 <= j < i - 1 implies (#[trigger] rest[j]).0 != key by {
            assert(rest[j] == entries[j + 1]);
        }
        assert(entries[0].0 != key);
        lemma_entry_replaced(rest, key, value, i - 1);
        assert(with_entry(entries, key, value) =~= entries.update(i, (key, value)));
    }
}

/// Setting a key keeps the keys distinct, and the key reads back.
pub proof fn lemma_with_entry(
    entries: Seq<(Seq<char>, JsonView)>,
    key: Seq<char>,
    value: JsonView,
)
    requires
        distinct_keys(entries),
    ensures
        distinct_keys(with_entry(entries, key, value)),
        entry_value(with_entry(entries, key, value), key) == Some(value),
{
    let out = with_entry(entries, key, value);
    if exists|i: int| 0 <= i < entries.len() && (#[trigger] entries[i]).0 == key {
        let i = choose|i: int| 0 <= i < entries.len() && (#[trigger] entries[i]).0 == key;
        lemma_entry_replaced(entries, key, value, i);
        lemma_entry_value(out, key, i);
    } else {
        lemma_entry_absent(entries, key);
        lemma_entry_value(out, key, entries.len() as int);
    }
}

/// Setting a key leaves what stands under every other key.
pub proof fn lemma_other_entry(
    entries: Seq<(Seq<char>, JsonView)>,
    key: Seq<char>,
    value: JsonView,
    other: Seq<char>,
)
    requires
        other != key,
    ensures
        entry_value(with_entry(entries, key, value), other) == entry_value(entries, other),
    decreases entries.len(),
{
    let out = with_entry(entries, key, value);
    if entries.len() == 0 {
        assert(out.skip(1) =~= Seq::<(Seq<char>, JsonView)>::empty());
        assert(entry_value(out.skip(1), other) is None);
    } else if entries[0].0 == key {
        assert(out.skip(1) =~= entries.skip(1));
    } else {
        let rest = entries.skip(1);
        lemma_other_entry(rest, key, value, other);
        assert(out.skip(1) =~= with_entry(rest, key, value));
    }
}

/// Setting a key brings in no value but the new one.
pub proof fn lemma_entries_of_with_entry(
    entries: Seq<(Seq<char>, JsonView)>,
    key: Seq<char>,
    value: JsonView,
)
    ensures
        forall|i: int|
            0 <= i < with_entry(entries, key, value).len() ==> (#[trigger] with_entry(
                entries,
                key,
                value,
            )[i]).1 == value || entries.contains(with_entry(entries, key, value)[i]),
    decreases entries.len(),
{
    let out = with_entry(entries, key, value);
    if entries.len() > 0 && entries[0].0 != key {
        let rest = entries.skip(1);
        lemma_entries_of_with_entry(rest, key, value);
        assert forall|i: int| 0 <= i < out.len() implies (#[trigger] out[i]).1 == value
            || entries.contains(out[i]) by {
            if i == 0 {
                assert(entries[0] == out[0]);
            } else {
                let inner = with_entry(rest, key, value);
                assert(out[i] == inner[i - 1]);
                if inner[i - 1].1 != value {
                    let j = choose|j: int| 0 <= j < rest.len() && rest[j] == inner[i - 1];
                    assert(entries[j + 1] == out[i]);
                }
            }
        }
    } else if entries.len() > 0 {
        assert forall|i: int| 0 <= i < out.len() implies (#[trigger] out[i]).1 == value
            || entries.contains(out[i]) by {
            if i > 0 {
                assert(entries[i] == out[i]);
            }
        }
    }
}

/// The position of the first entry under `key`.
fn find_entry(entries: &Vec<(String, Json)>, key: &str) -> (r: Option<usize>)
    ensures
        match r {
            Some(i) => i < entries@.len() && entries@[i as int].0@ == key@ && forall|j: int|
                0 <= j < i ==> (#[trigger] entries@[j]).0@ != key@,
            None => forall|j: int| 0 <= j < entries@.len() ==> (#[trigger] entries@[j]).0@ != key@,
        },
{
    let mut i: usize = 0;
    while i < entries.len()
        invariant
            i <= entries@.len(),
            forall|j: int| 0 <= j < i ==> (#[trigger] entries@[j]).0@ != key@,
        decreases entries.len() - i,
    {
        if same_text(entries[i].0.as_str(), key) {
            return Some(i);
        }
        i += 1;
    }
    None
}

/// An entry of an object.
pub fn entry(key: &str, value: Json) -> (r: (String, Json))
    ensures
        r.0@ == key@,
        r.1@ == value@,
{
    (key.to_owned(), value)
}

/// Set `key` to `value`: in place where the key is there already, else at the
/// end.
pub fn set_entry(entries: &mut Vec<(String, Json)>, key: String, value: Json)
    ensures
        entry_views(final(entries)@) == with_entry(entry_views(old(entries)@), key@, value@),
{
    let ghost before = entry_views(entries@);
    match find_entry(entries, key.as_str()) {
        Some(i) => {
            proof {
                assert forall|j: int| 0 <= j < i implies (#[trigger] before[j]).0 != key@ by {
                    assert(before[j].0 == entries@[j].0@);
                }
                lemma_entry_replaced(before, key@, value@, i as int);
            }
            entries[i] = (key, value);
            assert(entry_views(entries@) =~= before.update(i as int, (key@, value@)));
        },
        None => {
            proof {
                assert forall|j: int| 0 <= j < before.len() implies (#[trigger] before[j]).0
                    != key@ by {
                    assert(before[j].0 == entries@[j].0@);
                }
                lemma_entry_absent(before, key@);
            }
            entries.push((key, value));
            assert(entry_views(entries@) =~= before.push((key@, value@)));
        },
    }
}

impl Json {
    /// An object without entries.
    pub fn empty_object() -> (r: Json)
        ensures
            r@ == JsonView::Object(Seq::empty()),
    {
        broadcast use Json::lemma_view;

        let entries: Vec<(String, Json)> = Vec::new();
        assert(entry_views(entries@) =~= Seq::<(Seq<char>, JsonView)>::empty());
        Json::Object(entries)
    }

    /// A JSON string.
    pub fn text(t: &str) -> (r: Json)
        ensures
            r@ == JsonView::Text(t@),
    {
        Json::Text(t.to_owned())
    }

    /// The value of an object's field; nothing else has fields.
    pub fn get(&self, key: &str) -> (r: Option<&Json>)
        ensures
            match r {
                Some(v) => self@.field(key@) == Some(v@),
                None => self@.field(key@) is None,
            },
    {
        broadcast use Json::lemma_view;

        match self {
            Json::Object(entries) => {
                let ghost seen = entry_views(entries@);
                match find_entry(entries, key) {
                    Some(i) => {
                        proof {
                            assert forall|j: int| 0 <= j < i implies (#[trigger] seen[j]).0
                                != key@ by {
                                assert(seen[j].0 == entries@[j].0@);
                            }
                            lemma_entry_value(seen, key@, i as int);
                        }
                        Some(&entries[i].1)
                    },
                    None => {
                        proof {
                            assert forall|j: int| 0 <= j < seen.len() implies (#[trigger] seen[j]).0
                                != key@ by {
                                assert(seen[j].0 == entries@[j].0@);
                            }
                            lemma_entry_absent(seen, key@);
                        }
                        None
                    },
                }
            },
            _ => None,
        }
    }

    /// The text of an object's field, where the field holds text.
    pub fn get_text(&self, key: &str) -> (r: Option<&str>)
        ensures
            r.deep_view() == self@.text_field(key@),
    {
        match self.get(key) {
            Some(Json::Text(t)) => Some(t.as_str()),
            _ => None,
        }
    }
}

} // verus!
