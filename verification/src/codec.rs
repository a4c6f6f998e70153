//! JSON text, read and written by `serde_json`.
//!
//! A [`Json`] goes to and from a `serde_json::Value` node by node; the text is
//! what `serde_json` makes of that value. The crate is built with the feature
//! `preserve_order`, so an object keeps the order of its entries, and with
//! `float_roundtrip`, so a number with a fraction reads back as it was written.

use vstd::prelude::*;
use vstd::string::*;
use vstd::utf8::*;

use crate::json::{distinct_keys, entry_views, views, Json, JsonView};
use crate::text::same_text;

verus! {

/// `serde_json::Value`, an opaque tree.
#[verifier::external_type_specification]
#[verifier::external_body]
pub struct ExValue(serde_json::Value);

/// What a `serde_json::Value` holds.
pub uninterp spec fn json_contents(value: serde_json::Value) -> JsonView;

/// The number that `serde_json` reads from a text, if the text is a number.
pub uninterp spec fn number_read(text: Seq<char>) -> Option<JsonView>;

/// The compact text that `serde_json` writes for a value.
pub uninterp spec fn json_text(value: JsonView) -> Seq<char>;

/// What `serde_json` reads from bytes: a value, or the words of its error.
pub uninterp spec fn json_parse(bytes: Seq<u8>) -> Result<JsonView, Seq<char>>;

/// A successful read.
pub open spec fn read_ok(v: JsonView) -> Result<JsonView, Seq<char>> {
    Ok(v)
}

/// A failed read, in the reader's words.
pub open spec fn read_err(e: Seq<char>) -> Result<JsonView, Seq<char>> {
    Err(e)
}

/// The top of a `serde_json::Value`, with its children as they are.
pub enum JsonNode {
    Null,
    Bool(bool),
    Integer(i128),
    Decimal(String),
    Text(String),
    Array(Vec<serde_json::Value>),
    Object(Vec<(String, serde_json::Value)>),
}

/// What a list of values holds.
pub open spec fn contents_list(items: Seq<serde_json::Value>) -> Seq<JsonView> {
    Seq::new(items.len(), |i: int| json_contents(items[i]))
}

/// What a list of entries holds.
pub open spec fn contents_entries(entries: Seq<(String, serde_json::Value)>) -> Seq<
    (Seq<char>, JsonView),
> {
    Seq::new(entries.len(), |i: int| (entries[i].0@, json_contents(entries[i].1)))
}

impl JsonNode {
    pub open spec fn view(&self) -> JsonView {
        match self {
            JsonNode::Null => JsonView::Null,
            JsonNode::Bool(b) => JsonView::Bool(*b),
            JsonNode::Integer(i) => JsonView::Integer(*i as int),
            JsonNode::Decimal(t) => JsonView::Decimal(t@),
            JsonNode::Text(t) => JsonView::Text(t@),
            JsonNode::Array(items) => JsonView::Array(contents_list(items@)),
            JsonNode::Object(entries) => JsonView::Object(contents_entries(entries@)),
        }
    }
}

// ------------------------------------------------- single steps of serde_json

/// Takes a `serde_json::Value` apart. Claims that the variant and its fields
/// are what the value holds: `Number::as_i128` gives a whole number, and any
/// other number is given by its text, `Number`'s `Display`.
#[verifier::external_body]
fn open_value(value: serde_json::Value) -> (r: JsonNode)
    ensures
        r@ == json_contents(value),
{
    match value {
        serde_json::Value::Null => JsonNode::Null,
        serde_json::Value::Bool(b) => JsonNode::Bool(b),
        serde_json::Value::Number(n) => match n.as_i128() {
            Some(i) => JsonNode::Integer(i),
            None => JsonNode::Decimal(n.to_string()),
        },
        serde_json::Value::String(t) => JsonNode::Text(t),
        serde_json::Value::Array(items) => JsonNode::Array(items),
        serde_json::Value::Object(map) => JsonNode::Object(map.into_iter().collect()),
    }
}

/// `serde_json::Value::Null`, which holds null.
#[verifier::external_body]
fn null_value() -> (r: serde_json::Value)
    ensures
        json_contents(r) == JsonView::Null,
{
    serde_json::Value::Null
}

/// `serde_json::Value::Bool`, which holds the truth value that it is given.
#[verifier::external_body]
fn bool_value(b: bool) -> (r: serde_json::Value)
    ensures
        json_contents(r) == JsonView::Bool(b),
{
    serde_json::Value::Bool(b)
}

/// `serde_json::Number::from_i128`. Claims that it takes the integers from
/// `i64::MIN` to `u64::MAX` and no others, and that the number is the integer.
#[verifier::external_body]
fn integer_value(i: i128) -> (r: Option<serde_json::Value>)
    ensures
        r is Some <==> i64::MIN <= i <= u64::MAX,
        r matches Some(v) ==> json_contents(v) == JsonView::Integer(i as int),
{
    serde_json::Number::from_i128(i).map(serde_json::Value::Number)
}

/// `serde_json::Number`'s `FromStr`. Claims that what it reads depends on the
/// text alone.
#[verifier::external_body]
fn number_value(text: &str) -> (r: Option<serde_json::Value>)
    ensures
        match r {
            Some(v) => number_read(text@) == Some(json_contents(v)),
            None => number_read(text@) is None,
        },
{
    text.parse::<serde_json::Number>().ok().map(serde_json::Value::Number)
}

/// `serde_json::Value::String`, which holds the text that it is given.
#[verifier::external_body]
fn text_value(text: &str) -> (r: serde_json::Value)
    ensures
        json_contents(r) == JsonView::Text(text@),
{
    serde_json::Value::String(text.to_owned())
}

/// `serde_json::Value::Array`, which holds its items in order.
#[verifier::external_body]
fn array_value(items: Vec<serde_json::Value>) -> (r: serde_json::Value)
    ensures
        json_contents(r) == JsonView::Array(contents_list(items@)),
{
    serde_json::Value::Array(items)
}

/// `serde_json::Map`'s `FromIterator`. Claims that entries with distinct keys
/// are all kept, in order.
#[verifier::external_body]
fn object_value(entries: Vec<(String, serde_json::Value)>) -> (r: serde_json::Value)
    requires
        distinct_keys(contents_entries(entries@)),
    ensures
        json_contents(r) == JsonView::Object(contents_entries(entries@)),
{
    serde_json::Value::Object(entries.into_iter().collect())
}

/// `serde_json::to_string` on a value. Claims that it succeeds, that the text
/// depends on what the value holds alone, and that `serde_json::from_slice`
/// reads the value back from the text's UTF-8 bytes, unless the value nests
/// deeper than the reader's recursion limit allows.
#[verifier::external_body]
fn value_text(value: &serde_json::Value) -> (r: Option<String>)
    ensures
        r is Some,
        r->0@ == json_text(json_contents(*value)),
        nests_within(json_contents(*value), 127) ==> json_parse(encode_utf8(r->0@)) == read_ok(
            json_contents(*value),
        ),
{
    serde_json::to_string(value).ok()
}

/// `serde_json::from_slice` into a value. Claims that the value, or the words
/// of the error, depend on the bytes alone.
#[verifier::external_body]
fn value_from_slice(bytes: &[u8]) -> (r: Result<serde_json::Value, String>)
    ensures
        match r {
            Ok(v) => json_parse(bytes@) == read_ok(json_contents(v)),
            Err(e) => json_parse(bytes@) == read_err(e@),
        },
{
    serde_json::from_slice::<serde_json::Value>(bytes).map_err(|e| e.to_string())
}

// --------------------------------------------------------------- whole values

/// Arrays and objects are nested at most `n` deep.
pub open spec fn nests_within(v: JsonView, n: nat) -> bool
    decreases v,
{
    match v {
        JsonView::Array(items) => n > 0 && forall|i: int|
            0 <= i < items.len() ==> nests_within(#[trigger] items[i], (n - 1) as nat),
        JsonView::Object(entries) => n > 0 && forall|i: int|
            0 <= i < entries.len() ==> nests_within((#[trigger] entries[i]).1, (n - 1) as nat),
        _ => true,
    }
}

/// `serde_json` can hold the value as it stands: whole numbers are in range,
/// any other number is written as `serde_json` writes it, and no object has a
/// key twice.
pub open spec fn representable(v: JsonView) -> bool
    decreases v,
{
    match v {
        JsonView::Integer(i) => i64::MIN <= i <= u64::MAX,
        JsonView::Decimal(t) => number_read(t) == Some(JsonView::Decimal(t)),
        JsonView::Array(items) => forall|i: int|
            0 <= i < items.len() ==> representable(#[trigger] items[i]),
        JsonView::Object(entries) => distinct_keys(entries) && forall|i: int|
            0 <= i < entries.len() ==> representable((#[trigger] entries[i]).1),
        _ => true,
    }
}

proof fn lemma_item_representable(items: Seq<JsonView>, i: int)
    requires
        0 <= i < items.len(),
        representable(JsonView::Array(items)),
    ensures
        representable(items[i]),
{
    let v = JsonView::Array(items);
    assert(representable(v->Array_0[i]));
}

fn has_distinct_keys(entries: &Vec<(String, Json)>) -> (r: bool)
    ensures
        r == distinct_keys(entry_views(entries@)),
{
    let ghost seen = entry_views(entries@);
    let mut i: usize = 0;
    while i < entries.len()
        invariant
            seen == entry_views(entries@),
            i <= entries.len(),
            forall|a: int, b: int| 0 <= a < b < seen.len() && a < i ==> seen[a].0 != seen[b].0,
        decreases entries.len() - i,
    {
        let mut j: usize = i + 1;
        while j < entries.len()
            invariant
                seen == entry_views(entries@),
                i < j <= entries.len(),
                forall|b: int| i < b < j ==> seen[i as int].0 != (#[trigger] seen[b]).0,
            decreases entries.len() - j,
        {
            if same_text(entries[i].0.as_str(), entries[j].0.as_str()) {
                assert(seen[i as int].0 == seen[j as int].0);
                return false;
            }
            j += 1;
        }
        i += 1;
    }
    true
}

/// A number that is written as `serde_json` writes it.
fn decimal_value(text: &str) -> (r: Option<serde_json::Value>)
    ensures
        r is Some <==> representable(JsonView::Decimal(text@)),
        r matches Some(v) ==> json_contents(v) == JsonView::Decimal(text@),
{
    match number_value(text) {
        Some(v) => match open_value(v) {
            JsonNode::Decimal(t) => if same_text(t.as_str(), text) {
                number_value(text)
            } else {
                None
            },
            _ => None,
        },
        None => None,
    }
}

impl Json {
    /// The value as `serde_json` holds it, if it can.
    pub fn to_value(&self) -> (r: Option<serde_json::Value>)
        ensures
            r is Some <==> representable(self@),
            r matches Some(v) ==> json_contents(v) == self@,
        decreases self,
    {
        broadcast use Json::lemma_view;

        match self {
            Json::Null => Some(null_value()),
            Json::Bool(b) => Some(bool_value(*b)),
            Json::Integer(i) => integer_value(*i),
            Json::Decimal(t) => decimal_value(t.as_str()),
            Json::Text(t) => Some(text_value(t.as_str())),
            Json::Array(items) => {
                let ghost seen = views(items@);
                let mut out: Vec<serde_json::Value> = Vec::new();
                let mut i: usize = 0;
                while i < items.len()
                    invariant
                        *self == Json::Array(*items),
                        self@ == JsonView::Array(seen),
                        seen == views(items@),
                        i <= items.len(),
                        out@.len() == i,
                        forall|j: int|
                            0 <= j < i ==> json_contents(#[trigger] out@[j]) == seen[j]
                                && representable(seen[j]),
                    decreases items.len() - i,
                {
                    assert(decreases_to!(self->Array_0@ => self->Array_0@[i as int]));
                    match items[i].to_value() {
                        Some(v) => {
                            out.push(v);
                        },
                        None => {
                            assert(!representable(seen[i as int]));
                            proof {
                                if representable(self@) {
                                    lemma_item_representable(seen, i as int);
                                }
                            }
                            return None;
                        },
                    }
                    i += 1;
                }
                assert(contents_list(out@) =~= seen);
                assert forall|j: int| 0 <= j < seen.len() implies representable(
                    #[trigger] seen[j],
                ) by {
                    assert(json_contents(out@[j]) == seen[j]);
                }
                Some(array_value(out))
            },
            Json::Object(entries) => {
                if !has_distinct_keys(entries) {
                    return None;
                }
                let ghost seen = entry_views(entries@);
                let mut out: Vec<(String, serde_json::Value)> = Vec::new();
                let mut i: usize = 0;
                while i < entries.len()
                    invariant
                        *self == Json::Object(*entries),
                        self@ == JsonView::Object(seen),
                        seen == entry_views(entries@),
                        i <= entries.len(),
                        out@.len() == i,
                        forall|j: int|
                            0 <= j < i ==> ((#[trigger] out@[j]).0@, json_contents(out@[j].1))
                                == seen[j] && representable(seen[j].1),
                    decreases entries.len() - i,
                {
                    assert(decreases_to!(self->Object_0@ => self->Object_0@[i as int]));
                    match entries[i].1.to_value() {
                        Some(v) => {
                            out.push((entries[i].0.clone(), v));
                        },
                        None => {
                            assert(!representable(seen[i as int].1));
                            return None;
                        },
                    }
                    i += 1;
                }
                assert(contents_entries(out@) =~= seen);
                assert forall|j: int| 0 <= j < seen.len() implies representable(
                    (#[trigger] seen[j]).1,
                ) by {
                    assert((out@[j].0@, json_contents(out@[j].1)) == seen[j]);
                }
                Some(object_value(out))
            },
        }
    }

    /// The value that a `serde_json::Value` holds.
    pub fn from_value(value: serde_json::Value) -> (r: Json)
        ensures
            r@ == json_contents(value),
        decreases json_contents(value),
    {
        broadcast use Json::lemma_view;

        match open_value(value) {
            JsonNode::Null => Json::Null,
            JsonNode::Bool(b) => Json::Bool(b),
            JsonNode::Integer(i) => Json::Integer(i),
            JsonNode::Decimal(t) => Json::Decimal(t),
            JsonNode::Text(t) => Json::Text(t),
            JsonNode::Array(items) => {
                let ghost all = items@;
                let ghost seen = contents_list(items@);
                let mut out: Vec<Json> = Vec::new();
                for item in it: items
                    invariant
                        json_contents(value) == JsonView::Array(seen),
                        seen == contents_list(all),
                        it.seq() == all,
                        out@.len() == it.index(),
                        forall|j: int| 0 <= j < out@.len() ==> (#[trigger] out@[j])@ == seen[j],
                {
                    let ghost k = out@.len() as int;
                    assert(json_contents(item) == seen[k]);
                    assert(decreases_to!(json_contents(value) => json_contents(value)->Array_0));
                    assert(decreases_to!(seen => seen[k]));
                    out.push(Json::from_value(item));
                }
                assert(views(out@) =~= seen);
                Json::Array(out)
            },
            JsonNode::Object(entries) => {
                let ghost all = entries@;
                let ghost seen = contents_entries(entries@);
                let mut out: Vec<(String, Json)> = Vec::new();
                for pair in it: entries
                    invariant
                        json_contents(value) == JsonView::Object(seen),
                        seen == contents_entries(all),
                        it.seq() == all,
                        out@.len() == it.index(),
                        forall|j: int|
                            0 <= j < out@.len() ==> ((#[trigger] out@[j]).0@, out@[j].1@)
                                == seen[j],
                {
                    let ghost k = out@.len() as int;
                    let (key, item) = pair;
                    assert(json_contents(item) == seen[k].1);
                    assert(decreases_to!(json_contents(value) => json_contents(value)->Object_0));
                    assert(decreases_to!(seen => seen[k]));
                    assert(decreases_to!(seen[k] => seen[k].1));
                    out.push((key, Json::from_value(item)));
                }
                assert(entry_views(out@) =~= seen);
                Json::Object(out)
            },
        }
    }

    /// The compact JSON text of the value, if `serde_json` can hold the value.
    /// The text reads back as the value, unless it nests too deep to be read.
    pub fn to_text(&self) -> (r: Option<String>)
        ensures
            r is Some <==> representable(self@),
            r matches Some(t) ==> t@ == json_text(self@),
            representable(self@) && nests_within(self@, 127) ==> json_parse(
                encode_utf8(json_text(self@)),
            ) == read_ok(self@),
    {
        match self.to_value() {
            Some(v) => value_text(&v),
            None => None,
        }
    }

    /// Read JSON text; an error comes in the reader's own words.
    pub fn parse(bytes: &[u8]) -> (r: Result<Json, String>)
        ensures
            match r {
                Ok(v) => json_parse(bytes@) == read_ok(v@),
                Err(e) => json_parse(bytes@) == read_err(e@),
            },
    {
        match value_from_slice(bytes) {
            Ok(v) => Ok(Json::from_value(v)),
            Err(e) => Err(e),
        }
    }
}

/// Text can be written for the value, and the text reads back: `serde_json` can
/// hold the value, and it does not nest deeper than `n`.
pub open spec fn writable(v: JsonView, n: nat) -> bool {
    representable(v) && nests_within(v, n)
}

/// An array of writable items is writable, one level deeper.
pub proof fn lemma_array_writable(items: Seq<JsonView>, n: nat)
    requires
        forall|i: int| 0 <= i < items.len() ==> writable(#[trigger] items[i], n),
    ensures
        writable(JsonView::Array(items), n + 1),
{
    let v = JsonView::Array(items);
    assert forall|i: int| 0 <= i < items.len() implies representable(#[trigger] items[i])
        && nests_within(items[i], n) by {
        assert(writable(items[i], n));
    }
    assert(representable(v));
    assert(nests_within(v, n + 1));
}

/// An object of writable values is writable, one level deeper.
pub proof fn lemma_object_writable(entries: Seq<(Seq<char>, JsonView)>, n: nat)
    requires
        distinct_keys(entries),
        forall|i: int| 0 <= i < entries.len() ==> writable((#[trigger] entries[i]).1, n),
    ensures
        writable(JsonView::Object(entries), n + 1),
{
    let v = JsonView::Object(entries);
    assert forall|i: int| 0 <= i < entries.len() implies representable((#[trigger] entries[i]).1)
        && nests_within(entries[i].1, n) by {
        assert(writable(entries[i].1, n));
    }
    assert(representable(v));
    assert(nests_within(v, n + 1));
}

/// What is writable is writable with more room.
pub proof fn lemma_writable_deeper(v: JsonView, n: nat, m: nat)
    requires
        writable(v, n),
        n <= m,
    ensures
        writable(v, m),
{
    lemma_nests_deeper(v, n, m);
}

proof fn lemma_nests_deeper(v: JsonView, n: nat, m: nat)
    requires
        nests_within(v, n),
        n <= m,
    ensures
        nests_within(v, m),
    decreases n,
{
    match v {
        JsonView::Array(items) => {
            assert forall|i: int| 0 <= i < items.len() implies nests_within(
                #[trigger] items[i],
                (m - 1) as nat,
            ) by {
                assert(nests_within(v->Array_0[i], (n - 1) as nat));
                lemma_nests_deeper(items[i], (n - 1) as nat, (m - 1) as nat);
            }
        },
        JsonView::Object(entries) => {
            assert forall|i: int| 0 <= i < entries.len() implies nests_within(
                (#[trigger] entries[i]).1,
                (m - 1) as nat,
            ) by {
                assert(nests_within(v->Object_0[i].1, (n - 1) as nat));
                lemma_nests_deeper(entries[i].1, (n - 1) as nat, (m - 1) as nat);
            }
        },
        _ => {},
    }
}

} // verus!
