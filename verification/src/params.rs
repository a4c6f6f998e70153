//! Statement parameters: the values that are bound to placeholders, and the
//! tool arguments that the parameter expressions refer to.

use vstd::prelude::*;
use vstd::string::*;

use crate::json::{
    distinct_keys, entry, entry_value, entry_views, lemma_other_entry, lemma_with_entry, set_entry,
    views, with_entry, Json, JsonView,
};
use crate::text::{
    chars_of, decimal_int, find_chars, first_at, lemma_first_at, lemma_first_at_none,
    lemma_found_at, push_i128, same_text,
};
use crate::types::{is_word_char, word_char};

verus! {

// ---------------------------------------------------------------------- binds

/// A value bound to a placeholder of a statement.
#[derive(Debug, PartialEq)]
pub enum OracleBind {
    Null,
    Int(i64),
    /// A number outside the 64-bit integers, as JSON writes it.
    Float(String),
    Bool(bool),
    Str(String),
}

/// The mathematical value of an [`OracleBind`].
pub enum BindView {
    Null,
    Int(int),
    Float(Seq<char>),
    Bool(bool),
    Str(Seq<char>),
}

impl OracleBind {
    pub open spec fn view(&self) -> BindView {
        match self {
            OracleBind::Null => BindView::Null,
            OracleBind::Int(i) => BindView::Int(*i as int),
            OracleBind::Float(t) => BindView::Float(t@),
            OracleBind::Bool(b) => BindView::Bool(*b),
            OracleBind::Str(t) => BindView::Str(t@),
        }
    }
}

impl Clone for OracleBind {
    fn clone(&self) -> (r: Self)
        ensures
            r@ == self@,
    {
        match self {
            OracleBind::Null => OracleBind::Null,
            OracleBind::Int(i) => OracleBind::Int(*i),
            OracleBind::Float(t) => OracleBind::Float(t.clone()),
            OracleBind::Bool(b) => OracleBind::Bool(*b),
            OracleBind::Str(t) => OracleBind::Str(t.clone()),
        }
    }
}

/// The values of a list of binds.
pub open spec fn bind_views(binds: Seq<OracleBind>) -> Seq<BindView> {
    Seq::new(binds.len(), |i: int| binds[i]@)
}

/// The bind that a JSON value is lowered to; arrays and objects have none.
pub open spec fn lowered(v: JsonView) -> Option<BindView> {
    match v {
        JsonView::Null => Some(BindView::Null),
        JsonView::Bool(b) => Some(BindView::Bool(b)),
        JsonView::Integer(i) => if i64::MIN <= i <= i64::MAX {
            Some(BindView::Int(i))
        } else {
            Some(BindView::Float(decimal_int(i)))
        },
        JsonView::Decimal(t) => Some(BindView::Float(t)),
        JsonView::Text(t) => Some(BindView::Str(t)),
        JsonView::Array(_) => None,
        JsonView::Object(_) => None,
    }
}

/// Why an array or an object cannot be bound.
pub open spec fn not_scalar_message() -> Seq<char> {
    "array and object values cannot be bound as a scalar Oracle parameter"@
}

/// Lower a JSON value to a scalar bind. Text is carried as it is, as one value.
pub fn json_to_oracle_bind(value: Json) -> (r: Result<OracleBind, String>)
    ensures
        match r {
            Ok(b) => lowered(value@) == Some(b@),
            Err(e) => lowered(value@) is None && e@ == not_scalar_message(),
        },
{
    match value {
        Json::Null => Ok(OracleBind::Null),
        Json::Bool(b) => Ok(OracleBind::Bool(b)),
        Json::Integer(i) => if i64::MIN as i128 <= i && i <= i64::MAX as i128 {
            Ok(OracleBind::Int(i as i64))
        } else {
            let mut text = String::new();
            push_i128(&mut text, i);
            assert(text@ =~= decimal_int(i as int));
            Ok(OracleBind::Float(text))
        },
        Json::Decimal(t) => Ok(OracleBind::Float(t)),
        Json::Text(t) => Ok(OracleBind::Str(t)),
        _ => Err(
            "array and object values cannot be bound as a scalar Oracle parameter".to_owned(),
        ),
    }
}

/// Every value can be bound.
pub open spec fn all_scalar(values: Seq<JsonView>) -> bool {
    forall|i: int| 0 <= i < values.len() ==> lowered(#[trigger] values[i]) is Some
}

/// The binds that a list of scalar values is lowered to, in order.
pub open spec fn all_lowered(values: Seq<JsonView>) -> Seq<BindView> {
    Seq::new(values.len(), |i: int| lowered(values[i])->0)
}

/// Lower evaluated parameters to binds, `:1` first. One value that cannot be
/// bound fails the whole list.
pub fn bind_values(values: Vec<Json>) -> (r: Result<Vec<OracleBind>, String>)
    ensures
        match r {
            Ok(binds) => all_scalar(views(values@)) && bind_views(binds@) == all_lowered(
                views(values@),
            ),
            Err(e) => !all_scalar(views(values@)) && e@ == "binding params: "@
                + not_scalar_message(),
        },
{
    let ghost all = values@;
    let ghost seen = views(values@);
    let mut binds: Vec<OracleBind> = Vec::new();
    for value in it: values
        invariant
            it.seq() == all,
            seen == views(all),
            binds@.len() == it.index(),
            forall|j: int|
                0 <= j < binds@.len() ==> lowered(#[trigger] seen[j]) == Some(binds@[j]@),
    {
        let ghost k = binds@.len() as int;
        assert(value@ == seen[k]);
        match json_to_oracle_bind(value) {
            Ok(b) => {
                binds.push(b);
            },
            Err(e) => {
                let mut message = "binding params: ".to_owned();
                message.append(e.as_str());
                assert(lowered(seen[k]) is None);
                return Err(message);
            },
        }
    }
    assert(bind_views(binds@) =~= all_lowered(seen));
    Ok(binds)
}

/// How a bind reaches the driver. A truth value goes as 0 or 1, since Oracle
/// had no SQL boolean before 23c; a null goes as a null string.
#[derive(Debug, PartialEq)]
pub enum BoundValue {
    NullText,
    Int(i64),
    Float(String),
    Flag(i32),
    Text(String),
}

/// The mathematical value of a [`BoundValue`].
pub enum BoundView {
    NullText,
    Int(int),
    Float(Seq<char>),
    Flag(int),
    Text(Seq<char>),
}

impl BoundValue {
    pub open spec fn view(&self) -> BoundView {
        match self {
            BoundValue::NullText => BoundView::NullText,
            BoundValue::Int(i) => BoundView::Int(*i as int),
            BoundValue::Float(t) => BoundView::Float(t@),
            BoundValue::Flag(n) => BoundView::Flag(*n as int),
            BoundValue::Text(t) => BoundView::Text(t@),
        }
    }
}

/// What the driver is given for a bind.
pub open spec fn boxed(b: BindView) -> BoundView {
    match b {
        BindView::Null => BoundView::NullText,
        BindView::Int(i) => BoundView::Int(i),
        BindView::Float(t) => BoundView::Float(t),
        BindView::Bool(b) => BoundView::Flag(
            if b {
                1
            } else {
                0
            },
        ),
        BindView::Str(t) => BoundView::Text(t),
    }
}

/// Choose what the driver is given for a bind.
pub fn bind_box(value: &OracleBind) -> (r: BoundValue)
    ensures
        r@ == boxed(value@),
{
    match value {
        OracleBind::Null => BoundValue::NullText,
        OracleBind::Int(i) => BoundValue::Int(*i),
        OracleBind::Float(t) => BoundValue::Float(t.clone()),
        OracleBind::Bool(b) => BoundValue::Flag(
            if *b {
                1
            } else {
                0
            },
        ),
        OracleBind::Str(t) => BoundValue::Text(t.clone()),
    }
}

// ------------------------------------------------------------------ arguments

/// A parameter expression that compiled.
#[derive(Debug, PartialEq)]
pub struct CompiledParam {
    /// The expression as the operator wrote it.
    pub source: String,
}

impl Clone for CompiledParam {
    fn clone(&self) -> (r: Self)
        ensures
            r == *self,
    {
        CompiledParam { source: self.source.clone() }
    }
}

/// Where the run of word characters that begins at `i` ends.
pub open spec fn word_end(s: Seq<char>, i: int) -> int
    decreases s.len() - i,
{
    if 0 <= i < s.len() && word_char(s[i]) {
        word_end(s, i + 1)
    } else {
        i
    }
}

/// What stands in front of an argument's name.
pub open spec fn marker() -> Seq<char> {
    "arguments."@
}

/// The run ends in the string, and holds word characters only.
pub proof fn lemma_word_end(s: Seq<char>, i: int)
    requires
        0 <= i <= s.len(),
    ensures
        i <= word_end(s, i) <= s.len(),
        forall|j: int| i <= j < word_end(s, i) ==> word_char(#[trigger] s[j]),
    decreases s.len() - i,
{
    if i < s.len() && word_char(s[i]) {
        lemma_word_end(s, i + 1);
    }
}

/// The argument names in `s` from position `from` on: the run of word
/// characters after each marker, left out where it is empty. The search goes
/// on behind the run.
pub open spec fn idents_from(s: Seq<char>, from: int) -> Seq<Seq<char>>
    decreases s.len() - from,
{
    match first_at(s, marker(), from) {
        None => Seq::empty(),
        Some(p) => {
            let start = p + marker().len();
            let end = word_end(s, start);
            proof {
                reveal_strlit("arguments.");
                lemma_found_at(s, marker(), from);
                lemma_word_end(s, start);
            }
            if end > start {
                seq![s.subrange(start, end)] + idents_from(s, end)
            } else {
                idents_from(s, end)
            }
        },
    }
}

/// The names that stand as `arguments.<name>` in an expression, in the order
/// in which they come. A best-effort hint: the expression is not parsed.
pub fn extract_argument_idents(source: &str) -> (r: Vec<String>)
    ensures
        r.deep_view() == idents_from(source@, 0),
{
    proof {
        reveal_strlit("arguments.");
    }
    let chars = chars_of(source);
    let mark = chars_of("arguments.");
    let ghost all = idents_from(source@, 0);
    let mut out: Vec<String> = Vec::new();
    let mut from: usize = 0;
    assert(out.deep_view() + all =~= all);
    loop
        invariant
            chars@ == source@,
            mark@ == marker(),
            mark@.len() == 10,
            from <= chars.len(),
            out.deep_view() + idents_from(source@, from as int) == all,
            all == idents_from(source@, 0),
        ensures
            out.deep_view() == all,
        decreases chars.len() - from,
    {
        match find_chars(&chars, &mark, from) {
            None => {
                proof {
                    lemma_first_at_none(source@, marker(), from as int);
                    assert(out.deep_view() + Seq::<Seq<char>>::empty() =~= out.deep_view());
                }
                break;
            },
            Some(p) => {
                proof {
                    lemma_first_at(source@, marker(), from as int, p as int);
                }
                let start: usize = p + mark.len();
                let mut end: usize = start;
                while end < chars.len() && is_word_char(chars[end])
                    invariant
                        chars@ == source@,
                        start <= end <= chars.len(),
                        word_end(source@, start as int) == word_end(source@, end as int),
                    decreases chars.len() - end,
                {
                    end += 1;
                }
                let ghost before = out.deep_view();
                if end > start {
                    let name = source.substring_char(start, end).to_owned();
                    out.push(name);
                    assert(out.deep_view() =~= before.push(name@));
                    assert(out.deep_view() + idents_from(source@, end as int) =~= before + (
                    seq![name@] + idents_from(source@, end as int)));
                }
                from = end;
            },
        }
    }
    out
}

/// `names` with what is new in `more` added at the end, in order.
pub open spec fn add_new(names: Seq<Seq<char>>, more: Seq<Seq<char>>) -> Seq<Seq<char>>
    decreases more.len(),
{
    if more.len() == 0 {
        names
    } else if names.contains(more[0]) {
        add_new(names, more.skip(1))
    } else {
        add_new(names.push(more[0]), more.skip(1))
    }
}

/// Add `name` at the end of `names`, unless it is there already.
pub fn push_new(names: &mut Vec<String>, name: String)
    ensures
        final(names).deep_view() == (if old(names).deep_view().contains(name@) {
            old(names).deep_view()
        } else {
            old(names).deep_view().push(name@)
        }),
{
    let ghost before = names.deep_view();
    let mut i: usize = 0;
    while i < names.len()
        invariant
            before == names.deep_view(),
            names.deep_view() == old(names).deep_view(),
            i <= names.len(),
            forall|j: int| 0 <= j < i ==> (#[trigger] before[j]) != name@,
        decreases names.len() - i,
    {
        assert(before[i as int] == names@[i as int]@);
        if same_text(names[i].as_str(), name.as_str()) {
            assert(before.contains(name@));
            return ;
        }
        i += 1;
    }
    assert(!before.contains(name@));
    names.push(name);
    assert(names.deep_view() =~= before.push(name@));
}

/// The argument names that a list of expressions refers to: each once, in the
/// order in which they first come.
pub open spec fn names_referenced(sources: Seq<Seq<char>>) -> Seq<Seq<char>>
    decreases sources.len(),
{
    if sources.len() == 0 {
        Seq::empty()
    } else {
        add_new(names_referenced(sources.drop_last()), idents_from(sources.last(), 0))
    }
}

/// The expressions of a list of parameters.
pub open spec fn sources(params: Seq<CompiledParam>) -> Seq<Seq<char>> {
    Seq::new(params.len(), |i: int| params[i].source@)
}

/// The argument names that a binding's parameters refer to: each once, in the
/// order in which they first come.
pub fn arguments_referenced_by_params(params: &[CompiledParam]) -> (r: Vec<String>)
    ensures
        r.deep_view() == names_referenced(sources(params@)),
{
    let ghost all = sources(params@);
    let mut names: Vec<String> = Vec::new();
    let mut i: usize = 0;
    assert(names.deep_view() =~= Seq::<Seq<char>>::empty());
    while i < params.len()
        invariant
            all == sources(params@),
            i <= params.len(),
            names.deep_view() == names_referenced(all.take(i as int)),
        decreases params.len() - i,
    {
        let found = extract_argument_idents(params[i].source.as_str());
        let ghost wanted = add_new(names.deep_view(), found.deep_view());
        assert(all.take(i + 1).drop_last() =~= all.take(i as int));
        assert(wanted == names_referenced(all.take(i + 1)));
        let mut k: usize = 0;
        assert(found.deep_view().skip(0) =~= found.deep_view());
        while k < found.len()
            invariant
                k <= found.len(),
                add_new(names.deep_view(), found.deep_view().skip(k as int)) == wanted,
            decreases found.len() - k,
        {
            assert(found.deep_view().skip(k as int)[0] == found@[k as int]@);
            assert(found.deep_view().skip(k as int).skip(1) =~= found.deep_view().skip(k + 1));
            push_new(&mut names, found[k].clone());
            k += 1;
        }
        assert(found.deep_view().skip(k as int).len() == 0);
        i += 1;
    }
    assert(all.take(i as int) =~= all);
    names
}

// --------------------------------------------------------------- input schema

/// The entries of a `properties` object that gives each name the same schema.
pub open spec fn named_properties(names: Seq<Seq<char>>, schema: JsonView) -> Seq<
    (Seq<char>, JsonView),
>
    decreases names.len(),
{
    if names.len() == 0 {
        Seq::empty()
    } else {
        with_entry(named_properties(names.drop_last(), schema), names.last(), schema)
    }
}

/// An open object schema with the given properties.
pub open spec fn open_object_schema(properties: Seq<(Seq<char>, JsonView)>) -> JsonView {
    JsonView::Object(
        seq![
            ("type"@, JsonView::Text("object"@)),
            ("properties"@, JsonView::Object(properties)),
            ("additionalProperties"@, JsonView::Bool(true)),
        ],
    )
}

/// Build an open object schema.
pub fn open_object(properties: Vec<(String, Json)>) -> (r: Json)
    ensures
        r@ == open_object_schema(entry_views(properties@)),
{
    broadcast use Json::lemma_view;

    let entries = vec![
        entry("type", Json::Text("object".to_owned())),
        entry("properties", Json::Object(properties)),
        entry("additionalProperties", Json::Bool(true)),
    ];
    let r = Json::Object(entries);
    assert(entry_views(entries@) =~= open_object_schema(entry_views(properties@))->Object_0);
    r
}

/// JSON Schema of the tool arguments: an open object that names the known
/// arguments without typing them.
pub fn params_input_schema(names: &[String]) -> (r: Json)
    ensures
        r@ == open_object_schema(
            named_properties(names.deep_view(), JsonView::Object(Seq::empty())),
        ),
{
    broadcast use Json::lemma_view;

    let ghost all = names.deep_view();
    let ghost untyped = JsonView::Object(Seq::<(Seq<char>, JsonView)>::empty());
    let mut properties: Vec<(String, Json)> = Vec::new();
    let mut i: usize = 0;
    assert(entry_views(properties@) =~= Seq::<(Seq<char>, JsonView)>::empty());
    while i < names.len()
        invariant
            all == names.deep_view(),
            i <= names.len(),
            untyped == JsonView::Object(Seq::<(Seq<char>, JsonView)>::empty()),
            entry_views(properties@) == named_properties(all.take(i as int), untyped),
        decreases names.len() - i,
    {
        let value = Json::empty_object();
        assert(all.take(i + 1).drop_last() =~= all.take(i as int));
        set_entry(&mut properties, names[i].clone(), value);
        i += 1;
    }
    assert(all.take(i as int) =~= all);
    open_object(properties)
}

// ----------------------------------------------------------------------- laws

/// Every argument name found in an expression is a run of word characters, and
/// none is empty.
pub proof fn lemma_idents_are_words(s: Seq<char>, from: int)
    ensures
        forall|i: int|
            0 <= i < idents_from(s, from).len() ==> (#[trigger] idents_from(s, from)[i]).len() > 0
                && forall|k: int|
                0 <= k < idents_from(s, from)[i].len() ==> word_char(
                    #[trigger] idents_from(s, from)[i][k],
                ),
    decreases s.len() - from,
{
    reveal_strlit("arguments.");
    match first_at(s, marker(), from) {
        None => {},
        Some(p) => {
            let start = p + marker().len();
            let end = word_end(s, start);
            lemma_found_at(s, marker(), from);
            lemma_word_end(s, start);
            lemma_idents_are_words(s, end);
            let rest = idents_from(s, end);
            let all = idents_from(s, from);
            assert forall|i: int| 0 <= i < all.len() implies (#[trigger] all[i]).len() > 0
                && forall|k: int| 0 <= k < all[i].len() ==> word_char(#[trigger] all[i][k]) by {
                if end > start {
                    if i == 0 {
                        assert(all[0] == s.subrange(start, end));
                        assert forall|k: int| 0 <= k < all[0].len() implies word_char(
                            #[trigger] all[0][k],
                        ) by {
                            assert(all[0][k] == s[start + k]);
                        }
                    } else {
                        assert(all[i] == rest[i - 1]);
                    }
                }
            }
        },
    }
}

proof fn lemma_add_new(names: Seq<Seq<char>>, more: Seq<Seq<char>>)
    requires
        names.no_duplicates(),
    ensures
        add_new(names, more).no_duplicates(),
        forall|n: Seq<char>| #[trigger]
            add_new(names, more).contains(n) <==> names.contains(n) || more.contains(n),
    decreases more.len(),
{
    if more.len() > 0 {
        let rest = more.skip(1);
        assert forall|n: Seq<char>| more.contains(n) <==> n == more[0] || #[trigger] rest.contains(
            n,
        ) by {
            if more.contains(n) && n != more[0] {
                let k = choose|k: int| 0 <= k < more.len() && more[k] == n;
                assert(rest[k - 1] == n);
            }
            if rest.contains(n) {
                let k = choose|k: int| 0 <= k < rest.len() && rest[k] == n;
                assert(more[k + 1] == n);
            }
        }
        let next = if names.contains(more[0]) {
            names
        } else {
            names.push(more[0])
        };
        assert forall|n: Seq<char>| #[trigger] next.contains(n) <==> names.contains(n) || n
            == more[0] by {
            if names.contains(n) {
                let k = choose|k: int| 0 <= k < names.len() && names[k] == n;
                assert(next[k] == n);
            }
            if n == more[0] && !names.contains(n) {
                assert(next[names.len() as int] == n);
            }
        }
        lemma_add_new(next, rest);
        assert forall|n: Seq<char>| #[trigger]
            add_new(names, more).contains(n) <==> names.contains(n) || more.contains(n) by {
            assert(add_new(next, rest).contains(n) <==> next.contains(n) || rest.contains(n));
        }
    }
}

/// The argument names of a list of parameters are distinct, and they are
/// exactly the names that stand in one of the expressions.
pub proof fn lemma_names_referenced(sources: Seq<Seq<char>>)
    ensures
        names_referenced(sources).no_duplicates(),
        forall|n: Seq<char>| #[trigger]
            names_referenced(sources).contains(n) <==> exists|i: int|
                0 <= i < sources.len() && idents_from(#[trigger] sources[i], 0).contains(n),
    decreases sources.len(),
{
    if sources.len() > 0 {
        let init = sources.drop_last();
        lemma_names_referenced(init);
        lemma_add_new(names_referenced(init), idents_from(sources.last(), 0));
        assert forall|n: Seq<char>| #[trigger]
            names_referenced(sources).contains(n) <==> exists|i: int|
                0 <= i < sources.len() && idents_from(#[trigger] sources[i], 0).contains(n) by {
            if names_referenced(init).contains(n) {
                let i = choose|i: int|
                    0 <= i < init.len() && idents_from(#[trigger] init[i], 0).contains(n);
                assert(sources[i] == init[i]);
            }
            if exists|i: int|
                0 <= i < sources.len() && idents_from(#[trigger] sources[i], 0).contains(n) {
                let i = choose|i: int|
                    0 <= i < sources.len() && idents_from(#[trigger] sources[i], 0).contains(n);
                if i < init.len() {
                    assert(idents_from(init[i], 0).contains(n));
                }
            }
        }
    }
}

/// The input schema has exactly the known argument names as properties, each
/// with the same schema.
pub proof fn lemma_named_properties(names: Seq<Seq<char>>, schema: JsonView)
    ensures
        distinct_keys(named_properties(names, schema)),
        forall|n: Seq<char>| #[trigger]
            entry_value(named_properties(names, schema), n) == (if names.contains(n) {
                Some(schema)
            } else {
                None
            }),
    decreases names.len(),
{
    if names.len() > 0 {
        let init = names.drop_last();
        let before = named_properties(init, schema);
        lemma_named_properties(init, schema);
        lemma_with_entry(before, names.last(), schema);
        assert forall|n: Seq<char>| #[trigger]
            entry_value(named_properties(names, schema), n) == (if names.contains(n) {
                Some(schema)
            } else {
                None
            }) by {
            if n == names.last() {
                assert(names[names.len() - 1] == n);
            } else {
                lemma_other_entry(before, names.last(), schema, n);
                assert(entry_value(before, n) == if init.contains(n) {
                    Some(schema)
                } else {
                    None
                });
                if names.contains(n) {
                    let k = choose|k: int| 0 <= k < names.len() && names[k] == n;
                    assert(init[k] == n);
                }
                if init.contains(n) {
                    let k = choose|k: int| 0 <= k < init.len() && init[k] == n;
                    assert(names[k] == n);
                }
            }
        }
    }
}

} // verus!
