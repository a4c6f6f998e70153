//! The result envelope of a tool call. A `downstreamError` that is not null
//! tells the gateway that the call failed.

use vstd::prelude::*;
use vstd::string::*;

use crate::codec::{
    lemma_array_writable, lemma_object_writable, lemma_writable_deeper, writable,
};
use crate::json::{
    copied, distinct_keys, entry, entry_views, lemma_entry_value, set_entry, views, Json, JsonView,
};
use crate::params::named_properties;
use crate::text::{
    begins_with, chars_contain, chars_occur_at, chars_of, contains_text, is_digit, lower,
    lower_chars, occurs_at,
};
use crate::types::{is_word_char, word_char};

verus! {

// --------------------------------------------------------------------- errors

/// The error object of a failed call.
pub open spec fn downstream_error(kind: Seq<char>, message: Seq<char>, retryable: bool) -> JsonView {
    JsonView::Object(
        seq![
            ("kind"@, JsonView::Text(kind)),
            ("code"@, JsonView::Text("mcpg.downstream_oracle."@ + kind)),
            ("message"@, JsonView::Text(message)),
            ("retryable"@, JsonView::Bool(retryable)),
            (
                "retryClass"@,
                JsonView::Text(
                    if retryable {
                        "with_backoff"@
                    } else {
                        "do_not_retry"@
                    },
                ),
            ),
            (
                "suggestedAction"@,
                JsonView::Text(
                    if retryable {
                        "check_database_connectivity_and_retry"@
                    } else {
                        "inspect_sql_error"@
                    },
                ),
            ),
        ],
    )
}

/// Build the error object of a failed call.
pub fn oracle_downstream_error(kind: &str, message: &str, retryable: bool) -> (r: Json)
    ensures
        r@ == downstream_error(kind@, message@, retryable),
{
    broadcast use Json::lemma_view;

    let mut code = "mcpg.downstream_oracle.".to_owned();
    code.append(kind);
    let retry_class = if retryable {
        "with_backoff"
    } else {
        "do_not_retry"
    };
    let action = if retryable {
        "check_database_connectivity_and_retry"
    } else {
        "inspect_sql_error"
    };
    let entries = vec![
        entry("kind", Json::text(kind)),
        entry("code", Json::Text(code)),
        entry("message", Json::text(message)),
        entry("retryable", Json::Bool(retryable)),
        entry("retryClass", Json::text(retry_class)),
        entry("suggestedAction", Json::text(action)),
    ];
    assert(entry_views(entries@) =~= downstream_error(kind@, message@, retryable)->Object_0);
    Json::Object(entries)
}

/// How the library's own messages begin that tell of a connection that could
/// not be had or made ready, or of a call that ran out of time, in lower case.
pub const CONNECTION_PREFIXES: [&'static str; 6] = [
    "oracle connect/login failed",
    "oracle connect worker task failed",
    "oracle pool acquire failed",
    "oracle pool acquire timed out",
    "oracle call timed out",
    "oracle set_call_timeout failed",
];

/// How the library's own messages begin that tell of parameters, in lower case.
/// Such a call never gets as far as a connection.
pub const PARAMETER_PREFIXES: [&'static str; 2] = ["evaluating params: ", "binding params: "];

/// The error codes of a lost connection or of a call that ran out of time, in
/// lower case: Oracle's own, then those by which the driver reports that it is
/// not connected, that a call timed out, and that the connection was closed.
pub const LOST_CONNECTION_CODES: [&'static str; 16] = [
    "ora-03050",
    "ora-03051",
    "ora-03052",
    "ora-03053",
    "ora-03054",
    "ora-03055",
    "ora-03056",
    "ora-03057",
    "ora-03058",
    "ora-03059",
    "ora-03113",
    "ora-03114",
    "ora-03135",
    "dpi-1010",
    "dpi-1067",
    "dpi-1080",
];

/// The error codes of the network and of waits that ran out of time, in lower
/// case: a connection that could not be made or was closed, at this session or
/// behind a database link, and a timeout, of a lock too.
pub const NETWORK_CODES: [&'static str; 44] = [
    "ora-00051",
    "ora-00054",
    "ora-01073",
    "ora-01090",
    "ora-01092",
    "ora-02049",
    "ora-02396",
    "ora-02399",
    "ora-03136",
    "ora-03156",
    "ora-04021",
    "ora-12153",
    "ora-12154",
    "ora-12170",
    "ora-12203",
    "ora-12502",
    "ora-12504",
    "ora-12505",
    "ora-12514",
    "ora-12518",
    "ora-12521",
    "ora-12523",
    "ora-12527",
    "ora-12528",
    "ora-12529",
    "ora-12535",
    "ora-12537",
    "ora-12545",
    "ora-12564",
    "ora-12606",
    "ora-12608",
    "ora-12609",
    "ora-24401",
    "ora-24457",
    "ora-24459",
    "ora-24496",
    "ora-25228",
    "ora-25403",
    "ora-28511",
    "ora-28545",
    "ora-28546",
    "ora-28547",
    "ora-29276",
    "ora-30006",
];

/// What tells of a connection in a message that names no error code, in lower
/// case. What the database rejects it names a code for, so the names in a
/// statement do not stand in such a message.
pub const CONNECTION_WORDS: [&'static str; 8] = [
    "connect",
    "login failed",
    "pool",
    "timed out",
    "timeout",
    "broken pipe",
    "connection reset",
    "eof",
];

/// The text begins with one of the prefixes.
pub open spec fn begins_with_any(s: Seq<char>, prefixes: Seq<&str>) -> bool {
    exists|k: int| 0 <= k < prefixes.len() && begins_with(s, #[trigger] prefixes[k]@)
}

/// One of the words stands in the text.
pub open spec fn contains_any(s: Seq<char>, words: Seq<&str>) -> bool {
    exists|k: int| 0 <= k < words.len() && contains_text(s, #[trigger] words[k]@)
}

/// An error code of Oracle or of its driver stands at position `i`: its letters,
/// a dash and a digit, and no part of a longer word before it.
pub open spec fn code_at(s: Seq<char>, i: int) -> bool {
    &&& occurs_at(s, "ora-"@, i) || occurs_at(s, "dpi-"@, i)
    &&& i + 4 < s.len() && is_digit(s[i + 4])
    &&& i > 0 ==> !word_char(s[i - 1])
}

/// The text names an error code.
pub open spec fn names_code(s: Seq<char>) -> bool {
    exists|i: int| code_at(s, i)
}

/// The code stands at position `i`, and goes on with no further digit.
pub open spec fn whole_code_at(s: Seq<char>, code: Seq<char>, i: int) -> bool {
    occurs_at(s, code, i) && !(i + code.len() < s.len() && is_digit(s[i + code.len()]))
}

/// One of the codes stands at position `i`.
pub open spec fn listed_at(s: Seq<char>, codes: Seq<&str>, i: int) -> bool {
    exists|k: int| 0 <= k < codes.len() && whole_code_at(s, #[trigger] codes[k]@, i)
}

/// The code at position `i` is that of a lost connection, of the network or of
/// a timeout.
pub open spec fn lost_code_at(s: Seq<char>, i: int) -> bool {
    &&& code_at(s, i)
    &&& listed_at(s, LOST_CONNECTION_CODES@, i) || listed_at(s, NETWORK_CODES@, i)
}

/// The text names the code of a lost connection, of the network or of a timeout.
pub open spec fn names_lost_connection(s: Seq<char>) -> bool {
    exists|i: int| lost_code_at(s, i)
}

/// The message tells of a connection failure, in whatever case: it is one of
/// the library's own messages of that kind, or it names the code of a lost
/// connection, of the network or of a timeout, or it names no code and speaks of
/// a connection. A message that names other codes only is a rejection, whatever
/// words stand in it; and parameters that fail are no connection's fault.
pub open spec fn connection_failure(message: Seq<char>) -> bool {
    let text = lower(message);
    &&& !begins_with_any(text, PARAMETER_PREFIXES@)
    &&& {
        ||| begins_with_any(text, CONNECTION_PREFIXES@)
        ||| names_lost_connection(text)
        ||| !names_code(text) && contains_any(text, CONNECTION_WORDS@)
    }
}

/// The kind of failure that a message tells of.
pub open spec fn failure_kind(message: Seq<char>) -> Seq<char> {
    if connection_failure(message) {
        "transport_error"@
    } else {
        "oracle_error"@
    }
}

/// The error object that an error message is classified to.
pub open spec fn classified(message: Seq<char>) -> JsonView {
    downstream_error(failure_kind(message), message, connection_failure(message))
}

fn check_begins(text: &Vec<char>, prefixes: &[&str]) -> (r: bool)
    ensures
        r == begins_with_any(text@, prefixes@),
{
    let mut k: usize = 0;
    while k < prefixes.len()
        invariant
            k <= prefixes@.len(),
            forall|j: int| 0 <= j < k ==> !begins_with(text@, #[trigger] prefixes@[j]@),
        decreases prefixes.len() - k,
    {
        if chars_occur_at(text, &chars_of(prefixes[k]), 0) {
            assert(begins_with(text@, prefixes@[k as int]@));
            return true;
        }
        k += 1;
    }
    false
}

fn check_contains(text: &Vec<char>, words: &[&str]) -> (r: bool)
    ensures
        r == contains_any(text@, words@),
{
    let mut k: usize = 0;
    while k < words.len()
        invariant
            k <= words@.len(),
            forall|j: int| 0 <= j < k ==> !contains_text(text@, #[trigger] words@[j]@),
        decreases words.len() - k,
    {
        if chars_contain(text, words[k]) {
            assert(contains_text(text@, words@[k as int]@));
            return true;
        }
        k += 1;
    }
    false
}

fn check_code(text: &Vec<char>, i: usize) -> (r: bool)
    requires
        i < text@.len(),
    ensures
        r == code_at(text@, i as int),
{
    proof {
        reveal_strlit("ora-");
        reveal_strlit("dpi-");
    }
    let letters = chars_occur_at(text, &chars_of("ora-"), i) || chars_occur_at(
        text,
        &chars_of("dpi-"),
        i,
    );
    letters && text.len() - i > 4 && '0' <= text[i + 4] && text[i + 4] <= '9' && !(i > 0
        && is_word_char(text[i - 1]))
}

fn check_listed(text: &Vec<char>, codes: &[&str], i: usize) -> (r: bool)
    requires
        i < text@.len(),
    ensures
        r == listed_at(text@, codes@, i as int),
{
    let n: usize = text.len();
    let mut k: usize = 0;
    while k < codes.len()
        invariant
            i < n,
            n == text@.len(),
            k <= codes@.len(),
            forall|j: int| 0 <= j < k ==> !whole_code_at(text@, #[trigger] codes@[j]@, i as int),
        decreases codes@.len() - k,
    {
        let code = chars_of(codes[k]);
        if chars_occur_at(text, &code, i) {
            let end: usize = i + code.len();
            if !(end < n && '0' <= text[end] && text[end] <= '9') {
                assert(whole_code_at(text@, codes@[k as int]@, i as int));
                return true;
            }
        }
        k += 1;
    }
    false
}

/// What the error codes of a message say.
enum Codes {
    /// One is that of a lost connection, of the network or of a timeout.
    Lost,
    /// There are others only.
    Others,
    Nothing,
}

fn read_codes(text: &Vec<char>) -> (r: Codes)
    ensures
        match r {
            Codes::Lost => names_lost_connection(text@),
            Codes::Others => names_code(text@) && !names_lost_connection(text@),
            Codes::Nothing => !names_code(text@),
        },
{
    let lost = LOST_CONNECTION_CODES;
    let network = NETWORK_CODES;
    let mut found = false;
    let mut i: usize = 0;
    while i < text.len()
        invariant
            lost@ == LOST_CONNECTION_CODES@,
            network@ == NETWORK_CODES@,
            i <= text.len(),
            found ==> names_code(text@),
            !found ==> forall|j: int| j < i ==> !code_at(text@, j),
            forall|j: int| j < i ==> !lost_code_at(text@, j),
        decreases text.len() - i,
    {
        if check_code(text, i) {
            if check_listed(text, lost.as_slice(), i) || check_listed(text, network.as_slice(), i) {
                assert(lost_code_at(text@, i as int));
                return Codes::Lost;
            }
            assert(code_at(text@, i as int));
            found = true;
        }
        i += 1;
    }
    if found {
        Codes::Others
    } else {
        Codes::Nothing
    }
}

/// Whether an error message tells of a connection failure.
pub fn is_connection_failure(message: &str) -> (r: bool)
    ensures
        r == connection_failure(message@),
{
    let text = lower_chars(message);
    let parameters = PARAMETER_PREFIXES;
    let own = CONNECTION_PREFIXES;
    let words = CONNECTION_WORDS;
    if check_begins(&text, parameters.as_slice()) {
        return false;
    }
    if check_begins(&text, own.as_slice()) {
        return true;
    }
    match read_codes(&text) {
        Codes::Lost => true,
        Codes::Others => false,
        Codes::Nothing => check_contains(&text, words.as_slice()),
    }
}

/// Classify an error message. A connection failure may be retried; a rejection
/// by the database may not.
pub fn classify_error(message: &str) -> (r: Json)
    ensures
        r@ == classified(message@),
{
    if is_connection_failure(message) {
        oracle_downstream_error("transport_error", message, true)
    } else {
        oracle_downstream_error("oracle_error", message, false)
    }
}

// -------------------------------------------------------------------- schemas

/// The schema of one JSON type.
pub open spec fn of_type(name: Seq<char>) -> JsonView {
    JsonView::Object(seq![("type"@, JsonView::Text(name))])
}

/// A list of type names.
pub open spec fn type_names(names: Seq<Seq<char>>) -> JsonView {
    JsonView::Array(Seq::new(names.len(), |i: int| JsonView::Text(names[i])))
}

/// The schema of one JSON type or null.
pub open spec fn of_type_or_null(name: Seq<char>) -> JsonView {
    JsonView::Object(seq![("type"@, type_names(seq![name, "null"@]))])
}

/// The schema without demands.
pub open spec fn any_value() -> JsonView {
    JsonView::Object(seq![])
}

/// The schema of the `request` part.
pub open spec fn request_schema() -> JsonView {
    JsonView::Object(
        seq![
            ("type"@, JsonView::Text("object"@)),
            (
                "properties"@,
                JsonView::Object(
                    seq![("dsn"@, of_type("string"@)), ("op"@, of_type("string"@))],
                ),
            ),
            ("additionalProperties"@, JsonView::Bool(true)),
        ],
    )
}

/// The schema of `response.rows`, given that of a row.
pub open spec fn rows_schema(items: JsonView) -> JsonView {
    JsonView::Object(
        seq![("type"@, type_names(seq!["array"@, "null"@])), ("items"@, items)],
    )
}

/// The schema of the `response` part, given that of a row.
pub open spec fn response_schema(items: JsonView) -> JsonView {
    JsonView::Object(
        seq![
            ("type"@, type_names(seq!["object"@, "null"@])),
            (
                "properties"@,
                JsonView::Object(
                    seq![
                        ("rows"@, rows_schema(items)),
                        ("count"@, of_type_or_null("integer"@)),
                        ("rowsAffected"@, of_type_or_null("integer"@)),
                        ("durationMs"@, of_type("integer"@)),
                    ],
                ),
            ),
            ("additionalProperties"@, JsonView::Bool(true)),
        ],
    )
}

/// The schema of `downstreamErrors`.
pub open spec fn error_list_schema() -> JsonView {
    JsonView::Object(seq![("type"@, JsonView::Text("array"@)), ("items"@, any_value())])
}

/// The properties of the envelope schema, given the schema of a row.
pub open spec fn envelope_properties(items: JsonView) -> Seq<(Seq<char>, JsonView)> {
    seq![
        ("toolName"@, of_type("string"@)),
        ("profile"@, of_type("string"@)),
        ("request"@, request_schema()),
        ("response"@, response_schema(items)),
        ("downstreamError"@, of_type_or_null("object"@)),
        ("downstreamErrors"@, error_list_schema()),
        ("error"@, of_type_or_null("string"@)),
    ]
}

/// The envelope schema (draft 2020-12), given the schema of a row.
pub open spec fn envelope_schema(items: JsonView) -> JsonView {
    JsonView::Object(
        seq![
            ("$schema"@, JsonView::Text("https://json-schema.org/draft/2020-12/schema"@)),
            ("type"@, JsonView::Text("object"@)),
            ("properties"@, JsonView::Object(envelope_properties(items))),
            ("additionalProperties"@, JsonView::Bool(true)),
        ],
    )
}

fn type_schema(name: &str) -> (r: Json)
    ensures
        r@ == of_type(name@),
{
    broadcast use Json::lemma_view;

    let entries = vec![entry("type", Json::text(name))];
    assert(entry_views(entries@) =~= of_type(name@)->Object_0);
    Json::Object(entries)
}

fn two_types(first: &str, second: &str) -> (r: Json)
    ensures
        r@ == type_names(seq![first@, second@]),
{
    broadcast use Json::lemma_view;

    let items = vec![Json::text(first), Json::text(second)];
    assert(views(items@) =~= type_names(seq![first@, second@])->Array_0);
    Json::Array(items)
}

fn nullable_schema(name: &str) -> (r: Json)
    ensures
        r@ == of_type_or_null(name@),
{
    broadcast use Json::lemma_view;

    let entries = vec![entry("type", two_types(name, "null"))];
    assert(entry_views(entries@) =~= of_type_or_null(name@)->Object_0);
    Json::Object(entries)
}

fn build_request_schema() -> (r: Json)
    ensures
        r@ == request_schema(),
{
    broadcast use Json::lemma_view;

    let ghost spec = request_schema()->Object_0;
    let properties = vec![entry("dsn", type_schema("string")), entry("op", type_schema("string"))];
    assert(entry_views(properties@) =~= spec[1].1->Object_0);
    let entries = vec![
        entry("type", Json::text("object")),
        entry("properties", Json::Object(properties)),
        entry("additionalProperties", Json::Bool(true)),
    ];
    assert(entry_views(entries@) =~= spec);
    Json::Object(entries)
}

fn build_rows_schema(items: Json) -> (r: Json)
    ensures
        r@ == rows_schema(items@),
{
    broadcast use Json::lemma_view;

    let ghost row = items@;
    let entries = vec![entry("type", two_types("array", "null")), entry("items", items)];
    assert(entry_views(entries@) =~= rows_schema(row)->Object_0);
    Json::Object(entries)
}

fn build_response_schema(items: Json) -> (r: Json)
    ensures
        r@ == response_schema(items@),
{
    broadcast use Json::lemma_view;

    let ghost spec = response_schema(items@)->Object_0;
    let properties = vec![
        entry("rows", build_rows_schema(items)),
        entry("count", nullable_schema("integer")),
        entry("rowsAffected", nullable_schema("integer")),
        entry("durationMs", type_schema("integer")),
    ];
    assert(entry_views(properties@) =~= spec[1].1->Object_0);
    let entries = vec![
        entry("type", two_types("object", "null")),
        entry("properties", Json::Object(properties)),
        entry("additionalProperties", Json::Bool(true)),
    ];
    assert(entry_views(entries@) =~= spec);
    Json::Object(entries)
}

fn build_error_list_schema() -> (r: Json)
    ensures
        r@ == error_list_schema(),
{
    broadcast use Json::lemma_view;

    let entries = vec![entry("type", Json::text("array")), entry("items", Json::empty_object())];
    assert(entry_views(entries@) =~= error_list_schema()->Object_0);
    Json::Object(entries)
}

fn build_envelope_schema(items: Json) -> (r: Json)
    ensures
        r@ == envelope_schema(items@),
{
    broadcast use Json::lemma_view;

    let ghost spec = envelope_schema(items@)->Object_0;
    let ghost wanted = envelope_properties(items@);
    let properties = vec![
        entry("toolName", type_schema("string")),
        entry("profile", type_schema("string")),
        entry("request", build_request_schema()),
        entry("response", build_response_schema(items)),
        entry("downstreamError", nullable_schema("object")),
        entry("downstreamErrors", build_error_list_schema()),
        entry("error", nullable_schema("string")),
    ];
    assert(entry_views(properties@) =~= wanted);
    let entries = vec![
        entry("$schema", Json::text("https://json-schema.org/draft/2020-12/schema")),
        entry("type", Json::text("object")),
        entry("properties", Json::Object(properties)),
        entry("additionalProperties", Json::Bool(true)),
    ];
    assert(entry_views(entries@) =~= spec);
    Json::Object(entries)
}

/// The schema of the envelope that [`build_result_envelope`] makes. Rows are
/// left untyped, so that any row fits.
pub fn result_envelope_schema() -> (r: Json)
    ensures
        r@ == envelope_schema(any_value()),
{
    build_envelope_schema(Json::empty_object())
}

/// The schema of a dictionary cell: a text, a number or null.
pub open spec fn cell_schema() -> JsonView {
    JsonView::Object(seq![("type"@, type_names(seq!["string"@, "number"@, "null"@]))])
}

/// The schema of a row that has the given columns, and may have others.
pub open spec fn row_schema(columns: Seq<Seq<char>>) -> JsonView {
    JsonView::Object(
        seq![
            ("type"@, JsonView::Text("object"@)),
            ("properties"@, JsonView::Object(named_properties(columns, cell_schema()))),
            ("additionalProperties"@, JsonView::Bool(true)),
        ],
    )
}

fn build_cell_schema() -> (r: Json)
    ensures
        r@ == cell_schema(),
{
    broadcast use Json::lemma_view;

    let ghost spec = cell_schema()->Object_0;
    let names = vec![Json::text("string"), Json::text("number"), Json::text("null")];
    assert(views(names@) =~= spec[0].1->Array_0);
    let entries = vec![entry("type", Json::Array(names))];
    assert(entry_views(entries@) =~= spec);
    Json::Object(entries)
}

/// The texts of a list of names.
pub open spec fn name_views(names: Seq<&str>) -> Seq<Seq<char>> {
    Seq::new(names.len(), |i: int| names[i]@)
}

/// The schema of the envelope of a catalog operation: `response.rows` is typed
/// by the known columns, and stays open to others.
pub fn catalog_envelope_schema(columns: &[&str]) -> (r: Json)
    ensures
        r@ == envelope_schema(row_schema(name_views(columns@))),
{
    broadcast use Json::lemma_view;

    let ghost names = name_views(columns@);
    let ghost spec = row_schema(names)->Object_0;
    let mut props: Vec<(String, Json)> = Vec::new();
    assert(entry_views(props@) =~= Seq::<(Seq<char>, JsonView)>::empty());
    let mut i: usize = 0;
    while i < columns.len()
        invariant
            names == name_views(columns@),
            i <= columns@.len(),
            entry_views(props@) == named_properties(names.take(i as int), cell_schema()),
        decreases columns.len() - i,
    {
        assert(names.take(i + 1).drop_last() =~= names.take(i as int));
        assert(names.take(i + 1).last() == columns@[i as int]@);
        set_entry(&mut props, columns[i].to_owned(), build_cell_schema());
        i += 1;
    }
    assert(names.take(i as int) =~= names);
    let entries = vec![
        entry("type", Json::text("object")),
        entry("properties", Json::Object(props)),
        entry("additionalProperties", Json::Bool(true)),
    ];
    assert(entry_views(entries@) =~= spec);
    build_envelope_schema(Json::Object(entries))
}

// ------------------------------------------------------------------- envelope

/// A number, or null where there is none.
pub open spec fn count_or_null(n: Option<nat>) -> JsonView {
    match n {
        Some(n) => JsonView::Integer(n as int),
        None => JsonView::Null,
    }
}

/// The `response` of a call that succeeded.
pub open spec fn success_response(
    rows: Option<Seq<JsonView>>,
    rows_affected: Option<nat>,
    duration_ms: nat,
) -> JsonView {
    JsonView::Object(
        seq![
            (
                "rows"@,
                match rows {
                    Some(r) => JsonView::Array(r),
                    None => JsonView::Null,
                },
            ),
            (
                "count"@,
                count_or_null(
                    match rows {
                        Some(r) => Some(r.len()),
                        None => None,
                    },
                ),
            ),
            ("rowsAffected"@, count_or_null(rows_affected)),
            ("durationMs"@, JsonView::Integer(duration_ms as int)),
        ],
    )
}

/// The `request` part of an envelope.
pub open spec fn request_part(dsn: Seq<char>, op: Seq<char>) -> JsonView {
    JsonView::Object(seq![("dsn"@, JsonView::Text(dsn)), ("op"@, JsonView::Text(op))])
}

/// A value, or null where there is none.
pub open spec fn value_or_null(v: Option<JsonView>) -> JsonView {
    match v {
        Some(v) => v,
        None => JsonView::Null,
    }
}

/// A text, or null where there is none.
pub open spec fn text_or_null(t: Option<Seq<char>>) -> JsonView {
    match t {
        Some(t) => JsonView::Text(t),
        None => JsonView::Null,
    }
}

/// The entries of a result envelope. A call with a downstream error has no
/// response.
pub open spec fn envelope_entries(
    tool_name: Seq<char>,
    profile_name: Seq<char>,
    dsn: Seq<char>,
    op: Seq<char>,
    rows: Option<Seq<JsonView>>,
    rows_affected: Option<nat>,
    duration_ms: nat,
    downstream: Option<JsonView>,
    error: Option<Seq<char>>,
) -> Seq<(Seq<char>, JsonView)> {
    seq![
        ("toolName"@, JsonView::Text(tool_name)),
        ("profile"@, JsonView::Text(profile_name)),
        ("request"@, request_part(dsn, op)),
        (
            "response"@,
            if downstream is Some {
                JsonView::Null
            } else {
                success_response(rows, rows_affected, duration_ms)
            },
        ),
        ("downstreamError"@, value_or_null(downstream)),
        (
            "downstreamErrors"@,
            JsonView::Array(
                match downstream {
                    Some(d) => seq![d],
                    None => seq![],
                },
            ),
        ),
        ("error"@, text_or_null(error)),
    ]
}

/// The result envelope of a call.
pub open spec fn result_envelope(
    tool_name: Seq<char>,
    profile_name: Seq<char>,
    dsn: Seq<char>,
    op: Seq<char>,
    rows: Option<Seq<JsonView>>,
    rows_affected: Option<nat>,
    duration_ms: nat,
    downstream: Option<JsonView>,
    error: Option<Seq<char>>,
) -> JsonView {
    JsonView::Object(
        envelope_entries(
            tool_name,
            profile_name,
            dsn,
            op,
            rows,
            rows_affected,
            duration_ms,
            downstream,
            error,
        ),
    )
}

/// The values of optional rows.
pub open spec fn rows_view(rows: Option<&[Json]>) -> Option<Seq<JsonView>> {
    match rows {
        Some(r) => Some(views(r@)),
        None => None,
    }
}

/// The value of an optional JSON value.
pub open spec fn json_view(v: Option<&Json>) -> Option<JsonView> {
    match v {
        Some(v) => Some(v@),
        None => None,
    }
}

/// The number in an optional count.
pub open spec fn count_view(n: Option<u64>) -> Option<nat> {
    match n {
        Some(n) => Some(n as nat),
        None => None,
    }
}

fn build_success_response(
    rows: Option<&[Json]>,
    rows_affected: Option<u64>,
    duration_ms: u64,
) -> (r: Json)
    ensures
        r@ == success_response(rows_view(rows), count_view(rows_affected), duration_ms as nat),
{
    broadcast use Json::lemma_view;

    let (rows_json, count) = match rows {
        Some(r) => (Json::Array(copied(r)), Json::Integer(r.len() as i128)),
        None => (Json::Null, Json::Null),
    };
    let affected = match rows_affected {
        Some(n) => Json::Integer(n as i128),
        None => Json::Null,
    };
    let entries = vec![
        entry("rows", rows_json),
        entry("count", count),
        entry("rowsAffected", affected),
        entry("durationMs", Json::Integer(duration_ms as i128)),
    ];
    assert(entry_views(entries@) =~= success_response(
        rows_view(rows),
        count_view(rows_affected),
        duration_ms as nat,
    )->Object_0);
    Json::Object(entries)
}

fn build_request_part(dsn: &str, op: &str) -> (r: Json)
    ensures
        r@ == request_part(dsn@, op@),
{
    broadcast use Json::lemma_view;

    let entries = vec![entry("dsn", Json::text(dsn)), entry("op", Json::text(op))];
    assert(entry_views(entries@) =~= request_part(dsn@, op@)->Object_0);
    Json::Object(entries)
}

/// Build the result envelope of a call. A duration that 64 bits cannot hold
/// has no JSON form.
pub fn build_result_envelope(
    tool_name: &str,
    profile_name: &str,
    dsn: &str,
    op: &str,
    rows: Option<&[Json]>,
    rows_affected: Option<u64>,
    duration_ms: u128,
    downstream_error: Option<&Json>,
    error: Option<&str>,
) -> (r: Json)
    requires
        duration_ms <= u64::MAX,
    ensures
        r@ == result_envelope(
            tool_name@,
            profile_name@,
            dsn@,
            op@,
            rows_view(rows),
            count_view(rows_affected),
            duration_ms as nat,
            json_view(downstream_error),
            error.deep_view(),
        ),
{
    broadcast use Json::lemma_view;

    let (response, slot, list) = match downstream_error {
        Some(d) => (Json::Null, d.clone(), vec![d.clone()]),
        None => (
            build_success_response(rows, rows_affected, duration_ms as u64),
            Json::Null,
            Vec::new(),
        ),
    };
    let error_json = match error {
        Some(e) => Json::text(e),
        None => Json::Null,
    };
    let ghost spec = envelope_entries(
        tool_name@,
        profile_name@,
        dsn@,
        op@,
        rows_view(rows),
        count_view(rows_affected),
        duration_ms as nat,
        json_view(downstream_error),
        error.deep_view(),
    );
    assert(views(list@) =~= spec[5].1->Array_0);
    let entries = vec![
        entry("toolName", Json::text(tool_name)),
        entry("profile", Json::text(profile_name)),
        entry("request", build_request_part(dsn, op)),
        entry("response", response),
        entry("downstreamError", slot),
        entry("downstreamErrors", Json::Array(list)),
        entry("error", error_json),
    ];
    assert(entry_views(entries@) =~= spec);
    Json::Object(entries)
}

// ----------------------------------------------------------------------- laws

/// The keys of a list of entries.
pub open spec fn keys(entries: Seq<(Seq<char>, JsonView)>) -> Seq<Seq<char>> {
    Seq::new(entries.len(), |i: int| entries[i].0)
}

/// What the builder emits is what the schema declares: the envelope, its
/// request and its response have exactly the keys that the schema lists, in the
/// same order.
pub proof fn lemma_envelope_has_schema_keys(
    tool_name: Seq<char>,
    profile_name: Seq<char>,
    dsn: Seq<char>,
    op: Seq<char>,
    rows: Option<Seq<JsonView>>,
    rows_affected: Option<nat>,
    duration_ms: nat,
    downstream: Option<JsonView>,
    error: Option<Seq<char>>,
    items: JsonView,
)
    ensures
        keys(
            envelope_entries(
                tool_name,
                profile_name,
                dsn,
                op,
                rows,
                rows_affected,
                duration_ms,
                downstream,
                error,
            ),
        ) == keys(envelope_properties(items)),
        keys(request_part(dsn, op)->Object_0) == keys(request_schema()->Object_0[1].1->Object_0),
        keys(success_response(rows, rows_affected, duration_ms)->Object_0) == keys(
            response_schema(items)->Object_0[1].1->Object_0,
        ),
{
    let e = envelope_entries(
        tool_name,
        profile_name,
        dsn,
        op,
        rows,
        rows_affected,
        duration_ms,
        downstream,
        error,
    );
    assert(keys(e) =~= keys(envelope_properties(items)));
    assert(keys(request_part(dsn, op)->Object_0) =~= keys(
        request_schema()->Object_0[1].1->Object_0,
    ));
    assert(keys(success_response(rows, rows_affected, duration_ms)->Object_0) =~= keys(
        response_schema(items)->Object_0[1].1->Object_0,
    ));
}

/// A call has a downstream error exactly where it has no response; the error
/// stands in `downstreamError`, and alone in `downstreamErrors`.
pub proof fn lemma_error_excludes_response(
    tool_name: Seq<char>,
    profile_name: Seq<char>,
    dsn: Seq<char>,
    op: Seq<char>,
    rows: Option<Seq<JsonView>>,
    rows_affected: Option<nat>,
    duration_ms: nat,
    downstream: Option<JsonView>,
    error: Option<Seq<char>>,
)
    ensures
        ({
            let envelope = result_envelope(
                tool_name,
                profile_name,
                dsn,
                op,
                rows,
                rows_affected,
                duration_ms,
                downstream,
                error,
            );
            &&& envelope.field("response"@) == Some(JsonView::Null) <==> downstream is Some
            &&& envelope.field("downstreamError"@) == Some(value_or_null(downstream))
            &&& envelope.field("downstreamErrors"@) == Some(
                JsonView::Array(
                    match downstream {
                        Some(d) => seq![d],
                        None => seq![],
                    },
                ),
            )
        }),
{
    let e = envelope_entries(
        tool_name,
        profile_name,
        dsn,
        op,
        rows,
        rows_affected,
        duration_ms,
        downstream,
        error,
    );
    reveal_strlit("toolName");
    reveal_strlit("profile");
    reveal_strlit("request");
    reveal_strlit("response");
    reveal_strlit("downstreamError");
    reveal_strlit("downstreamErrors");
    assert(e[0].0.len() == 8 && e[1].0.len() == 7 && e[2].0.len() == 7 && e[3].0.len() == 8);
    assert(e[4].0.len() == 15 && e[5].0.len() == 16);
    assert(e[0].0[0] != e[3].0[0]);
    lemma_entry_value(e, "response"@, 3);
    lemma_entry_value(e, "downstreamError"@, 4);
    lemma_entry_value(e, "downstreamErrors"@, 5);
}

/// An error is marked for a retry exactly where it is a transport error.
pub proof fn lemma_retryable_iff_transport_error(message: Seq<char>)
    ensures
        classified(message).field("retryable"@) == Some(JsonView::Bool(true))
            <==> classified(message).field("kind"@) == Some(JsonView::Text("transport_error"@)),
        classified(message).field("retryable"@) == Some(
            JsonView::Bool(connection_failure(message)),
        ),
        classified(message).field("message"@) == Some(JsonView::Text(message)),
{
    let e = classified(message)->Object_0;
    reveal_strlit("kind");
    reveal_strlit("code");
    reveal_strlit("message");
    reveal_strlit("retryable");
    reveal_strlit("transport_error");
    reveal_strlit("oracle_error");
    assert(e[0].0.len() == 4 && e[1].0.len() == 4 && e[2].0.len() == 7 && e[3].0.len() == 9);
    lemma_entry_value(e, "kind"@, 0);
    lemma_entry_value(e, "message"@, 2);
    lemma_entry_value(e, "retryable"@, 3);
    assert("transport_error"@ != "oracle_error"@);
}

/// A rejection by the database is not marked for a retry, whatever names and
/// words stand in it: a message that names a code, but none of a lost
/// connection, of the network or of a timeout, unless it is one of the library's
/// own on a connection that could not be had.
pub proof fn lemma_rejection_is_not_retryable(message: Seq<char>, i: int)
    requires
        code_at(lower(message), i),
        forall|j: int| !lost_code_at(lower(message), j),
        !begins_with_any(lower(message), CONNECTION_PREFIXES@),
    ensures
        !connection_failure(message),
        failure_kind(message) == "oracle_error"@,
{
}

/// A message that names the code of a lost connection, of the network or of a
/// timeout is marked for a retry, unless it is about parameters.
pub proof fn lemma_lost_connection_is_retryable(message: Seq<char>, i: int)
    requires
        lost_code_at(lower(message), i),
        !begins_with_any(lower(message), PARAMETER_PREFIXES@),
    ensures
        connection_failure(message),
        failure_kind(message) == "transport_error"@,
{
}

/// A failure to connect or to log in is marked for a retry, whatever the reason.
pub proof fn lemma_connect_failure_is_retryable(reason: Seq<char>)
    ensures
        connection_failure("Oracle connect/login failed: "@ + reason),
{
    let message = "Oracle connect/login failed: "@ + reason;
    reveal_strlit("Oracle connect/login failed: ");
    reveal_strlit("oracle connect/login failed");
    assert(lower(message).subrange(0, 27) =~= "oracle connect/login failed"@);
    lemma_connection_prefix(message, 0);
}

/// A message that begins as one of the library's own on a connection is a
/// connection failure.
pub proof fn lemma_connection_prefix(message: Seq<char>, k: int)
    requires
        0 <= k < CONNECTION_PREFIXES@.len(),
        begins_with(lower(message), CONNECTION_PREFIXES@[k]@),
    ensures
        connection_failure(message),
{
    let text = lower(message);
    reveal_strlit("oracle connect/login failed");
    reveal_strlit("oracle connect worker task failed");
    reveal_strlit("oracle pool acquire failed");
    reveal_strlit("oracle pool acquire timed out");
    reveal_strlit("oracle call timed out");
    reveal_strlit("oracle set_call_timeout failed");
    reveal_strlit("evaluating params: ");
    reveal_strlit("binding params: ");
    let own = CONNECTION_PREFIXES@[k]@;
    assert(own.len() > 0 && own[0] == 'o');
    assert(text.subrange(0, own.len() as int)[0] == text[0]);
    assert(begins_with_any(text, CONNECTION_PREFIXES@));
    assert forall|j: int| 0 <= j < PARAMETER_PREFIXES@.len() implies !begins_with(
        text,
        #[trigger] PARAMETER_PREFIXES@[j]@,
    ) by {
        let p = PARAMETER_PREFIXES@[j]@;
        assert(p.len() > 0 && p[0] != 'o');
        if begins_with(text, p) {
            assert(text.subrange(0, p.len() as int)[0] == text[0]);
        }
    }
}

/// The case of a message's letters does not count for its classification.
pub proof fn lemma_classification_ignores_case(a: Seq<char>, b: Seq<char>)
    requires
        lower(a) == lower(b),
    ensures
        failure_kind(a) == failure_kind(b),
{
}

/// The error object of a failed call can be written as JSON text.
pub proof fn lemma_error_is_writable(kind: Seq<char>, message: Seq<char>, retryable: bool)
    ensures
        writable(downstream_error(kind, message, retryable), 1),
{
    let e = downstream_error(kind, message, retryable)->Object_0;
    reveal_strlit("kind");
    reveal_strlit("code");
    reveal_strlit("message");
    reveal_strlit("retryable");
    reveal_strlit("retryClass");
    reveal_strlit("suggestedAction");
    assert(e[0].0.len() == 4 && e[1].0.len() == 4 && e[2].0.len() == 7);
    assert(e[3].0.len() == 9 && e[4].0.len() == 10 && e[5].0.len() == 15);
    assert(e[0].0[0] != e[1].0[0]);
    assert(distinct_keys(e));
    lemma_object_writable(e, 0);
}

proof fn lemma_response_is_writable(
    rows: Option<Seq<JsonView>>,
    rows_affected: Option<nat>,
    duration_ms: nat,
    n: nat,
)
    requires
        rows matches Some(r) ==> r.len() <= u64::MAX && forall|i: int|
            0 <= i < r.len() ==> writable(#[trigger] r[i], n),
        rows_affected matches Some(k) ==> k <= u64::MAX,
        duration_ms <= u64::MAX,
    ensures
        writable(success_response(rows, rows_affected, duration_ms), n + 2),
{
    let e = success_response(rows, rows_affected, duration_ms)->Object_0;
    reveal_strlit("rows");
    reveal_strlit("count");
    reveal_strlit("rowsAffected");
    reveal_strlit("durationMs");
    assert(e[0].0.len() == 4 && e[1].0.len() == 5 && e[2].0.len() == 12 && e[3].0.len() == 10);
    assert(distinct_keys(e));
    if let Some(r) = rows {
        lemma_array_writable(r, n);
    }
    assert forall|i: int| 0 <= i < e.len() implies writable((#[trigger] e[i]).1, n + 1) by {
        if i > 0 {
            assert(writable(e[i].1, 0));
            lemma_writable_deeper(e[i].1, 0, n + 1);
        } else if rows is None {
            assert(writable(e[i].1, 0));
            lemma_writable_deeper(e[i].1, 0, n + 1);
        }
    }
    lemma_object_writable(e, n + 1);
}

proof fn lemma_request_is_writable(dsn: Seq<char>, op: Seq<char>)
    ensures
        writable(request_part(dsn, op), 1),
{
    let e = request_part(dsn, op)->Object_0;
    reveal_strlit("dsn");
    reveal_strlit("op");
    assert(e[0].0.len() == 3 && e[1].0.len() == 2);
    assert(distinct_keys(e));
    lemma_object_writable(e, 0);
}

/// An envelope can be written as JSON text wherever its rows and its error can:
/// it nests three levels around a row.
pub proof fn lemma_envelope_is_writable(
    tool_name: Seq<char>,
    profile_name: Seq<char>,
    dsn: Seq<char>,
    op: Seq<char>,
    rows: Option<Seq<JsonView>>,
    rows_affected: Option<nat>,
    duration_ms: nat,
    downstream: Option<JsonView>,
    error: Option<Seq<char>>,
    n: nat,
)
    requires
        rows matches Some(r) ==> r.len() <= u64::MAX && forall|i: int|
            0 <= i < r.len() ==> writable(#[trigger] r[i], n),
        rows_affected matches Some(k) ==> k <= u64::MAX,
        duration_ms <= u64::MAX,
        downstream matches Some(d) ==> writable(d, 1),
    ensures
        writable(
            result_envelope(
                tool_name,
                profile_name,
                dsn,
                op,
                rows,
                rows_affected,
                duration_ms,
                downstream,
                error,
            ),
            n + 3,
        ),
{
    let e = envelope_entries(
        tool_name,
        profile_name,
        dsn,
        op,
        rows,
        rows_affected,
        duration_ms,
        downstream,
        error,
    );
    reveal_strlit("toolName");
    reveal_strlit("profile");
    reveal_strlit("request");
    reveal_strlit("response");
    reveal_strlit("downstreamError");
    reveal_strlit("downstreamErrors");
    reveal_strlit("error");
    assert(e[0].0.len() == 8 && e[1].0.len() == 7 && e[2].0.len() == 7 && e[3].0.len() == 8);
    assert(e[4].0.len() == 15 && e[5].0.len() == 16 && e[6].0.len() == 5);
    assert(e[0].0[0] != e[3].0[0] && e[1].0[0] != e[2].0[0]);
    assert(distinct_keys(e));
    lemma_response_is_writable(rows, rows_affected, duration_ms, n);
    lemma_request_is_writable(dsn, op);
    lemma_writable_deeper(request_part(dsn, op), 1, n + 2);
    lemma_array_writable(e[5].1->Array_0, 1);
    lemma_writable_deeper(e[5].1, 2, n + 2);
    if let Some(d) = downstream {
        lemma_writable_deeper(d, 1, n + 2);
    }
    assert(writable(e[2].1, n + 2) && writable(e[5].1, n + 2));
    assert(writable(e[3].1, n + 2)) by {
        if downstream is Some {
            lemma_writable_deeper(JsonView::Null, 0, n + 2);
        }
    }
    assert(writable(e[4].1, n + 2)) by {
        if downstream is None {
            lemma_writable_deeper(JsonView::Null, 0, n + 2);
        }
    }
    assert(writable(e[0].1, n + 2) && writable(e[1].1, n + 2) && writable(e[6].1, n + 2)) by {
        lemma_writable_deeper(e[0].1, 0, n + 2);
        lemma_writable_deeper(e[1].1, 0, n + 2);
        lemma_writable_deeper(e[6].1, 0, n + 2);
    }
    assert forall|i: int| 0 <= i < e.len() implies writable((#[trigger] e[i]).1, n + 2) by {
        assert(i == 0 || i == 1 || i == 2 || i == 3 || i == 4 || i == 5 || i == 6);
    }
    lemma_object_writable(e, n + 2);
}

} // verus!
