//! What a call is answered with.

use vstd::prelude::*;
use vstd::utf8::*;

use crate::call::{answered, no_uri_message, op_label, unplanned_answer};
use crate::codec::{json_parse, json_text, read_ok, representable};
use crate::envelope::{
    classified, connection_failure, downstream_error, result_envelope, success_response,
};
use crate::json::{distinct_keys, lemma_entry_value, JsonView};
use crate::oracle::OutcomeView;
use crate::plugin::OracleProfile;
use crate::surface::{prompt_body, resource_body, resource_uri, rows_text, Surface};
use crate::text::{blank, contains_text, lower};
use crate::types::{OracleOp, OracleOperation};

verus! {

/// In an object with distinct keys, each entry stands under its key.
pub proof fn lemma_field(entries: Seq<(Seq<char>, JsonView)>, i: int)
    requires
        0 <= i < entries.len(),
        distinct_keys(entries),
    ensures
        JsonView::Object(entries).field(entries[i].0) == Some(entries[i].1),
{
    assert forall|j: int| 0 <= j < i implies (#[trigger] entries[j]).0 != entries[i].0 by {}
    lemma_entry_value(entries, entries[i].0, i);
}

/// The response of a call that went well holds the very rows of the outcome: as
/// many, in the same order and each as it is, and the count is their number. A
/// call without rows has null in both places. The number of affected rows and
/// the duration are those given.
pub proof fn lemma_response_holds_the_rows(
    rows: Option<Seq<JsonView>>,
    rows_affected: Option<nat>,
    duration_ms: nat,
)
    ensures
        ({
            let r = success_response(rows, rows_affected, duration_ms);
            &&& r is Object && r->Object_0.len() == 4
            &&& rows matches Some(given) ==> {
                &&& r.field("rows"@) matches Some(JsonView::Array(held))
                &&& held.len() == given.len()
                &&& forall|i: int| 0 <= i < given.len() ==> #[trigger] held[i] == given[i]
                &&& r.field("count"@) == Some(JsonView::Integer(given.len() as int))
            }
            &&& rows is None ==> r.field("rows"@) == Some(JsonView::Null) && r.field("count"@)
                == Some(JsonView::Null)
            &&& rows_affected matches Some(n) ==> r.field("rowsAffected"@) == Some(
                JsonView::Integer(n as int),
            )
            &&& rows_affected is None ==> r.field("rowsAffected"@) == Some(JsonView::Null)
            &&& r.field("durationMs"@) == Some(JsonView::Integer(duration_ms as int))
        }),
{
    let e = success_response(rows, rows_affected, duration_ms)->Object_0;
    reveal_strlit("rows");
    reveal_strlit("count");
    reveal_strlit("rowsAffected");
    reveal_strlit("durationMs");
    assert(e[0].0.len() == 4 && e[1].0.len() == 5 && e[2].0.len() == 12 && e[3].0.len() == 10);
    assert(distinct_keys(e));
    lemma_field(e, 0);
    lemma_field(e, 1);
    lemma_field(e, 2);
    lemma_field(e, 3);
}

/// The envelope of a call names the tool, the binding, the data source and the
/// op, carries the error text, and has either the error in both error slots and
/// no response, or no error and the response.
pub proof fn lemma_envelope_says_what_happened(
    tool_name: Seq<char>,
    profile_name: Seq<char>,
    dsn: Seq<char>,
    op: Seq<char>,
    rows: Option<Seq<JsonView>>,
    rows_affected: Option<nat>,
    duration_ms: nat,
    downstream: Option<JsonView>,
    error: Option<Seq<char>>,
)
    ensures
        ({
            let e = result_envelope(
                tool_name,
                profile_name,
                dsn,
                op,
                rows,
                rows_affected,
                duration_ms,
                downstream,
                error,
            );
            &&& e is Object && e->Object_0.len() == 7
            &&& e.field("toolName"@) == Some(JsonView::Text(tool_name))
            &&& e.field("profile"@) == Some(JsonView::Text(profile_name))
            &&& e.field("request"@) matches Some(q)
            &&& q is Object && q->Object_0.len() == 2
            &&& q.field("dsn"@) == Some(JsonView::Text(dsn))
            &&& q.field("op"@) == Some(JsonView::Text(op))
            &&& error matches Some(t) ==> e.field("error"@) == Some(JsonView::Text(t))
            &&& error is None ==> e.field("error"@) == Some(JsonView::Null)
            &&& downstream matches Some(d) ==> {
                &&& e.field("response"@) == Some(JsonView::Null)
                &&& e.field("downstreamError"@) == Some(d)
                &&& e.field("downstreamErrors"@) == Some(JsonView::Array(seq![d]))
            }
            &&& downstream is None ==> {
                &&& e.field("response"@) == Some(
                    success_response(rows, rows_affected, duration_ms),
                )
                &&& e.field("downstreamError"@) == Some(JsonView::Null)
                &&& e.field("downstreamErrors"@) == Some(JsonView::Array(seq![]))
            }
        }),
{
    let e = result_envelope(
        tool_name,
        profile_name,
        dsn,
        op,
        rows,
        rows_affected,
        duration_ms,
        downstream,
        error,
    )->Object_0;
    reveal_strlit("toolName");
    reveal_strlit("profile");
    reveal_strlit("request");
    reveal_strlit("response");
    reveal_strlit("downstreamError");
    reveal_strlit("downstreamErrors");
    reveal_strlit("error");
    reveal_strlit("dsn");
    reveal_strlit("op");
    assert(e[0].0.len() == 8 && e[1].0.len() == 7 && e[2].0.len() == 7 && e[3].0.len() == 8);
    assert(e[4].0.len() == 15 && e[5].0.len() == 16 && e[6].0.len() == 5);
    assert(e[0].0[0] != e[3].0[0] && e[1].0[0] != e[2].0[0]);
    assert(distinct_keys(e));
    lemma_field(e, 0);
    lemma_field(e, 1);
    lemma_field(e, 2);
    lemma_field(e, 3);
    lemma_field(e, 4);
    lemma_field(e, 5);
    lemma_field(e, 6);
    let q = e[2].1->Object_0;
    assert(q[0].0.len() == 3 && q[1].0.len() == 2);
    assert(distinct_keys(q));
    lemma_field(q, 0);
    lemma_field(q, 1);
}

/// A tool call that went well is answered with the envelope of its outcome: the
/// very rows, as many, in order and each as it is, their count, the number of
/// affected rows, and no error.
pub proof fn lemma_tool_answer_holds_the_rows(
    p: OracleProfile,
    backend_name: Seq<char>,
    tool_name: Seq<char>,
    arguments: JsonView,
    outcome: OutcomeView,
    elapsed_ms: nat,
)
    requires
        p.surface == Surface::Tool,
    ensures
        ({
            let answer = answered(p, backend_name, tool_name, arguments, Ok(outcome), elapsed_ms);
            &&& answer.label == "ok"@
            &&& answer.reason is None
            &&& answer.body.field("toolName"@) == Some(JsonView::Text(tool_name))
            &&& answer.body.field("profile"@) == Some(JsonView::Text(backend_name))
            &&& answer.body.field("downstreamError"@) == Some(JsonView::Null)
            &&& answer.body.field("downstreamErrors"@) == Some(JsonView::Array(seq![]))
            &&& answer.body.field("error"@) == Some(JsonView::Null)
            &&& answer.body.field("request"@) matches Some(q)
            &&& q.field("dsn"@) == Some(JsonView::Text(p.dsn@))
            &&& p.operation == OracleOperation::ListTables ==> q.field("op"@) == Some(
                JsonView::Text("list_tables"@),
            )
            &&& p.operation == OracleOperation::ListColumns ==> q.field("op"@) == Some(
                JsonView::Text("list_columns"@),
            )
            &&& p.operation == OracleOperation::Query && p.op == OracleOp::Query ==> q.field("op"@)
                == Some(JsonView::Text("query"@))
            &&& p.operation == OracleOperation::Query && p.op == OracleOp::Execute ==> q.field(
                "op"@,
            ) == Some(JsonView::Text("execute"@))
            &&& answer.body.field("response"@) matches Some(r)
            &&& outcome.rows matches Some(given) ==> {
                &&& r.field("rows"@) matches Some(JsonView::Array(held))
                &&& held.len() == given.len()
                &&& forall|i: int| 0 <= i < given.len() ==> #[trigger] held[i] == given[i]
                &&& r.field("count"@) == Some(JsonView::Integer(given.len() as int))
            }
            &&& outcome.rows is None ==> r.field("rows"@) == Some(JsonView::Null) && r.field(
                "count"@,
            ) == Some(JsonView::Null)
            &&& outcome.rows_affected matches Some(n) ==> r.field("rowsAffected"@) == Some(
                JsonView::Integer(n as int),
            )
            &&& outcome.rows_affected is None ==> r.field("rowsAffected"@) == Some(JsonView::Null)
            &&& r.field("durationMs"@) == Some(JsonView::Integer(elapsed_ms as int))
        }),
{
    lemma_envelope_says_what_happened(
        tool_name,
        backend_name,
        p.dsn@,
        op_label(p),
        outcome.rows,
        outcome.rows_affected,
        elapsed_ms,
        None,
        None,
    );
    lemma_response_holds_the_rows(outcome.rows, outcome.rows_affected, elapsed_ms);
}

/// Two tool calls whose outcomes differ are answered differently: nothing of an
/// outcome is lost.
pub proof fn lemma_tool_answer_determines_the_outcome(
    p: OracleProfile,
    backend_name: Seq<char>,
    tool_name: Seq<char>,
    arguments: JsonView,
    a: OutcomeView,
    b: OutcomeView,
    elapsed_ms: nat,
)
    requires
        p.surface == Surface::Tool,
        answered(p, backend_name, tool_name, arguments, Ok(a), elapsed_ms).body == answered(
            p,
            backend_name,
            tool_name,
            arguments,
            Ok(b),
            elapsed_ms,
        ).body,
    ensures
        a == b,
{
    lemma_tool_answer_holds_the_rows(p, backend_name, tool_name, arguments, a, elapsed_ms);
    lemma_tool_answer_holds_the_rows(p, backend_name, tool_name, arguments, b, elapsed_ms);
    match (a.rows, b.rows) {
        (Some(x), Some(y)) => {
            assert(x =~= y);
        },
        _ => {},
    }
}

/// The body of a resource read has one content, with the URI, the MIME type of
/// JSON, and the text given, whole.
pub proof fn lemma_resource_body_holds_the_text(uri: Seq<char>, text: Seq<char>)
    ensures
        ({
            let body = resource_body(uri, text);
            &&& body is Object && body->Object_0.len() == 1
            &&& body.field("contents"@) matches Some(JsonView::Array(contents))
            &&& contents.len() == 1
            &&& contents[0] is Object && contents[0]->Object_0.len() == 3
            &&& contents[0].field("uri"@) == Some(JsonView::Text(uri))
            &&& contents[0].field("text"@) == Some(JsonView::Text(text))
            &&& contents[0].field("mimeType"@) == Some(JsonView::Text("application/json"@))
        }),
{
    reveal_strlit("uri");
    reveal_strlit("text");
    reveal_strlit("mimeType");
    let body = resource_body(uri, text)->Object_0;
    assert(distinct_keys(body));
    lemma_field(body, 0);
    let content = body[0].1->Array_0[0]->Object_0;
    assert(content[0].0.len() == 3 && content[1].0.len() == 4 && content[2].0.len() == 8);
    assert(distinct_keys(content));
    lemma_field(content, 0);
    lemma_field(content, 1);
    lemma_field(content, 2);
}

/// The body of a prompt has one message, of the user, with the text given, whole.
pub proof fn lemma_prompt_body_holds_the_text(text: Seq<char>)
    ensures
        ({
            let body = prompt_body(text);
            &&& body is Object && body->Object_0.len() == 1
            &&& body.field("messages"@) matches Some(JsonView::Array(messages))
            &&& messages.len() == 1
            &&& messages[0] is Object && messages[0]->Object_0.len() == 2
            &&& messages[0].field("role"@) == Some(JsonView::Text("user"@))
            &&& messages[0].field("content"@) matches Some(content)
            &&& content is Object && content->Object_0.len() == 2
            &&& content.field("type"@) == Some(JsonView::Text("text"@))
            &&& content.field("text"@) == Some(JsonView::Text(text))
        }),
{
    reveal_strlit("role");
    reveal_strlit("content");
    reveal_strlit("type");
    reveal_strlit("text");
    let body = prompt_body(text)->Object_0;
    assert(distinct_keys(body));
    lemma_field(body, 0);
    let message = body[0].1->Array_0[0]->Object_0;
    assert(message[0].0.len() == 4 && message[1].0.len() == 7);
    assert(distinct_keys(message));
    lemma_field(message, 0);
    lemma_field(message, 1);
    let content = message[1].1->Object_0;
    assert(content[0].0[1] == 'y' && content[1].0[1] == 'e');
    assert(distinct_keys(content));
    lemma_field(content, 0);
    lemma_field(content, 1);
}

/// The URI of a resource read is the binding's own where that is not blank, else
/// the text that the call has under `uri` where that is not blank, else none.
pub proof fn lemma_resource_uri_is_own_or_given(own: Option<Seq<char>>, arguments: JsonView)
    ensures
        own matches Some(u) ==> !blank(u) ==> resource_uri(own, arguments) == Some(u),
        (own is None || blank(own->0)) ==> (match arguments.field("uri"@) {
            Some(JsonView::Text(u)) if !blank(u) => resource_uri(own, arguments) == Some(u),
            _ => resource_uri(own, arguments) is None,
        }),
{
}

/// A resource read is answered with one content under the resolved URI. The text
/// found in it is the whole JSON text of the array of rows, so it reads back as
/// these very rows wherever `serde_json` reads back what it writes.
pub proof fn lemma_resource_answer_reads_back(
    p: OracleProfile,
    backend_name: Seq<char>,
    tool_name: Seq<char>,
    arguments: JsonView,
    outcome: OutcomeView,
    uri: Seq<char>,
    elapsed_ms: nat,
)
    requires
        p.surface == Surface::Resource,
        resource_uri(p.surface_uri.deep_view(), arguments) == Some(uri),
    ensures
        ({
            let answer = answered(p, backend_name, tool_name, arguments, Ok(outcome), elapsed_ms);
            let rows = match outcome.rows {
                Some(rows) => rows,
                None => Seq::empty(),
            };
            &&& answer.label == "ok"@
            &&& answer.reason is None
            &&& answer.body is Object && answer.body->Object_0.len() == 1
            &&& answer.body.field("contents"@) matches Some(JsonView::Array(contents))
            &&& contents.len() == 1
            &&& contents[0].field("uri"@) == Some(JsonView::Text(uri))
            &&& contents[0].field("mimeType"@) == Some(JsonView::Text("application/json"@))
            &&& contents[0].field("text"@) matches Some(JsonView::Text(t))
            &&& representable(JsonView::Array(rows)) ==> {
                &&& t == json_text(JsonView::Array(rows))
                &&& json_parse(encode_utf8(json_text(JsonView::Array(rows)))) == read_ok(
                    JsonView::Array(rows),
                ) ==> json_parse(encode_utf8(t)) == read_ok(JsonView::Array(rows))
            }
            &&& !representable(JsonView::Array(rows)) ==> t == "[]"@
        }),
{
    lemma_resource_body_holds_the_text(uri, rows_text(outcome.row_list()));
}

/// A resource read without a URI fails, and says why.
pub proof fn lemma_resource_without_uri_fails(
    p: OracleProfile,
    backend_name: Seq<char>,
    tool_name: Seq<char>,
    arguments: JsonView,
    outcome: OutcomeView,
    elapsed_ms: nat,
)
    requires
        p.surface == Surface::Resource,
        resource_uri(p.surface_uri.deep_view(), arguments) is None,
    ensures
        ({
            let why =
                "resource surface requires a `uri` (set a static `uri` on the binding or invoke via a resources/read request)"@;
            let answer = answered(p, backend_name, tool_name, arguments, Ok(outcome), elapsed_ms);
            &&& answer.label == "oracle_error"@
            &&& answer.reason == Some(why)
            &&& answer.body.field("error"@) == Some(JsonView::Text(why))
            &&& answer.body.field("response"@) == Some(JsonView::Null)
            &&& answer.body.field("downstreamError"@) == Some(classified(why))
        }),
{
    lemma_envelope_says_what_happened(
        tool_name,
        backend_name,
        p.dsn@,
        op_label(p),
        None,
        None,
        elapsed_ms,
        Some(classified(no_uri_message())),
        Some(no_uri_message()),
    );
}

/// A prompt is answered with one message of the user. The text found in it is
/// the whole JSON text of the array of rows.
pub proof fn lemma_prompt_answer_reads_back(
    p: OracleProfile,
    backend_name: Seq<char>,
    tool_name: Seq<char>,
    arguments: JsonView,
    outcome: OutcomeView,
    elapsed_ms: nat,
)
    requires
        p.surface == Surface::Prompt,
    ensures
        ({
            let answer = answered(p, backend_name, tool_name, arguments, Ok(outcome), elapsed_ms);
            let rows = match outcome.rows {
                Some(rows) => rows,
                None => Seq::empty(),
            };
            &&& answer.label == "ok"@
            &&& answer.reason is None
            &&& answer.body is Object && answer.body->Object_0.len() == 1
            &&& answer.body.field("messages"@) matches Some(JsonView::Array(messages))
            &&& messages.len() == 1
            &&& messages[0].field("role"@) == Some(JsonView::Text("user"@))
            &&& messages[0].field("content"@) matches Some(content)
            &&& content.field("type"@) == Some(JsonView::Text("text"@))
            &&& content.field("text"@) matches Some(JsonView::Text(t))
            &&& representable(JsonView::Array(rows)) ==> {
                &&& t == json_text(JsonView::Array(rows))
                &&& json_parse(encode_utf8(json_text(JsonView::Array(rows)))) == read_ok(
                    JsonView::Array(rows),
                ) ==> json_parse(encode_utf8(t)) == read_ok(JsonView::Array(rows))
            }
            &&& !representable(JsonView::Array(rows)) ==> t == "[]"@
        }),
{
    lemma_prompt_body_holds_the_text(rows_text(outcome.row_list()));
}

/// The error object of a failed call has its kind, a code that ends in the kind,
/// the message, and what to do, which goes by whether a retry may help.
pub proof fn lemma_error_object(kind: Seq<char>, message: Seq<char>, retryable: bool)
    ensures
        ({
            let e = downstream_error(kind, message, retryable);
            &&& e is Object && e->Object_0.len() == 6
            &&& e.field("kind"@) == Some(JsonView::Text(kind))
            &&& e.field("code"@) == Some(JsonView::Text("mcpg.downstream_oracle."@ + kind))
            &&& e.field("message"@) == Some(JsonView::Text(message))
            &&& e.field("retryable"@) == Some(JsonView::Bool(retryable))
            &&& retryable ==> {
                &&& e.field("retryClass"@) == Some(JsonView::Text("with_backoff"@))
                &&& e.field("suggestedAction"@) == Some(
                    JsonView::Text("check_database_connectivity_and_retry"@),
                )
            }
            &&& !retryable ==> {
                &&& e.field("retryClass"@) == Some(JsonView::Text("do_not_retry"@))
                &&& e.field("suggestedAction"@) == Some(JsonView::Text("inspect_sql_error"@))
            }
        }),
{
    let e = downstream_error(kind, message, retryable)->Object_0;
    reveal_strlit("kind");
    reveal_strlit("code");
    reveal_strlit("message");
    reveal_strlit("retryable");
    reveal_strlit("retryClass");
    reveal_strlit("suggestedAction");
    assert(e[0].0.len() == 4 && e[1].0.len() == 4 && e[2].0.len() == 7);
    assert(e[3].0.len() == 9 && e[4].0.len() == 10 && e[5].0.len() == 15);
    assert(e[0].0[0] != e[1].0[0]);
    assert(distinct_keys(e));
    lemma_field(e, 0);
    lemma_field(e, 1);
    lemma_field(e, 2);
    lemma_field(e, 3);
    lemma_field(e, 4);
    lemma_field(e, 5);
}

/// A call that failed is answered, on every surface, with an envelope that has
/// the reason as its error and in its error object, and no response. The error
/// object and the outcome label go by whether the reason is a connection
/// failure, and among these by whether it speaks of a timeout.
pub proof fn lemma_failed_answer_says_why(
    p: OracleProfile,
    backend_name: Seq<char>,
    tool_name: Seq<char>,
    arguments: JsonView,
    message: Seq<char>,
    elapsed_ms: nat,
)
    ensures
        ({
            let answer = answered(
                p,
                backend_name,
                tool_name,
                arguments,
                Err(message),
                elapsed_ms,
            );
            let late = contains_text(lower(message), "timed out"@) || contains_text(
                lower(message),
                "timeout"@,
            );
            &&& answer.reason == Some(message)
            &&& !connection_failure(message) ==> answer.label == "oracle_error"@
            &&& connection_failure(message) && late ==> answer.label == "timeout"@
            &&& connection_failure(message) && !late ==> answer.label == "transport_error"@
            &&& answer.body.field("toolName"@) == Some(JsonView::Text(tool_name))
            &&& answer.body.field("profile"@) == Some(JsonView::Text(backend_name))
            &&& answer.body.field("error"@) == Some(JsonView::Text(message))
            &&& answer.body.field("response"@) == Some(JsonView::Null)
            &&& answer.body.field("request"@) matches Some(q)
            &&& q.field("dsn"@) == Some(JsonView::Text(p.dsn@))
            &&& p.operation == OracleOperation::ListTables ==> q.field("op"@) == Some(
                JsonView::Text("list_tables"@),
            )
            &&& p.operation == OracleOperation::ListColumns ==> q.field("op"@) == Some(
                JsonView::Text("list_columns"@),
            )
            &&& p.operation == OracleOperation::Query && p.op == OracleOp::Query ==> q.field("op"@)
                == Some(JsonView::Text("query"@))
            &&& p.operation == OracleOperation::Query && p.op == OracleOp::Execute ==> q.field(
                "op"@,
            ) == Some(JsonView::Text("execute"@))
            &&& answer.body.field("downstreamError"@) matches Some(d)
            &&& answer.body.field("downstreamErrors"@) == Some(JsonView::Array(seq![d]))
            &&& d.field("message"@) == Some(JsonView::Text(message))
            &&& d.field("retryable"@) == Some(JsonView::Bool(connection_failure(message)))
            &&& connection_failure(message) ==> d.field("kind"@) == Some(
                JsonView::Text("transport_error"@),
            )
            &&& !connection_failure(message) ==> d.field("kind"@) == Some(
                JsonView::Text("oracle_error"@),
            )
        }),
{
    lemma_envelope_says_what_happened(
        tool_name,
        backend_name,
        p.dsn@,
        op_label(p),
        None,
        None,
        elapsed_ms,
        Some(classified(message)),
        Some(message),
    );
    lemma_error_object("transport_error"@, message, true);
    lemma_error_object("oracle_error"@, message, false);
}

/// A call that came to no statement is answered with an envelope that has the
/// reason, under the outcome label of a faulty spec.
pub proof fn lemma_unplanned_answer_says_why(
    p: OracleProfile,
    backend_name: Seq<char>,
    tool_name: Seq<char>,
    message: Seq<char>,
    elapsed_ms: nat,
)
    ensures
        ({
            let answer = unplanned_answer(p, backend_name, tool_name, message, elapsed_ms);
            &&& answer.reason == Some(message)
            &&& answer.label == "invalid_spec"@
            &&& answer.body.field("toolName"@) == Some(JsonView::Text(tool_name))
            &&& answer.body.field("profile"@) == Some(JsonView::Text(backend_name))
            &&& answer.body.field("error"@) == Some(JsonView::Text(message))
            &&& answer.body.field("response"@) == Some(JsonView::Null)
            &&& answer.body.field("request"@) matches Some(q)
            &&& q.field("dsn"@) == Some(JsonView::Text(p.dsn@))
            &&& p.op == OracleOp::Query ==> q.field("op"@) == Some(JsonView::Text("query"@))
            &&& p.op == OracleOp::Execute ==> q.field("op"@) == Some(JsonView::Text("execute"@))
            &&& answer.body.field("downstreamError"@) matches Some(d)
            &&& d.field("message"@) == Some(JsonView::Text(message))
            &&& d.field("retryable"@) == Some(JsonView::Bool(connection_failure(message)))
        }),
{
    lemma_envelope_says_what_happened(
        tool_name,
        backend_name,
        p.dsn@,
        p.op.word(),
        None,
        None,
        elapsed_ms,
        Some(classified(message)),
        Some(message),
    );
    lemma_error_object("transport_error"@, message, true);
    lemma_error_object("oracle_error"@, message, false);
}

} // verus!
