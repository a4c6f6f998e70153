//! What a request does with its binding.
//!
//! Everything that blocks or waits happens outside. A request is planned here,
//! its statement is run outside, and the result comes back here to be answered.

use vstd::prelude::*;
use vstd::slice::slice_to_vec;
use vstd::string::*;
use vstd::utf8::*;

use crate::audit::{audit_action, lemma_success_is_not_audited};
use crate::catalog::{as_text, build_query, catalog_binds, catalog_sql, resolved_one};
use crate::codec::{
    json_parse, json_text, lemma_writable_deeper, nests_within, read_ok, representable, writable,
};
use crate::envelope::{
    begins_with_any, build_result_envelope, classified, classify_error, connection_failure,
    failure_kind, is_connection_failure, lemma_connection_prefix, lemma_envelope_is_writable,
    lemma_error_excludes_response, lemma_error_is_writable, result_envelope, CONNECTION_PREFIXES,
};
use crate::json::{views, Json, JsonView};
use crate::oracle::{
    acquire_error, failed_call, result_view, worked, OutcomeView, Phase, PoolReply, QueryOutcome,
    WorkerReply,
};
use crate::params::{
    all_lowered, all_scalar, bind_values, bind_views, lowered, not_scalar_message, sources,
    BindView, OracleBind,
};
use crate::plugin::{
    stored_from, BackendError, BackendResponse, OracleBackendPlugin, OracleProfile,
};
use crate::surface::{
    lemma_bodies_are_writable, prompt_body, prompt_messages_body, reads_back, resolve_resource_uri, resource_body,
    resource_contents_body, resource_uri, rows_text, Surface,
};
use crate::text::{
    begins_with, chars_contain, contains_text, eq_ignore_ascii_case, lower, lower_char, lower_chars,
    occurs_at,
};
use crate::types::{OracleBackendSpec, OracleOp};

verus! {

// --------------------------------------------------------------------- request

/// A request that found its binding: the arguments, and the name of the tool.
#[derive(Debug, PartialEq)]
pub struct Call {
    pub arguments: Json,
    pub tool_name: String,
}

/// The arguments in a payload; an empty payload stands for no arguments.
pub open spec fn call_arguments(payload: Seq<u8>) -> Result<JsonView, Seq<char>> {
    if payload.len() == 0 {
        Ok(JsonView::Object(Seq::empty()))
    } else {
        json_parse(payload)
    }
}

/// The names and values of headers.
pub open spec fn header_views(headers: Seq<(String, String)>) -> Seq<(Seq<char>, Seq<char>)> {
    Seq::new(headers.len(), |i: int| (headers[i].0@, headers[i].1@))
}

/// The tool's name: the first header that gives it, in whatever case, else the
/// name of the binding.
pub open spec fn named_tool(
    headers: Seq<(Seq<char>, Seq<char>)>,
    backend_name: Seq<char>,
) -> Seq<char>
    decreases headers.len(),
{
    if headers.len() == 0 {
        backend_name
    } else if lower(headers[0].0) == lower("mcpg-tool-name"@) {
        headers[0].1
    } else {
        named_tool(headers.skip(1), backend_name)
    }
}

/// Find the name of the tool in the headers of a request.
pub fn find_tool_name(headers: &[(String, String)], backend_name: &str) -> (r: String)
    ensures
        r@ == named_tool(header_views(headers@), backend_name@),
{
    let ghost all = header_views(headers@);
    let mut i: usize = 0;
    assert(all.skip(0) =~= all);
    while i < headers.len()
        invariant
            all == header_views(headers@),
            i <= headers@.len(),
            named_tool(all, backend_name@) == named_tool(all.skip(i as int), backend_name@),
        decreases headers.len() - i,
    {
        assert(all.skip(i as int)[0] == all[i as int]);
        assert(all.skip(i as int).skip(1) =~= all.skip(i + 1));
        if eq_ignore_ascii_case(headers[i].0.as_str(), "mcpg-tool-name") {
            return headers[i].1.clone();
        }
        i += 1;
    }
    backend_name.to_owned()
}

/// Read the arguments of a request.
pub fn read_arguments(payload: &[u8]) -> (r: Result<Json, String>)
    ensures
        match r {
            Ok(v) => call_arguments(payload@) == read_ok(v@),
            Err(e) => call_arguments(payload@) matches Err(why) && e@
                == "Oracle plugin payload is not valid JSON: "@ + why,
        },
{
    if payload.len() == 0 {
        return Ok(Json::empty_object());
    }
    match Json::parse(payload) {
        Ok(v) => Ok(v),
        Err(e) => {
            let mut message = "Oracle plugin payload is not valid JSON: ".to_owned();
            message.append(e.as_str());
            Err(message)
        },
    }
}

/// A request that is refused, and its outcome label.
#[derive(Debug, PartialEq)]
pub struct Refusal {
    pub error: BackendError,
    pub label: &'static str,
}

impl OracleBackendPlugin {
    /// Take in a request to run a binding.
    pub fn open_call(
        &self,
        backend_name: &str,
        payload: &[u8],
        headers: &[(String, String)],
    ) -> (r: Result<Call, Refusal>)
        requires
            self.wf(),
        ensures
            match r {
                Ok(call) => {
                    &&& self@.dom().contains(backend_name@)
                    &&& call_arguments(payload@) == read_ok(call.arguments@)
                    &&& call.tool_name@ == named_tool(header_views(headers@), backend_name@)
                },
                Err(refusal) => match refusal.error {
                    BackendError::ProfileNotFound { backend_name: name } => {
                        &&& !self@.dom().contains(backend_name@)
                        &&& name@ == backend_name@
                        &&& refusal.label@ == "profile_not_found"@
                    },
                    BackendError::InvalidSpec { message } => {
                        &&& self@.dom().contains(backend_name@)
                        &&& call_arguments(payload@) matches Err(why) && message@
                            == "Oracle plugin payload is not valid JSON: "@ + why
                        &&& refusal.label@ == "invalid_spec"@
                    },
                    BackendError::Transport { .. } => false,
                },
            },
    {
        if self.profile(backend_name).is_none() {
            return Err(
                Refusal {
                    error: BackendError::ProfileNotFound { backend_name: backend_name.to_owned() },
                    label: "profile_not_found",
                },
            );
        }
        match read_arguments(payload) {
            Ok(arguments) => Ok(
                Call { arguments, tool_name: find_tool_name(headers, backend_name) },
            ),
            Err(message) => Err(
                Refusal { error: BackendError::InvalidSpec { message }, label: "invalid_spec" },
            ),
        }
    }
}

// ------------------------------------------------------------------------ plan

/// A statement that is ready to run.
#[derive(Debug, PartialEq)]
pub struct StatementPlan {
    pub sql: String,
    pub binds: Vec<OracleBind>,
    pub op: OracleOp,
    pub size_limit: usize,
}

/// The mathematical value of a [`StatementPlan`].
pub struct PlanView {
    pub sql: Seq<char>,
    pub binds: Seq<BindView>,
    pub op: OracleOp,
    pub size_limit: nat,
}

impl StatementPlan {
    pub open spec fn view(&self) -> PlanView {
        PlanView {
            sql: self.sql@,
            binds: bind_views(self.binds@),
            op: self.op,
            size_limit: self.size_limit as nat,
        }
    }
}

impl Clone for StatementPlan {
    fn clone(&self) -> (r: Self)
        ensures
            r@ == self@,
    {
        let mut binds: Vec<OracleBind> = Vec::new();
        let mut i: usize = 0;
        while i < self.binds.len()
            invariant
                i <= self.binds.len(),
                binds@.len() == i,
                forall|j: int| 0 <= j < i ==> (#[trigger] binds@[j])@ == self.binds@[j]@,
            decreases self.binds.len() - i,
        {
            binds.push(self.binds[i].clone());
            i += 1;
        }
        assert(bind_views(binds@) =~= bind_views(self.binds@));
        StatementPlan { sql: self.sql.clone(), binds, op: self.op, size_limit: self.size_limit }
    }
}

/// The values of evaluated parameters, or the words of the error.
pub open spec fn evaluated_view(r: Result<Vec<Json>, String>) -> Result<Seq<JsonView>, Seq<char>> {
    match r {
        Ok(values) => Ok(views(values@)),
        Err(e) => Err(e@),
    }
}

/// The statement that a binding runs, and how: on the resource surface the
/// `read_query`, as a query, where the binding has one; else its statement with
/// its own op.
pub open spec fn effective_statement(p: OracleProfile) -> (Seq<char>, OracleOp) {
    match (p.surface, p.read_query) {
        (Surface::Resource, Some(q)) => (q@, OracleOp::Query),
        _ => (p.query@, p.op),
    }
}

/// The plan of a catalog operation. It depends on the operation, the filters
/// and the limit of the binding, and on nothing else of it.
pub open spec fn catalog_plan(p: OracleProfile, arguments: JsonView) -> PlanView {
    let owner = resolved_one(
        p.catalog_filters.owner.deep_view(),
        p.catalog_filters.owner_arg.deep_view(),
        arguments,
    );
    let table = resolved_one(
        p.catalog_filters.table.deep_view(),
        p.catalog_filters.table_arg.deep_view(),
        arguments,
    );
    PlanView {
        sql: catalog_sql(p.operation, owner, table),
        binds: catalog_binds(p.operation, owner, table),
        op: OracleOp::Query,
        size_limit: p.size_limit as nat,
    }
}

/// The plan of a call, or why there is none.
pub open spec fn planned(
    p: OracleProfile,
    arguments: JsonView,
    evaluated: Result<Seq<JsonView>, Seq<char>>,
) -> Result<PlanView, Seq<char>> {
    if p.operation.catalog() {
        Ok(catalog_plan(p, arguments))
    } else {
        match evaluated {
            Ok(values) => if all_scalar(values) {
                Ok(
                    PlanView {
                        sql: effective_statement(p).0,
                        binds: all_lowered(values),
                        op: effective_statement(p).1,
                        size_limit: p.size_limit as nat,
                    },
                )
            } else {
                Err("binding params: "@ + not_scalar_message())
            },
            Err(e) => Err("evaluating params: "@ + e),
        }
    }
}

fn plan_catalog(profile: &OracleProfile, arguments: &Json) -> (r: StatementPlan)
    ensures
        r@ == catalog_plan(*profile, arguments@),
{
    let filters = profile.catalog_filters.resolve(arguments);
    let (sql, binds) = build_query(profile.operation, &filters);
    StatementPlan { sql, binds, op: OracleOp::Query, size_limit: profile.size_limit }
}

/// Plan the statement of a call. `evaluated` is what the binding's parameter
/// expressions came to; a catalog operation has none and ignores it.
pub fn plan_call(
    profile: &OracleProfile,
    arguments: &Json,
    evaluated: Result<Vec<Json>, String>,
) -> (r: Result<StatementPlan, String>)
    ensures
        match r {
            Ok(plan) => planned(*profile, arguments@, evaluated_view(evaluated)) == Ok::<
                PlanView,
                Seq<char>,
            >(plan@),
            Err(e) => planned(*profile, arguments@, evaluated_view(evaluated)) == Err::<
                PlanView,
                Seq<char>,
            >(e@),
        },
{
    if profile.operation.is_catalog() {
        return Ok(plan_catalog(profile, arguments));
    }
    let binds = match evaluated {
        Ok(values) => match bind_values(values) {
            Ok(binds) => binds,
            Err(message) => {
                return Err(message);
            },
        },
        Err(e) => {
            let mut message = "evaluating params: ".to_owned();
            message.append(e.as_str());
            return Err(message);
        },
    };
    let (sql, op) = match (profile.surface, &profile.read_query) {
        (Surface::Resource, Some(q)) => (q.clone(), OracleOp::Query),
        _ => (profile.query.clone(), profile.op),
    };
    Ok(StatementPlan { sql, binds, op, size_limit: profile.size_limit })
}

/// What a call does first.
#[derive(Debug, PartialEq)]
pub enum FirstStep {
    /// Evaluate the binding's parameters against the arguments.
    Evaluate,
    /// Run a catalog statement, which has no parameters.
    Run(StatementPlan),
}

/// Decide what a call does first. A catalog operation skips the parameters.
pub fn first_step(profile: &OracleProfile, arguments: &Json) -> (r: FirstStep)
    ensures
        match r {
            FirstStep::Evaluate => !profile.operation.catalog(),
            FirstStep::Run(plan) => profile.operation.catalog() && plan@ == catalog_plan(
                *profile,
                arguments@,
            ),
        },
{
    if profile.operation.is_catalog() {
        FirstStep::Run(plan_catalog(profile, arguments))
    } else {
        FirstStep::Evaluate
    }
}

// ---------------------------------------------------------------------- answer

/// What a call is answered with, its outcome label, and the reason where it
/// failed.
#[derive(Debug, PartialEq)]
pub struct Answer {
    pub body: Json,
    pub label: &'static str,
    pub reason: Option<String>,
}

/// The mathematical value of an [`Answer`].
pub struct AnswerView {
    pub body: JsonView,
    pub label: Seq<char>,
    pub reason: Option<Seq<char>>,
}

impl Answer {
    pub open spec fn view(&self) -> AnswerView {
        AnswerView { body: self.body@, label: self.label@, reason: self.reason.deep_view() }
    }
}

/// The word that stands for a binding's behaviour in envelopes.
pub open spec fn op_label(p: OracleProfile) -> Seq<char> {
    if p.operation.catalog() {
        p.operation.word()
    } else {
        p.op.word()
    }
}

/// The envelope of a call that failed.
pub open spec fn failed_envelope(
    tool_name: Seq<char>,
    backend_name: Seq<char>,
    dsn: Seq<char>,
    op: Seq<char>,
    elapsed_ms: nat,
    message: Seq<char>,
) -> JsonView {
    result_envelope(
        tool_name,
        backend_name,
        dsn,
        op,
        None,
        None,
        elapsed_ms,
        Some(classified(message)),
        Some(message),
    )
}

/// The outcome label of a statement that failed. Only a connection failure can
/// be a timeout.
pub open spec fn failed_label(message: Seq<char>) -> Seq<char> {
    if connection_failure(message) && (contains_text(lower(message), "timed out"@)
        || contains_text(lower(message), "timeout"@)) {
        "timeout"@
    } else {
        failure_kind(message)
    }
}

/// Why a resource read that names no URI fails.
pub open spec fn no_uri_message() -> Seq<char> {
    "resource surface requires a `uri` (set a static `uri` on the binding or invoke via a resources/read request)"@
}

/// The answer to a call whose statement succeeded, shaped for the surface.
pub open spec fn success_answer(
    p: OracleProfile,
    backend_name: Seq<char>,
    tool_name: Seq<char>,
    arguments: JsonView,
    outcome: OutcomeView,
    elapsed_ms: nat,
) -> AnswerView {
    match p.surface {
        Surface::Tool => AnswerView {
            body: result_envelope(
                tool_name,
                backend_name,
                p.dsn@,
                op_label(p),
                outcome.rows,
                outcome.rows_affected,
                elapsed_ms,
                None,
                None,
            ),
            label: "ok"@,
            reason: None,
        },
        Surface::Resource => match resource_uri(p.surface_uri.deep_view(), arguments) {
            Some(uri) => AnswerView {
                body: resource_body(uri, rows_text(outcome.row_list())),
                label: "ok"@,
                reason: None,
            },
            None => AnswerView {
                body: failed_envelope(
                    tool_name,
                    backend_name,
                    p.dsn@,
                    op_label(p),
                    elapsed_ms,
                    no_uri_message(),
                ),
                label: "oracle_error"@,
                reason: Some(no_uri_message()),
            },
        },
        Surface::Prompt => AnswerView {
            body: prompt_body(rows_text(outcome.row_list())),
            label: "ok"@,
            reason: None,
        },
    }
}

/// The answer to a call whose statement has run, well or badly.
pub open spec fn answered(
    p: OracleProfile,
    backend_name: Seq<char>,
    tool_name: Seq<char>,
    arguments: JsonView,
    result: Result<OutcomeView, Seq<char>>,
    elapsed_ms: nat,
) -> AnswerView {
    match result {
        Ok(outcome) => success_answer(p, backend_name, tool_name, arguments, outcome, elapsed_ms),
        Err(message) => AnswerView {
            body: failed_envelope(
                tool_name,
                backend_name,
                p.dsn@,
                op_label(p),
                elapsed_ms,
                message,
            ),
            label: failed_label(message),
            reason: Some(message),
        },
    }
}

fn build_failed_envelope(
    tool_name: &str,
    backend_name: &str,
    dsn: &str,
    op: &str,
    elapsed_ms: u128,
    message: &str,
) -> (r: Json)
    requires
        elapsed_ms <= u64::MAX,
    ensures
        r@ == failed_envelope(
            tool_name@,
            backend_name@,
            dsn@,
            op@,
            elapsed_ms as nat,
            message@,
        ),
{
    let downstream = classify_error(message);
    build_result_envelope(
        tool_name,
        backend_name,
        dsn,
        op,
        None,
        None,
        elapsed_ms,
        Some(&downstream),
        Some(message),
    )
}

fn label_failure(message: &str) -> (r: &'static str)
    ensures
        r@ == failed_label(message@),
{
    if !is_connection_failure(message) {
        return "oracle_error";
    }
    let text = lower_chars(message);
    if chars_contain(&text, "timed out") || chars_contain(&text, "timeout") {
        "timeout"
    } else {
        "transport_error"
    }
}

fn label_op(profile: &OracleProfile) -> (r: &'static str)
    ensures
        r@ == op_label(*profile),
{
    if profile.operation.is_catalog() {
        profile.operation.as_str()
    } else {
        profile.op.as_str()
    }
}

/// Answer a call whose statement has run. On the resource and the prompt surface
/// the text of a successful answer reads back as the rows.
pub fn finish_call(
    profile: &OracleProfile,
    backend_name: &str,
    tool_name: &str,
    arguments: &Json,
    result: Result<QueryOutcome, String>,
    elapsed_ms: u128,
) -> (r: Answer)
    requires
        elapsed_ms <= u64::MAX,
    ensures
        r@ == answered(
            *profile,
            backend_name@,
            tool_name@,
            arguments@,
            result_view(result),
            elapsed_ms as nat,
        ),
        r.label@ == "ok"@ && profile.surface != Surface::Tool ==> reads_back(
            rows_text(result->Ok_0@.row_list()),
            result->Ok_0@.row_list(),
        ),
        r.label@ == "ok"@ && profile.surface == Surface::Resource ==> ({
            let rows = JsonView::Array(result->Ok_0@.row_list());
            r.body@.field("contents"@) matches Some(JsonView::Array(contents)) && contents.len()
                == 1 && (contents[0].field("text"@) matches Some(JsonView::Text(found)) && (
            representable(rows) && nests_within(rows, 127) ==> json_parse(encode_utf8(found))
                == read_ok(rows)))
        }),
        r.label@ == "ok"@ && profile.surface == Surface::Prompt ==> ({
            let rows = JsonView::Array(result->Ok_0@.row_list());
            r.body@.field("messages"@) matches Some(JsonView::Array(messages)) && messages.len()
                == 1 && (messages[0].field("content"@) matches Some(content) && (content.field(
                "text"@,
            ) matches Some(JsonView::Text(found)) && (representable(rows) && nests_within(rows, 127)
                ==> json_parse(encode_utf8(found)) == read_ok(rows))))
        }),
{
    proof {
        lemma_labels_differ();
    }
    let op = label_op(profile);
    let dsn = profile.dsn.as_str();
    match result {
        Ok(outcome) => match profile.surface {
            Surface::Tool => {
                let rows = match &outcome.rows {
                    Some(rows) => Some(rows.as_slice()),
                    None => None,
                };
                let body = build_result_envelope(
                    tool_name,
                    backend_name,
                    dsn,
                    op,
                    rows,
                    outcome.rows_affected,
                    elapsed_ms,
                    None,
                    None,
                );
                Answer { body, label: "ok", reason: None }
            },
            Surface::Resource => {
                let rows = outcome.into_rows();
                match resolve_resource_uri(as_text(&profile.surface_uri), arguments) {
                    Some(uri) => Answer {
                        body: resource_contents_body(uri, rows.as_slice()),
                        label: "ok",
                        reason: None,
                    },
                    None => {
                        let message =
                            "resource surface requires a `uri` (set a static `uri` on the binding or invoke via a resources/read request)";
                        let body = build_failed_envelope(
                            tool_name,
                            backend_name,
                            dsn,
                            op,
                            elapsed_ms,
                            message,
                        );
                        Answer { body, label: "oracle_error", reason: Some(message.to_owned()) }
                    },
                }
            },
            Surface::Prompt => {
                let rows = outcome.into_rows();
                Answer {
                    body: prompt_messages_body(rows.as_slice()),
                    label: "ok",
                    reason: None,
                }
            },
        },
        Err(message) => {
            let body = build_failed_envelope(
                tool_name,
                backend_name,
                dsn,
                op,
                elapsed_ms,
                message.as_str(),
            );
            Answer { body, label: label_failure(message.as_str()), reason: Some(message) }
        },
    }
}

/// The answer to a call that has no plan.
pub open spec fn unplanned_answer(
    p: OracleProfile,
    backend_name: Seq<char>,
    tool_name: Seq<char>,
    message: Seq<char>,
    elapsed_ms: nat,
) -> AnswerView {
    AnswerView {
        body: failed_envelope(tool_name, backend_name, p.dsn@, p.op.word(), elapsed_ms, message),
        label: "invalid_spec"@,
        reason: Some(message),
    }
}

/// Answer a call that has no plan: its parameters could not be evaluated or
/// bound.
pub fn finish_error(
    profile: &OracleProfile,
    backend_name: &str,
    tool_name: &str,
    message: &str,
    elapsed_ms: u128,
) -> (r: Answer)
    requires
        elapsed_ms <= u64::MAX,
    ensures
        r@ == unplanned_answer(
            *profile,
            backend_name@,
            tool_name@,
            message@,
            elapsed_ms as nat,
        ),
{
    let body = build_failed_envelope(
        tool_name,
        backend_name,
        profile.dsn.as_str(),
        profile.op.as_str(),
        elapsed_ms,
        message,
    );
    Answer { body, label: "invalid_spec", reason: Some(message.to_owned()) }
}

/// Go on from the evaluation of a call's parameters: with a statement to run,
/// or with the answer that there is none.
pub fn after_evaluation(
    profile: &OracleProfile,
    backend_name: &str,
    call: &Call,
    evaluated: Result<Vec<Json>, String>,
    elapsed_ms: u128,
) -> (r: Result<StatementPlan, Answer>)
    requires
        elapsed_ms <= u64::MAX,
    ensures
        match planned(*profile, call.arguments@, evaluated_view(evaluated)) {
            Ok(plan) => r matches Ok(p) && p@ == plan,
            Err(message) => r matches Err(answer) && answer@ == unplanned_answer(
                *profile,
                backend_name@,
                call.tool_name@,
                message,
                elapsed_ms as nat,
            ),
        },
{
    match plan_call(profile, &call.arguments, evaluated) {
        Ok(plan) => Ok(plan),
        Err(message) => Err(
            finish_error(
                profile,
                backend_name,
                call.tool_name.as_str(),
                message.as_str(),
                elapsed_ms,
            ),
        ),
    }
}

/// Write an answer out as the bytes of its JSON text. The bytes read back as
/// the answer, unless it nests deeper than the reader goes.
pub fn finalize_payload(envelope: &Json) -> (r: Result<BackendResponse, BackendError>)
    ensures
        match r {
            Ok(response) => {
                &&& representable(envelope@)
                &&& response.payload@ == encode_utf8(json_text(envelope@))
                &&& !response.truncated
                &&& nests_within(envelope@, 127) ==> json_parse(response.payload@) == read_ok(
                    envelope@,
                )
            },
            Err(e) => {
                &&& !representable(envelope@)
                &&& e matches BackendError::Transport { message } && message@
                    == "Oracle plugin envelope serialization failed: the value has no JSON form"@
            },
        },
{
    match envelope.to_text() {
        Some(text) => Ok(
            BackendResponse { payload: slice_to_vec(text.as_str().as_bytes()), truncated: false },
        ),
        None => Err(
            BackendError::Transport {
                message: "Oracle plugin envelope serialization failed: the value has no JSON form".to_owned(),
            },
        ),
    }
}

// ----------------------------------------------------------------------- laws

/// The statement of a binding is fixed by the operator: whatever a caller
/// supplies, it changes neither the text, nor what kind of statement it is, nor
/// the row limit.
pub proof fn lemma_statement_is_operator_fixed(
    p: OracleProfile,
    a: JsonView,
    e: Result<Seq<JsonView>, Seq<char>>,
    b: JsonView,
    f: Result<Seq<JsonView>, Seq<char>>,
)
    requires
        !p.operation.catalog(),
        planned(p, a, e) is Ok,
        planned(p, b, f) is Ok,
    ensures
        planned(p, a, e)->Ok_0.sql == planned(p, b, f)->Ok_0.sql,
        planned(p, a, e)->Ok_0.op == planned(p, b, f)->Ok_0.op,
        planned(p, a, e)->Ok_0.size_limit == planned(p, b, f)->Ok_0.size_limit,
{
}

/// Every evaluated parameter becomes one bind, at its own place; a text is
/// carried whole and unchanged, whatever it looks like.
pub proof fn lemma_params_become_binds(p: OracleProfile, a: JsonView, values: Seq<JsonView>, i: int)
    requires
        !p.operation.catalog(),
        planned(p, a, Ok(values)) is Ok,
        0 <= i < values.len(),
    ensures
        planned(p, a, Ok(values))->Ok_0.binds.len() == values.len(),
        lowered(values[i]) == Some(planned(p, a, Ok(values))->Ok_0.binds[i]),
        values[i] matches JsonView::Text(t) ==> planned(p, a, Ok(values))->Ok_0.binds[i]
            == BindView::Str(t),
{
}

/// What the parameters of a spec evaluate to over the arguments of a call, in
/// order, by some way to evaluate an expression.
pub open spec fn evaluated_params(
    spec: OracleBackendSpec,
    evaluate: spec_fn(Seq<char>, JsonView) -> JsonView,
    arguments: JsonView,
) -> Seq<JsonView> {
    Seq::new(spec.params@.len(), |i: int| evaluate(spec.params@[i]@, arguments))
}

/// The plan runs the operator's statement as the spec has it, and passes one
/// bind for each parameter: for `params[i]` what it evaluates to over the
/// arguments.
pub open spec fn runs_as_registered(
    plan: PlanView,
    spec: OracleBackendSpec,
    evaluate: spec_fn(Seq<char>, JsonView) -> JsonView,
    arguments: JsonView,
) -> bool {
    &&& plan.sql == (match (spec.surface, spec.read_query) {
        (Surface::Resource, Some(q)) => q@,
        _ => spec.query@,
    })
    &&& plan.binds.len() == spec.params@.len()
    &&& forall|i: int|
        0 <= i < spec.params@.len() ==> lowered(evaluate((#[trigger] spec.params@[i])@, arguments))
            == Some(plan.binds[i])
}

/// Caller data reaches the database as binds only. Two calls of a registered
/// query that get as far as running run the same text, character for character
/// that of the operator's statement; and each passes exactly as many binds as
/// the spec has parameters, the one for `params[i]` being what that expression
/// evaluates to over the call's own arguments, however expressions evaluate.
pub proof fn lemma_calls_differ_in_binds_only(
    spec: OracleBackendSpec,
    p: OracleProfile,
    evaluate: spec_fn(Seq<char>, JsonView) -> JsonView,
    a: JsonView,
    b: JsonView,
)
    requires
        stored_from(p, spec),
        !spec.operation.catalog(),
        planned(p, a, Ok(evaluated_params(spec, evaluate, a))) is Ok,
        planned(p, b, Ok(evaluated_params(spec, evaluate, b))) is Ok,
    ensures
        ({
            let one = planned(p, a, Ok(evaluated_params(spec, evaluate, a)))->Ok_0;
            let two = planned(p, b, Ok(evaluated_params(spec, evaluate, b)))->Ok_0;
            &&& one.sql == two.sql
            &&& one.op == two.op
            &&& runs_as_registered(one, spec, evaluate, a)
            &&& runs_as_registered(two, spec, evaluate, b)
        }),
{
    lemma_query_runs_as_registered(spec, p, evaluate, a);
    lemma_query_runs_as_registered(spec, p, evaluate, b);
}

/// A call of a registered query that gets as far as running runs as registered.
pub proof fn lemma_query_runs_as_registered(
    spec: OracleBackendSpec,
    p: OracleProfile,
    evaluate: spec_fn(Seq<char>, JsonView) -> JsonView,
    a: JsonView,
)
    requires
        stored_from(p, spec),
        !spec.operation.catalog(),
        planned(p, a, Ok(evaluated_params(spec, evaluate, a))) is Ok,
    ensures
        p.compiled_params@.len() == spec.params@.len(),
        runs_as_registered(
            planned(p, a, Ok(evaluated_params(spec, evaluate, a)))->Ok_0,
            spec,
            evaluate,
            a,
        ),
{
    let values = evaluated_params(spec, evaluate, a);
    assert(sources(p.compiled_params@).len() == spec.params.deep_view().len());
    lemma_one_bind_per_param(p, a, values);
    assert forall|i: int| 0 <= i < spec.params@.len() implies lowered(
        evaluate((#[trigger] spec.params@[i])@, a),
    ) == Some(planned(p, a, Ok(values))->Ok_0.binds[i]) by {
        assert(values[i] == evaluate(spec.params@[i]@, a));
    }
}

/// Where as many scalar values come in as the binding has parameters, the plan
/// has exactly one bind for each parameter, in order.
pub proof fn lemma_one_bind_per_param(p: OracleProfile, a: JsonView, values: Seq<JsonView>)
    requires
        !p.operation.catalog(),
        values.len() == p.compiled_params@.len(),
        all_scalar(values),
    ensures
        planned(p, a, Ok(values)) is Ok,
        planned(p, a, Ok(values))->Ok_0.binds.len() == p.compiled_params@.len(),
        forall|i: int|
            0 <= i < values.len() ==> lowered(#[trigger] values[i]) == Some(
                planned(p, a, Ok(values))->Ok_0.binds[i],
            ),
{
}

/// A catalog operation ignores the binding's statement, its op and its
/// parameters: what it runs depends on the operation, the filters and the
/// limit alone.
pub proof fn lemma_catalog_ignores_statement(
    p: OracleProfile,
    q: OracleProfile,
    a: JsonView,
    e: Result<Seq<JsonView>, Seq<char>>,
    f: Result<Seq<JsonView>, Seq<char>>,
)
    requires
        p.operation.catalog(),
        p.operation == q.operation,
        p.catalog_filters == q.catalog_filters,
        p.size_limit == q.size_limit,
    ensures
        planned(p, a, e) == planned(q, a, f),
{
}

/// A catalog operation always reads, whatever the binding's op; and so does a
/// resource read through a `read_query`, whose text it runs.
pub proof fn lemma_reads_never_mutate(
    p: OracleProfile,
    a: JsonView,
    e: Result<Seq<JsonView>, Seq<char>>,
)
    requires
        planned(p, a, e) is Ok,
        p.operation.catalog() || (p.surface == Surface::Resource && p.read_query is Some),
    ensures
        planned(p, a, e)->Ok_0.op == OracleOp::Query,
        !p.operation.catalog() ==> planned(p, a, e)->Ok_0.sql == p.read_query->0@,
{
}

proof fn lemma_labels_differ()
    ensures
        "ok"@ != "timeout"@,
        "ok"@ != "transport_error"@,
        "ok"@ != "oracle_error"@,
        "timeout"@ != "transport_error"@,
        "timeout"@ != "oracle_error"@,
{
    reveal_strlit("ok");
    reveal_strlit("timeout");
    reveal_strlit("transport_error");
    reveal_strlit("oracle_error");
    assert("ok"@.len() == 2 && "timeout"@.len() == 7);
    assert("transport_error"@.len() == 15 && "oracle_error"@.len() == 12);
}

/// A call is labelled as a success exactly where its statement succeeded and,
/// for a resource, a URI is known; a success has no reason, a failure has one,
/// and every failure is audited.
pub proof fn lemma_ok_means_success(
    p: OracleProfile,
    backend_name: Seq<char>,
    tool_name: Seq<char>,
    arguments: JsonView,
    result: Result<OutcomeView, Seq<char>>,
    elapsed_ms: nat,
)
    ensures
        ({
            let answer = answered(p, backend_name, tool_name, arguments, result, elapsed_ms);
            &&& answer.label == "ok"@ <==> result is Ok && (p.surface == Surface::Resource
                ==> resource_uri(p.surface_uri.deep_view(), arguments) is Some)
            &&& answer.label == "ok"@ <==> answer.reason is None
            &&& answer.label == "ok"@ <==> audit_action(answer.label) is None
        }),
{
    lemma_labels_differ();
    lemma_success_is_not_audited();
}

/// The envelope of a failed call classifies the reason in `downstreamError`,
/// and has no response.
pub proof fn lemma_failed_envelope_is_marked(
    tool_name: Seq<char>,
    backend_name: Seq<char>,
    dsn: Seq<char>,
    op: Seq<char>,
    elapsed_ms: nat,
    message: Seq<char>,
)
    ensures
        ({
            let body = failed_envelope(tool_name, backend_name, dsn, op, elapsed_ms, message);
            &&& body.field("downstreamError"@) == Some(classified(message))
            &&& body.field("response"@) == Some(JsonView::Null)
        }),
{
    lemma_error_excludes_response(
        tool_name,
        backend_name,
        dsn,
        op,
        None,
        None,
        elapsed_ms,
        Some(classified(message)),
        Some(message),
    );
}

/// A call that failed is answered with an envelope that is marked as failed, on
/// every surface: where the statement failed, where a resource has no URI, and
/// where there was no statement to run.
pub proof fn lemma_failure_is_marked(
    p: OracleProfile,
    backend_name: Seq<char>,
    tool_name: Seq<char>,
    arguments: JsonView,
    result: Result<OutcomeView, Seq<char>>,
    why: Seq<char>,
    elapsed_ms: nat,
)
    ensures
        ({
            let answer = answered(p, backend_name, tool_name, arguments, result, elapsed_ms);
            answer.reason matches Some(reason) ==> answer.body.field("downstreamError"@) == Some(
                classified(reason),
            ) && answer.body.field("response"@) == Some(JsonView::Null)
        }),
        ({
            let answer = unplanned_answer(p, backend_name, tool_name, why, elapsed_ms);
            answer.body.field("downstreamError"@) == Some(classified(why)) && answer.body.field(
                "response"@,
            ) == Some(JsonView::Null)
        }),
{
    let answer = answered(p, backend_name, tool_name, arguments, result, elapsed_ms);
    if answer.reason is Some {
        lemma_failed_envelope_is_marked(
            tool_name,
            backend_name,
            p.dsn@,
            op_label(p),
            elapsed_ms,
            answer.reason->0,
        );
    }
    lemma_failed_envelope_is_marked(
        tool_name,
        backend_name,
        p.dsn@,
        p.op.word(),
        elapsed_ms,
        why,
    );
}

/// A tool call that succeeded is answered with the rows or the count, and with
/// no error.
pub proof fn lemma_tool_success_has_response(
    p: OracleProfile,
    backend_name: Seq<char>,
    tool_name: Seq<char>,
    arguments: JsonView,
    outcome: OutcomeView,
    elapsed_ms: nat,
)
    requires
        p.surface == Surface::Tool,
    ensures
        ({
            let answer = answered(
                p,
                backend_name,
                tool_name,
                arguments,
                Ok(outcome),
                elapsed_ms,
            );
            &&& answer.body.field("downstreamError"@) == Some(JsonView::Null)
            &&& answer.body.field("response"@) != Some(JsonView::Null)
        }),
{
    lemma_error_excludes_response(
        tool_name,
        backend_name,
        p.dsn@,
        op_label(p),
        outcome.rows,
        outcome.rows_affected,
        elapsed_ms,
        None,
        None,
    );
}

/// A call that is labelled as a timeout is marked for a retry.
pub proof fn lemma_timeout_is_retryable(message: Seq<char>)
    requires
        failed_label(message) == "timeout"@,
    ensures
        connection_failure(message),
{
    lemma_labels_differ();
}

/// Whatever keeps a connection from being acquired is marked for a retry.
pub proof fn lemma_pool_failure_is_retryable(reply: PoolReply)
    requires
        acquire_error(reply) is Some,
    ensures
        connection_failure(acquire_error(reply)->0),
{
    let message = acquire_error(reply)->0;
    reveal_strlit("Oracle pool acquire failed: ");
    reveal_strlit("Oracle pool acquire timed out");
    reveal_strlit("oracle pool acquire failed");
    reveal_strlit("oracle pool acquire timed out");
    if reply is TimedOut {
        assert(lower(message).subrange(0, 29) =~= "oracle pool acquire timed out"@);
        lemma_connection_prefix(message, 3);
    } else {
        assert(lower(message).subrange(0, 26) =~= "oracle pool acquire failed"@);
        lemma_connection_prefix(message, 2);
    }
}

/// A session that could not be made ready is marked for a retry, whatever the
/// reason: no statement was sent.
pub proof fn lemma_unready_session_is_retryable(reason: Seq<char>)
    ensures
        connection_failure(failed_call(Phase::Starting) + reason),
{
    let message = failed_call(Phase::Starting) + reason;
    reveal_strlit("Oracle set_call_timeout failed: ");
    reveal_strlit("oracle set_call_timeout failed");
    assert(lower(message).subrange(0, 30) =~= "oracle set_call_timeout failed"@);
    lemma_connection_prefix(message, 5);
}

/// Of a statement that failed, what the driver said decides alone: none of the
/// texts that the library puts in front of it counts as a connection failure.
pub proof fn lemma_statement_failure_goes_by_reason(phase: Phase, reason: Seq<char>)
    requires
        phase != Phase::Starting,
        phase != Phase::Finished,
    ensures
        !begins_with_any(lower(failed_call(phase) + reason), CONNECTION_PREFIXES@),
{
    let message = failed_call(phase) + reason;
    let text = lower(message);
    reveal_strlit("Oracle query failed: ");
    reveal_strlit("Oracle row read failed: ");
    reveal_strlit("Oracle execute failed: ");
    reveal_strlit("Oracle row_count failed: ");
    reveal_strlit("Oracle commit failed: ");
    reveal_strlit("oracle connect/login failed");
    reveal_strlit("oracle connect worker task failed");
    reveal_strlit("oracle pool acquire failed");
    reveal_strlit("oracle pool acquire timed out");
    reveal_strlit("oracle call timed out");
    reveal_strlit("oracle set_call_timeout failed");
    assert forall|k: int| 0 <= k < CONNECTION_PREFIXES@.len() implies !begins_with(
        text,
        #[trigger] CONNECTION_PREFIXES@[k]@,
    ) by {
        let own = CONNECTION_PREFIXES@[k]@;
        if begins_with(text, own) {
            let head = text.subrange(0, own.len() as int);
            assert(head[7] == text[7] && head[8] == text[8] && head[9] == text[9]);
            assert(text[7] == lower_char(message[7]));
            assert(text[8] == lower_char(message[8]));
            assert(text[9] == lower_char(message[9]));
        }
    }
}

/// A call that ran out of time, waiting for a connection or for its statement,
/// is labelled as a timeout.
pub proof fn lemma_timeouts_are_labelled()
    ensures
        acquire_error(PoolReply::TimedOut) matches Some(message) && failed_label(message)
            == "timeout"@,
        worked(WorkerReply::TimedOut) matches Err(message) && failed_label(message) == "timeout"@,
{
    reveal_strlit("timed out");
    reveal_strlit("Oracle pool acquire timed out");
    reveal_strlit("Oracle call timed out");
    let waiting = lower("Oracle pool acquire timed out"@);
    let running = lower("Oracle call timed out"@);
    reveal_strlit("oracle pool acquire timed out");
    reveal_strlit("oracle call timed out");
    assert(waiting.subrange(0, 29) =~= "oracle pool acquire timed out"@);
    lemma_connection_prefix("Oracle pool acquire timed out"@, 3);
    assert(running.subrange(0, 21) =~= "oracle call timed out"@);
    lemma_connection_prefix("Oracle call timed out"@, 4);
    assert(waiting.subrange(20, 29) =~= "timed out"@);
    assert(occurs_at(waiting, "timed out"@, 20));
    assert(running.subrange(12, 21) =~= "timed out"@);
    assert(occurs_at(running, "timed out"@, 12));
}

/// An answer can always be written out, and reads back: where the rows can be
/// written and leave room for the levels that the envelope puts around them.
/// Rows that a run fetched are flat, so they do.
pub proof fn lemma_answer_is_writable(
    p: OracleProfile,
    backend_name: Seq<char>,
    tool_name: Seq<char>,
    arguments: JsonView,
    result: Result<OutcomeView, Seq<char>>,
    why: Seq<char>,
    elapsed_ms: nat,
)
    requires
        elapsed_ms <= u64::MAX,
        result matches Ok(outcome) ==> {
            &&& outcome.row_list().len() <= u64::MAX
            &&& forall|i: int|
                0 <= i < outcome.row_list().len() ==> writable(
                    #[trigger] outcome.row_list()[i],
                    124,
                )
            &&& outcome.rows_affected matches Some(k) ==> k <= u64::MAX
        },
    ensures
        writable(
            answered(p, backend_name, tool_name, arguments, result, elapsed_ms).body,
            127,
        ),
        writable(unplanned_answer(p, backend_name, tool_name, why, elapsed_ms).body, 127),
{
    let answer = answered(p, backend_name, tool_name, arguments, result, elapsed_ms);
    lemma_failed_is_writable(tool_name, backend_name, p.dsn@, p.op.word(), elapsed_ms, why);
    if answer.reason is Some {
        lemma_failed_is_writable(
            tool_name,
            backend_name,
            p.dsn@,
            op_label(p),
            elapsed_ms,
            answer.reason->0,
        );
    } else {
        let outcome = result->Ok_0;
        let text = rows_text(outcome.row_list());
        let uri = resource_uri(p.surface_uri.deep_view(), arguments);
        if p.surface == Surface::Tool {
            if let Some(r) = outcome.rows {
                assert(outcome.row_list() == r);
            }
            lemma_envelope_is_writable(
                tool_name,
                backend_name,
                p.dsn@,
                op_label(p),
                outcome.rows,
                outcome.rows_affected,
                elapsed_ms,
                None,
                None,
                124,
            );
        } else {
            if let Some(u) = uri {
                lemma_bodies_are_writable(u, text);
            }
            lemma_bodies_are_writable(Seq::empty(), text);
            lemma_writable_deeper(answer.body, 4, 127);
        }
    }
}

proof fn lemma_failed_is_writable(
    tool_name: Seq<char>,
    backend_name: Seq<char>,
    dsn: Seq<char>,
    op: Seq<char>,
    elapsed_ms: nat,
    message: Seq<char>,
)
    requires
        elapsed_ms <= u64::MAX,
    ensures
        writable(failed_envelope(tool_name, backend_name, dsn, op, elapsed_ms, message), 127),
{
    lemma_error_is_writable(failure_kind(message), message, connection_failure(message));
    lemma_envelope_is_writable(
        tool_name,
        backend_name,
        dsn,
        op,
        None,
        None,
        elapsed_ms,
        Some(classified(message)),
        Some(message),
        124,
    );
}

} // verus!
