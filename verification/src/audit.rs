//! What a call leaves behind for the operator: metrics, and an audit event
//! where the call failed.

use vstd::prelude::*;
use vstd::string::*;

use crate::json::{entry, entry_views, Json, JsonView};
use crate::text::{contains, contains_text, decimal, push_u128, same_text};
use crate::types::reports;

verus! {

/// The histogram of call latencies.
pub const LATENCY_METRIC: &'static str = "mcpg_oracle_backend_latency_seconds";

/// The counter of calls.
pub const CALLS_METRIC: &'static str = "mcpg_oracle_backend_calls_total";

/// The label that both metrics carry.
pub const OUTCOME_LABEL: &'static str = "outcome";

/// The audit action of an outcome; an outcome that is no failure has none.
pub open spec fn audit_action(label: Seq<char>) -> Option<Seq<char>> {
    if label == "timeout"@ {
        Some("dev.mcpg.backend.oracle.request_timeout"@)
    } else if label == "transport_error"@ {
        Some("dev.mcpg.backend.oracle.request_failed"@)
    } else if label == "oracle_error"@ {
        Some("dev.mcpg.backend.oracle.query_rejected"@)
    } else if label == "invalid_spec"@ {
        Some("dev.mcpg.backend.oracle.request_failed"@)
    } else {
        None
    }
}

/// The audit action of an outcome.
pub fn audit_action_for_outcome(label: &str) -> (r: Option<&'static str>)
    ensures
        r.deep_view() == audit_action(label@),
{
    if same_text(label, "timeout") {
        Some("dev.mcpg.backend.oracle.request_timeout")
    } else if same_text(label, "transport_error") {
        Some("dev.mcpg.backend.oracle.request_failed")
    } else if same_text(label, "oracle_error") {
        Some("dev.mcpg.backend.oracle.query_rejected")
    } else if same_text(label, "invalid_spec") {
        Some("dev.mcpg.backend.oracle.request_failed")
    } else {
        None
    }
}

/// What is wrong with an operator-fixed text that holds a bare `cred://` URI.
pub open spec fn bare_cred_fault(field: Seq<char>, value: Seq<char>) -> Option<Seq<char>> {
    if contains_text(value, "cred://"@) {
        Some(
            field
                + " must not contain a bare cred:// URI — use ${cred://…} (resolved at config load)"@,
        )
    } else {
        None
    }
}

/// Reject a bare `cred://` URI in an operator-fixed text. It would reach the
/// server as it stands, which is always a mistake.
pub fn reject_bare_cred(field: &str, value: &str) -> (r: Result<(), String>)
    ensures
        reports(r, bare_cred_fault(field@, value@)),
{
    if contains(value, "cred://") {
        let mut message = field.to_owned();
        message.append(
            " must not contain a bare cred:// URI — use ${cred://…} (resolved at config load)",
        );
        return Err(message);
    }
    Ok(())
}

/// Who acts.
#[derive(Debug, Clone, PartialEq)]
pub struct PluginIdentity {
    pub kind: String,
    pub trust_level: String,
    pub subject_id: Option<String>,
    pub auth_provider: Option<String>,
    pub issuer: Option<String>,
    pub roles: Vec<String>,
    pub groups: Vec<String>,
    pub scopes: Vec<String>,
    pub attributes: Vec<(String, Json)>,
}

/// The identity is the plugin itself, verified and without any grants.
pub open spec fn is_system_identity(id: PluginIdentity) -> bool {
    &&& id.kind@ == "system"@
    &&& id.trust_level@ == "verified"@
    &&& id.subject_id.deep_view() == Some("dev.mcpg.backend.oracle"@)
    &&& id.auth_provider is None
    &&& id.issuer is None
    &&& id.roles@.len() == 0
    &&& id.groups@.len() == 0
    &&& id.scopes@.len() == 0
    &&& id.attributes@.len() == 0
}

/// The identity that acts where a call carries none.
pub fn synthetic_system_identity() -> (r: PluginIdentity)
    ensures
        is_system_identity(r),
{
    PluginIdentity {
        kind: "system".to_owned(),
        trust_level: "verified".to_owned(),
        subject_id: Some("dev.mcpg.backend.oracle".to_owned()),
        auth_provider: None,
        issuer: None,
        roles: Vec::new(),
        groups: Vec::new(),
        scopes: Vec::new(),
        attributes: Vec::new(),
    }
}

/// How an audited action came out.
#[derive(Debug, Clone, Copy, PartialEq, Eq, Structural)]
pub enum AuditOutcome {
    Success,
    Failure,
}

/// A record of a failed call.
#[derive(Debug, PartialEq)]
pub struct AuditEvent {
    pub event_id: String,
    pub occurred_at: String,
    pub actor: PluginIdentity,
    pub action: String,
    pub resource: Option<String>,
    pub outcome: AuditOutcome,
    pub request_id: Option<String>,
    pub node_id: Option<String>,
    pub details: Json,
    pub prev_event_hash: Option<String>,
}

/// The low 64 bits of a number.
pub open spec fn low_64(n: nat) -> nat {
    n % 0x1_0000_0000_0000_0000
}

/// The details of an audit event. The reason comes last, where there is one.
pub open spec fn audit_details(
    backend_name: Seq<char>,
    duration_ms: nat,
    label: Seq<char>,
    alias: Seq<char>,
    reason: Option<Seq<char>>,
) -> JsonView {
    let fixed = seq![
        ("backend"@, JsonView::Text(backend_name)),
        ("duration_ms"@, JsonView::Integer(low_64(duration_ms) as int)),
        ("outcome"@, JsonView::Text(label)),
        ("alias"@, JsonView::Text(alias)),
    ];
    JsonView::Object(
        match reason {
            Some(why) => fixed.push(("reason"@, JsonView::Text(why))),
            None => fixed,
        },
    )
}

fn build_details(
    backend_name: &str,
    duration_ms: u128,
    label: &str,
    alias: &str,
    reason: Option<&str>,
) -> (r: Json)
    ensures
        r@ == audit_details(
            backend_name@,
            duration_ms as nat,
            label@,
            alias@,
            reason.deep_view(),
        ),
{
    broadcast use Json::lemma_view;

    let ms: u64 = #[verifier::truncate]
    (duration_ms as u64);
    assert(duration_ms as u64 == duration_ms % 0x1_0000_0000_0000_0000u128) by (bit_vector);
    let mut entries = vec![
        entry("backend", Json::text(backend_name)),
        entry("duration_ms", Json::Integer(ms as i128)),
        entry("outcome", Json::text(label)),
        entry("alias", Json::text(alias)),
    ];
    if let Some(why) = reason {
        entries.push(entry("reason", Json::text(why)));
    }
    assert(entry_views(entries@) =~= audit_details(
        backend_name@,
        duration_ms as nat,
        label@,
        alias@,
        reason.deep_view(),
    )->Object_0);
    Json::Object(entries)
}

/// The identifier of an audit event.
pub open spec fn event_id(request_id: Seq<char>, duration_ns: nat) -> Seq<char> {
    "oracle-"@ + request_id + "-"@ + decimal(duration_ns)
}

/// The audit event of a call, if its outcome is a failure. The caller is the
/// actor where the call has one, else the plugin itself.
pub fn audit_event(
    backend_name: &str,
    label: &str,
    reason: Option<&str>,
    identity: Option<PluginIdentity>,
    request_id: &str,
    alias: &str,
    duration_ms: u128,
    duration_ns: u128,
    occurred_at: String,
) -> (r: Option<AuditEvent>)
    ensures
        r is Some <==> audit_action(label@) is Some,
        r matches Some(e) ==> {
            &&& e.event_id@ == event_id(request_id@, duration_ns as nat)
            &&& e.occurred_at@ == occurred_at@
            &&& match identity {
                Some(id) => e.actor == id,
                None => is_system_identity(e.actor),
            }
            &&& audit_action(label@) == Some(e.action@)
            &&& e.resource.deep_view() == Some("oracle-binding://"@ + backend_name@)
            &&& e.outcome == AuditOutcome::Failure
            &&& e.request_id.deep_view() == Some(request_id@)
            &&& e.node_id is None
            &&& e.details@ == audit_details(
                backend_name@,
                duration_ms as nat,
                label@,
                alias@,
                reason.deep_view(),
            )
            &&& e.prev_event_hash is None
        },
{
    match audit_action_for_outcome(label) {
        None => None,
        Some(action) => {
            let actor = match identity {
                Some(id) => id,
                None => synthetic_system_identity(),
            };
            let mut id = "oracle-".to_owned();
            id.append(request_id);
            id.append("-");
            push_u128(&mut id, duration_ns);
            let mut resource = "oracle-binding://".to_owned();
            resource.append(backend_name);
            Some(
                AuditEvent {
                    event_id: id,
                    occurred_at,
                    actor,
                    action: action.to_owned(),
                    resource: Some(resource),
                    outcome: AuditOutcome::Failure,
                    request_id: Some(request_id.to_owned()),
                    node_id: None,
                    details: build_details(backend_name, duration_ms, label, alias, reason),
                    prev_event_hash: None,
                },
            )
        },
    }
}

/// A call that went well leaves no audit event; nor does a call to a binding
/// that is not there.
pub proof fn lemma_success_is_not_audited()
    ensures
        audit_action("ok"@) is None,
        audit_action("profile_not_found"@) is None,
{
    reveal_strlit("ok");
    reveal_strlit("profile_not_found");
    reveal_strlit("timeout");
    reveal_strlit("transport_error");
    reveal_strlit("oracle_error");
    reveal_strlit("invalid_spec");
    assert("ok"@.len() == 2 && "profile_not_found"@.len() == 17);
}

} // verus!
