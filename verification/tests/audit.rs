use oracle_backend::audit::{
    audit_action_for_outcome, audit_event, reject_bare_cred, synthetic_system_identity,
    AuditOutcome, PluginIdentity, CALLS_METRIC, LATENCY_METRIC, OUTCOME_LABEL,
};
use oracle_backend::json::Json;

#[test]
fn actions_by_outcome() {
    assert_eq!(
        audit_action_for_outcome("timeout"),
        Some("dev.mcpg.backend.oracle.request_timeout")
    );
    assert_eq!(
        audit_action_for_outcome("transport_error"),
        Some("dev.mcpg.backend.oracle.request_failed")
    );
    assert_eq!(
        audit_action_for_outcome("oracle_error"),
        Some("dev.mcpg.backend.oracle.query_rejected")
    );
    assert_eq!(
        audit_action_for_outcome("invalid_spec"),
        Some("dev.mcpg.backend.oracle.request_failed")
    );
    assert_eq!(audit_action_for_outcome("ok"), None);
    assert_eq!(audit_action_for_outcome("profile_not_found"), None);
    assert_eq!(audit_action_for_outcome("Timeout"), None);
}

#[test]
fn bare_cred_is_rejected_anywhere() {
    assert_eq!(reject_bare_cred("read_query", "SELECT 1 FROM dual"), Ok(()));
    assert_eq!(
        reject_bare_cred("read_query", "SELECT 'cred://a' FROM dual"),
        Err(
            "read_query must not contain a bare cred:// URI — use ${cred://…} (resolved at config load)"
                .to_owned()
        )
    );
    assert!(reject_bare_cred("f", "cred://").is_err());
    assert!(reject_bare_cred("f", "cred:/").is_ok());
}

#[test]
fn system_identity_has_no_grants() {
    let id = synthetic_system_identity();
    assert_eq!((id.kind.as_str(), id.trust_level.as_str()), ("system", "verified"));
    assert_eq!(id.subject_id.as_deref(), Some("dev.mcpg.backend.oracle"));
    assert!(id.roles.is_empty() && id.groups.is_empty() && id.scopes.is_empty());
    assert!(id.attributes.is_empty() && id.auth_provider.is_none() && id.issuer.is_none());
}

#[test]
fn failed_call_is_audited() {
    let e = audit_event(
        "users", "timeout", Some("slow"), None, "rq-1", "ora", 12, 12_000_345, "now".to_owned(),
    )
    .unwrap();
    assert_eq!(e.event_id, "oracle-rq-1-12000345");
    assert_eq!(e.occurred_at, "now");
    assert_eq!(e.actor, synthetic_system_identity());
    assert_eq!(e.action, "dev.mcpg.backend.oracle.request_timeout");
    assert_eq!(e.resource.as_deref(), Some("oracle-binding://users"));
    assert_eq!(e.outcome, AuditOutcome::Failure);
    assert_eq!(e.request_id.as_deref(), Some("rq-1"));
    assert_eq!(e.node_id, None);
    assert_eq!(e.prev_event_hash, None);
    assert_eq!(
        e.details,
        Json::Object(vec![
            ("backend".to_owned(), Json::text("users")),
            ("duration_ms".to_owned(), Json::Integer(12)),
            ("outcome".to_owned(), Json::text("timeout")),
            ("alias".to_owned(), Json::text("ora")),
            ("reason".to_owned(), Json::text("slow")),
        ])
    );
}

#[test]
fn caller_is_the_actor_and_long_durations_wrap() {
    let caller = || PluginIdentity { kind: "user".to_owned(), ..synthetic_system_identity() };
    let e = audit_event(
        "b",
        "oracle_error",
        None,
        Some(caller()),
        "r",
        "a",
        (u64::MAX as u128) + 6,
        0,
        "t".to_owned(),
    )
    .unwrap();
    assert_eq!(e.actor, caller());
    assert_eq!(e.details.get("duration_ms"), Some(&Json::Integer(5)));
    assert_eq!(e.details.get("reason"), None);
    assert_eq!(e.event_id, "oracle-r-0");
}

#[test]
fn successful_call_is_not_audited() {
    assert_eq!(audit_event("b", "ok", None, None, "r", "a", 1, 1, "t".to_owned()), None);
}

#[test]
fn metric_names() {
    assert_eq!(LATENCY_METRIC, "mcpg_oracle_backend_latency_seconds");
    assert_eq!(CALLS_METRIC, "mcpg_oracle_backend_calls_total");
    assert_eq!(OUTCOME_LABEL, "outcome");
}
