use oracle_backend::json::Json;
use oracle_backend::oracle::QueryOutcome;
use oracle_backend::plugin::PluginClass;
use oracle_backend::types::OracleOp;
use oracle_backend::watch::{
    cursor_from_outcome, default_interval_ms, default_timeout_ms, poll_result, pool_error,
    runtime_error, OracleWatchCdylib, WatchError, WatchSpec, PLUGIN_ID, WATCH_KIND,
};

fn object(entries: Vec<(&str, Json)>) -> Json {
    Json::Object(entries.into_iter().map(|(k, v)| (k.to_owned(), v)).collect())
}

fn plugin() -> OracleWatchCdylib {
    OracleWatchCdylib::from_host_config("")
}

fn spec(password: &str, tracking_query: &str) -> WatchSpec {
    WatchSpec {
        dsn: "//db:1521/S".into(),
        username: "u".into(),
        password: password.into(),
        tracking_query: tracking_query.into(),
        interval_ms: default_interval_ms(),
        timeout_ms: default_timeout_ms(),
    }
}

fn invalid(message: &str) -> WatchError {
    WatchError::InvalidSpec { message: message.to_owned() }
}

fn rows(rows: Vec<Json>) -> QueryOutcome {
    QueryOutcome { rows: Some(rows), rows_affected: None }
}

#[test]
fn manifest_and_kind_are_correct() {
    let p = plugin();
    let m = p.manifest();
    assert_eq!(m.id, PLUGIN_ID);
    assert_eq!(m.plugin_class, PluginClass::WatchStrategy);
    assert_eq!(p.kind(), WATCH_KIND);
    assert_eq!(WATCH_KIND, "oracle_poll");
}

#[test]
fn watch_defaults() {
    assert_eq!(default_interval_ms(), 60_000);
    assert_eq!(default_timeout_ms(), 10_000);
}

#[test]
fn empty_tracking_query_is_invalid_spec() {
    assert_eq!(
        plugin().plan_watch(spec("p", "   "), Ok(())).err(),
        Some(invalid("tracking_query must not be empty"))
    );
}

#[test]
fn non_read_only_tracking_query_is_invalid_spec() {
    assert_eq!(
        plugin().plan_watch(spec("p", "DELETE FROM events"), Err("not read-only".to_owned())).err(),
        Some(invalid("not read-only"))
    );
}

#[test]
fn cred_password_is_invalid_spec() {
    assert!(matches!(
        plugin().plan_watch(spec("cred://vault/oracle", "SELECT max(t) FROM e"), Ok(())),
        Err(WatchError::InvalidSpec { .. })
    ));
}

#[test]
fn blank_connection_fields_are_invalid() {
    let mut s = spec("p", "SELECT 1 FROM dual");
    s.dsn = " ".into();
    assert_eq!(plugin().plan_watch(s, Ok(())).err(), Some(invalid("dsn must not be empty")));
    let mut s = spec("p", "SELECT 1 FROM dual");
    s.username = "".into();
    assert_eq!(plugin().plan_watch(s, Ok(())).err(), Some(invalid("username must not be empty")));
}

#[test]
fn watch_plans_one_row_without_binds() {
    let mut s = spec("p", "SELECT count(*) FROM events");
    s.interval_ms = 30_000;
    s.timeout_ms = 5_000;
    let plan = plugin().plan_watch(s, Ok(())).unwrap();
    assert_eq!(plan.tracking.sql, "SELECT count(*) FROM events");
    assert!(plan.tracking.binds.is_empty());
    assert_eq!(plan.tracking.op, OracleOp::Query);
    assert_eq!(plan.tracking.size_limit, 1);
    assert_eq!(plan.pool_max_size, 1);
    assert_eq!((plan.interval_ms, plan.timeout_ms), (30_000, 5_000));
    assert_eq!(plan.manager.dsn(), "//db:1521/S");
}

#[test]
fn subscribe_errors() {
    assert_eq!(
        runtime_error("e"),
        WatchError::Subscribe { message: "oracle_poll: tokio runtime init failed: e".to_owned() }
    );
    assert_eq!(
        pool_error("e"),
        WatchError::Subscribe { message: "oracle_poll: pool build failed: e".to_owned() }
    );
}

#[test]
fn cursor_from_outcome_extracts_first_scalar() {
    let outcome =
        rows(vec![object(vec![("MAX(UPDATED_AT)", Json::text("2026-06-23 10:00:00"))])]);
    assert_eq!(cursor_from_outcome(&outcome).as_deref(), Some("2026-06-23 10:00:00"));
    let outcome = rows(vec![object(vec![("COUNT(*)", Json::Integer(42))])]);
    assert_eq!(cursor_from_outcome(&outcome).as_deref(), Some("42"));
}

#[test]
fn cursor_from_outcome_none_on_zero_rows_or_null() {
    assert_eq!(cursor_from_outcome(&rows(vec![])), None);
    let no_rows = QueryOutcome { rows: None, rows_affected: Some(0) };
    assert_eq!(cursor_from_outcome(&no_rows), None);
    let null = rows(vec![object(vec![("MAX(T)", Json::Null)])]);
    assert_eq!(cursor_from_outcome(&null), None);
}

#[test]
fn cursor_is_the_first_column_only() {
    let outcome = rows(vec![object(vec![("Z", Json::Bool(true)), ("A", Json::Integer(1))])]);
    assert_eq!(cursor_from_outcome(&outcome).as_deref(), Some("true"));
    assert_eq!(cursor_from_outcome(&rows(vec![object(vec![])])), None);
    assert_eq!(cursor_from_outcome(&rows(vec![Json::Integer(1)])), None);
}

#[test]
fn ticks_report_cursor_or_error() {
    assert_eq!(
        poll_result(Ok(rows(vec![object(vec![("N", Json::Integer(5))])]))),
        Ok(Some("5".to_owned()))
    );
    assert_eq!(poll_result(Ok(rows(vec![]))), Ok(None));
    assert_eq!(poll_result(Err("e".to_owned())), Err("e".to_owned()));
}
