use oracle_backend::envelope::{
    build_result_envelope, catalog_envelope_schema, classify_error, oracle_downstream_error,
    result_envelope_schema,
};
use oracle_backend::json::Json;

fn object(entries: Vec<(&str, Json)>) -> Json {
    Json::Object(entries.into_iter().map(|(k, v)| (k.to_owned(), v)).collect())
}

fn at<'a>(v: &'a Json, path: &[&str]) -> &'a Json {
    let mut v = v;
    for key in path {
        v = v.get(key).unwrap();
    }
    v
}

fn keys(v: &Json) -> Vec<String> {
    match v {
        Json::Object(entries) => entries.iter().map(|(k, _)| k.clone()).collect(),
        other => panic!("not an object: {other:?}"),
    }
}

#[test]
fn connect_failure_is_retryable_transport_error() {
    let e = classify_error("Oracle connect/login failed: connection refused");
    assert_eq!(at(&e, &["kind"]), &Json::text("transport_error"));
    assert_eq!(at(&e, &["retryable"]), &Json::Bool(true));
}

#[test]
fn dropped_connection_ora_marker_is_retryable() {
    let e = classify_error("Oracle query failed: ORA-03114: not connected to ORACLE");
    assert_eq!(at(&e, &["kind"]), &Json::text("transport_error"));
    assert_eq!(at(&e, &["retryable"]), &Json::Bool(true));
}

#[test]
fn sql_rejection_is_not_retryable() {
    let e = classify_error("Oracle query failed: ORA-00904: \"BOGUS\": invalid identifier");
    assert_eq!(at(&e, &["kind"]), &Json::text("oracle_error"));
    assert_eq!(at(&e, &["retryable"]), &Json::Bool(false));
}

fn assert_retryable(message: &str, retryable: bool) {
    let kind = if retryable { "transport_error" } else { "oracle_error" };
    let e = classify_error(message);
    assert_eq!(at(&e, &["kind"]), &Json::text(kind), "{message}");
    assert_eq!(at(&e, &["retryable"]), &Json::Bool(retryable), "{message}");
    assert_eq!(at(&e, &["message"]), &Json::text(message));
}

#[test]
fn names_in_a_rejection_do_not_make_it_retryable() {
    for message in [
        "Oracle query failed: ORA-00942: table or view SPOOL_LOG does not exist",
        "Oracle query failed: OCI Error: ORA-00904: \"CONNECT_TIMEOUT\": invalid identifier",
        "Oracle execute failed: ORA-00001: unique constraint (APP.GEOFENCE_UK) violated",
        "Oracle query failed: ORA-04098: trigger 'APP.POOL_TIMEOUT' is invalid",
        "evaluating params: the evaluation timed out",
        "binding params: broken pipe, ORA-03113",
        "time out",
        "ora-0313",
        "",
    ] {
        assert_retryable(message, false);
    }
}

#[test]
fn lost_connections_are_retryable_in_any_case() {
    for message in [
        "Oracle connect/login failed: ORA-01017: invalid username/password",
        "ORACLE CONNECT/LOGIN FAILED",
        "Oracle connect worker task failed: panicked",
        "Oracle pool acquire failed: Error occurred while creating a new object: ORA-12541",
        "Oracle pool acquire timed out",
        "Oracle call timed out",
        "Oracle query failed: DPI Error: DPI-1067: call timeout of 5 ms exceeded with ORA-03156",
        "Oracle commit failed: DPI Error: DPI-1080: connection was closed by ORA-00028",
        "Oracle execute failed: DPI Error: DPI-1010: not connected",
        "Oracle query failed: ora-03135",
        "ORA-03113",
        "ORA-03050: x",
        "ORA-03059: x",
        "Oracle row read failed: Broken Pipe",
        "Oracle row read failed: Connection Reset by peer",
        "Oracle row read failed: Unexpected EOF",
        "Oracle query failed: ORA-12170: TNS:Connect timeout occurred",
        "Oracle query failed: ORA-12537: TNS:connection closed",
        "Oracle query failed: ORA-12535: TNS:operation timed out",
        "Oracle query failed: ORA-12606: TNS: Application timeout occurred",
        "Oracle query failed: ORA-12608: TNS: Send timeout occurred",
        "Oracle query failed: ORA-12609: TNS: Receive timeout occurred",
        "Oracle execute failed: ORA-00054: resource busy and acquire with NOWAIT specified or timeout expired",
        "Oracle execute failed: ORA-02049: timeout: distributed transaction waiting for lock",
        "Oracle execute failed: ORA-04021: timeout occurred while waiting to lock object",
        "Oracle execute failed: ORA-30006: resource busy; acquire with WAIT timeout expired",
        "Oracle query failed: ORA-02068: following severe error from LINK\nORA-03113: end-of-file",
        "Oracle set_call_timeout failed: too long duration",
        "connect", "login failed", "pool", "timed out", "timeout", "broken pipe",
        "connection reset", "eof", "ORA-03050", "ORA-03114", "ORA-03135",
    ] {
        assert_retryable(message, true);
    }
}

#[test]
fn downstream_error_object_is_exact() {
    assert_eq!(
        oracle_downstream_error("transport_error", "m", true),
        object(vec![
            ("kind", Json::text("transport_error")),
            ("code", Json::text("mcpg.downstream_oracle.transport_error")),
            ("message", Json::text("m")),
            ("retryable", Json::Bool(true)),
            ("retryClass", Json::text("with_backoff")),
            ("suggestedAction", Json::text("check_database_connectivity_and_retry")),
        ])
    );
    let e = oracle_downstream_error("oracle_error", "m", false);
    assert_eq!(at(&e, &["retryClass"]), &Json::text("do_not_retry"));
    assert_eq!(at(&e, &["suggestedAction"]), &Json::text("inspect_sql_error"));
}

#[test]
fn query_envelope_has_rows_and_count() {
    let rows = vec![object(vec![("id", Json::Integer(1))])];
    let env = build_result_envelope(
        "u.get", "u.get", "//db:1521/ORCLPDB1", "query", Some(&rows), None, 7, None, None,
    );
    assert_eq!(at(&env, &["response", "count"]), &Json::Integer(1));
    match at(&env, &["response", "rows"]) {
        Json::Array(rows) => assert_eq!(at(&rows[0], &["id"]), &Json::Integer(1)),
        other => panic!("not an array: {other:?}"),
    }
    assert_eq!(at(&env, &["request", "dsn"]), &Json::text("//db:1521/ORCLPDB1"));
    assert_eq!(at(&env, &["downstreamError"]), &Json::Null);
    assert_eq!(at(&env, &["response", "durationMs"]), &Json::Integer(7));
    assert_eq!(at(&env, &["response", "rowsAffected"]), &Json::Null);
    assert_eq!(at(&env, &["downstreamErrors"]), &Json::Array(vec![]));
    assert_eq!(at(&env, &["error"]), &Json::Null);
}

#[test]
fn execute_envelope_has_rows_affected() {
    let env = build_result_envelope(
        "u.upd", "u.upd", "//db:1521/ORCLPDB1", "execute", None, Some(3), 4, None, None,
    );
    assert_eq!(at(&env, &["response", "rowsAffected"]), &Json::Integer(3));
    assert_eq!(at(&env, &["response", "rows"]), &Json::Null);
    assert_eq!(at(&env, &["response", "count"]), &Json::Null);
}

#[test]
fn error_envelope_nulls_response() {
    let d = classify_error("Oracle execute failed: ORA-00001: unique constraint violated");
    let env = build_result_envelope(
        "u.upd",
        "u.upd",
        "//db:1521/ORCLPDB1",
        "execute",
        None,
        None,
        2,
        Some(&d),
        Some("unique constraint violated"),
    );
    assert_eq!(at(&env, &["response"]), &Json::Null);
    assert_eq!(at(&env, &["downstreamError", "kind"]), &Json::text("oracle_error"));
    assert_eq!(at(&env, &["downstreamErrors"]), &Json::Array(vec![d]));
    assert_eq!(at(&env, &["error"]), &Json::text("unique constraint violated"));
}

#[test]
fn longest_duration_is_kept() {
    let env =
        build_result_envelope("t", "p", "d", "query", None, None, u64::MAX as u128, None, None);
    assert_eq!(at(&env, &["response", "durationMs"]), &Json::Integer(u64::MAX as i128));
}

#[test]
fn catalog_schema_types_the_known_columns() {
    let schema = catalog_envelope_schema(&["OWNER", "TABLE_NAME", "COLUMN_ID"]);
    let items = at(&schema, &["properties", "response", "properties", "rows", "items"]);
    assert_eq!(at(items, &["type"]), &Json::text("object"));
    assert!(matches!(at(items, &["properties", "OWNER"]), Json::Object(_)));
    assert!(matches!(at(items, &["properties", "TABLE_NAME"]), Json::Object(_)));
    assert!(matches!(at(items, &["properties", "COLUMN_ID"]), Json::Object(_)));
    assert_eq!(at(items, &["additionalProperties"]), &Json::Bool(true));
    assert_eq!(
        at(items, &["properties", "OWNER", "type"]),
        &Json::Array(vec![Json::text("string"), Json::text("number"), Json::text("null")])
    );
}

#[test]
fn repeated_catalog_column_is_listed_once() {
    let schema = catalog_envelope_schema(&["A", "B", "A"]);
    let items = at(&schema, &["properties", "response", "properties", "rows", "items"]);
    assert_eq!(keys(at(items, &["properties"])), vec!["A".to_owned(), "B".to_owned()]);
}

#[test]
fn output_schema_matches_envelope_shape() {
    let schema = result_envelope_schema();
    assert_eq!(at(&schema, &["type"]), &Json::text("object"));
    let rows = vec![object(vec![("id", Json::Integer(1))])];
    let env = build_result_envelope(
        "u.get", "u.get", "//db:1521/ORCLPDB1", "query", Some(&rows), None, 7, None, None,
    );
    let props = at(&schema, &["properties"]);
    for key in keys(&env) {
        assert!(props.get(&key).is_some(), "schema missing key `{key}`");
    }
    assert_eq!(
        at(&schema, &["properties", "response", "properties", "rows", "items"]),
        &object(vec![])
    );
    assert_eq!(keys(&env), keys(props));
    assert_eq!(
        keys(at(&env, &["response"])),
        keys(at(&schema, &["properties", "response", "properties"]))
    );
    assert_eq!(
        keys(at(&env, &["request"])),
        keys(at(&schema, &["properties", "request", "properties"]))
    );
}

#[test]
fn schema_text_is_exact() {
    assert_eq!(
        result_envelope_schema().to_text().unwrap(),
        "{\"$schema\":\"https://json-schema.org/draft/2020-12/schema\",\"type\":\"object\",\
         \"properties\":{\"toolName\":{\"type\":\"string\"},\"profile\":{\"type\":\"string\"},\
         \"request\":{\"type\":\"object\",\"properties\":{\"dsn\":{\"type\":\"string\"},\
         \"op\":{\"type\":\"string\"}},\"additionalProperties\":true},\
         \"response\":{\"type\":[\"object\",\"null\"],\"properties\":{\
         \"rows\":{\"type\":[\"array\",\"null\"],\"items\":{}},\
         \"count\":{\"type\":[\"integer\",\"null\"]},\
         \"rowsAffected\":{\"type\":[\"integer\",\"null\"]},\
         \"durationMs\":{\"type\":\"integer\"}},\"additionalProperties\":true},\
         \"downstreamError\":{\"type\":[\"object\",\"null\"]},\
         \"downstreamErrors\":{\"type\":\"array\",\"items\":{}},\
         \"error\":{\"type\":[\"string\",\"null\"]}},\"additionalProperties\":true}"
    );
}
