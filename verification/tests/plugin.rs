use oracle_backend::call::{
    after_evaluation, finalize_payload, finish_call, finish_error, first_step, plan_call, Answer,
    Call, FirstStep, StatementPlan,
};
use oracle_backend::json::Json;
use oracle_backend::oracle::{
    check_acquired, worker_result, PoolReply, QueryOutcome, WorkerReply,
};
use oracle_backend::ordered::NameMap;
use oracle_backend::params::OracleBind;
use oracle_backend::plugin::{
    BackendError, OracleBackendPlugin, OracleProfile, PluginClass, Verdicts,
};
use oracle_backend::resources::{finish_completion, finish_listing};
use oracle_backend::surface::Surface;
use oracle_backend::types::{
    CompletionConfig, ListQueryConfig, ListQueryMode, OracleBackendSpec, OracleOp, OracleOperation,
};

fn object(entries: Vec<(&str, Json)>) -> Json {
    Json::Object(entries.into_iter().map(|(k, v)| (k.to_owned(), v)).collect())
}

fn at<'a>(v: &'a Json, path: &[&str]) -> &'a Json {
    let mut v = v;
    for key in path {
        v = v.get(key).unwrap();
    }
    v
}

fn bare_spec() -> OracleBackendSpec {
    OracleBackendSpec {
        dsn: "//db.example.com:1521/ORCLPDB1".into(),
        username: "svc".into(),
        password: "${env.ORACLE_PW}".into(),
        operation: OracleOperation::Query,
        query: "".into(),
        op: OracleOp::Query,
        owner: None,
        table: None,
        owner_arg: None,
        table_arg: None,
        params: vec![],
        size_limit: 100,
        timeout_ms: 10_000,
        pool_max_size: 4,
        surface: Surface::Tool,
        uri: None,
        list_query: None,
        read_query: None,
        variable_completions: NameMap::new(),
    }
}

fn minimal_spec() -> OracleBackendSpec {
    OracleBackendSpec {
        query: "SELECT 1 FROM dual WHERE id = :1".into(),
        params: vec!["arguments.id".into()],
        ..bare_spec()
    }
}

fn passed() -> Verdicts {
    Verdicts { read_only: Ok(()), params: Ok(()), pool: Ok(()) }
}

fn registered(name: &str, spec: OracleBackendSpec) -> OracleBackendPlugin {
    let mut plugin = OracleBackendPlugin::new();
    plugin.register_profile(name, spec, passed()).expect("register");
    plugin
}

fn refused_with(spec: OracleBackendSpec, verdicts: Verdicts) -> String {
    let mut plugin = registered("kept", minimal_spec());
    match plugin.register_profile("x", spec, verdicts) {
        Err(BackendError::InvalidSpec { message }) => {
            assert!(plugin.profile("x").is_none());
            assert!(plugin.profile("kept").is_some());
            message
        }
        other => panic!("expected InvalidSpec, got {other:?}"),
    }
}

fn refused(spec: OracleBackendSpec) -> String {
    refused_with(spec, passed())
}

fn profile(spec: OracleBackendSpec) -> OracleBackendPlugin {
    registered("p", spec)
}

fn the<'a>(plugin: &'a OracleBackendPlugin) -> &'a OracleProfile {
    plugin.profile("p").unwrap()
}

fn rows(rows: Vec<Json>) -> QueryOutcome {
    QueryOutcome { rows: Some(rows), rows_affected: None }
}

// ------------------------------------------------------------- registration

#[test]
fn kind_is_oracle() {
    assert_eq!(OracleBackendPlugin::new().kind(), "oracle");
}

#[test]
fn manifest_id() {
    let plugin = OracleBackendPlugin::default();
    assert_eq!(plugin.manifest().id, "dev.mcpg.backend.oracle");
    assert_eq!(plugin.manifest().name, "Oracle Binding");
    assert_eq!(plugin.manifest().plugin_class, PluginClass::Backend);
}

#[test]
fn register_accepts_minimal_spec() {
    let plugin = registered("users", minimal_spec());
    let p = plugin.profile("users").unwrap();
    assert_eq!(p.op, OracleOp::Query);
    assert_eq!(p.dsn, "//db.example.com:1521/ORCLPDB1");
    assert_eq!(p.compiled_params.len(), 1);
    assert_eq!(p.compiled_params[0].source, "arguments.id");
    assert_eq!(p.manager.username(), "svc");
    assert_eq!(p.manager.password(), "${env.ORACLE_PW}");
    assert_eq!(p.manager.dsn(), "//db.example.com:1521/ORCLPDB1");
    assert_eq!((p.size_limit, p.timeout_ms, p.pool_max_size), (100, 10_000, 4));
}

#[test]
fn register_keeps_the_pool_size() {
    let plugin = registered("users", OracleBackendSpec { pool_max_size: 8, ..minimal_spec() });
    assert_eq!(plugin.profile("users").unwrap().pool_max_size, 8);
}

#[test]
fn register_replaces_and_leaves_others() {
    let mut plugin = registered("a", minimal_spec());
    plugin.register_profile("b", minimal_spec(), passed()).unwrap();
    let spec = OracleBackendSpec { query: "SELECT 2 FROM dual".into(), ..minimal_spec() };
    plugin.register_profile("a", spec, passed()).unwrap();
    assert_eq!(plugin.profile("a").unwrap().query, "SELECT 2 FROM dual");
    assert_eq!(plugin.profile("b").unwrap().query, "SELECT 1 FROM dual WHERE id = :1");
    assert!(plugin.profile("c").is_none());
}

#[test]
fn register_rejects_zero_pool_max_size() {
    assert_eq!(
        refused(OracleBackendSpec { pool_max_size: 0, ..minimal_spec() }),
        "pool_max_size must be greater than 0"
    );
}

#[test]
fn register_rejects_bad_connection_and_limits() {
    assert_eq!(
        refused(OracleBackendSpec { dsn: " ".into(), ..minimal_spec() }),
        "dsn must not be empty"
    );
    assert_eq!(
        refused(OracleBackendSpec { username: "\t".into(), ..minimal_spec() }),
        "username must not be empty"
    );
    assert_eq!(
        refused(OracleBackendSpec { timeout_ms: 0, ..minimal_spec() }),
        "timeout_ms must be greater than 0"
    );
    assert_eq!(
        refused(OracleBackendSpec { size_limit: 0, ..minimal_spec() }),
        "size_limit must be greater than 0"
    );
    assert_eq!(
        refused(OracleBackendSpec { dsn: "".into(), username: "".into(), ..minimal_spec() }),
        "dsn must not be empty"
    );
}

#[test]
fn register_defaults_to_tool_surface() {
    let plugin = registered("users", minimal_spec());
    let p = plugin.profile("users").unwrap();
    assert_eq!(p.surface, Surface::Tool);
    assert!(p.surface_uri.is_none());
}

#[test]
fn register_stores_resource_surface_and_uri() {
    let plugin = registered(
        "r",
        OracleBackendSpec {
            surface: Surface::Resource,
            uri: Some("oracle://docs/all".into()),
            ..minimal_spec()
        },
    );
    let p = plugin.profile("r").unwrap();
    assert_eq!(p.surface, Surface::Resource);
    assert_eq!(p.surface_uri.as_deref(), Some("oracle://docs/all"));
}

#[test]
fn register_rejects_uri_on_tool_surface() {
    assert_eq!(
        refused(OracleBackendSpec { uri: Some("oracle://x".into()), ..minimal_spec() }),
        "`uri` is only valid with `surface: resource` (this binding is `surface: tool`)"
    );
    assert_eq!(
        refused(OracleBackendSpec {
            uri: Some(" ".into()),
            surface: Surface::Resource,
            ..minimal_spec()
        }),
        "`uri` must not be empty"
    );
}

fn read_spec(read_query: &str) -> OracleBackendSpec {
    OracleBackendSpec {
        surface: Surface::Resource,
        read_query: Some(read_query.into()),
        params: vec!["arguments.id".into()],
        ..bare_spec()
    }
}

#[test]
fn register_resource_template_read_query() {
    let plugin = registered("rt", read_spec("SELECT * FROM orders WHERE id = :1"));
    let p = plugin.profile("rt").unwrap();
    assert_eq!(p.read_query.as_deref(), Some("SELECT * FROM orders WHERE id = :1"));
    assert!(p.query.is_empty());
    assert_eq!(p.surface, Surface::Resource);
    assert_eq!(p.compiled_params.len(), 1);
}

#[test]
fn register_rejects_read_query_on_tool_surface() {
    let message = refused(OracleBackendSpec {
        read_query: Some("SELECT * FROM t WHERE id = :1".into()),
        ..minimal_spec()
    });
    assert!(message.contains("read_query"), "{message}");
    assert!(message.contains("surface: resource"), "{message}");
}

#[test]
fn register_rejects_non_read_only_read_query() {
    let verdicts = Verdicts { read_only: Err("statement must be read-only".into()), ..passed() };
    assert_eq!(
        refused_with(read_spec("DELETE FROM orders WHERE id = :1"), verdicts),
        "statement must be read-only"
    );
}

#[test]
fn register_rejects_bare_cred_read_query() {
    let message = refused(read_spec("SELECT * FROM t WHERE k = 'cred://aws/x#id'"));
    assert!(message.starts_with("read_query must not contain a bare cred:// URI"), "{message}");
    assert_eq!(
        refused(OracleBackendSpec { query: "SELECT 1".into(), ..read_spec(" ") }),
        "`read_query` must not be empty"
    );
}

#[test]
fn read_only_verdict_counts_only_for_a_read_query() {
    let mut plugin = OracleBackendPlugin::new();
    let verdicts = Verdicts { read_only: Err("no".into()), ..passed() };
    plugin.register_profile("users", minimal_spec(), verdicts).expect("register");
}

#[test]
fn register_rejects_cred_password() {
    assert_eq!(
        refused(OracleBackendSpec { password: "cred://vault/oracle".into(), ..minimal_spec() }),
        "password must not be a cred:// URI — per-caller credentials are unsupported (the connection is one service identity); use ${env.X} / vault:// (resolved at config load) instead"
    );
}

#[test]
fn register_rejects_bad_cel_param() {
    let verdicts = Verdicts { params: Err("bad cel".into()), ..passed() };
    let spec =
        OracleBackendSpec { params: vec!["this is not cel (((".into()], ..minimal_spec() };
    assert_eq!(refused_with(spec, verdicts), "bad cel");
    let verdicts = Verdicts { pool: Err("Oracle pool build failed: x".into()), ..passed() };
    assert_eq!(refused_with(minimal_spec(), verdicts), "Oracle pool build failed: x");
}

#[test]
fn register_rejects_empty_query() {
    assert_eq!(
        refused(OracleBackendSpec { query: "   ".into(), ..minimal_spec() }),
        "query must not be empty (or set `read_query` for a resource_template read binding)"
    );
}

fn completions(name: &str, sql: &str, max_results: Option<u32>) -> NameMap<CompletionConfig> {
    let mut map = NameMap::new();
    map.insert(name.to_owned(), CompletionConfig { sql: sql.to_owned(), max_results });
    map
}

#[test]
fn register_stores_list_query_and_completions() {
    let plugin = registered(
        "r",
        OracleBackendSpec {
            surface: Surface::Resource,
            list_query: Some(ListQueryConfig {
                sql: "SELECT uri FROM docs WHERE id > :1 ORDER BY id FETCH FIRST :2 ROWS ONLY"
                    .into(),
                mode: ListQueryMode::Keyset,
                cursor_column: Some("id".into()),
                page_size: 100,
            }),
            variable_completions: completions(
                "name",
                "SELECT name FROM docs WHERE name LIKE :1 || '%'",
                None,
            ),
            ..minimal_spec()
        },
    );
    let p = plugin.profile("r").unwrap();
    assert!(p.list_query.is_some());
    assert!(p.variable_completions.get("name").is_some());
}

#[test]
fn register_rejects_keyset_list_query_without_cursor() {
    assert_eq!(
        refused(OracleBackendSpec {
            list_query: Some(ListQueryConfig {
                sql: "SELECT uri FROM docs FETCH FIRST :2 ROWS ONLY".into(),
                mode: ListQueryMode::Keyset,
                cursor_column: None,
                page_size: 100,
            }),
            ..minimal_spec()
        }),
        "list_query.cursor_column is required for mode: keyset"
    );
}

#[test]
fn register_rejects_the_first_faulty_completion() {
    let mut map = completions("zeta", "", None);
    map.insert(
        "alpha".to_owned(),
        CompletionConfig { sql: "SELECT 1".to_owned(), max_results: None },
    );
    map.insert(
        "aa".to_owned(),
        CompletionConfig { sql: "SELECT :1".to_owned(), max_results: None },
    );
    let message = refused(OracleBackendSpec { variable_completions: map, ..minimal_spec() });
    assert!(message.starts_with("variable_completions.alpha.sql must reference"), "{message}");
}

// ------------------------------------------------------------------ catalog

fn catalog_spec(operation: OracleOperation) -> OracleBackendSpec {
    OracleBackendSpec { operation, ..bare_spec() }
}

#[test]
fn register_list_tables_without_query_is_ok() {
    let plugin = registered(
        "t",
        OracleBackendSpec {
            owner: Some("HR".into()),
            ..catalog_spec(OracleOperation::ListTables)
        },
    );
    let p = plugin.profile("t").unwrap();
    assert_eq!(p.operation, OracleOperation::ListTables);
    assert_eq!(p.catalog_filters.owner.as_deref(), Some("HR"));
}

#[test]
fn register_list_columns_requires_table() {
    assert_eq!(
        refused(catalog_spec(OracleOperation::ListColumns)),
        "operation: list_columns requires a `table` filter or a `table_arg` (the table whose columns to list)"
    );
    registered(
        "c2",
        OracleBackendSpec {
            table_arg: Some("table".into()),
            ..catalog_spec(OracleOperation::ListColumns)
        },
    );
}

#[test]
fn register_catalog_op_ignores_query() {
    registered(
        "t",
        OracleBackendSpec {
            op: OracleOp::Execute,
            query: "DELETE FROM ignored".into(),
            ..catalog_spec(OracleOperation::ListTables)
        },
    );
}

#[test]
fn register_catalog_op_ignores_params() {
    let spec = || OracleBackendSpec {
        op: OracleOp::Execute,
        query: "DELETE FROM ignored".into(),
        params: vec!["this is not cel (((".into()],
        ..catalog_spec(OracleOperation::ListTables)
    };
    let bad_params = || Verdicts { params: Err("bad cel".into()), ..passed() };
    let mut plugin = OracleBackendPlugin::new();
    assert_eq!(plugin.register_profile("t", spec(), bad_params()), Ok(()));
    assert!(plugin.profile("t").is_some());
    let no_pool = Verdicts { pool: Err("no pool".into()), ..bad_params() };
    assert_eq!(refused_with(spec(), no_pool), "no pool");
}

// ------------------------------------------------------------------ schemas

#[test]
fn output_schema_is_object() {
    let plugin = OracleBackendPlugin::new();
    let schema = plugin.output_schema("users").unwrap();
    assert_eq!(at(&schema, &["type"]), &Json::text("object"));
}

#[test]
fn input_schema_lists_referenced_params() {
    let plugin = registered("users", minimal_spec());
    let schema = plugin.input_schema("users").unwrap();
    assert_eq!(at(&schema, &["type"]), &Json::text("object"));
    assert_eq!(at(&schema, &["additionalProperties"]), &Json::Bool(true));
    assert!(matches!(at(&schema, &["properties", "id"]), Json::Object(_)));
    let unknown = plugin.input_schema("nobody").unwrap();
    assert_eq!(at(&unknown, &["properties"]), &object(vec![]));
}

#[test]
fn output_schema_typed_for_catalog_ops() {
    let plugin = registered("t", catalog_spec(OracleOperation::ListTables));
    let schema = plugin.output_schema("t").unwrap();
    let items = at(&schema, &["properties", "response", "properties", "rows", "items"]);
    assert_eq!(at(items, &["type"]), &Json::text("object"));
    assert!(matches!(at(items, &["properties", "OWNER"]), Json::Object(_)));
    assert!(matches!(at(items, &["properties", "TABLE_NAME"]), Json::Object(_)));
    assert!(items.get("properties").unwrap().get("COLUMN_ID").is_none());
    let plugin = registered(
        "c",
        OracleBackendSpec {
            table: Some("T".into()),
            ..catalog_spec(OracleOperation::ListColumns)
        },
    );
    let schema = plugin.output_schema("c").unwrap();
    let items = at(&schema, &["properties", "response", "properties", "rows", "items"]);
    assert!(matches!(at(items, &["properties", "COLUMN_ID"]), Json::Object(_)));
}

#[test]
fn input_schema_lists_catalog_argument_names() {
    let plugin = registered(
        "c",
        OracleBackendSpec {
            table_arg: Some("table".into()),
            owner_arg: Some("owner".into()),
            ..catalog_spec(OracleOperation::ListColumns)
        },
    );
    let schema = plugin.input_schema("c").unwrap();
    assert!(matches!(at(&schema, &["properties", "table"]), Json::Object(_)));
    assert!(matches!(at(&schema, &["properties", "owner"]), Json::Object(_)));
}

#[test]
fn schemas_have_a_json_form() {
    let plugin = registered(
        "c",
        OracleBackendSpec {
            table_arg: Some("t".into()),
            owner_arg: Some("t".into()),
            ..catalog_spec(OracleOperation::ListColumns)
        },
    );
    for name in ["c", "nobody"] {
        assert!(plugin.output_schema(name).unwrap().to_value().is_some());
        assert!(plugin.input_schema(name).unwrap().to_value().is_some());
    }
}

#[test]
fn deep_rows_read_back_while_there_is_room() {
    let plugin = profile(minimal_spec());
    let nest = |n: usize| {
        let mut v = Json::Null;
        for _ in 0..n {
            v = Json::Array(vec![v]);
        }
        v
    };
    let payload = |n: usize| {
        let result = Ok(rows(vec![nest(n)]));
        let answer = finish_call(the(&plugin), "p", "p", &Json::Null, result, 0);
        (finalize_payload(&answer.body).unwrap().payload, answer.body)
    };
    let (bytes, body) = payload(124);
    assert_eq!(Json::parse(&bytes), Ok(body));
    let (bytes, _) = payload(125);
    assert!(Json::parse(&bytes).is_err());
}

#[test]
fn audit_metadata_names_the_transport() {
    assert_eq!(
        OracleBackendPlugin::new().audit_metadata("x"),
        vec![("oracle.transport".to_owned(), Json::text("plugin"))]
    );
}

// --------------------------------------------------------------------- calls

#[test]
fn execute_unknown_profile_is_profile_not_found() {
    let plugin = OracleBackendPlugin::new();
    let refusal = plugin.open_call("missing", &[], &[]).expect_err("missing");
    assert_eq!(
        refusal.error,
        BackendError::ProfileNotFound { backend_name: "missing".to_owned() }
    );
    assert_eq!(refusal.label, "profile_not_found");
}

#[test]
fn call_reads_arguments_and_tool_name() {
    let plugin = registered("users", minimal_spec());
    let call = plugin.open_call("users", &[], &[]).unwrap();
    assert_eq!(call.arguments, object(vec![]));
    assert_eq!(call.tool_name, "users");
    let headers = vec![
        ("x".to_owned(), "y".to_owned()),
        ("MCPG-Tool-Name".to_owned(), "u.get".to_owned()),
        ("mcpg-tool-name".to_owned(), "later".to_owned()),
    ];
    let call = plugin.open_call("users", b"{\"id\":7}", &headers).unwrap();
    assert_eq!(call.arguments, object(vec![("id", Json::Integer(7))]));
    assert_eq!(call.tool_name, "u.get");
}

#[test]
fn call_with_bad_payload_is_invalid() {
    let plugin = registered("users", minimal_spec());
    let refusal = plugin.open_call("users", b"{", &[]).expect_err("bad payload");
    assert_eq!(
        refusal.error,
        BackendError::InvalidSpec {
            message: "Oracle plugin payload is not valid JSON: EOF while parsing an object at line 1 column 1"
                .to_owned()
        }
    );
    assert_eq!(refusal.label, "invalid_spec");
}

#[test]
fn plan_binds_params_to_the_fixed_statement() {
    let plugin = profile(OracleBackendSpec { op: OracleOp::Execute, ..minimal_spec() });
    let hostile = "1; DROP TABLE t";
    let plan = plan_call(the(&plugin), &object(vec![]), Ok(vec![Json::text(hostile)])).unwrap();
    assert_eq!(
        plan,
        StatementPlan {
            sql: "SELECT 1 FROM dual WHERE id = :1".to_owned(),
            binds: vec![OracleBind::Str(hostile.to_owned())],
            op: OracleOp::Execute,
            size_limit: 100,
        }
    );
    let other = plan_call(the(&plugin), &Json::Null, Ok(vec![Json::Integer(9)])).unwrap();
    assert_eq!((other.sql, other.op), (plan.sql, plan.op));
    assert_eq!(other.binds, vec![OracleBind::Int(9)]);
}

#[test]
fn plan_errors() {
    let plugin = profile(minimal_spec());
    assert_eq!(
        plan_call(the(&plugin), &Json::Null, Err("no such key".to_owned())),
        Err("evaluating params: no such key".to_owned())
    );
    assert_eq!(
        plan_call(the(&plugin), &Json::Null, Ok(vec![object(vec![])])),
        Err(
            "binding params: array and object values cannot be bound as a scalar Oracle parameter"
                .to_owned()
        )
    );
}

#[test]
fn resource_read_runs_the_read_query_as_a_query() {
    let plugin = profile(OracleBackendSpec {
        query: "DELETE FROM t".into(),
        op: OracleOp::Execute,
        ..read_spec("SELECT * FROM t WHERE id = :1")
    });
    let plan = plan_call(the(&plugin), &Json::Null, Ok(vec![Json::Integer(1)])).unwrap();
    assert_eq!(plan.sql, "SELECT * FROM t WHERE id = :1");
    assert_eq!(plan.op, OracleOp::Query);
    let plugin = profile(OracleBackendSpec {
        surface: Surface::Resource,
        op: OracleOp::Execute,
        ..minimal_spec()
    });
    let plan = plan_call(the(&plugin), &Json::Null, Ok(vec![Json::Null])).unwrap();
    assert_eq!(plan.op, OracleOp::Execute);
}

#[test]
fn each_param_gets_its_own_bind() {
    let plugin = profile(OracleBackendSpec {
        query: "SELECT 1 FROM dual WHERE a = :1 AND b = :2 AND c = :3".into(),
        params: vec!["arguments.a".into(), "arguments.b".into(), "arguments.c".into()],
        ..bare_spec()
    });
    let values = vec![Json::text("x"), Json::Null, Json::Integer(3)];
    let plan = plan_call(the(&plugin), &object(vec![]), Ok(values)).unwrap();
    assert_eq!(
        plan.binds,
        vec![OracleBind::Str("x".to_owned()), OracleBind::Null, OracleBind::Int(3)]
    );
}

#[test]
fn catalog_plan_ignores_statement_op_and_params() {
    let plugin = profile(OracleBackendSpec {
        op: OracleOp::Execute,
        query: "DELETE FROM ignored".into(),
        params: vec!["arguments.x".into()],
        owner: Some("HR".into()),
        owner_arg: Some("owner".into()),
        size_limit: 7,
        ..catalog_spec(OracleOperation::ListTables)
    });
    let args = object(vec![("owner", Json::text("SALES"))]);
    let plan = plan_call(the(&plugin), &args, Err("ignored".to_owned())).unwrap();
    assert_eq!(
        plan,
        StatementPlan {
            sql: "SELECT owner, table_name, tablespace_name FROM all_tables WHERE owner = :owner ORDER BY owner, table_name".to_owned(),
            binds: vec![OracleBind::Str("SALES".to_owned())],
            op: OracleOp::Query,
            size_limit: 7,
        }
    );
}

#[test]
fn catalog_call_skips_the_params() {
    let plugin = profile(catalog_spec(OracleOperation::ListTables));
    match first_step(the(&plugin), &Json::Null) {
        FirstStep::Run(plan) => {
            assert_eq!(Ok(plan), plan_call(the(&plugin), &Json::Null, Ok(vec![])));
        }
        FirstStep::Evaluate => panic!("nothing to evaluate"),
    }
    let plugin = profile(minimal_spec());
    assert_eq!(first_step(the(&plugin), &Json::Null), FirstStep::Evaluate);
}

#[test]
fn evaluation_leads_to_a_plan_or_an_answer() {
    let plugin = profile(minimal_spec());
    let call = Call { arguments: object(vec![]), tool_name: "t".to_owned() };
    let plan = after_evaluation(the(&plugin), "p", &call, Ok(vec![Json::Integer(1)]), 0).unwrap();
    assert_eq!(plan.binds, vec![OracleBind::Int(1)]);
    assert_eq!(plan.clone(), plan);
    let answer = after_evaluation(the(&plugin), "p", &call, Err("x".to_owned()), 0).unwrap_err();
    assert_eq!(answer, finish_error(the(&plugin), "p", "t", "evaluating params: x", 0));
}

#[test]
fn profile_copies_are_the_same_binding() {
    let plugin = profile(OracleBackendSpec {
        variable_completions: completions("v", "SELECT n FROM t WHERE n LIKE :1", Some(3)),
        ..minimal_spec()
    });
    let copy = the(&plugin).clone();
    assert_eq!(copy.dsn, the(&plugin).dsn);
    assert_eq!(copy.compiled_params, the(&plugin).compiled_params);
    assert_eq!(
        copy.variable_completions.get("v"),
        the(&plugin).variable_completions.get("v")
    );
    assert_eq!(copy.manager.password(), "${env.ORACLE_PW}");
}

#[test]
fn pool_failures_are_retryable() {
    let plugin = profile(minimal_spec());
    for (reply, label) in [
        (PoolReply::Failed("ORA-01017".to_owned()), "transport_error"),
        (PoolReply::TimedOut, "timeout"),
    ] {
        let message = check_acquired(reply).unwrap_err();
        let answer = finish_call(the(&plugin), "p", "p", &Json::Null, Err(message), 0);
        assert_eq!(answer.label, label);
        assert_eq!(at(&answer.body, &["downstreamError", "retryable"]), &Json::Bool(true));
    }
    let message = worker_result(WorkerReply::TimedOut).unwrap_err();
    let answer = finish_call(the(&plugin), "p", "p", &Json::Null, Err(message), 0);
    assert_eq!(answer.label, "timeout");
}

#[test]
fn tool_answer_is_the_envelope() {
    let plugin = profile(minimal_spec());
    let answer = finish_call(
        the(&plugin),
        "users",
        "u.get",
        &object(vec![]),
        Ok(rows(vec![object(vec![("ID", Json::Integer(7))])])),
        9,
    );
    assert_eq!(answer.label, "ok");
    assert_eq!(answer.reason, None);
    let response = finalize_payload(&answer.body).unwrap();
    assert!(!response.truncated);
    assert_eq!(
        String::from_utf8(response.payload.clone()).unwrap(),
        "{\"toolName\":\"u.get\",\"profile\":\"users\",\
         \"request\":{\"dsn\":\"//db.example.com:1521/ORCLPDB1\",\"op\":\"query\"},\
         \"response\":{\"rows\":[{\"ID\":7}],\"count\":1,\"rowsAffected\":null,\"durationMs\":9},\
         \"downstreamError\":null,\"downstreamErrors\":[],\"error\":null}"
    );
    assert_eq!(Json::parse(&response.payload), Ok(answer.body));
}

#[test]
fn catalog_answer_names_the_operation() {
    let plugin = profile(catalog_spec(OracleOperation::ListTables));
    let answer = finish_call(the(&plugin), "t", "t", &Json::Null, Ok(rows(vec![])), 0);
    assert_eq!(at(&answer.body, &["request", "op"]), &Json::text("list_tables"));
}

fn resource_answer(uri: Option<&str>, args: Json) -> Answer {
    let plugin = profile(OracleBackendSpec {
        surface: Surface::Resource,
        uri: uri.map(str::to_owned),
        ..minimal_spec()
    });
    let outcome = rows(vec![object(vec![("a", Json::Integer(1))])]);
    finish_call(the(&plugin), "r", "r", &args, Ok(outcome), 1)
}

#[test]
fn resource_answer_has_contents() {
    let answer = resource_answer(Some("oracle://s"), object(vec![("uri", Json::text("x"))]));
    assert_eq!(answer.label, "ok");
    match at(&answer.body, &["contents"]) {
        Json::Array(items) => {
            assert_eq!(items[0].get_text("uri"), Some("oracle://s"));
            assert_eq!(items[0].get_text("text"), Some("[{\"a\":1}]"));
        }
        other => panic!("not an array: {other:?}"),
    }
}

#[test]
fn resource_answer_without_uri_is_an_error() {
    let answer = resource_answer(None, object(vec![]));
    let message = "resource surface requires a `uri` (set a static `uri` on the binding or invoke via a resources/read request)";
    assert_eq!(answer.label, "oracle_error");
    assert_eq!(answer.reason.as_deref(), Some(message));
    assert_eq!(at(&answer.body, &["error"]), &Json::text(message));
    assert_eq!(at(&answer.body, &["response"]), &Json::Null);
    assert_eq!(at(&answer.body, &["downstreamError", "message"]), &Json::text(message));
    assert_eq!(at(&answer.body, &["downstreamError", "retryable"]), &Json::Bool(false));
}

#[test]
fn prompt_answer_has_messages() {
    let plugin = profile(OracleBackendSpec { surface: Surface::Prompt, ..minimal_spec() });
    let outcome = QueryOutcome { rows: None, rows_affected: Some(1) };
    let answer = finish_call(the(&plugin), "p", "p", &Json::Null, Ok(outcome), 1);
    assert_eq!(answer.label, "ok");
    match at(&answer.body, &["messages"]) {
        Json::Array(items) => {
            assert_eq!(at(&items[0], &["content", "text"]), &Json::text("[]"));
        }
        other => panic!("not an array: {other:?}"),
    }
}

#[test]
fn failed_statement_is_labelled() {
    let plugin = profile(minimal_spec());
    for (message, label, kind) in [
        ("Oracle call timed out", "timeout", "transport_error"),
        (
            "Oracle pool acquire failed: ORA-12170: TNS:Connect TIMEOUT occurred",
            "timeout",
            "transport_error",
        ),
        ("Oracle pool acquire failed: x", "transport_error", "transport_error"),
        ("Oracle query failed: ORA-00942", "oracle_error", "oracle_error"),
        ("Oracle query failed: ORA-00942: TIMEOUT_LOG", "oracle_error", "oracle_error"),
        (
            "Oracle query failed: DPI Error: DPI-1067: call timeout of 9 ms exceeded with ORA-03156",
            "timeout",
            "transport_error",
        ),
    ] {
        let result = Err(message.to_owned());
        let answer = finish_call(the(&plugin), "p", "p", &Json::Null, result, 3);
        assert_eq!(answer.label, label);
        assert_eq!(answer.reason.as_deref(), Some(message));
        assert_eq!(at(&answer.body, &["downstreamError", "kind"]), &Json::text(kind));
        assert_eq!(at(&answer.body, &["response"]), &Json::Null);
    }
}

#[test]
fn unplanned_call_is_an_invalid_spec_error() {
    let plugin = profile(OracleBackendSpec { op: OracleOp::Execute, ..minimal_spec() });
    let answer = finish_error(the(&plugin), "p", "tool", "evaluating params: x", 2);
    assert_eq!(answer.label, "invalid_spec");
    assert_eq!(answer.reason.as_deref(), Some("evaluating params: x"));
    assert_eq!(at(&answer.body, &["request", "op"]), &Json::text("execute"));
    assert_eq!(at(&answer.body, &["toolName"]), &Json::text("tool"));
    assert_eq!(at(&answer.body, &["error"]), &Json::text("evaluating params: x"));
}

#[test]
fn answer_without_json_form_is_a_transport_error() {
    assert_eq!(
        finalize_payload(&Json::Integer(i128::MAX)),
        Err(BackendError::Transport {
            message: "Oracle plugin envelope serialization failed: the value has no JSON form"
                .to_owned()
        })
    );
}

// ------------------------------------------------------------------ resources

#[test]
fn list_resources_empty_when_unconfigured() {
    let plugin = registered("users", minimal_spec());
    assert_eq!(plugin.plan_listing("users", None), Ok(None));
    assert_eq!(
        plugin.plan_listing("nobody", None),
        Err(BackendError::ProfileNotFound { backend_name: "nobody".to_owned() })
    );
}

fn listing(mode: ListQueryMode, page_size: u64) -> OracleBackendPlugin {
    profile(OracleBackendSpec {
        surface: Surface::Resource,
        list_query: Some(ListQueryConfig {
            sql: "SELECT uri, id FROM docs".into(),
            mode,
            cursor_column: Some("id".into()),
            page_size,
        }),
        ..minimal_spec()
    })
}

#[test]
fn keyset_listing_binds_cursor_and_page_size() {
    let plugin = listing(ListQueryMode::Keyset, 2);
    let plan = plugin.plan_listing("p", None).unwrap().unwrap();
    assert_eq!(plan.statement.sql, "SELECT uri, id FROM docs");
    assert_eq!(plan.statement.binds, vec![OracleBind::Null, OracleBind::Int(2)]);
    assert_eq!(plan.statement.op, OracleOp::Query);
    assert_eq!(plan.statement.size_limit, 2);
    let plan = plugin.plan_listing("p", Some("x' --")).unwrap().unwrap();
    assert_eq!(
        plan.statement.binds,
        vec![OracleBind::Str("x' --".to_owned()), OracleBind::Int(2)]
    );
    assert_eq!(plan.prior_offset, 0);
}

#[test]
fn offset_listing_walks_the_pages() {
    let plugin = listing(ListQueryMode::Offset, 2);
    let page = || rows(vec![object(vec![("uri", Json::text("a"))]), Json::Null]);
    let plan = plugin.plan_listing("p", None).unwrap().unwrap();
    assert_eq!(plan.statement.binds, vec![OracleBind::Int(2), OracleBind::Int(0)]);
    let first = finish_listing(&plan, Ok(page())).unwrap();
    assert_eq!(first.resources.len(), 1);
    assert_eq!(first.next_cursor.as_deref(), Some("2"));
    let plan = plugin.plan_listing("p", first.next_cursor.as_deref()).unwrap().unwrap();
    assert_eq!(plan.prior_offset, 2);
    assert_eq!(plan.statement.binds, vec![OracleBind::Int(2), OracleBind::Int(2)]);
    let last = finish_listing(&plan, Ok(rows(vec![]))).unwrap();
    assert_eq!(last.next_cursor, None);
}

#[test]
fn offset_listing_takes_numbers_only() {
    let plugin = listing(ListQueryMode::Offset, 2);
    assert_eq!(
        plugin.plan_listing("p", Some("-1")),
        Err(BackendError::InvalidSpec {
            message: "offset-mode cursor '-1' is not a non-negative integer".to_owned()
        })
    );
    let plan = plugin.plan_listing("p", Some("18446744073709551615")).unwrap().unwrap();
    assert_eq!(plan.statement.binds, vec![OracleBind::Int(2), OracleBind::Int(-1)]);
}

#[test]
fn failed_listing_is_a_transport_error() {
    let plugin = listing(ListQueryMode::Keyset, 2);
    let plan = plugin.plan_listing("p", None).unwrap().unwrap();
    assert_eq!(
        finish_listing(&plan, Err("Oracle call timed out".to_owned())),
        Err(BackendError::Transport { message: "Oracle call timed out".to_owned() })
    );
}

#[test]
fn complete_template_variable_empty_when_unconfigured() {
    let plugin = registered("users", minimal_spec());
    assert_eq!(plugin.plan_completion("users", "v", "x"), Ok(None));
    assert_eq!(
        plugin.plan_completion("nobody", "v", "x"),
        Err(BackendError::ProfileNotFound { backend_name: "nobody".to_owned() })
    );
}

#[test]
fn completion_binds_the_prefix_and_caps() {
    let spec = |max| OracleBackendSpec {
        variable_completions: completions("v", "SELECT n, m FROM t WHERE n LIKE :1", max),
        ..minimal_spec()
    };
    let plan = profile(spec(None)).plan_completion("p", "v", "a'").unwrap().unwrap();
    assert_eq!(plan.max, 100);
    assert_eq!(plan.statement.size_limit, 100);
    assert_eq!(plan.statement.binds, vec![OracleBind::Str("a'".to_owned())]);
    let plan = profile(spec(Some(1))).plan_completion("p", "v", "a").unwrap().unwrap();
    assert_eq!(plan.max, 1);
}

#[test]
fn completion_takes_the_first_column() {
    let row = |z: &str| object(vec![("Z", Json::text(z)), ("A", Json::text("other"))]);
    assert_eq!(
        finish_completion(10, Ok(rows(vec![row("one"), row("two")]))),
        Ok(vec!["one".to_owned(), "two".to_owned()])
    );
    assert_eq!(
        finish_completion(1, Ok(rows(vec![row("one"), row("two")]))),
        Ok(vec!["one".to_owned()])
    );
    assert_eq!(finish_completion(10, Ok(rows(vec![]))), Ok(vec![]));
    assert_eq!(finish_completion(10, Ok(rows(vec![Json::Null]))), Ok(vec![]));
    assert_eq!(
        finish_completion(10, Err("e".to_owned())),
        Err(BackendError::Transport { message: "e".to_owned() })
    );
}
