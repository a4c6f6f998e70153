use oracle_backend::catalog::{
    build_query, resolve_one, CatalogFilterConfig, CatalogFilters, LIST_COLUMNS_COLUMNS,
    LIST_TABLES_COLUMNS,
};
use oracle_backend::json::Json;
use oracle_backend::params::OracleBind;
use oracle_backend::types::OracleOperation;

fn object(entries: Vec<(&str, Json)>) -> Json {
    Json::Object(entries.into_iter().map(|(k, v)| (k.to_owned(), v)).collect())
}

#[test]
fn resolve_one_prefers_present_string_argument() {
    assert_eq!(
        resolve_one(Some("STATIC"), Some("owner"), &object(vec![("owner", Json::text("LIVE"))])),
        Some("LIVE".to_owned())
    );
    assert_eq!(
        resolve_one(Some("STATIC"), Some("owner"), &object(vec![])),
        Some("STATIC".to_owned())
    );
    assert_eq!(
        resolve_one(Some("STATIC"), Some("owner"), &object(vec![("owner", Json::Integer(7))])),
        Some("STATIC".to_owned())
    );
    assert_eq!(
        resolve_one(Some("STATIC"), Some("owner"), &object(vec![("owner", Json::text(""))])),
        Some("STATIC".to_owned())
    );
    assert_eq!(resolve_one(None, None, &object(vec![])), None);
}

#[test]
fn empty_static_filter_counts_as_none() {
    assert_eq!(resolve_one(Some(""), None, &object(vec![])), None);
    assert_eq!(resolve_one(Some(""), Some("owner"), &Json::Null), None);
}

#[test]
fn filter_config_resolves_both() {
    let cfg = CatalogFilterConfig {
        owner: Some("HR".into()),
        table: Some("EMPLOYEES".into()),
        owner_arg: Some("owner".into()),
        table_arg: Some("table".into()),
    };
    let f = cfg.resolve(&object(vec![("owner", Json::text("SALES"))]));
    assert_eq!(f.owner.as_deref(), Some("SALES"));
    assert_eq!(f.table.as_deref(), Some("EMPLOYEES"));
}

#[test]
fn filter_config_argument_names_are_distinct_in_order() {
    let cfg = CatalogFilterConfig {
        owner_arg: Some("owner".into()),
        table_arg: Some("owner".into()),
        ..Default::default()
    };
    assert_eq!(cfg.argument_names(), vec!["owner".to_owned()]);
}

#[test]
fn argument_names_keep_filter_order() {
    let cfg = CatalogFilterConfig {
        owner_arg: Some("o".into()),
        table_arg: Some("t".into()),
        ..Default::default()
    };
    assert_eq!(cfg.argument_names(), vec!["o".to_owned(), "t".to_owned()]);
    let cfg = CatalogFilterConfig { table_arg: Some("t".into()), ..Default::default() };
    assert_eq!(cfg.argument_names(), vec!["t".to_owned()]);
    assert!(CatalogFilterConfig::default().argument_names().is_empty());
}

#[test]
fn list_tables_defaults_owner_to_current_user_no_binds() {
    let (sql, binds) = build_query(OracleOperation::ListTables, &CatalogFilters::default());
    assert!(sql.contains("FROM all_tables"));
    assert!(sql.contains("owner = USER"), "{sql}");
    assert!(!sql.contains(":owner"), "no owner bind when defaulted: {sql}");
    assert!(binds.is_empty());
    assert!(sql.contains("ORDER BY owner, table_name"));
}

#[test]
fn list_tables_binds_owner_and_table_as_params() {
    let filters = CatalogFilters { owner: Some("HR".into()), table: Some("EMPLOYEES".into()) };
    let (sql, binds) = build_query(OracleOperation::ListTables, &filters);
    assert!(sql.contains("owner = :owner"), "{sql}");
    assert!(sql.contains("table_name = :tbl"), "{sql}");
    assert!(!sql.contains("HR"), "owner must not be interpolated: {sql}");
    assert!(!sql.contains("EMPLOYEES"), "table must not be interpolated: {sql}");
    assert_eq!(
        binds,
        vec![OracleBind::Str("HR".into()), OracleBind::Str("EMPLOYEES".into())]
    );
}

#[test]
fn list_columns_selects_expected_dictionary_columns() {
    let filters = CatalogFilters { owner: Some("HR".into()), table: Some("EMPLOYEES".into()) };
    let (sql, binds) = build_query(OracleOperation::ListColumns, &filters);
    assert!(sql.contains("FROM all_tab_columns"), "{sql}");
    for col in ["column_name", "data_type", "data_length", "nullable", "column_id"] {
        assert!(sql.contains(col), "missing {col}: {sql}");
    }
    assert!(sql.contains("owner = :owner") && sql.contains("table_name = :tbl"));
    assert_eq!(
        binds,
        vec![OracleBind::Str("HR".into()), OracleBind::Str("EMPLOYEES".into())]
    );
}

#[test]
fn statements_are_exact() {
    let none = CatalogFilters::default();
    assert_eq!(
        build_query(OracleOperation::ListTables, &none).0,
        "SELECT owner, table_name, tablespace_name FROM all_tables WHERE owner = USER ORDER BY owner, table_name"
    );
    let both = CatalogFilters { owner: Some("A".into()), table: Some("B".into()) };
    assert_eq!(
        build_query(OracleOperation::ListColumns, &both).0,
        "SELECT owner, table_name, column_name, data_type, data_length, nullable, column_id FROM all_tab_columns WHERE owner = :owner AND table_name = :tbl ORDER BY owner, table_name, column_id"
    );
    let (sql, binds) = build_query(OracleOperation::Query, &both);
    assert_eq!(sql, "SELECT 1 FROM dual");
    assert_eq!(binds, vec![OracleBind::Str("A".into())]);
}

#[test]
fn statement_text_is_the_same_for_any_filter_value() {
    let a = CatalogFilters { owner: Some("HR".into()), table: None };
    let b = CatalogFilters { owner: Some("x' OR 1=1 --".into()), table: None };
    for op in [OracleOperation::ListTables, OracleOperation::ListColumns] {
        let (sql_a, binds_a) = build_query(op, &a);
        let (sql_b, binds_b) = build_query(op, &b);
        assert_eq!(sql_a, sql_b);
        assert_eq!(sql_a.matches(':').count(), binds_a.len());
        assert_eq!(binds_b, vec![OracleBind::Str("x' OR 1=1 --".into())]);
    }
}

#[test]
fn injection_attempt_in_filter_stays_a_bound_value() {
    let filters = CatalogFilters { owner: Some("HR' OR '1'='1".into()), table: None };
    let (sql, binds) = build_query(OracleOperation::ListTables, &filters);
    assert!(!sql.contains("OR '1'='1"), "payload must not reach SQL: {sql}");
    assert_eq!(binds, vec![OracleBind::Str("HR' OR '1'='1".into())]);
}

#[test]
fn column_sets_match_select_lists() {
    assert_eq!(LIST_TABLES_COLUMNS.len(), 3);
    assert_eq!(LIST_COLUMNS_COLUMNS.len(), 7);
    assert!(LIST_COLUMNS_COLUMNS.contains(&"DATA_TYPE"));
}

#[test]
fn columns_are_the_selected_names_in_upper_case() {
    let none = CatalogFilters::default();
    let sql = build_query(OracleOperation::ListTables, &none).0;
    let wanted = format!("SELECT {} FROM", LIST_TABLES_COLUMNS.join(", ").to_lowercase());
    assert!(sql.starts_with(&wanted), "{sql}");
    let sql = build_query(OracleOperation::ListColumns, &none).0;
    let wanted = format!("SELECT {} FROM", LIST_COLUMNS_COLUMNS.join(", ").to_lowercase());
    assert!(sql.starts_with(&wanted), "{sql}");
}
