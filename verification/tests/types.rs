use oracle_backend::types::{
    default_list_page_size, default_pool_max_size, default_size_limit, default_timeout_ms,
    is_safe_sql_identifier, validate_completion, validate_list_query, CompletionConfig,
    ListQueryConfig, ListQueryMode, OracleOp, OracleOperation,
};

#[test]
fn op_defaults_to_query() {
    assert_eq!(OracleOp::default(), OracleOp::Query);
}

#[test]
fn words_of_ops_and_operations() {
    assert_eq!(OracleOp::Query.as_str(), "query");
    assert_eq!(OracleOp::Execute.as_str(), "execute");
    assert_eq!(OracleOperation::default(), OracleOperation::Query);
    assert_eq!(OracleOperation::Query.as_str(), "query");
    assert_eq!(OracleOperation::ListTables.as_str(), "list_tables");
    assert_eq!(OracleOperation::ListColumns.as_str(), "list_columns");
    assert!(!OracleOperation::Query.is_catalog());
    assert!(OracleOperation::ListTables.is_catalog());
    assert!(OracleOperation::ListColumns.is_catalog());
    assert_eq!(ListQueryMode::default(), ListQueryMode::Keyset);
}

#[test]
fn defaults_of_a_spec() {
    assert_eq!(default_size_limit(), 100);
    assert_eq!(default_timeout_ms(), 10_000);
    assert_eq!(default_pool_max_size(), 4);
    assert_eq!(default_list_page_size(), 100);
}

#[test]
fn validate_list_query_enforces_cursor_and_bounds() {
    let mut cfg = ListQueryConfig {
        sql: "SELECT uri FROM t".into(),
        mode: ListQueryMode::Keyset,
        cursor_column: None,
        page_size: 100,
    };
    assert!(validate_list_query(&cfg).is_err());
    cfg.cursor_column = Some("id".into());
    assert!(validate_list_query(&cfg).is_ok());
    cfg.cursor_column = Some("id;DROP".into());
    assert!(validate_list_query(&cfg).is_err());
    cfg.cursor_column = Some("id".into());
    cfg.page_size = 5000;
    assert!(validate_list_query(&cfg).is_err());
}

#[test]
fn validate_list_query_messages() {
    let mut cfg = ListQueryConfig {
        sql: " \n".into(),
        mode: ListQueryMode::Offset,
        cursor_column: None,
        page_size: 0,
    };
    assert_eq!(validate_list_query(&cfg), Err("list_query.sql must not be empty".to_owned()));
    cfg.sql = "SELECT 1".into();
    assert_eq!(
        validate_list_query(&cfg),
        Err("list_query.page_size (0) must be in 1..=1000".to_owned())
    );
    cfg.page_size = 1001;
    assert_eq!(
        validate_list_query(&cfg),
        Err("list_query.page_size (1001) must be in 1..=1000".to_owned())
    );
    cfg.page_size = 1000;
    assert_eq!(validate_list_query(&cfg), Ok(()));
    cfg.page_size = 1;
    assert_eq!(validate_list_query(&cfg), Ok(()));
    cfg.mode = ListQueryMode::Keyset;
    cfg.cursor_column = Some("  ".into());
    assert_eq!(
        validate_list_query(&cfg),
        Err("list_query.cursor_column is required for mode: keyset".to_owned())
    );
    cfg.cursor_column = Some(" a-b ".into());
    assert_eq!(
        validate_list_query(&cfg),
        Err("list_query.cursor_column 'a-b' is not a safe SQL identifier".to_owned())
    );
    cfg.cursor_column = Some(" _a1 ".into());
    assert_eq!(validate_list_query(&cfg), Ok(()));
}

#[test]
fn validate_completion_requires_placeholder() {
    let mut cc = CompletionConfig {
        sql: "SELECT name FROM t WHERE name LIKE :1 || '%'".into(),
        max_results: None,
    };
    assert!(validate_completion("name", &cc).is_ok());
    cc.sql = "SELECT name FROM t".into();
    assert!(validate_completion("name", &cc).is_err());
    cc.sql = "   ".into();
    assert!(validate_completion("name", &cc).is_err());
}

#[test]
fn validate_completion_wants_exactly_one_placeholder() {
    let refused = Err(
        "variable_completions.v.sql must reference the `:1` placeholder (bound to the typed prefix)"
            .to_owned(),
    );
    let check = |sql: &str| {
        validate_completion("v", &CompletionConfig { sql: sql.to_owned(), max_results: None })
    };
    assert_eq!(check(":1"), Ok(()));
    assert_eq!(check("a = :1 AND b = :2"), Ok(()));
    assert_eq!(check("a = :1 OR b = :1"), refused);
    assert_eq!(check("a = :10"), refused);
    assert_eq!(check("a = :10 OR b = :1"), Ok(()));
    assert_eq!(check("SELECT n FROM t WHERE k = 'a:1' AND n LIKE :1 || '%'"), Ok(()));
    assert_eq!(check("k = 'it''s :1' AND n = :1"), Ok(()));
    assert_eq!(check("k = q'[it's :1]' AND n = :1"), Ok(()));
    assert_eq!(check("k = Q'!:1 ' :1!' AND n = :1"), Ok(()));
    assert_eq!(check("\"odd:1\" = :1"), Ok(()));
    assert_eq!(check("a = :1 -- :1 is the prefix"), Ok(()));
    assert_eq!(check("a /* :1 */ = :1"), Ok(()));
    assert_eq!(check("a = 'x' -- it's\n OR a = :1"), Ok(()));
    assert_eq!(check("a = ':1'"), refused);
    assert_eq!(check("a = q'{:1}'"), refused);
    assert_eq!(check("a = \":1\""), refused);
    assert_eq!(check("a -- :1"), refused);
    assert_eq!(check("a /* :1"), refused);
    assert_eq!(check("a = ':1"), refused);
    assert_eq!(check("a = 'x' OR b = :1 OR c = 'y' OR d = :1"), refused);
    assert_eq!(check(""), Err("variable_completions.v.sql must not be empty".to_owned()));
}

#[test]
fn safe_identifiers() {
    for ok in ["a", "_", "A1_b", "uri"] {
        assert!(is_safe_sql_identifier(ok), "{ok}");
    }
    for bad in ["", "1a", "a b", "a-b", "a;", "\u{e9}", "a\u{e9}"] {
        assert!(!is_safe_sql_identifier(bad), "{bad}");
    }
}
