use oracle_backend::json::Json;
use oracle_backend::surface::{
    cursor_value_to_string, prompt_messages_body, resolve_resource_uri, resource_contents_body,
    rows_to_completion_values, rows_to_resource_page, ResourcePage, Surface,
};
use oracle_backend::types::{ListQueryConfig, ListQueryMode};

fn object(entries: Vec<(&str, Json)>) -> Json {
    Json::Object(entries.into_iter().map(|(k, v)| (k.to_owned(), v)).collect())
}

fn items<'a>(v: &'a Json, key: &str) -> &'a Vec<Json> {
    match v.get(key) {
        Some(Json::Array(items)) => items,
        other => panic!("not an array: {other:?}"),
    }
}

fn keyset_cfg(page_size: u64) -> ListQueryConfig {
    ListQueryConfig {
        sql: "SELECT id AS uri FROM t".into(),
        mode: ListQueryMode::Keyset,
        cursor_column: Some("id".into()),
        page_size,
    }
}

fn offset_cfg(page_size: u64) -> ListQueryConfig {
    ListQueryConfig {
        sql: "SELECT uri FROM t".into(),
        mode: ListQueryMode::Offset,
        cursor_column: None,
        page_size,
    }
}

fn resource(uri: &str) -> Json {
    object(vec![("uri", Json::text(uri))])
}

#[test]
fn surface_default_is_tool() {
    assert_eq!(Surface::default(), Surface::Tool);
}

#[test]
fn surface_words() {
    assert_eq!(Surface::Tool.as_str(), "tool");
    assert_eq!(Surface::Resource.as_str(), "resource");
    assert_eq!(Surface::Prompt.as_str(), "prompt");
}

#[test]
fn static_uri_wins_over_argument() {
    let args = resource("oracle://from-arg");
    assert_eq!(
        resolve_resource_uri(Some("oracle://static"), &args),
        Some("oracle://static")
    );
}

#[test]
fn falls_back_to_argument_uri() {
    let args = resource("oracle://docs/readme");
    assert_eq!(resolve_resource_uri(None, &args), Some("oracle://docs/readme"));
}

#[test]
fn no_uri_available_returns_none() {
    assert_eq!(resolve_resource_uri(None, &object(vec![])), None);
    assert_eq!(resolve_resource_uri(Some("  "), &object(vec![])), None);
}

#[test]
fn blank_argument_uri_counts_as_none() {
    assert_eq!(resolve_resource_uri(None, &resource(" \t")), None);
    assert_eq!(resolve_resource_uri(Some(""), &resource("oracle://x")), Some("oracle://x"));
    assert_eq!(resolve_resource_uri(None, &object(vec![("uri", Json::Integer(1))])), None);
}

#[test]
fn resource_body_satisfies_decoder_shape() {
    let rows = vec![
        object(vec![("id", Json::Integer(1))]),
        object(vec![("id", Json::Integer(2))]),
    ];
    let body = resource_contents_body("oracle://docs", &rows);
    let contents = items(&body, "contents");
    assert_eq!(contents.len(), 1);
    assert_eq!(contents[0].get("uri"), Some(&Json::text("oracle://docs")));
    let text = contents[0].get_text("text").expect("text");
    assert!(contents[0].get("blob").is_none());
    assert_eq!(contents[0].get("mimeType"), Some(&Json::text("application/json")));
    assert_eq!(text, "[{\"id\":1},{\"id\":2}]");
    assert_eq!(Json::parse(text.as_bytes()), Ok(Json::Array(rows)));
}

#[test]
fn resource_template_read_shapes_single_row_contents() {
    let uri = "oracle://orders/42";
    let row = object(vec![
        ("id", Json::Integer(42)),
        ("total", Json::Decimal("19.99".to_owned())),
    ]);
    let body = resource_contents_body(uri, std::slice::from_ref(&row));
    let contents = items(&body, "contents");
    assert_eq!(contents.len(), 1);
    assert_eq!(contents[0].get("uri"), Some(&Json::text(uri)));
    assert_eq!(contents[0].get("mimeType"), Some(&Json::text("application/json")));
    let decoded = Json::parse(contents[0].get_text("text").unwrap().as_bytes());
    assert_eq!(decoded, Ok(Json::Array(vec![row])));
}

#[test]
fn rows_map_to_resources_with_optional_columns() {
    let rows = vec![
        object(vec![
            ("uri", Json::text("oracle://a")),
            ("name", Json::text("A")),
            ("description", Json::text("first")),
            ("mime_type", Json::text("text/plain")),
            ("id", Json::Integer(1)),
        ]),
        object(vec![("uri", Json::text("oracle://b")), ("id", Json::Integer(2))]),
    ];
    let page = rows_to_resource_page(&rows, &keyset_cfg(10), 0);
    assert_eq!(page.resources.len(), 2);
    assert_eq!(page.resources[0].uri, "oracle://a");
    assert_eq!(page.resources[0].name.as_deref(), Some("A"));
    assert_eq!(page.resources[0].description.as_deref(), Some("first"));
    assert_eq!(page.resources[0].mime_type.as_deref(), Some("text/plain"));
    assert_eq!(page.resources[1].name, None);
    assert!(page.next_cursor.is_none());
}

#[test]
fn full_keyset_page_carries_cursor() {
    let rows = vec![object(vec![("uri", Json::text("oracle://a")), ("id", Json::Integer(7))])];
    let page = rows_to_resource_page(&rows, &keyset_cfg(1), 0);
    assert_eq!(page.next_cursor.as_deref(), Some("7"));
}

#[test]
fn keyset_cursor_comes_from_the_last_row_that_has_one() {
    let rows = vec![
        object(vec![("uri", Json::text("a")), ("id", Json::text("x"))]),
        object(vec![("uri", Json::text("b"))]),
        object(vec![("id", Json::Integer(9))]),
    ];
    let page = rows_to_resource_page(&rows, &keyset_cfg(3), 0);
    assert_eq!(page.resources.len(), 2);
    assert_eq!(page.next_cursor.as_deref(), Some("x"));
}

#[test]
fn full_offset_page_counts_on() {
    let rows = vec![resource("a"), resource("b")];
    let page = rows_to_resource_page(&rows, &offset_cfg(2), 40);
    assert_eq!(page.next_cursor.as_deref(), Some("42"));
    let page = rows_to_resource_page(&rows, &offset_cfg(3), 40);
    assert_eq!(page.next_cursor, None);
}

#[test]
fn rows_without_uri_are_skipped() {
    let rows = vec![
        object(vec![("name", Json::text("no uri"))]),
        object(vec![("uri", Json::text("oracle://ok"))]),
    ];
    let page = rows_to_resource_page(&rows, &keyset_cfg(10), 0);
    assert_eq!(page.resources.len(), 1);
    let rows = vec![Json::Null, Json::text("uri"), object(vec![("uri", Json::Integer(1))])];
    assert!(rows_to_resource_page(&rows, &keyset_cfg(10), 0).resources.is_empty());
}

#[test]
fn empty_page_has_nothing() {
    let page = ResourcePage::empty();
    assert!(page.resources.is_empty());
    assert!(page.next_cursor.is_none());
}

#[test]
fn cursor_values_render_as_text() {
    assert_eq!(cursor_value_to_string(&Json::text("a\"b")), "a\"b");
    assert_eq!(cursor_value_to_string(&Json::Integer(-12)), "-12");
    assert_eq!(cursor_value_to_string(&Json::Integer(0)), "0");
    assert_eq!(cursor_value_to_string(&Json::Decimal("1.5".to_owned())), "1.5");
    assert_eq!(cursor_value_to_string(&Json::Bool(true)), "true");
    assert_eq!(cursor_value_to_string(&Json::Bool(false)), "false");
    assert_eq!(cursor_value_to_string(&Json::Null), "");
    let nested = Json::Array(vec![Json::Integer(1), Json::text("x")]);
    assert_eq!(cursor_value_to_string(&nested), "[1,\"x\"]");
}

#[test]
fn completion_values_take_first_column_and_cap() {
    let rows = vec![
        object(vec![("name", Json::text("alpha"))]),
        object(vec![("name", Json::text("alphabet"))]),
    ];
    let got = rows_to_completion_values(&rows, Some("name"), 10);
    assert_eq!(got, vec!["alpha".to_owned(), "alphabet".to_owned()]);
    assert_eq!(rows_to_completion_values(&rows, Some("name"), 1), vec!["alpha".to_owned()]);
}

#[test]
fn completion_skips_cells_without_text() {
    let rows = vec![
        object(vec![("name", Json::Integer(1))]),
        object(vec![("name", Json::text("b"))]),
        Json::Null,
    ];
    assert_eq!(rows_to_completion_values(&rows, Some("name"), 10), vec!["b".to_owned()]);
    assert!(rows_to_completion_values(&rows, Some("name"), 1).is_empty());
    assert!(rows_to_completion_values(&rows, None, 10).is_empty());
    assert!(rows_to_completion_values(&rows, Some("name"), 0).is_empty());
}

#[test]
fn prompt_body_satisfies_decoder_shape() {
    let rows = vec![object(vec![("answer", Json::Integer(42))])];
    let body = prompt_messages_body(&rows);
    let messages = items(&body, "messages");
    assert_eq!(messages.len(), 1);
    assert_eq!(messages[0].get("role"), Some(&Json::text("user")));
    let content = messages[0].get("content").unwrap();
    assert_eq!(content.get("type"), Some(&Json::text("text")));
    assert_eq!(content.get("text"), Some(&Json::text("[{\"answer\":42}]")));
}
