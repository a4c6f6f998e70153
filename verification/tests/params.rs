use cel_interpreter::{Context, Program};
use oracle_backend::json::Json;
use oracle_backend::params::{
    arguments_referenced_by_params, bind_box, bind_values, extract_argument_idents,
    json_to_oracle_bind, params_input_schema, BoundValue, CompiledParam, OracleBind,
};

fn object(entries: Vec<(&str, Json)>) -> Json {
    Json::Object(entries.into_iter().map(|(k, v)| (k.to_owned(), v)).collect())
}

fn param(source: &str) -> CompiledParam {
    CompiledParam { source: source.to_owned() }
}

#[test]
fn extract_argument_idents_finds_names() {
    let got = extract_argument_idents("arguments.user_id + size(arguments.tags)");
    assert_eq!(got, vec!["user_id".to_owned(), "tags".to_owned()]);
    assert!(extract_argument_idents("1 + 2").is_empty());
}

#[test]
fn extract_argument_idents_at_the_edges() {
    assert!(extract_argument_idents("arguments.").is_empty());
    assert!(extract_argument_idents("arguments. id").is_empty());
    assert_eq!(extract_argument_idents("arguments.a"), vec!["a".to_owned()]);
    assert_eq!(extract_argument_idents("arguments.a.b"), vec!["a".to_owned()]);
    assert_eq!(
        extract_argument_idents("arguments.arguments.x"),
        vec!["arguments".to_owned()]
    );
    assert_eq!(
        extract_argument_idents("\u{e9}arguments.caf\u{e9} arguments.b2_"),
        vec!["caf".to_owned(), "b2_".to_owned()]
    );
    assert_eq!(
        extract_argument_idents("arguments.a arguments.a"),
        vec!["a".to_owned(), "a".to_owned()]
    );
}

#[test]
fn referenced_arguments_are_distinct_in_first_seen_order() {
    let params = vec![param("arguments.b + arguments.a"), param("arguments.a"), param("arguments.c")];
    assert_eq!(
        arguments_referenced_by_params(&params),
        vec!["b".to_owned(), "a".to_owned(), "c".to_owned()]
    );
    assert!(arguments_referenced_by_params(&[]).is_empty());
}

#[test]
fn input_schema_is_open_and_untyped() {
    let names = vec!["id".to_owned(), "tag".to_owned()];
    assert_eq!(
        params_input_schema(&names),
        object(vec![
            ("type", Json::text("object")),
            (
                "properties",
                object(vec![("id", object(vec![])), ("tag", object(vec![]))])
            ),
            ("additionalProperties", Json::Bool(true)),
        ])
    );
    assert_eq!(params_input_schema(&[]).get("properties"), Some(&object(vec![])));
}

#[test]
fn template_var_binds_as_param_not_interpolated() {
    let injection = "1 OR 1=1; DROP TABLE orders";
    let args = object(vec![
        ("uri", Json::Text(format!("oracle://orders/{injection}"))),
        ("id", Json::text(injection)),
        ("template_vars", object(vec![("id", Json::text(injection))])),
    ]);
    let program = Program::compile("arguments.id").unwrap();
    let mut context = Context::default();
    context.add_variable("arguments", args.to_value().unwrap()).unwrap();
    let value = program.execute(&context).unwrap().json().unwrap();
    let values = vec![Json::from_value(value)];
    assert_eq!(values, vec![Json::text(injection)]);
    let bind = json_to_oracle_bind(values.into_iter().next().unwrap()).unwrap();
    assert_eq!(bind, OracleBind::Str(injection.to_owned()));
}

#[test]
fn scalars_lower_to_binds() {
    assert_eq!(json_to_oracle_bind(Json::Null), Ok(OracleBind::Null));
    assert_eq!(json_to_oracle_bind(Json::Bool(true)), Ok(OracleBind::Bool(true)));
    assert_eq!(json_to_oracle_bind(Json::Integer(-3)), Ok(OracleBind::Int(-3)));
    assert_eq!(
        json_to_oracle_bind(Json::Integer(i64::MIN as i128)),
        Ok(OracleBind::Int(i64::MIN))
    );
    assert_eq!(
        json_to_oracle_bind(Json::Integer(u64::MAX as i128)),
        Ok(OracleBind::Float("18446744073709551615".to_owned()))
    );
    assert_eq!(
        json_to_oracle_bind(Json::Integer(i128::MIN)),
        Ok(OracleBind::Float("-170141183460469231731687303715884105728".to_owned()))
    );
    assert_eq!(
        json_to_oracle_bind(Json::Decimal("1.5".to_owned())),
        Ok(OracleBind::Float("1.5".to_owned()))
    );
    let refused =
        Err("array and object values cannot be bound as a scalar Oracle parameter".to_owned());
    assert_eq!(json_to_oracle_bind(Json::Array(vec![])), refused);
    assert_eq!(json_to_oracle_bind(object(vec![])), refused);
}

#[test]
fn values_bind_in_order_or_not_at_all() {
    assert_eq!(
        bind_values(vec![Json::Integer(1), Json::text("x"), Json::Null]),
        Ok(vec![OracleBind::Int(1), OracleBind::Str("x".to_owned()), OracleBind::Null])
    );
    assert_eq!(
        bind_values(vec![Json::Integer(1), Json::Array(vec![])]),
        Err(
            "binding params: array and object values cannot be bound as a scalar Oracle parameter"
                .to_owned()
        )
    );
    assert_eq!(bind_values(vec![]), Ok(vec![]));
}

#[test]
fn bind_box_covers_all_scalars() {
    assert_eq!(bind_box(&OracleBind::Null), BoundValue::NullText);
    assert_eq!(bind_box(&OracleBind::Int(7)), BoundValue::Int(7));
    assert_eq!(
        bind_box(&OracleBind::Float("1.5".into())),
        BoundValue::Float("1.5".to_owned())
    );
    assert_eq!(bind_box(&OracleBind::Bool(true)), BoundValue::Flag(1));
    assert_eq!(bind_box(&OracleBind::Bool(false)), BoundValue::Flag(0));
    assert_eq!(bind_box(&OracleBind::Str("x".into())), BoundValue::Text("x".to_owned()));
}
