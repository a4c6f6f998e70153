use oracle_backend::json::{set_entry, Json};

fn object(entries: Vec<(&str, Json)>) -> Json {
    Json::Object(entries.into_iter().map(|(k, v)| (k.to_owned(), v)).collect())
}

fn sample() -> Json {
    object(vec![
        ("z", Json::Null),
        ("b", Json::Bool(false)),
        ("n", Json::Integer(i64::MIN as i128)),
        ("u", Json::Integer(u64::MAX as i128)),
        ("f", Json::Decimal("-0.1".to_owned())),
        ("t", Json::text("a\"\\\n\u{1}\u{e9}\u{1f600}")),
        ("a", Json::Array(vec![Json::Integer(1), object(vec![]), Json::Array(vec![])])),
    ])
}

#[test]
fn text_is_compact_and_keeps_order() {
    assert_eq!(
        sample().to_text().unwrap(),
        "{\"z\":null,\"b\":false,\"n\":-9223372036854775808,\"u\":18446744073709551615,\
         \"f\":-0.1,\"t\":\"a\\\"\\\\\\n\\u0001\u{e9}\u{1f600}\",\"a\":[1,{},[]]}"
    );
}

#[test]
fn text_reads_back() {
    let text = sample().to_text().unwrap();
    assert_eq!(Json::parse(text.as_bytes()), Ok(sample()));
    for t in ["0.1", "1e300", "123456.789", "-1.5e-8", "1.0", "0.30000000000000004"] {
        let v = Json::parse(t.as_bytes()).unwrap();
        let again = v.to_text().unwrap();
        assert_eq!(Json::parse(again.as_bytes()), Ok(v), "{t}");
    }
}

#[test]
fn numbers_are_told_apart() {
    assert_eq!(Json::parse(b"1"), Ok(Json::Integer(1)));
    assert_eq!(Json::parse(b"-1"), Ok(Json::Integer(-1)));
    assert_eq!(Json::parse(b"1.0"), Ok(Json::Decimal("1.0".to_owned())));
    assert_eq!(Json::parse(b"18446744073709551615"), Ok(Json::Integer(u64::MAX as i128)));
    assert!(matches!(Json::parse(b"18446744073709551616"), Ok(Json::Decimal(_))));
}

#[test]
fn what_json_cannot_hold_has_no_text() {
    assert_eq!(Json::Integer(u64::MAX as i128 + 1).to_text(), None);
    assert_eq!(Json::Integer(i64::MIN as i128 - 1).to_text(), None);
    assert_eq!(Json::Decimal("x".to_owned()).to_text(), None);
    assert_eq!(Json::Decimal("1".to_owned()).to_text(), None);
    assert_eq!(Json::Decimal("1.50".to_owned()).to_text(), None);
    let twice = object(vec![("a", Json::Null), ("a", Json::Null)]);
    assert_eq!(twice.to_text(), None);
    assert_eq!(Json::Array(vec![Json::Null, twice]).to_text(), None);
    assert_eq!(object(vec![("k", Json::Decimal("x".to_owned()))]).to_text(), None);
}

#[test]
fn repeated_keys_keep_the_last_value_in_the_first_place() {
    let v = Json::parse(b"{\"a\":1,\"b\":2,\"a\":3}").unwrap();
    assert_eq!(v, object(vec![("a", Json::Integer(3)), ("b", Json::Integer(2))]));
    let mut entries = vec![("a".to_owned(), Json::Integer(1)), ("b".to_owned(), Json::Null)];
    set_entry(&mut entries, "a".to_owned(), Json::Integer(2));
    set_entry(&mut entries, "c".to_owned(), Json::Integer(3));
    assert_eq!(
        Json::Object(entries),
        object(vec![("a", Json::Integer(2)), ("b", Json::Null), ("c", Json::Integer(3))])
    );
}

#[test]
fn errors_come_in_the_readers_words() {
    assert_eq!(
        Json::parse(b""),
        Err("EOF while parsing a value at line 1 column 0".to_owned())
    );
    assert!(Json::parse(b"{").is_err());
    assert!(Json::parse(b"1 2").is_err());
    assert!(Json::parse(&[0xff]).is_err());
}

#[test]
fn nesting_reads_back_up_to_the_limit() {
    let nest = |n: usize| {
        let mut v = Json::Null;
        for _ in 0..n {
            v = Json::Array(vec![v]);
        }
        v
    };
    let text = nest(127).to_text().unwrap();
    assert_eq!(Json::parse(text.as_bytes()), Ok(nest(127)));
    let text = nest(128).to_text().unwrap();
    assert!(Json::parse(text.as_bytes()).is_err());
}

#[test]
fn values_convert_both_ways() {
    let value = sample().to_value().unwrap();
    assert_eq!(value["u"].as_u64(), Some(u64::MAX));
    assert_eq!(Json::from_value(value), sample());
}

#[test]
fn fields_of_objects() {
    let v = sample();
    assert_eq!(v.get("b"), Some(&Json::Bool(false)));
    assert_eq!(v.get("x"), None);
    assert_eq!(v.get_text("b"), None);
    assert!(v.get_text("t").is_some());
    assert_eq!(Json::Null.get("a"), None);
    assert_eq!(Json::Array(vec![]).get("a"), None);
    assert_eq!(v.clone(), v);
}
