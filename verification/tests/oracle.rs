use oracle_backend::json::Json;
use oracle_backend::numeral::is_same_number;
use oracle_backend::oracle::{
    check_acquired, column_to_json, failure, row_to_json, worker_result, Cell, Column, ColumnType,
    DriverCall, DriverEvent, OracleManager, PoolReply, Progress, QueryOutcome, Read, StatementRun,
    WorkerReply,
};
use oracle_backend::types::OracleOp;

fn object(entries: Vec<(&str, Json)>) -> Json {
    Json::Object(entries.into_iter().map(|(k, v)| (k.to_owned(), v)).collect())
}

fn null_cell() -> Cell {
    Cell {
        int: Read::Null,
        number: Read::Null,
        text: Read::Null,
        bytes: Read::Null,
        flag: Read::Null,
    }
}

fn odd_cell() -> Cell {
    Cell {
        int: Read::Unreadable,
        number: Read::Unreadable,
        text: Read::Unreadable,
        bytes: Read::Unreadable,
        flag: Read::Unreadable,
    }
}

fn text_cell(t: &str) -> Cell {
    Cell { text: Read::Value(t.to_owned()), ..odd_cell() }
}

fn bytes_cell(b: &[u8]) -> Cell {
    Cell { bytes: Read::Value(b.to_vec()), ..odd_cell() }
}

fn int_cell(i: i64) -> Cell {
    Cell { int: Read::Value(i), text: Read::Value(i.to_string()), ..odd_cell() }
}

fn column(name: &str, kind: ColumnType) -> Column {
    Column { name: name.to_owned(), kind }
}

const ALL: [ColumnType; 26] = [
    ColumnType::Number,
    ColumnType::Float,
    ColumnType::BinaryFloat,
    ColumnType::BinaryDouble,
    ColumnType::Int64,
    ColumnType::UInt64,
    ColumnType::Varchar2,
    ColumnType::NVarchar2,
    ColumnType::Char,
    ColumnType::NChar,
    ColumnType::Long,
    ColumnType::Clob,
    ColumnType::NClob,
    ColumnType::Rowid,
    ColumnType::Date,
    ColumnType::Timestamp,
    ColumnType::TimestampTz,
    ColumnType::TimestampLtz,
    ColumnType::IntervalDs,
    ColumnType::IntervalYm,
    ColumnType::Raw,
    ColumnType::LongRaw,
    ColumnType::Blob,
    ColumnType::Bfile,
    ColumnType::Boolean,
    ColumnType::Other,
];

#[test]
fn manager_keeps_the_login() {
    let m = OracleManager::new("u".into(), "p".into(), "d".into());
    assert_eq!((m.username(), m.password(), m.dsn()), ("u", "p", "d"));
    assert_eq!(failure("what: ", "why"), "what: why");
}

#[test]
fn null_of_any_type_is_null() {
    for kind in ALL {
        assert_eq!(column_to_json(&null_cell(), kind), Json::Null, "{kind:?}");
        assert_eq!(column_to_json(&odd_cell(), kind), Json::Null, "{kind:?}");
    }
}

#[test]
fn unconvertible_cells_fall_back_to_text() {
    for kind in ALL {
        assert_eq!(column_to_json(&text_cell("x"), kind), Json::text("x"), "{kind:?}");
    }
}

#[test]
fn numbers_prefer_integers_then_floats_then_text() {
    assert_eq!(column_to_json(&int_cell(7), ColumnType::Number), Json::Integer(7));
    let float = Cell {
        number: Read::Value("1.5".to_owned()),
        text: Read::Value("1.5000".to_owned()),
        ..odd_cell()
    };
    assert_eq!(column_to_json(&float, ColumnType::Float), Json::Decimal("1.5".to_owned()));
    let wide = text_cell("123456789012345678901234567890123456789");
    assert_eq!(
        column_to_json(&wide, ColumnType::Number),
        Json::text("123456789012345678901234567890123456789")
    );
    assert_eq!(column_to_json(&int_cell(7), ColumnType::Varchar2), Json::text("7"));
    let unwritten = Cell { number: Read::Value("2.5".to_owned()), ..odd_cell() };
    assert_eq!(column_to_json(&unwritten, ColumnType::Number), Json::Decimal("2.5".to_owned()));
}

fn number_cell(number: &str, text: &str) -> Cell {
    Cell {
        number: Read::Value(number.to_owned()),
        text: Read::Value(text.to_owned()),
        ..odd_cell()
    }
}

#[test]
fn large_numbers_keep_every_digit() {
    let decimal_types =
        [ColumnType::Number, ColumnType::Float, ColumnType::Int64, ColumnType::UInt64];
    for kind in decimal_types {
        let wide = number_cell("1.2345678901234568e22", "12345678901234567890123");
        assert_eq!(column_to_json(&wide, kind), Json::text("12345678901234567890123"));
        let fine = number_cell("0.1234567890123457", "0.12345678901234567890");
        assert_eq!(column_to_json(&fine, kind), Json::text("0.12345678901234567890"));
        let exact = number_cell("1e+22", "10000000000000000000000");
        assert_eq!(column_to_json(&exact, kind), Json::Decimal("1e+22".to_owned()));
    }
    let binary = number_cell("0.10000000149011612", "0.1");
    for kind in [ColumnType::BinaryFloat, ColumnType::BinaryDouble] {
        assert_eq!(
            column_to_json(&binary, kind),
            Json::Decimal("0.10000000149011612".to_owned())
        );
    }
}

#[test]
fn floats_of_the_driver_compare_with_their_text() {
    for text in ["1.5", "-0.1", "1e300", "123456789012.25", "0.000001", "20000000000000000000"] {
        let float: f64 = text.parse().unwrap();
        let number = serde_json::Number::from_f64(float).unwrap().to_string();
        assert!(is_same_number(&number, text), "{number} {text}");
    }
    let float: f64 = "12345678901234567890123".parse().unwrap();
    let number = serde_json::Number::from_f64(float).unwrap().to_string();
    assert!(!is_same_number(&number, "12345678901234567890123"));
}

#[test]
fn numerals_denote_the_same_number() {
    for (a, b) in [
        ("1.5", "1.5000"),
        ("1.5", "+01.50"),
        (".5", "0.5"),
        ("5.", "5"),
        ("1e22", "10000000000000000000000"),
        ("1.25E-3", "0.00125"),
        ("12.5e+1", "125"),
        ("-0", "0.00"),
        ("0e5", "0"),
        ("-7", "-7.0"),
    ] {
        assert!(is_same_number(a, b), "{a} {b}");
        assert!(is_same_number(b, a), "{b} {a}");
    }
    for (a, b) in [
        ("1.5", "1.50001"),
        ("1.5", "-1.5"),
        ("1", "10"),
        ("1e1", "1"),
        ("1", "x"),
        ("", ""),
        ("-", "-"),
        (".", "."),
        ("1e", "1e"),
        ("1e+", "1e+"),
        ("1 ", "1 "),
        ("1.2.3", "1.2.3"),
        ("1e1234567890", "1e1234567890"),
        ("NaN", "NaN"),
    ] {
        assert!(!is_same_number(a, b), "{a} {b}");
        assert!(!is_same_number(b, a), "{b} {a}");
    }
}

#[test]
fn bytes_become_base64() {
    for (bytes, text) in [
        (&b""[..], ""),
        (&b"f"[..], "Zg=="),
        (&b"fo"[..], "Zm8="),
        (&b"foo"[..], "Zm9v"),
        (&b"foob"[..], "Zm9vYg=="),
        (&[0xfb, 0xff, 0xfe][..], "+//+"),
        (&[0x00, 0x10, 0x83, 0x10, 0x51, 0x87][..], "ABCDEFGH"),
    ] {
        for kind in [ColumnType::Raw, ColumnType::LongRaw, ColumnType::Blob, ColumnType::Bfile] {
            assert_eq!(column_to_json(&bytes_cell(bytes), kind), Json::text(text));
        }
    }
}

#[test]
fn booleans_stay_booleans() {
    let cell = Cell { flag: Read::Value(true), ..odd_cell() };
    assert_eq!(column_to_json(&cell, ColumnType::Boolean), Json::Bool(true));
}

#[test]
fn rows_keep_column_order_and_the_last_of_equal_names() {
    let columns = vec![
        column("B", ColumnType::Number),
        column("A", ColumnType::Varchar2),
        column("B", ColumnType::Varchar2),
    ];
    let row = row_to_json(&vec![int_cell(1), text_cell("a"), text_cell("b")], &columns);
    assert_eq!(row, object(vec![("B", Json::text("b")), ("A", Json::text("a"))]));
    assert_eq!(row_to_json(&vec![], &vec![]), object(vec![]));
}

#[test]
fn fetched_rows_have_a_json_form() {
    let columns = vec![
        column("N", ColumnType::Number),
        column("F", ColumnType::BinaryDouble),
        column("B", ColumnType::Blob),
    ];
    let float = Cell { number: Read::Value("2.5".to_owned()), ..odd_cell() };
    let row = row_to_json(&vec![int_cell(i64::MIN), float, bytes_cell(b"foo")], &columns);
    assert_eq!(
        row.to_text().unwrap(),
        "{\"N\":-9223372036854775808,\"F\":2.5,\"B\":\"Zm9v\"}"
    );
}

fn run_query(limit: usize, available: usize) -> (Vec<DriverCall>, Progress) {
    let (mut run, first) = StatementRun::new(OracleOp::Query, limit);
    let mut calls = vec![first];
    let mut progress = run.step(DriverEvent::TimeoutSet);
    let mut fetched: usize = 0;
    loop {
        let event = match &progress {
            Progress::Done(_) => return (calls, progress),
            Progress::Call(DriverCall::Query) => {
                calls.push(DriverCall::Query);
                DriverEvent::Opened(vec![column("N", ColumnType::Number)])
            }
            Progress::Call(DriverCall::FetchRow) => {
                calls.push(DriverCall::FetchRow);
                if fetched < available {
                    fetched += 1;
                    DriverEvent::Row(vec![int_cell(fetched as i64)])
                } else {
                    DriverEvent::NoMoreRows
                }
            }
            other => panic!("unexpected {other:?}"),
        };
        progress = run.step(event);
    }
}

fn numbered(n: i128) -> Progress {
    let rows = (1..=n).map(|i| object(vec![("N", Json::Integer(i))])).collect();
    Progress::Done(Ok(QueryOutcome { rows: Some(rows), rows_affected: None }))
}

#[test]
fn query_returns_all_rows_below_the_limit() {
    let (calls, done) = run_query(5, 2);
    assert_eq!(done, numbered(2));
    assert_eq!(
        calls,
        vec![
            DriverCall::SetCallTimeout,
            DriverCall::Query,
            DriverCall::FetchRow,
            DriverCall::FetchRow,
            DriverCall::FetchRow
        ]
    );
}

#[test]
fn query_stops_at_the_limit() {
    let (calls, done) = run_query(3, 100);
    assert_eq!(done, numbered(3));
    assert_eq!(calls.len(), 5);
    let (calls, done) = run_query(0, 100);
    assert_eq!(done, numbered(0));
    assert_eq!(calls.len(), 2);
}

#[test]
fn mutation_counts_then_commits() {
    let (mut run, first) = StatementRun::new(OracleOp::Execute, 10);
    assert_eq!(first, DriverCall::SetCallTimeout);
    assert_eq!(run.step(DriverEvent::TimeoutSet), Progress::Call(DriverCall::Execute));
    assert_eq!(run.step(DriverEvent::Executed), Progress::Call(DriverCall::RowCount));
    assert_eq!(run.step(DriverEvent::Counted(3)), Progress::Call(DriverCall::Commit));
    assert_eq!(
        run.step(DriverEvent::Committed),
        Progress::Done(Ok(QueryOutcome { rows: None, rows_affected: Some(3) }))
    );
}

fn fail_after(op: OracleOp, events: Vec<DriverEvent>) -> Progress {
    let (mut run, _) = StatementRun::new(op, 10);
    for event in events {
        run.step(event);
    }
    run.step(DriverEvent::Failed("why".to_owned()))
}

#[test]
fn failed_calls_say_which() {
    let error = |text: &str| Progress::Done(Err(text.to_owned()));
    assert_eq!(
        fail_after(OracleOp::Query, vec![]),
        error("Oracle set_call_timeout failed: why")
    );
    assert_eq!(
        fail_after(OracleOp::Query, vec![DriverEvent::TimeoutSet]),
        error("Oracle query failed: why")
    );
    assert_eq!(
        fail_after(OracleOp::Query, vec![DriverEvent::TimeoutSet, DriverEvent::Opened(vec![])]),
        error("Oracle row read failed: why")
    );
    assert_eq!(
        fail_after(OracleOp::Execute, vec![DriverEvent::TimeoutSet]),
        error("Oracle execute failed: why")
    );
    assert_eq!(
        fail_after(OracleOp::Execute, vec![DriverEvent::TimeoutSet, DriverEvent::Executed]),
        error("Oracle row_count failed: why")
    );
    assert_eq!(
        fail_after(
            OracleOp::Execute,
            vec![DriverEvent::TimeoutSet, DriverEvent::Executed, DriverEvent::Counted(1)]
        ),
        error("Oracle commit failed: why")
    );
}

#[test]
fn pool_and_worker_replies() {
    assert_eq!(check_acquired(PoolReply::Acquired), Ok(()));
    assert_eq!(
        check_acquired(PoolReply::Failed("x".into())),
        Err("Oracle pool acquire failed: x".to_owned())
    );
    assert_eq!(
        check_acquired(PoolReply::TimedOut),
        Err("Oracle pool acquire timed out".to_owned())
    );
    let outcome = || QueryOutcome { rows: None, rows_affected: Some(1) };
    assert_eq!(worker_result(WorkerReply::Finished(Ok(outcome()))), Ok(outcome()));
    assert_eq!(
        worker_result(WorkerReply::Finished(Err("e".into()))),
        Err("e".to_owned())
    );
    assert_eq!(
        worker_result(WorkerReply::Failed("x".into())),
        Err("Oracle worker task failed: x".to_owned())
    );
    assert_eq!(worker_result(WorkerReply::TimedOut), Err("Oracle call timed out".to_owned()));
}
