use chrono::{Duration, NaiveDate};
use indexmap::IndexMap;
use mysql_async::{Column, Row, Value as MySqlValue};
use mysql_async_support::string_values::{is_sql_safe, strip_quotes};
use mysql_async_support::value::{deserialize, serialize, RawValue};
use mysql_async_support::{StringValues, TypedValues, Value, ValueIr};
use mysql_common::constants::ColumnType;
use mysql_common::row::new_row;

fn row(cells: Vec<(&str, MySqlValue)>) -> Row {
    let columns: Vec<Column> = cells
        .iter()
        .map(|(name, _)| Column::new(ColumnType::MYSQL_TYPE_VAR_STRING).with_name(name.as_bytes()))
        .collect();
    new_row(cells.into_iter().map(|(_, value)| value).collect(), columns.into())
}

fn strings(entries: &[(&str, &str)]) -> IndexMap<String, String> {
    entries.iter().map(|(key, value)| (key.to_string(), value.to_string())).collect()
}

fn time_json(duration: &Duration) -> String {
    let (secs, nanos) = serialize(duration);
    format!("{{\"Time\":{{\"secs\":{},\"nanos\":{}}}}}", secs, nanos)
}

#[test]
fn serialize_time_positive() {
    let duration = Duration::seconds(123) + Duration::nanoseconds(456);

    assert_eq!(String::from(r#"{"Time":{"secs":123,"nanos":456}}"#), time_json(&duration));
}

#[test]
fn serialize_time_negative() {
    let duration = Duration::seconds(123) + Duration::nanoseconds(456);

    assert_eq!(String::from(r#"{"Time":{"secs":-123,"nanos":-456}}"#), time_json(&-duration));
}

#[test]
fn deserialize_time_positive() {
    let duration = Duration::seconds(123) + Duration::nanoseconds(456);

    assert_eq!(Some(duration), deserialize(123, 456));
}

#[test]
fn deserialize_time_negative() {
    let duration = Duration::seconds(123) + Duration::nanoseconds(456);

    assert_eq!(Some(-duration), deserialize(-123, -456));
}

#[test]
fn serialize_splits_whole_seconds_from_the_rest() {
    assert_eq!((0, 0), serialize(&Duration::zero()));
    assert_eq!((0, 999_999_999), serialize(&Duration::nanoseconds(999_999_999)));
    assert_eq!((1, 0), serialize(&Duration::nanoseconds(1_000_000_000)));
    assert_eq!((0, -1), serialize(&Duration::nanoseconds(-1)));
    assert_eq!((-1, -500_000_000), serialize(&Duration::milliseconds(-1500)));
    assert_eq!((86_400, 0), serialize(&Duration::days(1)));
}

#[test]
fn deserialize_takes_parts_of_either_sign() {
    assert_eq!(Some(Duration::milliseconds(500)), deserialize(1, -500_000_000));
    assert_eq!(Some(Duration::milliseconds(-500)), deserialize(-1, 500_000_000));
    assert_eq!(Some(Duration::seconds(3)), deserialize(1, 2_000_000_000));
    assert_eq!(Some(Duration::zero()), deserialize(0, 0));
}

#[test]
fn deserialize_refuses_what_chrono_cannot_hold() {
    assert_eq!(Some(Duration::MAX), deserialize(i64::MAX / 1_000, 807_000_000));
    assert_eq!(None, deserialize(i64::MAX / 1_000, 807_000_001));
    assert_eq!(Some(Duration::MIN), deserialize(-(i64::MAX / 1_000), -807_000_000));
    assert_eq!(None, deserialize(-(i64::MAX / 1_000), -807_000_001));
    assert_eq!(None, deserialize(i64::MAX, i64::MAX));
    assert_eq!(None, deserialize(i64::MIN, i64::MIN));
}

#[test]
fn value_from_raw_keeps_plain_values() {
    assert_eq!(Value::Null, Value::from_raw(RawValue::Null));
    assert_eq!(Value::Bytes(vec![1, 2, 3]), Value::from_raw(RawValue::Bytes(vec![1, 2, 3])));
    assert_eq!(Value::Int(-7), Value::from_raw(RawValue::Int(-7)));
    assert_eq!(Value::UInt(7), Value::from_raw(RawValue::UInt(7)));
    assert_eq!(Value::Float(1.5f32.to_bits()), Value::from_raw(RawValue::Float(1.5f32.to_bits())));
    assert_eq!(
        Value::Double(2.25f64.to_bits()),
        Value::from_raw(RawValue::Double(2.25f64.to_bits()))
    );
}

#[test]
fn value_from_raw_makes_a_date_time() {
    let expected = NaiveDate::from_ymd_opt(2021, 5, 30)
        .and_then(|date| date.and_hms_micro_opt(12, 6, 53, 445))
        .expect("a date of the calendar");

    assert_eq!(
        Value::Date(expected),
        Value::from_raw(RawValue::Date(2021, 5, 30, 12, 6, 53, 445))
    );
    assert_eq!(
        Some(Value::Date(expected)),
        Value::try_from_raw(RawValue::Date(2021, 5, 30, 12, 6, 53, 445))
    );
}

#[test]
fn value_try_from_raw_refuses_a_date_that_is_none() {
    assert_eq!(None, Value::try_from_raw(RawValue::Date(0, 0, 0, 0, 0, 0, 0)));
    assert_eq!(None, Value::try_from_raw(RawValue::Date(2021, 2, 30, 0, 0, 0, 0)));
    assert_eq!(None, Value::try_from_raw(RawValue::Date(2021, 13, 1, 0, 0, 0, 0)));
    assert_eq!(None, Value::try_from_raw(RawValue::Date(2021, 5, 30, 24, 0, 0, 0)));
    assert_eq!(None, Value::try_from_raw(RawValue::Date(2021, 5, 30, 0, 60, 0, 0)));
    assert_eq!(None, Value::try_from_raw(RawValue::Date(2021, 5, 30, 0, 0, 60, 0)));
    assert!(Value::try_from_raw(RawValue::Date(2020, 2, 29, 23, 59, 59, 999_999)).is_some());
}

#[test]
fn value_can_convert_all_but_dates_that_are_none() {
    assert!(Value::can_convert(&RawValue::Null));
    assert!(Value::can_convert(&RawValue::Time(true, u32::MAX, 255, 255, 255, u32::MAX)));
    assert!(Value::can_convert(&RawValue::Date(2021, 5, 30, 12, 6, 53, 445)));
    assert!(Value::can_convert(&RawValue::Date(2021, 5, 30, 23, 59, 59, 1_999_999)));
    assert!(!Value::can_convert(&RawValue::Date(2021, 5, 30, 23, 59, 58, 1_000_000)));
    assert!(!Value::can_convert(&RawValue::Date(2021, 4, 31, 0, 0, 0, 0)));
    assert!(!Value::can_convert(&RawValue::Date(0, 0, 0, 0, 0, 0, 0)));
}

#[test]
fn value_from_raw_adds_up_a_time() {
    let expected = Duration::days(2)
        + Duration::hours(3)
        + Duration::minutes(4)
        + Duration::seconds(5)
        + Duration::microseconds(6);

    assert_eq!(Value::Time(expected), Value::from_raw(RawValue::Time(false, 2, 3, 4, 5, 6)));
    assert_eq!(Value::Time(-expected), Value::from_raw(RawValue::Time(true, 2, 3, 4, 5, 6)));
    assert_eq!(Value::Time(Duration::zero()), Value::from_raw(RawValue::Time(true, 0, 0, 0, 0, 0)));
    assert_eq!(
        Value::Time(Duration::microseconds(-1)),
        Value::from_raw(RawValue::Time(true, 0, 0, 0, 0, 1))
    );
}

#[test]
fn value_from_raw_takes_the_longest_time() {
    let expected = Duration::days(i64::from(u32::MAX))
        + Duration::hours(255)
        + Duration::minutes(255)
        + Duration::seconds(255)
        + Duration::microseconds(i64::from(u32::MAX));

    assert_eq!(
        Value::Time(expected),
        Value::from_raw(RawValue::Time(false, u32::MAX, 255, 255, 255, u32::MAX))
    );
    assert_eq!(
        Value::Time(-expected),
        Value::from_raw(RawValue::Time(true, u32::MAX, 255, 255, 255, u32::MAX))
    );
}

#[test]
fn value_try_from_mysql_reads_each_variant() {
    assert_eq!(Some(Value::Null), Value::try_from_mysql(&MySqlValue::NULL));
    assert_eq!(
        Some(Value::Bytes(b"abc".to_vec())),
        Value::try_from_mysql(&MySqlValue::Bytes(b"abc".to_vec()))
    );
    assert_eq!(Some(Value::Int(-1)), Value::try_from_mysql(&MySqlValue::Int(-1)));
    assert_eq!(Some(Value::UInt(1)), Value::try_from_mysql(&MySqlValue::UInt(1)));
    assert_eq!(
        Some(Value::Float(0.5f32.to_bits())),
        Value::try_from_mysql(&MySqlValue::Float(0.5))
    );
    assert_eq!(
        Some(Value::Double(0.25f64.to_bits())),
        Value::try_from_mysql(&MySqlValue::Double(0.25))
    );
    assert_eq!(
        Some(Value::Time(Duration::hours(1))),
        Value::try_from_mysql(&MySqlValue::Time(false, 0, 1, 0, 0, 0))
    );
    assert_eq!(None, Value::try_from_mysql(&MySqlValue::Date(0, 0, 0, 0, 0, 0, 0)));
}

#[test]
fn value_ir_commits_and_rolls_back() {
    let ir = ValueIr::new(MySqlValue::Int(5)).expect("any value is taken");
    assert_eq!(Value::Int(5), ir.commit());

    let ir = ValueIr::new(MySqlValue::UInt(6)).expect("any value is taken");
    assert_eq!(MySqlValue::UInt(6), ir.rollback());

    let ir = ValueIr::new(MySqlValue::Int(7)).expect("any value is taken");
    assert_eq!(Ok(Value::Int(7)), ir.try_commit());

    let zero_date = MySqlValue::Date(0, 0, 0, 0, 0, 0, 0);
    let ir = ValueIr::new(zero_date.clone()).expect("any value is taken");
    assert_eq!(Err(zero_date), ir.try_commit());
}

#[test]
fn strip_quotes_takes_the_quotes_around_a_text() {
    assert_eq!("abc", strip_quotes(String::from("'abc'")));
    assert_eq!("", strip_quotes(String::from("''")));
    assert_eq!("'", strip_quotes(String::from("'")));
    assert_eq!("abc", strip_quotes(String::from("abc")));
    assert_eq!("'abc", strip_quotes(String::from("'abc")));
    assert_eq!("abc'", strip_quotes(String::from("abc'")));
    assert_eq!("a'b", strip_quotes(String::from("'a'b'")));
    assert_eq!("'", strip_quotes(String::from("'''")));
    assert_eq!("", strip_quotes(String::new()));
    assert_eq!("é", strip_quotes(String::from("'é'")));
}

#[test]
fn is_sql_safe_bounds_the_hours_of_a_time() {
    assert!(is_sql_safe(&RawValue::Time(false, 178_956_970, 15, 0, 0, 0)));
    assert!(!is_sql_safe(&RawValue::Time(false, 178_956_970, 16, 0, 0, 0)));
    assert!(!is_sql_safe(&RawValue::Time(true, u32::MAX, 0, 0, 0, 0)));
    assert!(is_sql_safe(&RawValue::Int(i64::MAX)));
}

#[test]
fn string_values_from_columns_pairs_names_and_texts() {
    let values = StringValues::from_columns(
        vec![String::from("id"), String::from("name"), String::from("born")],
        vec![String::from("1"), String::from("'Ada'"), String::from("'1815-12-10'")],
    );

    assert_eq!(strings(&[("id", "1"), ("name", "Ada"), ("born", "1815-12-10")]), values.0);
    assert_eq!(
        vec!["id", "name", "born"],
        values.0.keys().map(String::as_str).collect::<Vec<_>>()
    );
}

#[test]
fn string_values_from_columns_of_one_name_keeps_the_first_place_and_the_last_value() {
    let values = StringValues::from_columns(
        vec![String::from("a"), String::from("b"), String::from("a")],
        vec![String::from("1"), String::from("2"), String::from("3")],
    );

    assert_eq!(
        vec![("a", "3"), ("b", "2")],
        values.0.iter().map(|(key, value)| (key.as_str(), value.as_str())).collect::<Vec<_>>()
    );
}

#[test]
fn string_values_from_columns_leaves_out_what_has_no_partner() {
    let more_names = StringValues::from_columns(
        vec![String::from("a"), String::from("b")],
        vec![String::from("1")],
    );
    let more_texts = StringValues::from_columns(
        vec![String::from("a")],
        vec![String::from("1"), String::from("2")],
    );

    assert_eq!(strings(&[("a", "1")]), more_names.0);
    assert_eq!(strings(&[("a", "1")]), more_texts.0);
}

#[test]
fn clones_hold_the_same_values() {
    let strings = StringValues::from_columns(
        vec![String::from("b"), String::from("a")],
        vec![String::from("2"), String::from("'1'")],
    );
    let typed = TypedValues::from_columns(
        vec![String::from("b"), String::from("a")],
        vec![Value::Bytes(vec![1, 2]), Value::Time(Duration::seconds(3))],
    );

    assert_eq!(strings, strings.clone());
    assert_eq!(typed, typed.clone());
    assert_eq!(
        vec!["b", "a"],
        typed.clone().0.keys().map(String::as_str).collect::<Vec<_>>()
    );
    for value in [
        Value::Null,
        Value::Bytes(vec![0, 255]),
        Value::Int(-1),
        Value::UInt(1),
        Value::Float(7),
        Value::Double(9),
        Value::Time(Duration::nanoseconds(-5)),
    ] {
        assert_eq!(value, value.clone());
    }
}

#[test]
fn string_values_default_is_empty() {
    assert!(StringValues::default().0.is_empty());
    assert!(TypedValues::default().0.is_empty());
}

#[test]
fn string_values_from_row_writes_values_as_sql_without_quotes() {
    let values = StringValues::from_row_opt(row(vec![
        ("id", MySqlValue::Int(-7)),
        ("name", MySqlValue::Bytes(b"Ada".to_vec())),
        ("none", MySqlValue::NULL),
        ("born", MySqlValue::Date(1815, 12, 10, 0, 0, 0, 0)),
        ("seen", MySqlValue::Date(2021, 5, 30, 12, 6, 53, 445)),
        ("took", MySqlValue::Time(true, 1, 2, 3, 4, 0)),
        ("raw", MySqlValue::Bytes(vec![0xff, 0x00])),
    ]))
    .expect("every value can be written");

    assert_eq!(
        vec![
            ("id", "-7"),
            ("name", "Ada"),
            ("none", "NULL"),
            ("born", "1815-12-10"),
            ("seen", "2021-05-30 12:06:53.000445"),
            ("took", "-026:03:04"),
            ("raw", "0xFF00"),
        ],
        values.0.iter().map(|(key, value)| (key.as_str(), value.as_str())).collect::<Vec<_>>()
    );
}

#[test]
fn string_values_from_row_does_not_escape_with_backslashes() {
    let values = StringValues::from_row_opt(row(vec![(
        "text",
        MySqlValue::Bytes(b"it's a \\ path".to_vec()),
    )]))
    .expect("every value can be written");

    assert_eq!(strings(&[("text", "it''s a \\ path")]), values.0);
}

#[test]
fn string_values_from_row_refuses_a_row_with_a_value_taken() {
    let mut incomplete = row(vec![("a", MySqlValue::Int(1)), ("b", MySqlValue::Int(2))]);
    let _: Option<i64> = incomplete.take(1);

    let error = StringValues::from_row_opt(incomplete.clone()).expect_err("a value is missing");

    assert_eq!(incomplete, error.0);
}

#[test]
fn string_values_from_row_refuses_a_time_beyond_the_hours_of_sql() {
    let unsafe_row = row(vec![("t", MySqlValue::Time(false, u32::MAX, 0, 0, 0, 0))]);

    assert!(StringValues::from_row_opt(unsafe_row).is_err());
}

#[test]
fn typed_values_from_columns_pairs_names_and_values() {
    let values = TypedValues::from_columns(
        vec![String::from("a"), String::from("b"), String::from("a"), String::from("c")],
        vec![Value::Int(1), Value::Null, Value::UInt(3)],
    );

    assert_eq!(
        vec![("a", &Value::UInt(3)), ("b", &Value::Null)],
        values.0.iter().map(|(key, value)| (key.as_str(), value)).collect::<Vec<_>>()
    );
}

#[test]
fn typed_values_from_row_types_each_value() {
    let values = TypedValues::from_row_opt(row(vec![
        ("id", MySqlValue::UInt(7)),
        ("took", MySqlValue::Time(true, 0, 0, 0, 1, 500_000)),
        ("born", MySqlValue::Date(1815, 12, 10, 0, 0, 0, 0)),
    ]))
    .expect("every value can be typed");

    let born = NaiveDate::from_ymd_opt(1815, 12, 10)
        .and_then(|date| date.and_hms_opt(0, 0, 0))
        .expect("a date of the calendar");
    assert_eq!(
        vec![
            ("id", &Value::UInt(7)),
            ("took", &Value::Time(Duration::milliseconds(-1500))),
            ("born", &Value::Date(born)),
        ],
        values.0.iter().map(|(key, value)| (key.as_str(), value)).collect::<Vec<_>>()
    );
}

#[test]
fn typed_values_from_row_refuses_the_zero_date() {
    let zero = row(vec![("d", MySqlValue::Date(0, 0, 0, 0, 0, 0, 0))]);

    let error = TypedValues::from_row_opt(zero.clone()).expect_err("no such date");

    assert_eq!(zero, error.0);
}

#[test]
fn typed_values_from_row_refuses_a_row_with_a_value_taken() {
    let mut incomplete = row(vec![("a", MySqlValue::Int(1))]);
    let _: Option<i64> = incomplete.take(0);

    assert!(TypedValues::from_row_opt(incomplete).is_err());
}
