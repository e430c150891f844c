use cargo_generate::extract_toml_string;
use cargo_generate::values::{TomlDate, TomlDatetime, TomlOffset, TomlTime, TomlValue};

fn text(s: &str) -> TomlValue {
    TomlValue::String(s.to_string())
}

#[test]
fn test_extract_toml_string() {
    assert_eq!(
        extract_toml_string(&TomlValue::Integer(42)),
        Some(String::from("42"))
    );
    assert_eq!(
        extract_toml_string(&TomlValue::Float(42.0f64.to_string())),
        Some(String::from("42"))
    );
    assert_eq!(
        extract_toml_string(&TomlValue::Boolean(true)),
        Some(String::from("true"))
    );
    assert_eq!(
        extract_toml_string(&TomlValue::Array(vec![
            TomlValue::Integer(1),
            TomlValue::Array(vec![TomlValue::Array(vec![TomlValue::Integer(2)])]),
            TomlValue::Integer(3),
            TomlValue::Integer(4),
        ])),
        Some(String::from("1,2,3,4"))
    );
    assert_eq!(extract_toml_string(&TomlValue::Table(vec![])), None);
}

#[test]
fn nested_arrays_are_flattened() {
    let a_b = TomlValue::Array(vec![text("a"), text("b")]);
    let c = TomlValue::Array(vec![TomlValue::Array(vec![text("c")])]);
    let d = TomlValue::Array(vec![TomlValue::Array(vec![TomlValue::Array(vec![text("d")])])]);
    let value = TomlValue::Array(vec![TomlValue::Array(vec![TomlValue::Array(vec![a_b, c]), d])]);
    assert_eq!(extract_toml_string(&value), Some("a,b,c,d".to_string()));
}

#[test]
fn tables_and_empty_arrays_in_arrays_count_for_nothing() {
    let value = TomlValue::Array(vec![text("a"), TomlValue::Table(vec![]), text("b")]);
    assert_eq!(extract_toml_string(&value), Some("a,b".to_string()));
    let value = TomlValue::Array(vec![text("a"), TomlValue::Array(vec![]), text("b")]);
    assert_eq!(extract_toml_string(&value), Some("a,b".to_string()));
    let value = TomlValue::Array(vec![
        TomlValue::Integer(1),
        TomlValue::Array(vec![]),
        TomlValue::Integer(2),
    ]);
    assert_eq!(extract_toml_string(&value), Some("1,2".to_string()));
    let value = TomlValue::Array(vec![TomlValue::Array(vec![]), TomlValue::Array(vec![])]);
    assert_eq!(extract_toml_string(&value), Some(String::new()));
    // an empty text is an item like any other
    let value = TomlValue::Array(vec![text("a"), text(""), text("b")]);
    assert_eq!(extract_toml_string(&value), Some("a,,b".to_string()));
    assert_eq!(extract_toml_string(&TomlValue::Array(vec![])), Some(String::new()));
}

#[test]
fn integers_are_written_in_decimal() {
    for i in [0, 7, 10, -1, -10, 1234567890, i64::MAX, i64::MIN] {
        assert_eq!(extract_toml_string(&TomlValue::Integer(i)), Some(i.to_string()));
    }
    assert_eq!(
        extract_toml_string(&TomlValue::Boolean(false)),
        Some("false".to_string())
    );
}

#[test]
fn dates_and_times_are_written_as_in_toml() {
    let value = TomlDatetime {
        date: Some(TomlDate { year: 1979, month: 5, day: 27 }),
        time: Some(TomlTime { hour: 0, minute: 32, second: 0, nanosecond: 999_999_000 }),
        offset: Some(TomlOffset::Custom { minutes: -420 }),
    };
    assert_eq!(
        extract_toml_string(&TomlValue::Datetime(value)),
        Some("1979-05-27T00:32:00.999999-07:00".to_string())
    );
    let value = TomlDatetime {
        date: Some(TomlDate { year: 1979, month: 5, day: 27 }),
        time: Some(TomlTime { hour: 7, minute: 32, second: 0, nanosecond: 0 }),
        offset: Some(TomlOffset::Z),
    };
    assert_eq!(
        extract_toml_string(&TomlValue::Datetime(value)),
        Some("1979-05-27T07:32:00Z".to_string())
    );
    let value = TomlDatetime {
        date: Some(TomlDate { year: 1979, month: 5, day: 27 }),
        time: None,
        offset: None,
    };
    assert_eq!(
        extract_toml_string(&TomlValue::Datetime(value)),
        Some("1979-05-27".to_string())
    );
}
