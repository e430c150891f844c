use cargo_generate::config::{Config, TemplateConfig};
use cargo_generate::slots::{
    choice_slot, initial_value, ArrayEntry, ConversionError, InitialValue, StringEntry, StringKind,
    TemplateSlots, VarInfo,
};
use cargo_generate::table::ValueTable;
use cargo_generate::values::TomlValue;
use cargo_generate::version::{version_verdict, VersionError};
use cargo_generate::{
    add_missing_provided_values, check_cargo_generate_version,
    read_default_variable_value_from_template,
};
use liquid_core::{Object, Value, ValueView};

fn slot(var_info: VarInfo) -> TemplateSlots {
    TemplateSlots { prompt: "what?".to_string(), var_name: "name".to_string(), var_info }
}

fn text_slot(default: Option<&str>) -> TemplateSlots {
    slot(VarInfo::String {
        entry: Box::new(StringEntry {
            default: default.map(str::to_string),
            kind: StringKind::String,
            regex: None,
        }),
    })
}

fn text(s: &str) -> TomlValue {
    TomlValue::String(s.to_string())
}

fn table(entries: Vec<(&str, TomlValue)>) -> ValueTable {
    let mut table = ValueTable::new();
    for (name, value) in entries {
        table.insert(name.to_string(), value);
    }
    table
}

#[test]
fn defaults_are_read_from_the_template() {
    let read = |slot: &TemplateSlots| read_default_variable_value_from_template(slot);
    assert_eq!(read(&slot(VarInfo::Bool { default: Some(true) })), Ok("true".to_string()));
    assert_eq!(read(&slot(VarInfo::Bool { default: Some(false) })), Ok("false".to_string()));
    assert_eq!(read(&slot(VarInfo::Bool { default: None })), Err(()));
    assert_eq!(read(&text_slot(Some("d"))), Ok("d".to_string()));
    assert_eq!(read(&text_slot(None)), Err(()));
    let entry = ArrayEntry { choices: vec![], default: Some(vec!["a".to_string()]) };
    assert_eq!(read(&slot(VarInfo::Array { entry: Box::new(entry) })), Err(()));
    let choice = choice_slot("p", "v", vec!["one".to_string(), "two".to_string()]);
    assert_eq!(read(&choice), Ok("one".to_string()));
}

#[test]
fn provided_values_come_before_defaults() {
    let provided = table(vec![("name", TomlValue::Integer(5)), ("other", text("x"))]);
    for silent in [false, true] {
        match initial_value(&text_slot(Some("d")), &provided, silent) {
            Ok(InitialValue::Provided(value)) => assert_eq!(value, "5"),
            other => panic!("{:?}", other),
        }
    }
    // a table is no text, so that it counts for nothing
    let provided = table(vec![("name", TomlValue::Table(vec![]))]);
    let asked = initial_value(&text_slot(Some("d")), &provided, false);
    assert!(matches!(asked, Ok(InitialValue::Ask)));
    match initial_value(&text_slot(Some("d")), &provided, true) {
        Ok(InitialValue::Default(value)) => assert_eq!(value, "d"),
        other => panic!("{:?}", other),
    }
}

#[test]
fn in_silent_mode_a_value_is_needed() {
    let provided = ValueTable::new();
    let asked = initial_value(&text_slot(None), &provided, false);
    assert!(matches!(asked, Ok(InitialValue::Ask)));
    match initial_value(&text_slot(None), &provided, true) {
        Err(ConversionError::MissingDefaultValueForPlaceholderVariable { var_name }) => {
            assert_eq!(var_name, "name")
        }
        other => panic!("{:?}", other),
    }
}

#[test]
fn missing_variables_get_the_provided_values() {
    let mut object = Object::new();
    object.insert("there".into(), Value::scalar("kept"));
    object.insert("number".into(), Value::scalar(1i64));
    let provided = table(vec![
        ("there", text("lost")),
        ("number", TomlValue::Integer(2)),
        ("word", text("new")),
        ("flag", TomlValue::Boolean(true)),
    ]);
    add_missing_provided_values(&mut object, &provided).unwrap();
    let is = |name: &str, value: Value| object.get(name).unwrap().to_value() == value;
    assert_eq!(object.len(), 4);
    assert!(is("there", Value::scalar("kept")));
    assert!(is("number", Value::scalar(1i64)));
    assert!(is("word", Value::scalar("new")));
    assert!(is("flag", Value::scalar(true)));

    let before = object.clone();
    add_missing_provided_values(&mut object, &provided).unwrap();
    assert!(object == before);
}

#[test]
fn other_values_cannot_be_variables() {
    let mut object = Object::new();
    let provided = table(vec![
        ("first", text("in")),
        ("number", TomlValue::Integer(2)),
        ("last", text("out")),
    ]);
    let error = add_missing_provided_values(&mut object, &provided).unwrap_err();
    assert_eq!(error.name, "number");
    assert!(object.contains_key("first"));
    assert!(!object.contains_key("number"));
    assert!(!object.contains_key("last"));
}

#[test]
fn variables_of_any_kind_keep_their_values() {
    let list = liquid_core::Value::array(vec![
        liquid_core::Value::scalar(1i64),
        liquid_core::Value::scalar("two"),
    ]);
    let mut object = liquid_core::Object::new();
    object.insert("number".into(), liquid_core::Value::scalar(7i64));
    object.insert("list".into(), list.clone());
    object.insert("nothing".into(), liquid_core::Value::Nil);
    let provided = table(vec![
        ("number", text("8")),
        ("list", TomlValue::Boolean(true)),
        ("nothing", TomlValue::Integer(1)),
        ("new", text("value")),
    ]);
    assert!(add_missing_provided_values(&mut object, &provided).is_ok());
    assert_eq!(object.get("number"), Some(&liquid_core::Value::scalar(7i64)));
    assert_eq!(object.get("list"), Some(&list));
    assert_eq!(object.get("nothing"), Some(&liquid_core::Value::Nil));
    assert_eq!(object.get("new"), Some(&liquid_core::Value::scalar("value")));
    assert_eq!(object.len(), 4);
}

#[test]
fn the_order_of_provided_values_does_not_matter() {
    let add = |entries: Vec<(&str, TomlValue)>| {
        let mut object = Object::new();
        let result = add_missing_provided_values(&mut object, &table(entries));
        (object, result.is_ok())
    };
    let one = add(vec![("a", text("1")), ("b", TomlValue::Boolean(false))]);
    let other = add(vec![("b", TomlValue::Boolean(false)), ("a", text("1"))]);
    assert!(one.0 == other.0);
    assert!(one.1 && other.1);
    let one = add(vec![("a", text("1")), ("b", TomlValue::Array(vec![]))]);
    let other = add(vec![("b", TomlValue::Array(vec![])), ("a", text("1"))]);
    assert!(!one.1 && !other.1);
}

fn requiring(requirement: Option<&str>) -> Config {
    Config {
        template: Some(TemplateConfig {
            cargo_generate_version: requirement.map(str::to_string),
            ..TemplateConfig::unset()
        }),
        placeholders: None,
        conditional: None,
    }
}

#[test]
fn templates_can_require_a_version() {
    let check = |requirement: &str, version: &str| {
        check_cargo_generate_version(&requiring(Some(requirement)), version)
    };
    assert!(check(">=0.9", "0.23.0").is_ok());
    assert!(check("0.23", "0.23.1").is_ok());
    assert!(check("*", "1.2.3").is_ok());
    match check("0.22", "0.23.0") {
        Err(VersionError::RequirementNotMet { required, was }) => {
            assert_eq!(required, "^0.22");
            assert_eq!(was, "0.23.0");
        }
        other => panic!("{:?}", other),
    }
    match check("newer", "0.23.0") {
        Err(VersionError::InvalidRequirement { requirement }) => assert_eq!(requirement, "newer"),
        other => panic!("{:?}", other),
    }
    match check("*", "0.23") {
        Err(VersionError::InvalidVersion { version }) => assert_eq!(version, "0.23"),
        other => panic!("{:?}", other),
    }
    let prerelease = check(">=1.0.0-alpha.1", "1.0.0-beta.2+build.007");
    assert!(prerelease.is_ok());
    match check("=1.0.0", "1.0.0-beta.2+build.007") {
        Err(VersionError::RequirementNotMet { was, .. }) => {
            assert_eq!(was, "1.0.0-beta.2+build.007")
        }
        other => panic!("{:?}", other),
    }
}

#[test]
fn without_a_requirement_any_version_will_do() {
    assert!(check_cargo_generate_version(&requiring(None), "no version").is_ok());
    let config = Config { template: None, placeholders: None, conditional: None };
    assert!(check_cargo_generate_version(&config, "no version").is_ok());
}

#[test]
fn a_verdict_follows_from_a_match() {
    assert!(version_verdict("^1".to_string(), "1.0.0".to_string(), true).is_ok());
    match version_verdict("^1".to_string(), "1.0.0".to_string(), false) {
        Err(VersionError::RequirementNotMet { required, was }) => {
            assert_eq!((required.as_str(), was.as_str()), ("^1", "1.0.0"))
        }
        other => panic!("{:?}", other),
    }
}
