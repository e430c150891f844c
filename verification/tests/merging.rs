use cargo_generate::config::{Conditional, ConditionalConfig, Config, TemplateConfig, Vcs};
use cargo_generate::fill_placeholders_and_merge_conditionals;
use cargo_generate::merge::take_conditionals;
use cargo_generate::table::ValueTable;
use cargo_generate::values::TomlValue;

fn texts(list: &[&str]) -> Option<Vec<String>> {
    Some(list.iter().map(|text| text.to_string()).collect())
}

fn table(entries: &[(&str, i64)]) -> Option<ValueTable> {
    let mut table = ValueTable::new();
    for (name, value) in entries {
        table.insert(name.to_string(), TomlValue::Integer(*value));
    }
    Some(table)
}

fn listed(table: &Option<ValueTable>) -> Vec<(String, i64)> {
    let table = table.as_ref().unwrap();
    (0..table.len())
        .map(|i| match table.entry(i) {
            (name, TomlValue::Integer(value)) => (name.clone(), *value),
            other => panic!("{:?}", other),
        })
        .collect()
}

fn conditional(
    condition: &str,
    includes: Option<Vec<String>>,
    placeholders: Option<ValueTable>,
) -> Conditional {
    Conditional {
        condition: condition.to_string(),
        config: ConditionalConfig { includes, excludes: None, ignores: None, placeholders },
    }
}

fn empty_config() -> Config {
    Config { template: None, placeholders: None, conditional: None }
}

#[test]
fn a_table_keeps_the_place_of_a_name() {
    let mut t = table(&[("a", 1), ("b", 2)]).unwrap();
    t.insert("a".to_string(), TomlValue::Integer(3));
    t.insert("c".to_string(), TomlValue::Integer(4));
    assert!(matches!(t.get("a"), Some(TomlValue::Integer(3))));
    assert!(t.get("d").is_none());
    t.insert_all(table(&[("d", 5), ("b", 6)]).unwrap());
    let expected = [("a", 3), ("b", 6), ("c", 4), ("d", 5)];
    let expected: Vec<(String, i64)> =
        expected.iter().map(|(name, value)| (name.to_string(), *value)).collect();
    assert_eq!(listed(&Some(t)), expected);
}

#[test]
fn settings_of_conditions_that_hold_are_merged() {
    let mut config = Config {
        template: Some(TemplateConfig {
            includes: texts(&["a"]),
            vcs: Some(Vcs::Git),
            init: Some(true),
            ..TemplateConfig::unset()
        }),
        placeholders: table(&[("x", 1)]),
        conditional: Some(vec![
            conditional("yes", texts(&["b"]), table(&[("x", 2), ("y", 3)])),
            conditional("no", texts(&["c"]), table(&[("z", 4)])),
            conditional("broken", texts(&["d"]), None),
            conditional("also", texts(&["e", "f"]), None),
        ]),
    };
    let mut conditionals = take_conditionals(&mut config);
    assert!(config.conditional.is_none());
    assert_eq!(conditionals.len(), 4);

    let verdicts = vec![Some(true), Some(false), None, Some(true)];
    assert!(fill_placeholders_and_merge_conditionals(&mut config, &mut conditionals, &verdicts));
    let template = config.template.as_ref().unwrap();
    assert_eq!(template.includes, texts(&["a", "b", "e", "f"]));
    assert_eq!(template.excludes, None);
    assert_eq!(template.vcs, Some(Vcs::Git));
    assert_eq!(template.init, Some(true));
    assert_eq!(listed(&config.placeholders), vec![("x".to_string(), 2), ("y".to_string(), 3)]);

    // what was merged is not merged again
    assert!(conditionals[0].config.includes.is_none());
    assert!(conditionals[0].config.placeholders.is_none());
    assert!(!fill_placeholders_and_merge_conditionals(&mut config, &mut conditionals, &verdicts));
    assert_eq!(config.template.as_ref().unwrap().includes, texts(&["a", "b", "e", "f"]));

    // what was left is still there
    let verdicts = vec![None, Some(true), Some(true), None];
    assert!(fill_placeholders_and_merge_conditionals(&mut config, &mut conditionals, &verdicts));
    let template = config.template.as_ref().unwrap();
    assert_eq!(template.includes, texts(&["a", "b", "e", "f", "c", "d"]));
    assert_eq!(listed(&config.placeholders).len(), 3);
    let verdicts = vec![Some(true), Some(true), Some(true), Some(true)];
    assert!(!fill_placeholders_and_merge_conditionals(&mut config, &mut conditionals, &verdicts));
}

#[test]
fn lists_and_placeholders_come_into_being() {
    let mut config = empty_config();
    let mut conditionals = vec![Conditional {
        condition: String::new(),
        config: ConditionalConfig {
            includes: None,
            excludes: texts(&[]),
            ignores: texts(&["i"]),
            placeholders: table(&[("x", 1)]),
        },
    }];
    assert!(fill_placeholders_and_merge_conditionals(
        &mut config,
        &mut conditionals,
        &vec![Some(true)]
    ));
    let template = config.template.unwrap();
    assert_eq!(template.includes, None);
    assert_eq!(template.excludes, texts(&[]));
    assert_eq!(template.ignores, texts(&["i"]));
    assert_eq!(listed(&config.placeholders), vec![("x".to_string(), 1)]);
}

#[test]
fn without_a_condition_that_holds_nothing_changes() {
    let mut config = empty_config();
    let mut conditionals = vec![conditional("no", texts(&["a"]), table(&[("x", 1)]))];
    assert!(!fill_placeholders_and_merge_conditionals(
        &mut config,
        &mut conditionals,
        &vec![Some(false)]
    ));
    assert!(config.template.is_none());
    assert!(config.placeholders.is_none());
    assert_eq!(conditionals[0].config.includes, texts(&["a"]));
    assert!(take_conditionals(&mut config).is_empty());
}

#[test]
fn the_order_of_conditions_changes_the_order_of_texts_only() {
    let merged = |first: &str, second: &str| -> (Vec<String>, bool) {
        let mut config = empty_config();
        let mut conditionals = vec![
            conditional("", texts(&[first]), table(&[(first, 1)])),
            conditional("", texts(&[second]), table(&[(second, 1)])),
        ];
        let again = fill_placeholders_and_merge_conditionals(
            &mut config,
            &mut conditionals,
            &vec![Some(true), Some(true)],
        );
        (config.template.unwrap().includes.unwrap(), again)
    };
    let (one, again) = merged("a", "b");
    let (mut other, also) = merged("b", "a");
    assert_eq!(other, vec!["b", "a"]);
    other.sort();
    assert_eq!(one, other);
    assert!(again && also);
}

#[test]
fn rounds_merge_what_held_once_and_in_the_order_in_which_it_held() {
    let mut config = empty_config();
    let mut conditionals = vec![
        conditional("a", texts(&["a"]), None),
        conditional("b", texts(&["b", "bb"]), table(&[("x", 1)])),
        conditional("c", texts(&["c"]), table(&[("y", 1)])),
        conditional("d", texts(&["d"]), None),
    ];
    let rounds = vec![
        vec![None, Some(true), Some(false), None],
        vec![Some(true), Some(true), Some(true), None],
        vec![Some(true), None, Some(true), None],
    ];
    let again: Vec<bool> = rounds
        .iter()
        .map(|verdicts| {
            fill_placeholders_and_merge_conditionals(&mut config, &mut conditionals, verdicts)
        })
        .collect();
    assert_eq!(again, vec![true, true, false]);
    assert_eq!(config.template.unwrap().includes, texts(&["b", "bb", "a", "c"]));
    assert_eq!(listed(&config.placeholders), vec![("x".to_string(), 1), ("y".to_string(), 1)]);
    assert_eq!(conditionals[3].config.includes, texts(&["d"]));
}
