use cargo_generate::config::{
    put_template_back, take_template, Conditional, ConditionalConfig, Config, TemplateConfig, Vcs,
};
use cargo_generate::expand::{ExpandEvent, ExpandSettings, ExpandState};
use cargo_generate::expand_template;
use cargo_generate::path::{PathStyle, TemplatePath};
use cargo_generate::table::ValueTable;
use cargo_generate::values::TomlValue;

fn path(text: &str) -> TemplatePath {
    TemplatePath::parse(text, PathStyle::Unix)
}

fn texts(list: &[&str]) -> Vec<String> {
    list.iter().map(|text| text.to_string()).collect()
}

fn settings() -> ExpandSettings {
    ExpandSettings {
        init: false,
        continue_on_error: false,
        quiet: false,
        template_dir: path("/t"),
        destination: path("/home"),
        hook_files: texts(&["pre.rhai", "hooks/post.rhai"]),
        style: PathStyle::Unix,
    }
}

fn conditional(condition: &str, pattern: &str, placeholder: Option<&str>) -> Conditional {
    Conditional {
        condition: condition.to_string(),
        config: ConditionalConfig {
            includes: Some(texts(&[pattern])),
            excludes: None,
            ignores: None,
            placeholders: placeholder.map(|name| {
                let mut table = ValueTable::new();
                table.insert(name.to_string(), TomlValue::Boolean(true));
                table
            }),
        },
    }
}

fn config(conditional: Option<Vec<Conditional>>) -> Config {
    Config {
        template: Some(TemplateConfig {
            includes: Some(texts(&["a"])),
            vcs: Some(Vcs::NoVcs),
            init: Some(false),
            ..TemplateConfig::unset()
        }),
        placeholders: None,
        conditional,
    }
}

/// What happens in the steps of an expansion: the step that fails, if any, and what the scripts
/// give in each round.
struct Script {
    fails: &'static str,
    rounds: Vec<Vec<Option<bool>>>,
}

/// The steps, with what they are given, and whether a failure was reported.
fn run(settings: &ExpandSettings, config: &mut Config, script: Script) -> (Vec<String>, bool) {
    let mut rounds = script.rounds.into_iter();
    let mut state = ExpandState::CreateVariables;
    let mut steps = Vec::new();
    let mut reported = false;
    loop {
        let (name, mut event) = match &state {
            ExpandState::CreateVariables => ("variables".to_string(), ExpandEvent::StepDone),
            ExpandState::InitHooks { working_directory, destination } => (
                format!("init {} {}", working_directory.to_text(PathStyle::Unix), destination.to_text(PathStyle::Unix)),
                ExpandEvent::StepDone,
            ),
            ExpandState::ResolveNames => {
                ("names".to_string(), ExpandEvent::Names { project_dir: path("/home/p") })
            }
            ExpandState::CreateDestination { project_dir } => {
                (format!("create {}", project_dir.to_text(PathStyle::Unix)), ExpandEvent::StepDone)
            }
            ExpandState::SetNameVariables { project_dir } => {
                (format!("set {}", project_dir.to_text(PathStyle::Unix)), ExpandEvent::StepDone)
            }
            ExpandState::FillPlaceholders { conditionals, .. } => {
                assert!(config.conditional.is_none());
                (format!("fill {}", conditionals.len()), ExpandEvent::StepDone)
            }
            ExpandState::EvaluateConditions { conditionals, .. } => {
                let scripts: Vec<&str> =
                    conditionals.iter().map(|c| c.condition.as_str()).collect();
                let verdicts = rounds.next().unwrap_or(vec![None; conditionals.len()]);
                (format!("evaluate {}", scripts.join(" ")), ExpandEvent::Verdicts(verdicts))
            }
            ExpandState::AddProvidedValues { project_dir } => {
                (format!("provided {}", project_dir.to_text(PathStyle::Unix)), ExpandEvent::StepDone)
            }
            ExpandState::PreHooks { working_directory, destination } => (
                format!("pre {} {}", working_directory.to_text(PathStyle::Unix), destination.to_text(PathStyle::Unix)),
                ExpandEvent::StepDone,
            ),
            ExpandState::RemoveUnneededFiles { template_dir, template, .. } => {
                assert!(config.template.is_none());
                (
                    format!("remove {} {:?}", template_dir.to_text(PathStyle::Unix), template.ignores),
                    ExpandEvent::StepDone,
                )
            }
            ExpandState::WalkTemplate { template_dir, template, hook_files, .. } => {
                assert!(config.template.is_none());
                let includes = template.includes.as_ref().map(|list| list.join(" "));
                (
                    format!(
                        "walk {} {:?} {}",
                        template_dir.to_text(PathStyle::Unix),
                        includes,
                        hook_files.join(" ")
                    ),
                    ExpandEvent::Walked {
                        template: TemplateConfig {
                            includes: None,
                            vcs: template.vcs,
                            ..TemplateConfig::unset()
                        },
                        filter_files: vec![path("/t/filter.rhai")],
                        succeeded: script.fails != "walk",
                    },
                )
            }
            ExpandState::PostHooks { working_directory, destination, .. } => (
                format!("post {} {}", working_directory.to_text(PathStyle::Unix), destination.to_text(PathStyle::Unix)),
                ExpandEvent::StepDone,
            ),
            ExpandState::RemoveHookFiles { files, .. } => {
                let files: Vec<String> = files.iter().map(|file| file.to_text(PathStyle::Unix)).collect();
                (format!("clean {}", files.join(" ")), ExpandEvent::StepDone)
            }
            ExpandState::Done { project_dir } => {
                steps.push(format!("done {}", project_dir.to_text(PathStyle::Unix)));
                return (steps, reported);
            }
            ExpandState::Failed => {
                steps.push("failed".to_string());
                return (steps, reported);
            }
        };
        if script.fails != "walk" && name.split(' ').next() == Some(script.fails) {
            event = ExpandEvent::Failed;
        }
        steps.push(name);
        let (next, reports) = expand_template(settings, state, event, config);
        reported = reported || reports;
        state = next;
    }
}

#[test]
fn an_expansion_goes_through_its_steps_with_what_they_need() {
    let mut config = config(Some(vec![
        conditional("x", "b", Some("one")),
        conditional("y", "c", None),
    ]));
    let script =
        Script { fails: "", rounds: vec![vec![Some(true), None], vec![Some(true), Some(true)]] };
    let (steps, reported) = run(&settings(), &mut config, script);
    let expected = [
        "variables",
        "init /t /home",
        "names",
        "create /home/p",
        "set /home/p",
        "fill 2",
        "evaluate x y",
        "fill 2",
        "evaluate x y",
        "provided /home/p",
        "pre /t /home/p",
        "remove /t None",
        "walk /t Some(\"a b c\") pre.rhai hooks/post.rhai",
        "post /t /home/p",
        "clean pre.rhai hooks/post.rhai /t/filter.rhai",
        "done /home/p",
    ];
    assert_eq!(steps, expected);
    assert!(!reported);

    // the settings are back, as the expansion of the files left them
    let template = config.template.unwrap();
    assert_eq!((template.includes, template.vcs), (None, Some(Vcs::NoVcs)));
    assert!(config.conditional.is_none());
    assert!(config.placeholders.unwrap().get("one").is_some());
}

#[test]
fn an_existing_folder_is_not_created() {
    let settings = ExpandSettings { init: true, ..settings() };
    let (steps, _) = run(&settings, &mut config(None), Script { fails: "", rounds: vec![] });
    assert_eq!(steps[2..5], ["names", "set /home/p", "fill 0"]);
    assert_eq!(steps.last().unwrap(), "done /home/p");
}

#[test]
fn a_failure_ends_an_expansion() {
    let settings = ExpandSettings { continue_on_error: true, ..settings() };
    let failing =
        ["variables", "init", "names", "create", "set", "fill", "provided", "pre", "remove", "post"];
    for fails in failing {
        let mut config = config(None);
        let (steps, reported) = run(&settings, &mut config, Script { fails, rounds: vec![] });
        assert_eq!(steps.last().unwrap(), "failed");
        assert!(steps[steps.len() - 2].starts_with(fails));
        assert!(!reported);
        // the settings of the template are gone once they have been taken out
        assert_eq!(config.template.is_none(), fails == "remove" || fails == "post");
    }
}

#[test]
fn an_error_in_a_file_can_be_passed_over() {
    let walk = |settings: &ExpandSettings| {
        let mut config = config(None);
        let script = Script { fails: "walk", rounds: vec![] };
        let (steps, reported) = run(settings, &mut config, script);
        (steps.last().unwrap().clone(), reported, config.template.is_some())
    };
    assert_eq!(walk(&settings()), ("failed".to_string(), false, false));
    let go_on = ExpandSettings { continue_on_error: true, ..settings() };
    assert_eq!(walk(&go_on), ("done /home/p".to_string(), true, true));
    let quiet = ExpandSettings { quiet: true, ..go_on };
    assert_eq!(walk(&quiet), ("done /home/p".to_string(), false, true));
}

#[test]
fn an_expansion_ends_however_many_placeholders_conditions_bring() {
    let mut config = config(Some(vec![
        conditional("x", "b", Some("one")),
        conditional("y", "c", Some("two")),
    ]));
    let all = vec![Some(true), Some(true)];
    let script = Script {
        fails: "",
        rounds: vec![vec![None, Some(true)], all.clone(), all.clone(), all],
    };
    let (steps, _) = run(&settings(), &mut config, script);
    assert_eq!(steps.iter().filter(|step| step.starts_with("fill")).count(), 3);
    assert!(steps.contains(&"walk /t Some(\"a c b\") pre.rhai hooks/post.rhai".to_string()));
}

#[test]
fn settings_are_taken_out_and_put_back() {
    let mut config = config(None);
    let template = take_template(&mut config);
    assert!(config.template.is_none());
    assert_eq!(template.includes, Some(texts(&["a"])));
    put_template_back(&mut config, template);
    assert_eq!(config.template.unwrap().vcs, Some(Vcs::NoVcs));

    let mut config = Config { template: None, placeholders: None, conditional: None };
    let template = take_template(&mut config);
    assert_eq!((template.includes.is_none(), template.vcs, template.init), (true, None, None));
    put_template_back(&mut config, template);
    assert!(config.template.is_some());
}
