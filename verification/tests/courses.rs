use cargo_generate::config::{Config, TemplateConfig, Vcs};
use cargo_generate::expand::ExpandState;
use cargo_generate::generate::{
    apply_config, expansion_event, test_command, version_event, GenerateEvent, GenerateSettings,
    GenerateStep, LogLevel, WorkspaceMemberStatus,
};
use cargo_generate::path::{PathStyle, TemplatePath};
use cargo_generate::source::{
    EntryKind, FolderEntry, GitLocation, SourceStep, TemplateLocation,
};
use cargo_generate::version::has_readable_requirement;
use cargo_generate::{
    check_cargo_generate_version, generate, get_source_template_into_temp, log_formatter,
    strip_liquid_suffixes,
};

const SETTINGS: GenerateSettings =
    GenerateSettings { init: false, force_git_init: false, test: false, vcs: Vcs::Git };

/// Runs a generation in which the named step fails, if any.
fn run_with(
    settings: GenerateSettings,
    status: WorkspaceMemberStatus,
    branch: Option<String>,
    fails: &str,
) -> Vec<String> {
    run_asking(settings, status, branch, fails, None)
}

/// Runs a generation whose template asks for a version control system.
fn run_asking(
    settings: GenerateSettings,
    status: WorkspaceMemberStatus,
    branch: Option<String>,
    fails: &str,
    asked_for: Option<Vcs>,
) -> Vec<String> {
    let mut step = GenerateStep::CheckVersion;
    let mut names = Vec::new();
    loop {
        let (name, event) = match &step {
            GenerateStep::CheckVersion => ("version".to_string(), GenerateEvent::StepDone),
            GenerateStep::Expand => (
                "expand".to_string(),
                GenerateEvent::Expanded {
                    project_dir: TemplatePath::parse("/p", PathStyle::Unix),
                    vcs: asked_for,
                },
            ),
            GenerateStep::Test { .. } => ("test".to_string(), GenerateEvent::StepDone),
            GenerateStep::Copy { project_dir, .. } => {
                (format!("copy {}", project_dir.to_text(PathStyle::Unix)), GenerateEvent::StepDone)
            }
            GenerateStep::AddToWorkspace { project_dir, .. } => (
                format!("workspace {}", project_dir.to_text(PathStyle::Unix)),
                GenerateEvent::Workspace(status),
            ),
            GenerateStep::InitGit { target, branch, force } => (
                format!("git {} {:?} {}", target.to_text(PathStyle::Unix), branch.as_deref(), force),
                GenerateEvent::StepDone,
            ),
            GenerateStep::Done { target } => {
                names.push(format!("done {}", target.to_text(PathStyle::Unix)));
                return names;
            }
            GenerateStep::Failed => {
                names.push("failed".to_string());
                return names;
            }
        };
        let event = if name == fails { GenerateEvent::Failed } else { event };
        names.push(name);
        step = generate(settings, &branch, step, event);
    }
}

fn run(settings: GenerateSettings, status: WorkspaceMemberStatus) -> Vec<String> {
    run_with(settings, status, None, "")
}

#[test]
fn a_generation_ends_in_a_repository() {
    let course = run(SETTINGS, WorkspaceMemberStatus::NoWorkspaceFound);
    let expected =
        ["version", "expand", "copy /p", "workspace /p", "git /p None false", "done /p"];
    assert_eq!(course, expected);
}

#[test]
fn a_member_of_a_workspace_gets_no_repository_unless_forced() {
    let course = run(SETTINGS, WorkspaceMemberStatus::Added);
    assert_eq!(course, ["version", "expand", "copy /p", "workspace /p", "done /p"]);
    let forced = GenerateSettings { force_git_init: true, vcs: Vcs::NoVcs, ..SETTINGS };
    let course = run(forced, WorkspaceMemberStatus::Added);
    assert_eq!(course[4..], ["git /p None true", "done /p"]);
    let course = run(forced, WorkspaceMemberStatus::NoWorkspaceFound);
    assert_eq!(course[4..], ["done /p"]);
}

#[test]
fn what_goes_into_the_current_folder_gets_no_repository_unless_forced() {
    let init = GenerateSettings { init: true, ..SETTINGS };
    let course = run(init, WorkspaceMemberStatus::NoWorkspaceFound);
    assert_eq!(course[4..], ["done /p"]);
    let forced = GenerateSettings { init: true, force_git_init: true, ..SETTINGS };
    let course = run(forced, WorkspaceMemberStatus::NoWorkspaceFound);
    assert_eq!(course[4..], ["git /p None true", "done /p"]);
    let no_vcs = GenerateSettings { vcs: Vcs::NoVcs, ..SETTINGS };
    let course = run(no_vcs, WorkspaceMemberStatus::NoWorkspaceFound);
    assert_eq!(course[4..], ["done /p"]);
}

#[test]
fn what_is_tested_is_not_copied() {
    let test = GenerateSettings { test: true, ..SETTINGS };
    let course = run(test, WorkspaceMemberStatus::Added);
    assert_eq!(course, ["version", "expand", "test", "git  None false", "done "]);
    let test = GenerateSettings { test: true, vcs: Vcs::NoVcs, ..SETTINGS };
    let course = run(test, WorkspaceMemberStatus::NoWorkspaceFound);
    assert_eq!(course, ["version", "expand", "test", "done "]);
}

#[test]
fn a_repository_has_the_branch_of_the_template() {
    let branch = Some("main".to_string());
    let course = run_with(SETTINGS, WorkspaceMemberStatus::NoWorkspaceFound, branch, "");
    assert_eq!(course[4..], ["git /p Some(\"main\") false", "done /p"]);
}

#[test]
fn a_failure_ends_a_generation() {
    let status = WorkspaceMemberStatus::NoWorkspaceFound;
    let course = run_with(SETTINGS, status, None, "version");
    assert_eq!(course, ["version", "failed"]);
    let course = run_with(SETTINGS, status, None, "expand");
    assert_eq!(course, ["version", "expand", "failed"]);
    let course = run_with(SETTINGS, status, None, "workspace /p");
    assert_eq!(course, ["version", "expand", "copy /p", "workspace /p", "failed"]);
    let course = run_with(SETTINGS, status, None, "git /p None false");
    assert_eq!(course[4..], ["git /p None false", "failed"]);
    let test = GenerateSettings { test: true, ..SETTINGS };
    let course = run_with(test, status, None, "test");
    assert_eq!(course, ["version", "expand", "test", "failed"]);
}

#[test]
fn a_template_with_an_unmet_requirement_is_not_expanded() {
    let config = |requirement: Option<&str>| Config {
        template: Some(TemplateConfig {
            cargo_generate_version: requirement.map(|text| text.to_string()),
            ..TemplateConfig::unset()
        }),
        placeholders: None,
        conditional: None,
    };
    let after_check = |requirement: Option<&str>, version: &str| {
        let verdict = check_cargo_generate_version(&config(requirement), version);
        generate(SETTINGS, &None, GenerateStep::CheckVersion, version_event(&verdict))
    };
    assert!(matches!(after_check(Some(">=0.9.0"), "0.10.0"), GenerateStep::Expand));
    assert!(matches!(after_check(None, "0.10.0"), GenerateStep::Expand));
    assert!(matches!(after_check(Some(">=0.11.0"), "0.10.0"), GenerateStep::Failed));
    assert!(matches!(after_check(Some("none"), "0.10.0"), GenerateStep::Failed));
    assert!(matches!(after_check(Some(">=0.9.0"), "none"), GenerateStep::Failed));
    assert!(has_readable_requirement(&config(Some(">=0.11.0"))));
    assert!(has_readable_requirement(&config(None)));
    assert!(!has_readable_requirement(&config(Some("none"))));
}

#[test]
fn the_end_of_an_expansion_decides_on_the_generation() {
    let done = || ExpandState::Done { project_dir: TemplatePath::parse("/p/q", PathStyle::Unix) };
    let mut config = Config { template: None, placeholders: None, conditional: None };
    match expansion_event(done(), &config) {
        GenerateEvent::Expanded { project_dir, vcs } => {
            assert_eq!((project_dir.to_text(PathStyle::Unix).as_str(), vcs), ("/p/q", None))
        }
        event => panic!("{:?}", event),
    }
    config.template =
        Some(TemplateConfig { vcs: Some(Vcs::NoVcs), ..TemplateConfig::unset() });
    match expansion_event(done(), &config) {
        GenerateEvent::Expanded { vcs, .. } => assert_eq!(vcs, Some(Vcs::NoVcs)),
        event => panic!("{:?}", event),
    }
    assert!(matches!(expansion_event(ExpandState::Failed, &config), GenerateEvent::Failed));
}

#[test]
fn the_template_has_a_say_in_the_settings() {
    let config = |init: Option<bool>, vcs: Option<Vcs>| Config {
        template: Some(TemplateConfig { init, vcs, ..TemplateConfig::unset() }),
        placeholders: None,
        conditional: None,
    };
    let none = Config { template: None, placeholders: None, conditional: None };
    assert_eq!(apply_config(SETTINGS, &none), (SETTINGS, false));
    let init = GenerateSettings { init: true, ..SETTINGS };
    assert_eq!(apply_config(SETTINGS, &config(Some(true), None)), (init, true));
    assert_eq!(apply_config(init, &config(Some(true), None)), (init, false));
    assert_eq!(apply_config(init, &config(Some(false), None)), (init, false));
    assert_eq!(apply_config(SETTINGS, &config(None, Some(Vcs::NoVcs))), (SETTINGS, false));
}

#[test]
fn the_version_control_system_of_the_expanded_template_comes_first() {
    let status = WorkspaceMemberStatus::NoWorkspaceFound;
    let none = run_asking(SETTINGS, status, None, "", Some(Vcs::NoVcs));
    assert_eq!(none[4..], ["done /p"]);
    let no_vcs = GenerateSettings { vcs: Vcs::NoVcs, ..SETTINGS };
    let git = run_asking(no_vcs, status, None, "", Some(Vcs::Git));
    assert_eq!(git[4..], ["git /p None false", "done /p"]);
    let test = GenerateSettings { test: true, ..no_vcs };
    let git = run_asking(test, status, None, "", Some(Vcs::Git));
    assert_eq!(git[2..], ["test", "git  None false", "done "]);
}

#[test]
fn errors_and_warnings_are_marked() {
    let line = |level| log_formatter(level, "message", "E", "W");
    assert_eq!(line(LogLevel::Error), "E message");
    assert_eq!(line(LogLevel::Warn), "W message");
    assert_eq!(line(LogLevel::Info), "message");
    assert_eq!(line(LogLevel::Debug), "message");
    assert_eq!(line(LogLevel::Trace), "message");
}

#[test]
fn the_test_command_comes_from_the_environment_or_is_cargo_test() {
    let args = |list: &[&str]| list.iter().map(|s| s.to_string()).collect::<Vec<String>>();
    assert_eq!(test_command(None, None), ("cargo".to_string(), args(&["test"])));
    assert_eq!(
        test_command(None, Some(args(&["--lib"]))),
        ("cargo".to_string(), args(&["test", "--lib"]))
    );
    assert_eq!(
        test_command(Some(" just  check\tall ".to_string()), Some(args(&["x y"]))),
        ("just".to_string(), args(&["check", "all", "x y"]))
    );
    assert_eq!(test_command(Some("make".to_string()), None), ("make".to_string(), vec![]));
}

#[test]
fn a_cloned_template_is_rid_of_history_and_suffixes() {
    let steps = get_source_template_into_temp(TemplateLocation::Git(GitLocation {
        url: "https://example.com/t.git".to_string(),
        branch: Some("main".to_string()),
        tag: None,
        revision: None,
        identity: None,
        gitconfig: None,
        skip_submodules: true,
    }));
    assert_eq!(steps.len(), 3);
    match &steps[0] {
        SourceStep::Clone { git } => {
            assert_eq!(git.url, "https://example.com/t.git");
            assert_eq!(git.branch, Some("main".to_string()));
            assert!(git.skip_submodules);
        }
        step => panic!("{:?}", step),
    }
    assert!(matches!(steps[1], SourceStep::RemoveHistory));
    assert!(matches!(steps[2], SourceStep::StripLiquidSuffixes));
}

#[test]
fn a_copied_template_is_rid_of_history() {
    let steps =
        get_source_template_into_temp(TemplateLocation::Path(TemplatePath::parse("/t/x", PathStyle::Unix)));
    assert_eq!(steps.len(), 4);
    assert!(matches!(steps[0], SourceStep::MakeFolder));
    match &steps[1] {
        SourceStep::CopyFiles { from, overwrite } => {
            assert_eq!((from.to_text(PathStyle::Unix).as_str(), *overwrite), ("/t/x", false))
        }
        step => panic!("{:?}", step),
    }
    assert!(matches!(steps[2], SourceStep::RemoveHistory));
    match &steps[3] {
        SourceStep::ReadBranch { path } => assert_eq!(path.to_text(PathStyle::Unix), "/t/x"),
        step => panic!("{:?}", step),
    }
}

#[test]
fn liquid_suffixes_are_stripped_from_files() {
    let entry = |path: &str, kind| FolderEntry { path: path.to_string(), kind };
    let renamings = strip_liquid_suffixes(&vec![
        entry("t/a.rs.liquid", EntryKind::File),
        entry("t/b.rs", EntryKind::File),
        entry("t/c.liquid", EntryKind::Folder),
        entry("t/d.liquid", EntryKind::Other),
        entry("t/e/f.liquid.liquid", EntryKind::File),
    ]);
    let pairs: Vec<(&str, &str)> =
        renamings.iter().map(|r| (r.from.as_str(), r.to.as_str())).collect();
    assert_eq!(
        pairs,
        vec![("t/a.rs.liquid", "t/a.rs"), ("t/e/f.liquid.liquid", "t/e/f.liquid")]
    );
}
