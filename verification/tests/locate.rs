use cargo_generate::config::{Config, TemplateConfig, CONFIG_FILE_NAME};
use cargo_generate::locate::{
    advance, config_file, template_file_candidates, LocateError, LocateEvent, LocateFileError,
    LocateStep, SubfolderError, SubfolderLookup,
};
use cargo_generate::path::{PathStyle, TemplatePath};
use cargo_generate::slots::{StringKind, TemplateSlots, VarInfo};
use cargo_generate::{
    auto_locate_template_dir, locate_template_file, resolve_configured_sub_templates,
    resolve_template_dir_subfolder,
};

const BASE: &str = "/tmp/template";

/// A folder structure: files with their contents, by their paths from the base folder.
struct Tree(Vec<(&'static str, &'static str)>);

fn path(text: &str) -> TemplatePath {
    TemplatePath::parse(text, PathStyle::Unix)
}

fn below(text: &str) -> TemplatePath {
    path(BASE).join(&path(text))
}

impl Tree {
    fn files(&self) -> Vec<TemplatePath> {
        self.0.iter().map(|(file, _)| below(file)).collect()
    }

    /// The folders that hold a configuration, none of them below another.
    fn configs(&self, dir: &TemplatePath) -> Vec<TemplatePath> {
        let mut found: Vec<TemplatePath> = self
            .files()
            .iter()
            .filter(|file| file.names.last().unwrap() == CONFIG_FILE_NAME)
            .map(|file| file.parent().unwrap())
            .filter(|folder| folder.starts_with(dir))
            .collect();
        found.sort_by_key(|folder| folder.names.clone());
        let mut kept: Vec<TemplatePath> = Vec::new();
        for folder in found {
            if !kept.iter().any(|k| folder.starts_with(k)) {
                kept.push(folder);
            }
        }
        kept.iter()
            .map(|folder| TemplatePath {
                root: String::new(),
                names: folder.names[dir.names.len()..].to_vec(),
            })
            .collect()
    }

    fn read_config(&self, dir: &TemplatePath) -> Option<Config> {
        let file = config_file(dir);
        let place = self.files().iter().position(|f| f.same(&file))?;
        let table: toml::Table = self.0[place].1.parse().ok()?;
        let template = table.get("template").map(|template| TemplateConfig {
            sub_templates: template.get("sub_templates").map(|list| {
                list.as_array()
                    .unwrap()
                    .iter()
                    .map(|name| name.as_str().unwrap().to_string())
                    .collect()
            }),
            ..TemplateConfig::unset()
        });
        Some(Config { template, placeholders: None, conditional: None })
    }

    fn look_up(&self, dir: &TemplatePath, subfolder: &str) -> SubfolderLookup {
        let place = dir.join(&path(subfolder));
        if self.files().iter().any(|file| file.same(&place)) {
            SubfolderLookup::Present { base: dir.clone(), dir: place, is_dir: false }
        } else if self.files().iter().any(|file| file.starts_with(&place)) {
            SubfolderLookup::Present { base: dir.clone(), dir: place, is_dir: true }
        } else {
            SubfolderLookup::SubfolderMissing
        }
    }

    fn locate(
        &self,
        prompt: &mut dyn FnMut(&TemplateSlots) -> Result<String, String>,
    ) -> Result<TemplatePath, String> {
        self.locate_in(path(BASE), prompt)
    }

    fn locate_in(
        &self,
        dir: TemplatePath,
        prompt: &mut dyn FnMut(&TemplateSlots) -> Result<String, String>,
    ) -> Result<TemplatePath, String> {
        let mut step = LocateStep::ListConfigs { dir };
        let mut cause = String::new();
        loop {
            let event = match &step {
                LocateStep::ListConfigs { dir } => LocateEvent::Configs(self.configs(dir)),
                LocateStep::ReadConfig { dir } => LocateEvent::ConfigRead(self.read_config(dir)),
                LocateStep::AskTemplate { slots, .. }
                | LocateStep::AskSubTemplate { slots, .. } => {
                    match prompt(slots) {
                        Ok(answer) => LocateEvent::Answer(answer),
                        Err(error) => {
                            cause = error;
                            LocateEvent::Failed
                        }
                    }
                }
                LocateStep::LookUpSubfolder { dir, subfolder } => {
                    LocateEvent::Subfolder(self.look_up(dir, subfolder))
                }
                LocateStep::Found { dir } => return Ok(dir.clone()),
            };
            step = advance(step, event, PathStyle::Unix).map_err(|e| match e {
                LocateError::StepFailed => cause.clone(),
                LocateError::Subfolder(e) => format!("{:?}", e),
            })?;
        }
    }
}

fn choices(slots: &TemplateSlots) -> Result<Vec<String>, String> {
    match &slots.var_info {
        VarInfo::Bool { .. } | VarInfo::Array { .. } => Err("Wrong prompt type".to_string()),
        VarInfo::String { entry } => {
            if let StringKind::Choices(choices) = &entry.kind {
                assert_eq!(entry.default.as_ref(), choices.first());
                assert_eq!(entry.regex, None);
                assert_eq!(slots.var_name, "Template");
                Ok(choices.clone())
            } else {
                Err("Missing choices".to_string())
            }
        }
    }
}

#[test]
fn auto_locate_template_returns_base_when_no_cargo_generate_is_found() {
    let tree = Tree(vec![
        ("dir1/Cargo.toml", ""),
        ("dir2/dir2_1/Cargo.toml", ""),
        ("dir3/Cargo.toml", ""),
    ]);
    let actual = tree.locate(&mut |_slots| Err("test".to_string())).unwrap();
    assert_eq!(actual.to_text(PathStyle::Unix), BASE);
}

#[test]
fn auto_locate_template_returns_path_when_single_cargo_generate_is_found() {
    let tree = Tree(vec![
        ("dir1/Cargo.toml", ""),
        ("dir2/dir2_1/Cargo.toml", ""),
        ("dir2/dir2_2/cargo-generate.toml", ""),
        ("dir3/Cargo.toml", ""),
    ]);
    let actual = tree.locate(&mut |_slots| Err("test".to_string())).unwrap();
    assert_eq!(actual.to_text(PathStyle::Unix), below("dir2/dir2_2").to_text(PathStyle::Unix));
}

#[test]
fn auto_locate_template_can_resolve_configured_subtemplates() {
    let tree = Tree(vec![
        (
            "cargo-generate.toml",
            "[template]\nsub_templates = [\"sub1\", \"sub2\"]\n",
        ),
        ("sub1/Cargo.toml", ""),
        ("sub2/Cargo.toml", ""),
    ]);
    let actual = tree
        .locate(&mut |slots| {
            let expected = vec!["sub1".to_string(), "sub2".to_string()];
            assert_eq!(expected, choices(slots)?);
            assert_eq!(slots.prompt, "Which sub-template should be expanded?");
            Ok("sub2".to_string())
        })
        .unwrap();
    assert_eq!(actual.to_text(PathStyle::Unix), below("sub2").to_text(PathStyle::Unix));
}

#[test]
fn auto_locate_template_recurses_to_resolve_subtemplates() {
    let tree = Tree(vec![
        (
            "cargo-generate.toml",
            "[template]\nsub_templates = [\"sub1\", \"sub2\"]\n",
        ),
        ("sub1/Cargo.toml", ""),
        ("sub1/sub11/cargo-generate.toml", ""),
        (
            "sub1/sub12/cargo-generate.toml",
            "[template]\nsub_templates = [\"sub122\", \"sub121\"]\n",
        ),
        ("sub2/Cargo.toml", ""),
        ("sub1/sub11/Cargo.toml", ""),
        ("sub1/sub12/sub121/Cargo.toml", ""),
        ("sub1/sub12/sub122/Cargo.toml", ""),
    ]);
    let mut prompt_num = 0;
    let actual = tree
        .locate(&mut |slots| {
            let listed = choices(slots)?;
            let (expected, answer) = match prompt_num {
                0 => (vec!["sub1", "sub2"], "sub1"),
                1 => (vec!["sub11", "sub12"], "sub12"),
                2 => (vec!["sub122", "sub121"], "sub121"),
                _ => panic!("Unexpected number of prompts"),
            };
            prompt_num += 1;
            assert_eq!(expected, listed);
            Ok(answer.to_string())
        })
        .unwrap();
    assert_eq!(prompt_num, 3);
    let expected = below("sub1").join(&path("sub12")).join(&path("sub121"));
    assert_eq!(actual.to_text(PathStyle::Unix), expected.to_text(PathStyle::Unix));
}

#[test]
fn auto_locate_template_prompts_when_multiple_cargo_generate_is_found() {
    let tree = Tree(vec![
        ("dir1/Cargo.toml", ""),
        ("dir2/dir2_1/Cargo.toml", ""),
        ("dir2/dir2_2/cargo-generate.toml", ""),
        ("dir3/Cargo.toml", ""),
        ("dir4/cargo-generate.toml", ""),
    ]);
    let actual = tree
        .locate(&mut |slots| {
            let expected = vec!["dir2/dir2_2".to_string(), "dir4".to_string()];
            assert_eq!(expected, choices(slots)?);
            assert_eq!(slots.prompt, "Which template should be expanded?");
            Ok("dir4".to_string())
        })
        .unwrap();
    assert_eq!(actual.to_text(PathStyle::Unix), below("dir4").to_text(PathStyle::Unix));
}

#[test]
fn a_sub_template_outside_of_the_template_is_refused() {
    let tree = Tree(vec![
        ("one/cargo-generate.toml", "[template]\nsub_templates = [\"a\", \"b\"]\n"),
        ("one/a/Cargo.toml", ""),
        ("one/file", ""),
    ]);
    let missing = tree.locate(&mut |_slots| Ok("b".to_string()));
    assert_eq!(missing.unwrap_err(), "NotFound { subfolder: \"b\" }");
    let no_folder = tree.locate(&mut |_slots| Ok("file".to_string()));
    assert_eq!(no_folder.unwrap_err(), "NotAFolder");
    let found = tree.locate(&mut |_slots| Ok("a".to_string()));
    assert_eq!(found.unwrap().to_text(PathStyle::Unix), below("one/a").to_text(PathStyle::Unix));
}

#[test]
fn a_sub_template_that_exists_outside_of_the_template_is_refused() {
    let outside = |dir: &str, is_dir: bool| {
        let step = LocateStep::LookUpSubfolder {
            dir: below("one"),
            subfolder: "../two".to_string(),
        };
        let lookup = SubfolderLookup::Present { base: below("one"), dir: path(dir), is_dir };
        advance(step, LocateEvent::Subfolder(lookup), PathStyle::Unix)
    };
    for is_dir in [true, false] {
        for dir in ["/tmp/template/two", "/tmp/template/onetwo", "/tmp/template", "/"] {
            assert!(matches!(
                outside(dir, is_dir),
                Err(LocateError::Subfolder(SubfolderError::OutsideTemplate))
            ));
        }
    }
    match outside("/tmp/template/one/two", true) {
        Ok(LocateStep::ListConfigs { dir }) => assert!(dir.same(&below("one/two"))),
        other => panic!("{:?}", other),
    }
    let no_folder = outside("/tmp/template/one/two", false);
    assert!(matches!(no_folder, Err(LocateError::Subfolder(SubfolderError::NotAFolder))));
}

#[test]
fn choices_are_shown_and_read_as_the_operating_system_writes_paths() {
    let style = PathStyle::Windows;
    let listed = vec![TemplatePath::parse("dir2\\dir2_2", style), path("dir4")];
    let base = TemplatePath::parse("C:\\t", style);
    let step = auto_locate_template_dir(base, &listed, style);
    match &step {
        LocateStep::AskTemplate { slots, .. } => {
            assert_eq!(choices(slots).unwrap(), vec!["dir2\\dir2_2", "dir4"]);
        }
        step => panic!("{:?}", step),
    }
    match advance(step, LocateEvent::Answer("dir2\\dir2_2".to_string()), style) {
        Ok(LocateStep::ListConfigs { dir }) => {
            assert_eq!(dir.to_text(style), "C:\\t\\dir2\\dir2_2");
            assert_eq!(dir.names, vec!["t", "dir2", "dir2_2"]);
        }
        other => panic!("{:?}", other),
    }
}

#[test]
fn a_prompt_that_fails_ends_the_search() {
    let tree = Tree(vec![("a/cargo-generate.toml", ""), ("b/cargo-generate.toml", "")]);
    let failed = tree.locate(&mut |_slots| Err("test".to_string()));
    assert_eq!(failed.unwrap_err(), "test");
}

#[test]
fn a_step_that_fails_ends_the_search() {
    let listing = LocateStep::ListConfigs { dir: path("/x") };
    assert!(matches!(advance(listing, LocateEvent::Failed, PathStyle::Unix), Err(LocateError::StepFailed)));
    let asking = auto_locate_template_dir(path("/x"), &vec![path("a"), path("b")], PathStyle::Unix);
    assert!(matches!(advance(asking, LocateEvent::Failed, PathStyle::Unix), Err(LocateError::StepFailed)));
    let looking = LocateStep::LookUpSubfolder { dir: path("/x"), subfolder: "a".to_string() };
    assert!(matches!(advance(looking, LocateEvent::Failed, PathStyle::Unix), Err(LocateError::StepFailed)));
}

#[test]
fn a_found_template_is_found_again_and_lies_within() {
    let tree = Tree(vec![
        ("one/cargo-generate.toml", "[template]\nsub_templates = [\"a\"]\n"),
        ("one/a/deep/cargo-generate.toml", ""),
        ("two/cargo-generate.toml", ""),
    ]);
    let mut prompts = 0;
    let found = tree
        .locate(&mut |slots| {
            prompts += 1;
            Ok(choices(slots)?[0].clone())
        })
        .unwrap();
    assert_eq!(prompts, 2);
    assert_eq!(found.to_text(PathStyle::Unix), below("one/a/deep").to_text(PathStyle::Unix));
    assert!(found.starts_with(&path(BASE)));
    let again = tree.locate_in(found.clone(), &mut |_slots| Err("test".to_string())).unwrap();
    assert!(again.same(&found));
}

#[test]
fn steps_follow_from_what_was_found() {
    match auto_locate_template_dir(path("/x"), &vec![], PathStyle::Unix) {
        LocateStep::Found { dir } => assert_eq!(dir.to_text(PathStyle::Unix), "/x"),
        step => panic!("{:?}", step),
    }
    match auto_locate_template_dir(path("/x"), &vec![path("y/z")], PathStyle::Unix) {
        LocateStep::ReadConfig { dir } => assert_eq!(dir.to_text(PathStyle::Unix), "/x/y/z"),
        step => panic!("{:?}", step),
    }
    match resolve_configured_sub_templates(path("/x"), None) {
        LocateStep::Found { dir } => assert_eq!(dir.to_text(PathStyle::Unix), "/x"),
        step => panic!("{:?}", step),
    }
    let config = Config { template: None, placeholders: None, conditional: None };
    match resolve_configured_sub_templates(path("/x"), Some(config)) {
        LocateStep::Found { dir } => assert_eq!(dir.to_text(PathStyle::Unix), "/x"),
        step => panic!("{:?}", step),
    }
    assert_eq!(config_file(&path("/x")).to_text(PathStyle::Unix), "/x/cargo-generate.toml");
}

#[test]
fn subfolders_stay_within_the_template() {
    let resolve = |base: &str, dir: &str, is_dir: bool| {
        resolve_template_dir_subfolder(
            path("ignored"),
            Some((
                "sub".to_string(),
                SubfolderLookup::Present { base: path(base), dir: path(dir), is_dir },
            )),
        )
    };
    assert_eq!(resolve("/t/a", "/t/a/sub", true).unwrap().to_text(PathStyle::Unix), "/t/a/sub");
    assert_eq!(resolve("/t/a", "/t/a", true).unwrap().to_text(PathStyle::Unix), "/t/a");
    assert!(matches!(resolve("/t/a", "/t/ab", true), Err(SubfolderError::OutsideTemplate)));
    assert!(matches!(resolve("/t/a", "/t", false), Err(SubfolderError::OutsideTemplate)));
    assert!(matches!(resolve("/t/a", "/t/a/sub", false), Err(SubfolderError::NotAFolder)));
    let missing = resolve_template_dir_subfolder(
        path("/t"),
        Some(("sub".to_string(), SubfolderLookup::SubfolderMissing)),
    );
    match missing {
        Err(SubfolderError::NotFound { subfolder }) => assert_eq!(subfolder, "sub"),
        other => panic!("{:?}", other),
    }
    assert_eq!(resolve_template_dir_subfolder(path("t"), None).unwrap().to_text(PathStyle::Unix), "t");
}

#[test]
fn the_nearest_template_file_is_located() {
    let existing = vec![path("/t/f"), path("/t/a/f"), path("/f")];
    let locate = |base: &str, folder: &str| {
        locate_template_file("f", &path(base), &path(folder), &existing, PathStyle::Unix).map(|file| file.to_text(PathStyle::Unix))
    };
    assert_eq!(locate("/t", "/t/a/b"), Ok("/t/a/f".to_string()));
    assert_eq!(locate("/t", "/t/a"), Ok("/t/a/f".to_string()));
    assert_eq!(locate("/t", "/t/c/d"), Ok("/t/f".to_string()));
    assert_eq!(locate("/t/c", "/t/c/d"), Err(LocateFileError::NotFound));
    assert_eq!(locate("/other", "/t/c"), Ok("/t/f".to_string()));
    assert_eq!(locate("/other", "/u/v"), Ok("/f".to_string()));
    assert_eq!(locate("/other", "u/v"), Err(LocateFileError::ReachedRoot));
}

#[test]
fn template_files_are_looked_for_up_to_the_base() {
    let texts = |base: &str, folder: &str| -> Vec<String> {
        template_file_candidates("f", &path(base), &path(folder), PathStyle::Unix)
            .iter()
            .map(|file| file.to_text(PathStyle::Unix))
            .collect()
    };
    assert_eq!(texts("/t", "/t/a/b"), vec!["/t/a/b/f", "/t/a/f", "/t/f"]);
    assert_eq!(texts("/t", "/t"), vec!["/t/f"]);
    assert_eq!(texts("/x", "/t/a"), vec!["/t/a/f", "/t/f", "/f"]);
}
