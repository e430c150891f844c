//! The course of a generation, from the settings of the user to the finished project.

use crate::config::{Config, Vcs};
use crate::expand::{ExpandState, ExpandStateView};
use crate::path::{PathView, TemplatePath};
use crate::text::{words, words_of};
use crate::version::{
    is_check, is_semver_version, required_version, semver_matches, semver_requirement,
    VersionError,
};
use vstd::prelude::*;

verus! {

/// How serious a message is.
#[derive(Clone, Copy, PartialEq, Eq, Debug, Structural)]
pub enum LogLevel {
    Error,
    Warn,
    Info,
    Debug,
    Trace,
}

/// What stands before a message: a mark and a space before errors and warnings, nothing before
/// anything else.
pub open spec fn prefix_text(
    level: LogLevel,
    error_mark: Seq<char>,
    warn_mark: Seq<char>,
) -> Seq<char> {
    match level {
        LogLevel::Error => error_mark + seq![' '],
        LogLevel::Warn => warn_mark + seq![' '],
        _ => Seq::empty(),
    }
}

/// Writes a message as a line of the log, without the end of the line.
pub fn log_formatter(level: LogLevel, message: &str, error_mark: &str, warn_mark: &str) -> (r: String)
    ensures
        r@ == prefix_text(level, error_mark@, warn_mark@) + message@,
{
    proof {
        reveal_strlit(" ");
        assert(" "@ =~= seq![' ']);
    }
    let mut r: String = match level {
        LogLevel::Error => error_mark.to_owned().concat(" "),
        LogLevel::Warn => warn_mark.to_owned().concat(" "),
        _ => String::new(),
    };
    r.append(message);
    r
}

/// The command that tests an expanded template, and its arguments: that of the environment,
/// cut into words, or else `cargo test`.
pub open spec fn base_command(env_test_cmd: Option<Seq<char>>) -> Seq<Seq<char>> {
    match env_test_cmd {
        Some(text) => words_of(text),
        None => seq!["cargo"@, "test"@],
    }
}

/// Puts together the command that tests an expanded template, and its arguments: those of the
/// environment or of `cargo test`, and then those that the user gave. A command from the
/// environment must name a program.
pub fn test_command(env_test_cmd: Option<String>, other_args: Option<Vec<String>>) -> (r: (
    String,
    Vec<String>,
))
    requires
        base_command(env_test_cmd.deep_view()).len() > 0,
    ensures
        r.0@ == base_command(env_test_cmd.deep_view())[0],
        r.1.deep_view() == base_command(env_test_cmd.deep_view()).skip(1) + (match other_args {
            Some(args) => args.deep_view(),
            None => Seq::empty(),
        }),
{
    let ghost base = base_command(env_test_cmd.deep_view());
    let mut all: Vec<String> = match env_test_cmd {
        Some(text) => words(text.as_str()),
        None => {
            let mut cargo_test: Vec<String> = Vec::new();
            cargo_test.push("cargo".to_owned());
            cargo_test.push("test".to_owned());
            assert(cargo_test.deep_view() =~= base);
            cargo_test
        },
    };
    assert(all.deep_view() == base);
    assert(all@.len() == base.len());
    let program: String = all.remove(0);
    assert(all.deep_view() =~= base.skip(1));
    if let Some(mut args) = other_args {
        let ghost given = args.deep_view();
        all.append(&mut args);
        assert(all.deep_view() =~= base.skip(1) + given);
    } else {
        assert(all.deep_view() =~= base.skip(1) + Seq::<Seq<char>>::empty());
    }
    (program, all)
}

/// What the user asks for.
#[derive(Clone, Copy, PartialEq, Eq, Debug, Structural)]
pub struct GenerateSettings {
    /// Expand the template into the current folder.
    pub init: bool,
    /// Initialize a repository even in the current folder or in a workspace.
    pub force_git_init: bool,
    /// Only test whether the template can be expanded.
    pub test: bool,
    /// The version control system, unless the template asks for another.
    pub vcs: Vcs,
}

/// Whether the project became part of a workspace.
#[derive(Clone, Copy, PartialEq, Eq, Debug, Structural)]
pub enum WorkspaceMemberStatus {
    Added,
    NoWorkspaceFound,
}

/// The template asks to be expanded into the current folder.
pub open spec fn template_init(config: Config) -> bool {
    config.template matches Some(template) && template.init == Some(true)
}

/// The version control system that the template asks for.
pub open spec fn template_vcs(config: Config) -> Option<Vcs> {
    match config.template {
        Some(template) => template.vcs,
        None => None,
    }
}

/// The settings that hold once the configuration of the template has been read: the template
/// can ask for expansion into the current folder.
pub open spec fn effective(settings: GenerateSettings, config: Config) -> GenerateSettings {
    GenerateSettings { init: settings.init || template_init(config), ..settings }
}

/// The version control system of the project: that of the template comes first.
pub open spec fn chosen_vcs(settings: GenerateSettings, asked_for: Option<Vcs>) -> Vcs {
    match asked_for {
        Some(vcs) => vcs,
        None => settings.vcs,
    }
}

/// A repository is wanted: there is version control, and the project is in a folder of its own
/// unless the user insists.
pub open spec fn wants_git(settings: GenerateSettings, vcs: Vcs) -> bool {
    vcs != Vcs::NoVcs && (!settings.init || settings.force_git_init)
}

/// A repository is wanted for a project that may be a member of a workspace. In a workspace,
/// only if the user insists.
pub open spec fn wants_git_in(
    settings: GenerateSettings,
    vcs: Vcs,
    status: WorkspaceMemberStatus,
) -> bool {
    match status {
        WorkspaceMemberStatus::Added => settings.force_git_init,
        WorkspaceMemberStatus::NoWorkspaceFound => wants_git(settings, vcs),
    }
}

/// Whether a repository is initialized in the end. What is only tested joins no workspace.
pub open spec fn initializes_git(
    settings: GenerateSettings,
    vcs: Vcs,
    status: WorkspaceMemberStatus,
) -> bool {
    if settings.test {
        wants_git(settings, vcs)
    } else {
        wants_git_in(settings, vcs, status)
    }
}

/// Lets the configuration of the template have its say in the settings. Tells, besides, whether
/// the user is to be warned that the template moves the output into the current folder.
pub fn apply_config(settings: GenerateSettings, config: &Config) -> (r: (GenerateSettings, bool))
    ensures
        r.0 == effective(settings, *config),
        r.0.vcs == settings.vcs,
        r.0.force_git_init == settings.force_git_init,
        r.0.test == settings.test,
        settings.init ==> r.0.init,
        r.1 == (template_init(*config) && !settings.init),
{
    let mut result: GenerateSettings = settings;
    let mut warns: bool = false;
    if let Some(template) = &config.template {
        if let Some(init) = template.init {
            if init && !settings.init {
                result.init = true;
                warns = true;
            }
        }
    }
    (result, warns)
}

/// What is to be done next in a generation, once the template has been read.
#[derive(Debug)]
pub enum GenerateStep {
    /// Check that this version of the generator can expand the template.
    CheckVersion,
    /// Expand the template.
    Expand,
    /// Run the test command in the expanded template.
    Test { vcs: Vcs },
    /// Copy the expanded template into the folder of the project.
    Copy { project_dir: TemplatePath, vcs: Vcs },
    /// Make the project a member of the workspace around it.
    AddToWorkspace { project_dir: TemplatePath, vcs: Vcs },
    /// Initialize a repository, with the branch of the template where it has one.
    InitGit { target: TemplatePath, branch: Option<String>, force: bool },
    /// The project is in `target`.
    Done { target: TemplatePath },
    /// The generation has failed.
    Failed,
}

/// What a [`GenerateStep`] holds.
pub enum GenerateStepView {
    CheckVersion,
    Expand,
    Test { vcs: Vcs },
    Copy { project_dir: PathView, vcs: Vcs },
    AddToWorkspace { project_dir: PathView, vcs: Vcs },
    InitGit { target: PathView, branch: Option<Seq<char>>, force: bool },
    Done { target: PathView },
    Failed,
}

impl View for GenerateStep {
    type V = GenerateStepView;

    open spec fn view(&self) -> GenerateStepView {
        match self {
            GenerateStep::CheckVersion => GenerateStepView::CheckVersion,
            GenerateStep::Expand => GenerateStepView::Expand,
            GenerateStep::Test { vcs } => GenerateStepView::Test { vcs: *vcs },
            GenerateStep::Copy { project_dir, vcs } => GenerateStepView::Copy {
                project_dir: project_dir@,
                vcs: *vcs,
            },
            GenerateStep::AddToWorkspace { project_dir, vcs } => {
                GenerateStepView::AddToWorkspace { project_dir: project_dir@, vcs: *vcs }
            },
            GenerateStep::InitGit { target, branch, force } => GenerateStepView::InitGit {
                target: target@,
                branch: branch.deep_view(),
                force: *force,
            },
            GenerateStep::Done { target } => GenerateStepView::Done { target: target@ },
            GenerateStep::Failed => GenerateStepView::Failed,
        }
    }
}

/// What came of a step.
#[derive(Debug)]
pub enum GenerateEvent {
    /// The step was done.
    StepDone,
    /// The template was expanded, for a project in `project_dir`. Its configuration now asks for
    /// this version control system.
    Expanded { project_dir: TemplatePath, vcs: Option<Vcs> },
    /// The project was made a member of a workspace, or there was none.
    Workspace(WorkspaceMemberStatus),
    /// The step failed.
    Failed,
}

/// What a [`GenerateEvent`] holds.
pub enum GenerateEventView {
    StepDone,
    Expanded { project_dir: PathView, vcs: Option<Vcs> },
    Workspace(WorkspaceMemberStatus),
    Failed,
}

impl View for GenerateEvent {
    type V = GenerateEventView;

    open spec fn view(&self) -> GenerateEventView {
        match self {
            GenerateEvent::StepDone => GenerateEventView::StepDone,
            GenerateEvent::Expanded { project_dir, vcs } => GenerateEventView::Expanded {
                project_dir: project_dir@,
                vcs: *vcs,
            },
            GenerateEvent::Workspace(status) => GenerateEventView::Workspace(*status),
            GenerateEvent::Failed => GenerateEventView::Failed,
        }
    }
}

/// What a check of the version means for a generation.
pub open spec fn check_event(verdict: Result<(), VersionError>) -> GenerateEventView {
    match verdict {
        Ok(_) => GenerateEventView::StepDone,
        Err(_) => GenerateEventView::Failed,
    }
}

/// Takes a check of the version to what it means for a generation.
pub fn version_event(verdict: &Result<(), VersionError>) -> (r: GenerateEvent)
    ensures
        r@ == check_event(*verdict),
{
    match verdict {
        Ok(_) => GenerateEvent::StepDone,
        Err(_) => GenerateEvent::Failed,
    }
}

/// Takes the end of an expansion, and the configuration that it leaves, to what they mean for a
/// generation.
pub fn expansion_event(state: ExpandState, config: &Config) -> (r: GenerateEvent)
    requires
        state@ is Done || state@ is Failed,
    ensures
        r@ == (match state@ {
            ExpandStateView::Done { project_dir } => GenerateEventView::Expanded {
                project_dir,
                vcs: template_vcs(*config),
            },
            _ => GenerateEventView::Failed,
        }),
{
    match state {
        ExpandState::Done { project_dir } => {
            let vcs: Option<Vcs> = match &config.template {
                Some(template) => template.vcs,
                None => None,
            };
            GenerateEvent::Expanded { project_dir, vcs }
        },
        _ => GenerateEvent::Failed,
    }
}

/// The path of a project that was only tested: it is nowhere.
pub open spec fn nowhere() -> PathView {
    PathView { root: Seq::empty(), names: Seq::empty() }
}

/// The last steps: a repository is initialized, or not.
pub open spec fn finish(
    settings: GenerateSettings,
    branch: Option<Seq<char>>,
    target: PathView,
    initialize_git: bool,
) -> GenerateStepView {
    if initialize_git {
        GenerateStepView::InitGit { target, branch, force: settings.force_git_init }
    } else {
        GenerateStepView::Done { target }
    }
}

/// The step after a step, under the effective settings and for a template from this branch. The
/// first step that fails is the last one.
pub open spec fn next_generate_step(
    settings: GenerateSettings,
    branch: Option<Seq<char>>,
    step: GenerateStepView,
    event: GenerateEventView,
) -> GenerateStepView {
    match (step, event) {
        (GenerateStepView::Done { .. }, _) => step,
        (_, GenerateEventView::Failed) => GenerateStepView::Failed,
        (GenerateStepView::CheckVersion, GenerateEventView::StepDone) => GenerateStepView::Expand,
        (
            GenerateStepView::Expand,
            GenerateEventView::Expanded { project_dir, vcs },
        ) => if settings.test {
            GenerateStepView::Test { vcs: chosen_vcs(settings, vcs) }
        } else {
            GenerateStepView::Copy { project_dir, vcs: chosen_vcs(settings, vcs) }
        },
        (GenerateStepView::Test { vcs }, GenerateEventView::StepDone) => finish(
            settings,
            branch,
            nowhere(),
            wants_git(settings, vcs),
        ),
        (
            GenerateStepView::Copy { project_dir, vcs },
            GenerateEventView::StepDone,
        ) => GenerateStepView::AddToWorkspace { project_dir, vcs },
        (
            GenerateStepView::AddToWorkspace { project_dir, vcs },
            GenerateEventView::Workspace(status),
        ) => finish(settings, branch, project_dir, wants_git_in(settings, vcs, status)),
        (
            GenerateStepView::InitGit { target, .. },
            GenerateEventView::StepDone,
        ) => GenerateStepView::Done { target },
        _ => step,
    }
}

/// The event can come of the step.
pub open spec fn comes_of(step: GenerateStepView, event: GenerateEventView) -> bool {
    match step {
        GenerateStepView::Expand => event is Expanded || event is Failed,
        GenerateStepView::AddToWorkspace { .. } => event is Workspace || event is Failed,
        GenerateStepView::Done { .. } => false,
        GenerateStepView::Failed => false,
        _ => event is StepDone || event is Failed,
    }
}

fn should_initialize_git(settings: GenerateSettings, vcs: Vcs) -> (r: bool)
    ensures
        r == wants_git(settings, vcs),
{
    vcs != Vcs::NoVcs && (!settings.init || settings.force_git_init)
}

fn finishing_step(
    settings: GenerateSettings,
    branch: &Option<String>,
    target: TemplatePath,
    initialize_git: bool,
) -> (r: GenerateStep)
    ensures
        r@ == finish(settings, branch.deep_view(), target@, initialize_git),
{
    if initialize_git {
        let branch: Option<String> = match branch {
            Some(name) => Some(name.clone()),
            None => None,
        };
        GenerateStep::InitGit { target, branch, force: settings.force_git_init }
    } else {
        GenerateStep::Done { target }
    }
}

/// Takes a generation one step on, under the effective settings and for a template from this
/// branch.
pub fn generate(
    settings: GenerateSettings,
    branch: &Option<String>,
    step: GenerateStep,
    event: GenerateEvent,
) -> (r: GenerateStep)
    requires
        comes_of(step@, event@),
    ensures
        r@ == next_generate_step(settings, branch.deep_view(), step@, event@),
{
    match (step, event) {
        (_, GenerateEvent::Failed) => GenerateStep::Failed,
        (GenerateStep::CheckVersion, _) => GenerateStep::Expand,
        (GenerateStep::Expand, GenerateEvent::Expanded { project_dir, vcs }) => {
            let vcs: Vcs = match vcs {
                Some(vcs) => vcs,
                None => settings.vcs,
            };
            if settings.test {
                GenerateStep::Test { vcs }
            } else {
                GenerateStep::Copy { project_dir, vcs }
            }
        },
        (GenerateStep::Test { vcs }, _) => {
            let target: TemplatePath = TemplatePath { root: String::new(), names: Vec::new() };
            assert(target@ =~= nowhere());
            finishing_step(settings, branch, target, should_initialize_git(settings, vcs))
        },
        (GenerateStep::Copy { project_dir, vcs }, _) => {
            GenerateStep::AddToWorkspace { project_dir, vcs }
        },
        (GenerateStep::AddToWorkspace { project_dir, vcs }, GenerateEvent::Workspace(status)) => {
            let initialize_git: bool = match status {
                WorkspaceMemberStatus::Added => settings.force_git_init,
                WorkspaceMemberStatus::NoWorkspaceFound => {
                    should_initialize_git(settings, vcs)
                },
            };
            finishing_step(settings, branch, project_dir, initialize_git)
        },
        (GenerateStep::InitGit { target, .. }, _) => GenerateStep::Done { target },
        (step, _) => step,
    }
}

/// Where a generation is after `n` steps, where `events(k)` is what comes of step `k`.
pub open spec fn generation_after(
    settings: GenerateSettings,
    branch: Option<Seq<char>>,
    events: spec_fn(nat) -> GenerateEventView,
    n: nat,
) -> GenerateStepView
    decreases n,
{
    if n == 0 {
        GenerateStepView::CheckVersion
    } else {
        let k = (n - 1) as nat;
        next_generate_step(
            settings,
            branch,
            generation_after(settings, branch, events, k),
            events(k),
        )
    }
}

/// A generation that is complete or has failed stays so.
pub proof fn law_the_end_of_a_generation_is_final(
    settings: GenerateSettings,
    branch: Option<Seq<char>>,
    events: spec_fn(nat) -> GenerateEventView,
    n: nat,
    m: nat,
)
    requires
        n <= m,
        generation_after(settings, branch, events, n) is Done || generation_after(
            settings,
            branch,
            events,
            n,
        ) is Failed,
    ensures
        generation_after(settings, branch, events, m) == generation_after(
            settings,
            branch,
            events,
            n,
        ),
    decreases m,
{
    if n < m {
        law_the_end_of_a_generation_is_final(settings, branch, events, n, (m - 1) as nat);
    }
}

/// The configuration requires something that this version does not meet: what it requires is
/// not a requirement, or the version is not a version, or the two do not match.
pub open spec fn requirement_unmet(config: Config, version: Seq<char>) -> bool {
    required_version(config) matches Some(requirement) && (semver_requirement(requirement) is None
        || !is_semver_version(version) || !semver_matches(requirement, version))
}

/// A template whose requirement is not met is not expanded: after the check, the generation has
/// failed, whatever comes afterwards. Where nothing stands against it, the template is expanded
/// next.
pub proof fn law_unmet_requirement_expands_nothing(
    settings: GenerateSettings,
    branch: Option<Seq<char>>,
    config: Config,
    version: Seq<char>,
    verdict: Result<(), VersionError>,
    events: spec_fn(nat) -> GenerateEventView,
    n: nat,
)
    requires
        events(0) == check_event(verdict),
        n > 0,
    ensures
        is_check(verdict, config, version) && requirement_unmet(config, version)
            ==> generation_after(settings, branch, events, n) is Failed,
        is_check(verdict, config, version) && !requirement_unmet(config, version)
            ==> generation_after(settings, branch, events, 1) is Expand,
{
    assert(generation_after(settings, branch, events, 0) is CheckVersion);
    assert(generation_after(settings, branch, events, 1) == next_generate_step(
        settings,
        branch,
        GenerateStepView::CheckVersion,
        events(0),
    ));
    if verdict is Err {
        law_the_end_of_a_generation_is_final(settings, branch, events, 1, n);
    }
}

/// What comes of the steps of a generation.
pub struct Outcome {
    /// The project is for this folder.
    pub project_dir: PathView,
    /// The version control system that the template asks for once it is expanded.
    pub asked_for: Option<Vcs>,
    /// The workspace around it.
    pub status: WorkspaceMemberStatus,
    /// Whether a step succeeds.
    pub succeeds: spec_fn(GenerateStepView) -> bool,
}

impl Outcome {
    /// What comes of a step.
    pub open spec fn event(self, step: GenerateStepView) -> GenerateEventView {
        if !(self.succeeds)(step) {
            GenerateEventView::Failed
        } else {
            match step {
                GenerateStepView::Expand => GenerateEventView::Expanded {
                    project_dir: self.project_dir,
                    vcs: self.asked_for,
                },
                GenerateStepView::AddToWorkspace { .. } => GenerateEventView::Workspace(
                    self.status,
                ),
                _ => GenerateEventView::StepDone,
            }
        }
    }

    /// Where the project is in the end: nowhere, where the template was only tested.
    pub open spec fn target(self, settings: GenerateSettings) -> PathView {
        if settings.test {
            nowhere()
        } else {
            self.project_dir
        }
    }

    /// The steps of a generation in which nothing fails, in order.
    pub open spec fn course(
        self,
        settings: GenerateSettings,
        branch: Option<Seq<char>>,
    ) -> Seq<GenerateStepView> {
        let target = self.target(settings);
        let vcs = chosen_vcs(settings, self.asked_for);
        let start = seq![GenerateStepView::CheckVersion, GenerateStepView::Expand];
        let middle = if settings.test {
            seq![GenerateStepView::Test { vcs }]
        } else {
            seq![
                GenerateStepView::Copy { project_dir: self.project_dir, vcs },
                GenerateStepView::AddToWorkspace { project_dir: self.project_dir, vcs },
            ]
        };
        let git = if initializes_git(settings, vcs, self.status) {
            seq![GenerateStepView::InitGit { target, branch, force: settings.force_git_init }]
        } else {
            Seq::empty()
        };
        start + middle + git + seq![GenerateStepView::Done { target }]
    }

    /// The first `n` steps of the course succeed.
    pub open spec fn goes_well(
        self,
        settings: GenerateSettings,
        branch: Option<Seq<char>>,
        n: int,
    ) -> bool {
        forall|i: int|
            0 <= i < n ==> (self.succeeds)(#[trigger] self.course(settings, branch)[i])
    }

    /// The generation gets the events that come of its steps.
    pub open spec fn is_outcome_of(
        self,
        settings: GenerateSettings,
        branch: Option<Seq<char>>,
        events: spec_fn(nat) -> GenerateEventView,
    ) -> bool {
        forall|k: nat|
            #![trigger events(k)]
            events(k) == self.event(generation_after(settings, branch, events, k))
    }
}

proof fn lemma_course(
    outcome: Outcome,
    settings: GenerateSettings,
    branch: Option<Seq<char>>,
    i: int,
)
    requires
        0 <= i < outcome.course(settings, branch).len() - 1,
        (outcome.succeeds)(outcome.course(settings, branch)[i]),
    ensures
        next_generate_step(
            settings,
            branch,
            outcome.course(settings, branch)[i],
            outcome.event(outcome.course(settings, branch)[i]),
        ) == outcome.course(settings, branch)[i + 1],
{
}

/// A generation goes through the steps of its course: the version is checked before anything
/// is expanded; what is only tested is never copied; a repository, where one is initialized,
/// comes last, and has the branch of the template. The first step that fails is the last one.
pub proof fn law_generation_follows_the_course(
    outcome: Outcome,
    settings: GenerateSettings,
    branch: Option<Seq<char>>,
    events: spec_fn(nat) -> GenerateEventView,
    n: nat,
)
    requires
        outcome.is_outcome_of(settings, branch, events),
        n < outcome.course(settings, branch).len(),
    ensures
        generation_after(settings, branch, events, n) == (if outcome.goes_well(
            settings,
            branch,
            n as int,
        ) {
            outcome.course(settings, branch)[n as int]
        } else {
            GenerateStepView::Failed
        }),
    decreases n,
{
    let course = outcome.course(settings, branch);
    if n > 0 {
        let k = (n - 1) as nat;
        law_generation_follows_the_course(outcome, settings, branch, events, k);
        let step = course[k as int];
        assert(events(k) == outcome.event(generation_after(settings, branch, events, k)));
        if outcome.goes_well(settings, branch, k as int) {
            assert(!(step is Done));
            if (outcome.succeeds)(step) {
                lemma_course(outcome, settings, branch, k as int);
                assert(outcome.goes_well(settings, branch, n as int));
            } else {
                assert(!outcome.goes_well(settings, branch, n as int));
            }
        } else {
            assert(!outcome.goes_well(settings, branch, n as int));
        }
    }
}

/// A generation comes to an end and stays there. Where nothing failed, the project is in the
/// folder of the project, or nowhere where the template was only tested.
pub proof fn law_generation_ends(
    outcome: Outcome,
    settings: GenerateSettings,
    branch: Option<Seq<char>>,
    events: spec_fn(nat) -> GenerateEventView,
    n: nat,
)
    requires
        outcome.is_outcome_of(settings, branch, events),
        n >= outcome.course(settings, branch).len() - 1,
    ensures
        generation_after(settings, branch, events, n) == (if outcome.goes_well(
            settings,
            branch,
            outcome.course(settings, branch).len() - 1,
        ) {
            GenerateStepView::Done { target: outcome.target(settings) }
        } else {
            GenerateStepView::Failed
        }),
{
    let last = (outcome.course(settings, branch).len() - 1) as nat;
    law_generation_follows_the_course(outcome, settings, branch, events, last);
    law_the_end_of_a_generation_is_final(settings, branch, events, last, n);
}

} // verus!
