//! What holds of settings, log lines, commands and steps of a generation, for each of them.

use crate::config::{Config, Vcs};
use crate::generate::{
    base_command, check_event, comes_of, effective, generation_after, next_generate_step,
    prefix_text, template_init, template_vcs, GenerateEvent, GenerateEventView, GenerateSettings,
    GenerateStep, GenerateStepView, LogLevel, WorkspaceMemberStatus,
};
use crate::path::{PathView, TemplatePath};
use crate::text::{separates, unbroken, Separator};
use crate::text_laws::{
    law_single_word, law_text_without_words, law_words_of_both_sides,
};
use crate::version::VersionError;
use vstd::prelude::*;

verus! {

/// A configuration has a say in one setting alone, whether the template is expanded into the
/// current folder: it can ask for that, and cannot undo it. All else is as the user wants it.
pub proof fn law_configuration_changes_nothing_but_init(settings: GenerateSettings, config: Config)
    ensures
        effective(settings, config).vcs == settings.vcs,
        effective(settings, config).force_git_init == settings.force_git_init,
        effective(settings, config).test == settings.test,
        effective(settings, config).init <==> settings.init || (config.template is Some
            && config.template->0.init == Some(true)),
{
}

/// Letting the same configuration have its say again changes nothing, and a configuration
/// without settings for the template never does.
pub proof fn law_a_configuration_has_its_say_once(settings: GenerateSettings, config: Config)
    ensures
        effective(effective(settings, config), config) == effective(settings, config),
        config.template is None ==> effective(settings, config) == settings,
{
}

/// What a template asks for is what its settings say, and nothing where they say nothing.
pub proof fn law_template_asks_for_what_it_says(config: Config)
    ensures
        config.template is None ==> template_vcs(config) is None && !template_init(config),
        config.template is Some ==> template_vcs(config) == config.template->0.vcs,
        config.template is Some ==> (template_init(config) <==> config.template->0.init == Some(
            true,
        )),
{
}

/// A line of the log ends in the message. Before it stand a mark and a space where it is an
/// error or a warning, and nothing where it is anything else.
pub proof fn law_only_errors_and_warnings_are_marked(
    level: LogLevel,
    error_mark: Seq<char>,
    warn_mark: Seq<char>,
    message: Seq<char>,
)
    ensures
        ({
            let line = prefix_text(level, error_mark, warn_mark) + message;
            &&& level == LogLevel::Error ==> line == error_mark.push(' ') + message
            &&& level == LogLevel::Warn ==> line == warn_mark.push(' ') + message
            &&& level == LogLevel::Info || level == LogLevel::Debug || level == LogLevel::Trace
                ==> line == message
        }),
{
    let line = prefix_text(level, error_mark, warn_mark) + message;
    assert(error_mark.push(' ') =~= error_mark + seq![' ']);
    assert(warn_mark.push(' ') =~= warn_mark + seq![' ']);
    if level != LogLevel::Error && level != LogLevel::Warn {
        assert(line =~= message);
    }
}

/// Without a command in the environment, `cargo test` is the command.
pub proof fn law_cargo_test_is_the_command()
    ensures
        base_command(None) == seq![seq!['c', 'a', 'r', 'g', 'o'], seq!['t', 'e', 's', 't']],
{
    reveal_strlit("cargo");
    reveal_strlit("test");
    assert("cargo"@ =~= seq!['c', 'a', 'r', 'g', 'o']);
    assert("test"@ =~= seq!['t', 'e', 's', 't']);
}

/// A command from the environment is cut at white space: what stands on both sides of it is cut
/// for itself, a text without it is one word, and an empty text is no word.
pub proof fn law_command_is_cut_at_white_space(front: Seq<char>, c: char, back: Seq<char>)
    ensures
        separates(Separator::WhiteSpace, c) ==> base_command(Some(front.push(c) + back))
            == base_command(Some(front)) + base_command(Some(back)),
        front.len() > 0 && unbroken(front, Separator::WhiteSpace) ==> base_command(Some(front))
            == seq![front],
        base_command(Some(Seq::empty())) == Seq::<Seq<char>>::empty(),
{
    if separates(Separator::WhiteSpace, c) {
        law_words_of_both_sides(front, c, back);
    }
    if front.len() > 0 && unbroken(front, Separator::WhiteSpace) {
        law_single_word(front);
    }
    law_text_without_words();
}

/// What a check of the version means: a generation goes on where it succeeded, and only there.
pub proof fn law_failed_check_is_a_failure(verdict: Result<(), VersionError>)
    ensures
        verdict is Ok <==> check_event(verdict) == GenerateEventView::StepDone,
        verdict is Err <==> check_event(verdict) == GenerateEventView::Failed,
{
}

/// Every step can fail or succeed, in the way that it does, until the generation is over.
pub proof fn law_every_outcome_of_a_step_is_taken(
    project_dir: PathView,
    target: PathView,
    vcs: Vcs,
    asked_for: Option<Vcs>,
    branch: Option<Seq<char>>,
    force: bool,
    status: WorkspaceMemberStatus,
)
    ensures
        comes_of(GenerateStepView::CheckVersion, GenerateEventView::StepDone),
        comes_of(GenerateStepView::CheckVersion, GenerateEventView::Failed),
        comes_of(
            GenerateStepView::Expand,
            GenerateEventView::Expanded { project_dir, vcs: asked_for },
        ),
        comes_of(GenerateStepView::Expand, GenerateEventView::Failed),
        comes_of(GenerateStepView::Test { vcs }, GenerateEventView::StepDone),
        comes_of(GenerateStepView::Test { vcs }, GenerateEventView::Failed),
        comes_of(GenerateStepView::Copy { project_dir, vcs }, GenerateEventView::StepDone),
        comes_of(GenerateStepView::Copy { project_dir, vcs }, GenerateEventView::Failed),
        comes_of(
            GenerateStepView::AddToWorkspace { project_dir, vcs },
            GenerateEventView::Workspace(status),
        ),
        comes_of(
            GenerateStepView::AddToWorkspace { project_dir, vcs },
            GenerateEventView::Failed,
        ),
        comes_of(
            GenerateStepView::InitGit { target, branch, force },
            GenerateEventView::StepDone,
        ),
        comes_of(GenerateStepView::InitGit { target, branch, force }, GenerateEventView::Failed),
{
}

/// A failure of any step that is left ends a generation, and what was done before it stays
/// done: there is no other step after it.
pub proof fn law_any_failure_fails_the_generation(
    settings: GenerateSettings,
    branch: Option<Seq<char>>,
    step: GenerateStepView,
)
    requires
        !(step is Done),
    ensures
        next_generate_step(settings, branch, step, GenerateEventView::Failed)
            == GenerateStepView::Failed,
{
}

/// A generation in which nothing fails copies the expanded template to where the expansion says,
/// and makes it a member of a workspace. Then it initializes a repository there, with the branch
/// of the template and as forcefully as the user wants: in a workspace where the user insists,
/// and elsewhere where there is version control and the project has its own folder or the user
/// insists. The version control system is that of the expanded template, or else that of the
/// user. The project is where it was copied to.
pub proof fn law_generation_of_a_project(
    settings: GenerateSettings,
    branch: Option<Seq<char>>,
    project_dir: PathView,
    asked_for: Option<Vcs>,
    status: WorkspaceMemberStatus,
    events: spec_fn(nat) -> GenerateEventView,
)
    requires
        !settings.test,
        events(0) == GenerateEventView::StepDone,
        events(1) == (GenerateEventView::Expanded { project_dir, vcs: asked_for }),
        events(2) == GenerateEventView::StepDone,
        events(3) == GenerateEventView::Workspace(status),
        events(4) == GenerateEventView::StepDone,
    ensures
        ({
            let at = |n: nat| generation_after(settings, branch, events, n);
            let vcs = if asked_for is Some {
                asked_for->0
            } else {
                settings.vcs
            };
            let git = if status == WorkspaceMemberStatus::Added {
                settings.force_git_init
            } else {
                vcs == Vcs::Git && (settings.force_git_init || !settings.init)
            };
            &&& at(0) == GenerateStepView::CheckVersion
            &&& at(1) == GenerateStepView::Expand
            &&& at(2) == GenerateStepView::Copy { project_dir, vcs }
            &&& at(3) == GenerateStepView::AddToWorkspace { project_dir, vcs }
            &&& git ==> at(4) == GenerateStepView::InitGit {
                target: project_dir,
                branch,
                force: settings.force_git_init,
            }
            &&& git ==> at(5) == GenerateStepView::Done { target: project_dir }
            &&& !git ==> at(4) == GenerateStepView::Done { target: project_dir }
        }),
{
    reveal_with_fuel(generation_after, 6);
}

/// A template that is only tested is never copied and joins no workspace. The project is
/// nowhere.
pub proof fn law_test_of_a_template(
    settings: GenerateSettings,
    branch: Option<Seq<char>>,
    project_dir: PathView,
    asked_for: Option<Vcs>,
    events: spec_fn(nat) -> GenerateEventView,
)
    requires
        settings.test,
        events(0) == GenerateEventView::StepDone,
        events(1) == (GenerateEventView::Expanded { project_dir, vcs: asked_for }),
        events(2) == GenerateEventView::StepDone,
        events(3) == GenerateEventView::StepDone,
    ensures
        ({
            let at = |n: nat| generation_after(settings, branch, events, n);
            let vcs = if asked_for is Some {
                asked_for->0
            } else {
                settings.vcs
            };
            let git = vcs == Vcs::Git && (settings.force_git_init || !settings.init);
            let target = PathView { root: Seq::empty(), names: Seq::empty() };
            &&& at(1) == GenerateStepView::Expand
            &&& at(2) == GenerateStepView::Test { vcs }
            &&& git ==> at(3) == GenerateStepView::InitGit {
                target,
                branch,
                force: settings.force_git_init,
            }
            &&& git ==> at(4) == GenerateStepView::Done { target }
            &&& !git ==> at(3) == GenerateStepView::Done { target }
        }),
{
    reveal_with_fuel(generation_after, 5);
}

/// The model of a step has all that the step has.
pub proof fn law_nothing_of_a_step_is_lost(
    project_dir: TemplatePath,
    vcs: Vcs,
    branch: Option<String>,
    force: bool,
)
    ensures
        GenerateStep::CheckVersion@ == GenerateStepView::CheckVersion,
        GenerateStep::Expand@ == GenerateStepView::Expand,
        (GenerateStep::Test { vcs })@ == (GenerateStepView::Test { vcs }),
        (GenerateStep::Copy { project_dir, vcs })@ == (GenerateStepView::Copy {
            project_dir: project_dir@,
            vcs,
        }),
        (GenerateStep::AddToWorkspace { project_dir, vcs })@ == (GenerateStepView::AddToWorkspace {
            project_dir: project_dir@,
            vcs,
        }),
        (GenerateStep::InitGit { target: project_dir, branch, force })@ == (
        GenerateStepView::InitGit {
            target: project_dir@,
            branch: match branch {
                Some(name) => Some(name@),
                None => None,
            },
            force,
        }),
        (GenerateStep::Done { target: project_dir })@ == (GenerateStepView::Done {
            target: project_dir@,
        }),
        GenerateStep::Failed@ == GenerateStepView::Failed,
{
}

/// The model of an event has all that the event has.
pub proof fn law_nothing_of_an_event_is_lost(
    project_dir: TemplatePath,
    vcs: Option<Vcs>,
    status: WorkspaceMemberStatus,
)
    ensures
        GenerateEvent::StepDone@ == GenerateEventView::StepDone,
        (GenerateEvent::Expanded { project_dir, vcs })@ == (GenerateEventView::Expanded {
            project_dir: project_dir@,
            vcs,
        }),
        GenerateEvent::Workspace(status)@ == GenerateEventView::Workspace(status),
        GenerateEvent::Failed@ == GenerateEventView::Failed,
{
}

/// What follows each step that succeeds, wherever it stands: what was copied joins a workspace,
/// what was tested and what has been decided on in a workspace gets a repository where one is
/// wanted, and with it the generation is complete.
pub proof fn law_what_follows_each_step(
    settings: GenerateSettings,
    branch: Option<Seq<char>>,
    project_dir: PathView,
    vcs: Vcs,
    asked_for: Option<Vcs>,
    given: Option<Seq<char>>,
    force: bool,
)
    ensures
        ({
            let after = |step: GenerateStepView, event: GenerateEventView|
                next_generate_step(settings, branch, step, event);
            let nowhere = PathView { root: Seq::empty(), names: Seq::empty() };
            let wanted = vcs == Vcs::Git && (settings.force_git_init || !settings.init);
            let repository = |target: PathView|
                GenerateStepView::InitGit { target, branch, force: settings.force_git_init };
            let complete = |target: PathView| GenerateStepView::Done { target };
            let chosen = if asked_for is Some {
                asked_for->0
            } else {
                settings.vcs
            };
            let expanded = GenerateEventView::Expanded { project_dir, vcs: asked_for };
            let done = GenerateEventView::StepDone;
            let member = GenerateEventView::Workspace(WorkspaceMemberStatus::Added);
            let alone = GenerateEventView::Workspace(WorkspaceMemberStatus::NoWorkspaceFound);
            let joining = GenerateStepView::AddToWorkspace { project_dir, vcs };
            &&& after(GenerateStepView::CheckVersion, done) == GenerateStepView::Expand
            &&& settings.test ==> after(GenerateStepView::Expand, expanded)
                == GenerateStepView::Test { vcs: chosen }
            &&& !settings.test ==> after(GenerateStepView::Expand, expanded)
                == GenerateStepView::Copy { project_dir, vcs: chosen }
            &&& wanted ==> after(GenerateStepView::Test { vcs }, done) == repository(nowhere)
            &&& !wanted ==> after(GenerateStepView::Test { vcs }, done) == complete(nowhere)
            &&& after(GenerateStepView::Copy { project_dir, vcs }, done) == joining
            &&& settings.force_git_init ==> after(joining, member) == repository(project_dir)
            &&& !settings.force_git_init ==> after(joining, member) == complete(project_dir)
            &&& wanted ==> after(joining, alone) == repository(project_dir)
            &&& !wanted ==> after(joining, alone) == complete(project_dir)
            &&& after(
                GenerateStepView::InitGit { target: project_dir, branch: given, force },
                done,
            ) == complete(project_dir)
        }),
{
}

} // verus!
