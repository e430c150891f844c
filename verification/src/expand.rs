//! The course of an expansion: what is done to the files of a template, in which order, and
//! with what.

use crate::config::{
    put_template_back, take_template, Conditional, ConditionalView, Config, ConfigView,
    TemplateConfig, TemplateView,
};
use crate::merge::{
    adds_placeholders, fill_placeholders_and_merge_conditionals, left_over, merged_all,
    take_conditionals,
};
use crate::path::{duplicate_texts, path_of, PathStyle, PathView, TemplatePath};
use vstd::prelude::*;

verus! {

/// What decides on the course of an expansion.
#[derive(Debug)]
pub struct ExpandSettings {
    /// The template is expanded into an existing folder.
    pub init: bool,
    /// An error in a file of the template does not end the expansion.
    pub continue_on_error: bool,
    /// Errors that do not end the expansion are not reported.
    pub quiet: bool,
    /// The folder of the template.
    pub template_dir: TemplatePath,
    /// The folder in which the user wants the project.
    pub destination: TemplatePath,
    /// The files of the hooks.
    pub hook_files: Vec<String>,
    /// How the paths of the hooks' files are written.
    pub style: PathStyle,
}

/// What [`ExpandSettings`] hold.
pub struct ExpandSettingsView {
    pub init: bool,
    pub continue_on_error: bool,
    pub quiet: bool,
    pub template_dir: PathView,
    pub destination: PathView,
    pub hook_files: Seq<Seq<char>>,
    pub style: PathStyle,
}

impl View for ExpandSettings {
    type V = ExpandSettingsView;

    open spec fn view(&self) -> ExpandSettingsView {
        ExpandSettingsView {
            init: self.init,
            continue_on_error: self.continue_on_error,
            quiet: self.quiet,
            template_dir: self.template_dir@,
            destination: self.destination@,
            hook_files: self.hook_files.deep_view(),
            style: self.style,
        }
    }
}

/// Where an expansion is: what is to be done next, and with what.
#[derive(Debug)]
pub enum ExpandState {
    /// Create the variables of the template engine.
    CreateVariables,
    /// Run the first hooks. They may still set the name of the project.
    InitHooks { working_directory: TemplatePath, destination: TemplatePath },
    /// Find out the names of the project and of its folder.
    ResolveNames,
    /// Create the folder of the project.
    CreateDestination { project_dir: TemplatePath },
    /// Set the variables for the names.
    SetNameVariables { project_dir: TemplatePath },
    /// Fill the placeholders that are known so far.
    FillPlaceholders { project_dir: TemplatePath, conditionals: Vec<Conditional> },
    /// Run the scripts of the conditions.
    EvaluateConditions { project_dir: TemplatePath, conditionals: Vec<Conditional> },
    /// Make variables of provided values that have none yet.
    AddProvidedValues { project_dir: TemplatePath },
    /// Run the hooks before the files are expanded.
    PreHooks { working_directory: TemplatePath, destination: TemplatePath },
    /// Remove the files that are not part of the template.
    RemoveUnneededFiles {
        template_dir: TemplatePath,
        template: TemplateConfig,
        project_dir: TemplatePath,
    },
    /// Expand the files, but for those of the hooks.
    WalkTemplate {
        template_dir: TemplatePath,
        template: TemplateConfig,
        hook_files: Vec<String>,
        project_dir: TemplatePath,
    },
    /// Run the hooks after the files have been expanded.
    PostHooks {
        working_directory: TemplatePath,
        destination: TemplatePath,
        template: TemplateConfig,
        filter_files: Vec<TemplatePath>,
    },
    /// Remove the files of hooks and filters, which are no part of the result.
    RemoveHookFiles {
        files: Vec<TemplatePath>,
        template: TemplateConfig,
        project_dir: TemplatePath,
    },
    /// The expansion is complete, for a project in `project_dir`.
    Done { project_dir: TemplatePath },
    /// The expansion has failed.
    Failed,
}

/// What an [`ExpandState`] holds.
#[verifier::ext_equal]
pub enum ExpandStateView {
    CreateVariables,
    InitHooks { working_directory: PathView, destination: PathView },
    ResolveNames,
    CreateDestination { project_dir: PathView },
    SetNameVariables { project_dir: PathView },
    FillPlaceholders {
        project_dir: PathView,
        conditionals: Seq<(Seq<char>, ConditionalView)>,
    },
    EvaluateConditions {
        project_dir: PathView,
        conditionals: Seq<(Seq<char>, ConditionalView)>,
    },
    AddProvidedValues { project_dir: PathView },
    PreHooks { working_directory: PathView, destination: PathView },
    RemoveUnneededFiles { template_dir: PathView, template: TemplateView, project_dir: PathView },
    WalkTemplate {
        template_dir: PathView,
        template: TemplateView,
        hook_files: Seq<Seq<char>>,
        project_dir: PathView,
    },
    PostHooks {
        working_directory: PathView,
        destination: PathView,
        template: TemplateView,
        filter_files: Seq<PathView>,
    },
    RemoveHookFiles { files: Seq<PathView>, template: TemplateView, project_dir: PathView },
    Done { project_dir: PathView },
    Failed,
}

impl View for ExpandState {
    type V = ExpandStateView;

    open spec fn view(&self) -> ExpandStateView {
        match self {
            ExpandState::CreateVariables => ExpandStateView::CreateVariables,
            ExpandState::InitHooks { working_directory, destination } => {
                ExpandStateView::InitHooks {
                    working_directory: working_directory@,
                    destination: destination@,
                }
            },
            ExpandState::ResolveNames => ExpandStateView::ResolveNames,
            ExpandState::CreateDestination { project_dir } => {
                ExpandStateView::CreateDestination { project_dir: project_dir@ }
            },
            ExpandState::SetNameVariables { project_dir } => {
                ExpandStateView::SetNameVariables { project_dir: project_dir@ }
            },
            ExpandState::FillPlaceholders { project_dir, conditionals } => {
                ExpandStateView::FillPlaceholders {
                    project_dir: project_dir@,
                    conditionals: conditionals.deep_view(),
                }
            },
            ExpandState::EvaluateConditions { project_dir, conditionals } => {
                ExpandStateView::EvaluateConditions {
                    project_dir: project_dir@,
                    conditionals: conditionals.deep_view(),
                }
            },
            ExpandState::AddProvidedValues { project_dir } => {
                ExpandStateView::AddProvidedValues { project_dir: project_dir@ }
            },
            ExpandState::PreHooks { working_directory, destination } => {
                ExpandStateView::PreHooks {
                    working_directory: working_directory@,
                    destination: destination@,
                }
            },
            ExpandState::RemoveUnneededFiles { template_dir, template, project_dir } => {
                ExpandStateView::RemoveUnneededFiles {
                    template_dir: template_dir@,
                    template: template@,
                    project_dir: project_dir@,
                }
            },
            ExpandState::WalkTemplate { template_dir, template, hook_files, project_dir } => {
                ExpandStateView::WalkTemplate {
                    template_dir: template_dir@,
                    template: template@,
                    hook_files: hook_files.deep_view(),
                    project_dir: project_dir@,
                }
            },
            ExpandState::PostHooks { working_directory, destination, template, filter_files } => {
                ExpandStateView::PostHooks {
                    working_directory: working_directory@,
                    destination: destination@,
                    template: template@,
                    filter_files: filter_files.deep_view(),
                }
            },
            ExpandState::RemoveHookFiles { files, template, project_dir } => {
                ExpandStateView::RemoveHookFiles {
                    files: files.deep_view(),
                    template: template@,
                    project_dir: project_dir@,
                }
            },
            ExpandState::Done { project_dir } => {
                ExpandStateView::Done { project_dir: project_dir@ }
            },
            ExpandState::Failed => ExpandStateView::Failed,
        }
    }
}

/// What came of a step.
#[derive(Debug)]
pub enum ExpandEvent {
    /// The step was done.
    StepDone,
    /// The project will be in `project_dir`.
    Names { project_dir: TemplatePath },
    /// What the scripts of the conditions gave, `None` where a script failed.
    Verdicts(Vec<Option<bool>>),
    /// The files were expanded, or not all of them. The settings of the template come back as
    /// the expansion of the files left them, together with the files that served as filters.
    Walked { template: TemplateConfig, filter_files: Vec<TemplatePath>, succeeded: bool },
    /// The step failed.
    Failed,
}

/// What an [`ExpandEvent`] holds.
pub enum ExpandEventView {
    StepDone,
    Names { project_dir: PathView },
    Verdicts(Seq<Option<bool>>),
    Walked { template: TemplateView, filter_files: Seq<PathView>, succeeded: bool },
    Failed,
}

impl View for ExpandEvent {
    type V = ExpandEventView;

    open spec fn view(&self) -> ExpandEventView {
        match self {
            ExpandEvent::StepDone => ExpandEventView::StepDone,
            ExpandEvent::Names { project_dir } => {
                ExpandEventView::Names { project_dir: project_dir@ }
            },
            ExpandEvent::Verdicts(verdicts) => ExpandEventView::Verdicts(verdicts@),
            ExpandEvent::Walked { template, filter_files, succeeded } => {
                ExpandEventView::Walked {
                    template: template@,
                    filter_files: filter_files.deep_view(),
                    succeeded: *succeeded,
                }
            },
            ExpandEvent::Failed => ExpandEventView::Failed,
        }
    }
}

/// The event can come of the step. A script that fails does not make the evaluation of the
/// conditions fail, and what cannot be removed in the end is passed over.
pub open spec fn fits(state: ExpandStateView, event: ExpandEventView) -> bool {
    match state {
        ExpandStateView::ResolveNames => event is Names || event is Failed,
        ExpandStateView::EvaluateConditions { conditionals, .. } => {
            event matches ExpandEventView::Verdicts(verdicts) && verdicts.len()
                == conditionals.len()
        },
        ExpandStateView::WalkTemplate { .. } => event is Walked,
        ExpandStateView::RemoveHookFiles { .. } => event is StepDone,
        ExpandStateView::Done { .. } => false,
        ExpandStateView::Failed => false,
        _ => event is StepDone || event is Failed,
    }
}

/// An expansion, together with the configuration that it works on.
#[verifier::ext_equal]
pub struct Expansion {
    pub state: ExpandStateView,
    pub config: ConfigView,
    pub conditional: Option<Seq<(Seq<char>, ConditionalView)>>,
}

/// The expansion that is in this state, with this configuration.
pub open spec fn expansion(state: ExpandState, config: Config) -> Expansion {
    Expansion {
        state: state@,
        config: config@,
        conditional: config.conditional.deep_view(),
    }
}

/// The conditions of a configuration, of which there may be none.
pub open spec fn conditions(conditional: Option<Seq<(Seq<char>, ConditionalView)>>) -> Seq<
    (Seq<char>, ConditionalView),
> {
    match conditional {
        Some(c) => c,
        None => Seq::empty(),
    }
}

/// The paths of the files of the hooks.
pub open spec fn hook_paths(settings: ExpandSettingsView) -> Seq<PathView> {
    settings.hook_files.map_values(|text: Seq<char>| path_of(text, settings.style))
}

/// The expansion of the files ends the whole expansion, or not.
pub open spec fn goes_on(settings: ExpandSettingsView, succeeded: bool) -> bool {
    succeeded || settings.continue_on_error
}

/// The expansion after a step.
pub open spec fn next_step(
    settings: ExpandSettingsView,
    before: Expansion,
    event: ExpandEventView,
) -> Expansion {
    match (before.state, event) {
        (ExpandStateView::Done { .. }, _) => before,
        (_, ExpandEventView::Failed) => Expansion { state: ExpandStateView::Failed, ..before },
        (ExpandStateView::CreateVariables, ExpandEventView::StepDone) => Expansion {
            state: ExpandStateView::InitHooks {
                working_directory: settings.template_dir,
                destination: settings.destination,
            },
            ..before
        },
        (ExpandStateView::InitHooks { .. }, ExpandEventView::StepDone) => Expansion {
            state: ExpandStateView::ResolveNames,
            ..before
        },
        (ExpandStateView::ResolveNames, ExpandEventView::Names { project_dir }) => Expansion {
            state: if settings.init {
                ExpandStateView::SetNameVariables { project_dir }
            } else {
                ExpandStateView::CreateDestination { project_dir }
            },
            ..before
        },
        (
            ExpandStateView::CreateDestination { project_dir },
            ExpandEventView::StepDone,
        ) => Expansion { state: ExpandStateView::SetNameVariables { project_dir }, ..before },
        (
            ExpandStateView::SetNameVariables { project_dir },
            ExpandEventView::StepDone,
        ) => Expansion {
            state: ExpandStateView::FillPlaceholders {
                project_dir,
                conditionals: conditions(before.conditional),
            },
            conditional: None,
            ..before
        },
        (
            ExpandStateView::FillPlaceholders { project_dir, conditionals },
            ExpandEventView::StepDone,
        ) => Expansion {
            state: ExpandStateView::EvaluateConditions { project_dir, conditionals },
            ..before
        },
        (
            ExpandStateView::EvaluateConditions { project_dir, conditionals },
            ExpandEventView::Verdicts(verdicts),
        ) => Expansion {
            state: if adds_placeholders(conditionals, verdicts) {
                ExpandStateView::FillPlaceholders {
                    project_dir,
                    conditionals: left_over(conditionals, verdicts),
                }
            } else {
                ExpandStateView::AddProvidedValues { project_dir }
            },
            config: merged_all(before.config, conditionals, verdicts),
            ..before
        },
        (
            ExpandStateView::AddProvidedValues { project_dir },
            ExpandEventView::StepDone,
        ) => Expansion {
            state: ExpandStateView::PreHooks {
                working_directory: settings.template_dir,
                destination: project_dir,
            },
            ..before
        },
        (
            ExpandStateView::PreHooks { working_directory, destination },
            ExpandEventView::StepDone,
        ) => Expansion {
            state: ExpandStateView::RemoveUnneededFiles {
                template_dir: working_directory,
                template: before.config.template_or_unset(),
                project_dir: destination,
            },
            config: before.config.without_template(),
            ..before
        },
        (
            ExpandStateView::RemoveUnneededFiles { template_dir, template, project_dir },
            ExpandEventView::StepDone,
        ) => Expansion {
            state: ExpandStateView::WalkTemplate {
                template_dir,
                template,
                hook_files: settings.hook_files,
                project_dir,
            },
            ..before
        },
        (
            ExpandStateView::WalkTemplate { template_dir, project_dir, .. },
            ExpandEventView::Walked { template, filter_files, succeeded },
        ) => Expansion {
            state: if goes_on(settings, succeeded) {
                ExpandStateView::PostHooks {
                    working_directory: template_dir,
                    destination: project_dir,
                    template,
                    filter_files,
                }
            } else {
                ExpandStateView::Failed
            },
            ..before
        },
        (
            ExpandStateView::PostHooks { destination, template, filter_files, .. },
            ExpandEventView::StepDone,
        ) => Expansion {
            state: ExpandStateView::RemoveHookFiles {
                files: hook_paths(settings) + filter_files,
                template,
                project_dir: destination,
            },
            ..before
        },
        (
            ExpandStateView::RemoveHookFiles { template, project_dir, .. },
            ExpandEventView::StepDone,
        ) => Expansion {
            state: ExpandStateView::Done { project_dir },
            config: before.config.with_template(template),
            ..before
        },
        _ => before,
    }
}

/// The failure of the step is to be reported, since nothing else will tell of it: it does not
/// end the expansion.
pub open spec fn is_reported(
    settings: ExpandSettingsView,
    state: ExpandStateView,
    event: ExpandEventView,
) -> bool {
    &&& state is WalkTemplate
    &&& event matches ExpandEventView::Walked { succeeded, .. } && !succeeded
    &&& settings.continue_on_error
    &&& !settings.quiet
}

fn parse_hook_paths(settings: &ExpandSettings) -> (r: Vec<TemplatePath>)
    ensures
        r.deep_view() == hook_paths(settings@),
{
    let texts: &Vec<String> = &settings.hook_files;
    let mut r: Vec<TemplatePath> = Vec::new();
    let mut i: usize = 0;
    while i < texts.len()
        invariant
            i <= texts@.len(),
            r@.len() == i,
            forall|j: int|
                0 <= j < i ==> (#[trigger] r@[j])@ == path_of(texts@[j]@, settings.style),
        decreases texts@.len() - i,
    {
        r.push(TemplatePath::parse(texts[i].as_str(), settings.style));
        i = i + 1;
    }
    assert(r.deep_view() =~= hook_paths(settings@));
    r
}

/// Takes an expansion one step on. Conditions whose settings are not merged yet are held by the
/// state, and so are the settings of the template while its files are expanded. Tells, besides,
/// whether a failure is to be reported that does not end the expansion.
pub fn expand_template(
    settings: &ExpandSettings,
    state: ExpandState,
    event: ExpandEvent,
    config: &mut Config,
) -> (r: (ExpandState, bool))
    requires
        fits(state@, event@),
    ensures
        expansion(r.0, *final(config)) == next_step(
            settings@,
            expansion(state, *old(config)),
            event@,
        ),
        r.1 == is_reported(settings@, state@, event@),
{
    match (state, event) {
        (_, ExpandEvent::Failed) => (ExpandState::Failed, false),
        (ExpandState::CreateVariables, _) => {
            let working_directory: TemplatePath = settings.template_dir.clone();
            let destination: TemplatePath = settings.destination.clone();
            (ExpandState::InitHooks { working_directory, destination }, false)
        },
        (ExpandState::InitHooks { .. }, _) => (ExpandState::ResolveNames, false),
        (ExpandState::ResolveNames, ExpandEvent::Names { project_dir }) => if settings.init {
            (ExpandState::SetNameVariables { project_dir }, false)
        } else {
            (ExpandState::CreateDestination { project_dir }, false)
        },
        (ExpandState::CreateDestination { project_dir }, _) => {
            (ExpandState::SetNameVariables { project_dir }, false)
        },
        (ExpandState::SetNameVariables { project_dir }, _) => {
            let conditionals: Vec<Conditional> = take_conditionals(config);
            assert(conditionals.deep_view() =~= conditions(old(config).conditional.deep_view()));
            (ExpandState::FillPlaceholders { project_dir, conditionals }, false)
        },
        (ExpandState::FillPlaceholders { project_dir, conditionals }, _) => {
            (ExpandState::EvaluateConditions { project_dir, conditionals }, false)
        },
        (
            ExpandState::EvaluateConditions { project_dir, mut conditionals },
            ExpandEvent::Verdicts(verdicts),
        ) => {
            let again: bool = fill_placeholders_and_merge_conditionals(
                config,
                &mut conditionals,
                &verdicts,
            );
            if again {
                (ExpandState::FillPlaceholders { project_dir, conditionals }, false)
            } else {
                (ExpandState::AddProvidedValues { project_dir }, false)
            }
        },
        (ExpandState::AddProvidedValues { project_dir }, _) => {
            let working_directory: TemplatePath = settings.template_dir.clone();
            (ExpandState::PreHooks { working_directory, destination: project_dir }, false)
        },
        (ExpandState::PreHooks { working_directory, destination }, _) => {
            let template: TemplateConfig = take_template(config);
            (
                ExpandState::RemoveUnneededFiles {
                    template_dir: working_directory,
                    template,
                    project_dir: destination,
                },
                false,
            )
        },
        (ExpandState::RemoveUnneededFiles { template_dir, template, project_dir }, _) => {
            let hook_files: Vec<String> = duplicate_texts(&settings.hook_files);
            (
                ExpandState::WalkTemplate { template_dir, template, hook_files, project_dir },
                false,
            )
        },
        (
            ExpandState::WalkTemplate { template_dir, project_dir, .. },
            ExpandEvent::Walked { template, filter_files, succeeded },
        ) => if succeeded || settings.continue_on_error {
            (
                ExpandState::PostHooks {
                    working_directory: template_dir,
                    destination: project_dir,
                    template,
                    filter_files,
                },
                !succeeded && !settings.quiet,
            )
        } else {
            (ExpandState::Failed, false)
        },
        (ExpandState::PostHooks { destination, template, mut filter_files, .. }, _) => {
            let ghost filters = filter_files.deep_view();
            let mut files: Vec<TemplatePath> = parse_hook_paths(settings);
            files.append(&mut filter_files);
            assert(files.deep_view() =~= hook_paths(settings@) + filters);
            (ExpandState::RemoveHookFiles { files, template, project_dir: destination }, false)
        },
        (ExpandState::RemoveHookFiles { template, project_dir, .. }, _) => {
            put_template_back(config, template);
            (ExpandState::Done { project_dir }, false)
        },
        (state, _) => (state, false),
    }
}

} // verus!
