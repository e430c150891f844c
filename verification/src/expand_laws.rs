//! What holds of an expansion as a whole.

use crate::config::{
    Conditional, ConditionalView, Config, ConfigView, TemplateConfig, TemplateView,
};
use crate::expand::{
    conditions, expansion, fits, goes_on, hook_paths, is_reported, next_step, ExpandEvent,
    ExpandEventView, ExpandSettings, ExpandSettingsView, ExpandState, ExpandStateView, Expansion,
};
use crate::merge::{adds_placeholders, left_over, merged_all};
use crate::merge_laws::{after_rounds, law_merging_only_adds, lemma_pending_shrinks, pending};
use crate::path::{path_of, PathView, TemplatePath};
use crate::round_laws::config_after_rounds;
use vstd::prelude::*;

verus! {

/// An expansion at its beginning.
pub open spec fn beginning(
    config: ConfigView,
    conditional: Option<Seq<(Seq<char>, ConditionalView)>>,
) -> Expansion {
    Expansion { state: ExpandStateView::CreateVariables, config, conditional }
}

/// The expansion after `n` steps, where `events(k)` is what comes of step `k`.
pub open spec fn after_steps(
    settings: ExpandSettingsView,
    start: Expansion,
    events: spec_fn(nat) -> ExpandEventView,
    n: nat,
) -> Expansion
    decreases n,
{
    if n == 0 {
        start
    } else {
        let k = (n - 1) as nat;
        next_step(settings, after_steps(settings, start, events, k), events(k))
    }
}

proof fn lemma_next(
    settings: ExpandSettingsView,
    start: Expansion,
    events: spec_fn(nat) -> ExpandEventView,
    n: nat,
)
    ensures
        after_steps(settings, start, events, n + 1) == next_step(
            settings,
            after_steps(settings, start, events, n),
            events(n),
        ),
{
}

/// Nothing is left to do.
pub open spec fn is_over(state: ExpandStateView) -> bool {
    state is Done || state is Failed
}

/// Each step that is taken gets an event that can come of it.
pub open spec fn all_fit(
    settings: ExpandSettingsView,
    start: Expansion,
    events: spec_fn(nat) -> ExpandEventView,
) -> bool {
    forall|k: nat|
        is_over((#[trigger] after_steps(settings, start, events, k)).state) || fits(
            after_steps(settings, start, events, k).state,
            events(k),
        )
}

/// An expansion that is complete or has failed stays so, and its configuration stays as it is.
pub proof fn law_the_end_is_final(
    settings: ExpandSettingsView,
    start: Expansion,
    events: spec_fn(nat) -> ExpandEventView,
    n: nat,
    m: nat,
)
    requires
        n <= m,
        is_over(after_steps(settings, start, events, n).state),
    ensures
        after_steps(settings, start, events, m) == after_steps(settings, start, events, n),
    decreases m,
{
    if n < m {
        law_the_end_is_final(settings, start, events, n, (m - 1) as nat);
    }
}

/// The first step that fails is the last one. What was done to the configuration until then
/// stays.
pub proof fn law_a_failure_ends_the_expansion(
    settings: ExpandSettingsView,
    start: Expansion,
    events: spec_fn(nat) -> ExpandEventView,
    n: nat,
    m: nat,
)
    requires
        n < m,
        !(after_steps(settings, start, events, n).state is Done),
        events(n) is Failed,
    ensures
        after_steps(settings, start, events, m) == (Expansion {
            state: ExpandStateView::Failed,
            ..after_steps(settings, start, events, n)
        }),
{
    let next: nat = n + 1;
    assert(after_steps(settings, start, events, next) == (Expansion {
        state: ExpandStateView::Failed,
        ..after_steps(settings, start, events, n)
    }));
    law_the_end_is_final(settings, start, events, next, m);
}

/// An upper bound on how many steps are left.
pub open spec fn steps_left(at: Expansion) -> nat {
    match at.state {
        ExpandStateView::CreateVariables => 13 + 2 * pending(conditions(at.conditional)),
        ExpandStateView::InitHooks { .. } => 12 + 2 * pending(conditions(at.conditional)),
        ExpandStateView::ResolveNames => 11 + 2 * pending(conditions(at.conditional)),
        ExpandStateView::CreateDestination { .. } => 10 + 2 * pending(conditions(at.conditional)),
        ExpandStateView::SetNameVariables { .. } => 9 + 2 * pending(conditions(at.conditional)),
        ExpandStateView::FillPlaceholders { conditionals, .. } => 8 + 2 * pending(conditionals),
        ExpandStateView::EvaluateConditions { conditionals, .. } => 7 + 2 * pending(conditionals),
        ExpandStateView::AddProvidedValues { .. } => 6,
        ExpandStateView::PreHooks { .. } => 5,
        ExpandStateView::RemoveUnneededFiles { .. } => 4,
        ExpandStateView::WalkTemplate { .. } => 3,
        ExpandStateView::PostHooks { .. } => 2,
        ExpandStateView::RemoveHookFiles { .. } => 1,
        ExpandStateView::Done { .. } => 0,
        ExpandStateView::Failed => 0,
    }
}

/// Every step brings an expansion nearer to its end.
pub proof fn law_every_step_comes_nearer_to_the_end(
    settings: ExpandSettingsView,
    before: Expansion,
    event: ExpandEventView,
)
    requires
        fits(before.state, event),
    ensures
        steps_left(next_step(settings, before, event)) < steps_left(before),
{
    if let ExpandStateView::EvaluateConditions { conditionals, .. } = before.state {
        if let ExpandEventView::Verdicts(verdicts) = event {
            lemma_pending_shrinks(conditionals, verdicts);
        }
    }
}

proof fn lemma_steps_left(
    settings: ExpandSettingsView,
    start: Expansion,
    events: spec_fn(nat) -> ExpandEventView,
    n: nat,
)
    requires
        all_fit(settings, start, events),
    ensures
        is_over(after_steps(settings, start, events, n).state) || steps_left(
            after_steps(settings, start, events, n),
        ) + n <= steps_left(start),
    decreases n,
{
    if n > 0 {
        let k = (n - 1) as nat;
        lemma_steps_left(settings, start, events, k);
        let before = after_steps(settings, start, events, k);
        if is_over(before.state) {
            law_the_end_is_final(settings, start, events, k, n);
        } else {
            law_every_step_comes_nearer_to_the_end(settings, before, events(k));
        }
    }
}

/// Whatever comes of its steps, an expansion ends, complete or failed: with two steps for each
/// condition that brings placeholders, and thirteen more, it is over.
pub proof fn law_expansion_ends(
    settings: ExpandSettingsView,
    config: ConfigView,
    conditional: Option<Seq<(Seq<char>, ConditionalView)>>,
    events: spec_fn(nat) -> ExpandEventView,
    n: nat,
)
    requires
        all_fit(settings, beginning(config, conditional), events),
        n >= 13 + 2 * pending(conditions(conditional)),
    ensures
        is_over(after_steps(settings, beginning(config, conditional), events, n).state),
{
    lemma_steps_left(settings, beginning(config, conditional), events, n);
}

/// An expansion begins with the variables and the first hooks, which run in the folder of the
/// template and are told the folder that the user named. Only then are the names resolved, and
/// the folder of the project is created, unless the template is expanded into an existing one.
/// Nothing of this changes the configuration.
pub proof fn law_expansion_begins_with_the_names(
    settings: ExpandSettingsView,
    config: ConfigView,
    conditional: Option<Seq<(Seq<char>, ConditionalView)>>,
    events: spec_fn(nat) -> ExpandEventView,
    project_dir: PathView,
)
    requires
        events(0) == ExpandEventView::StepDone,
        events(1) == ExpandEventView::StepDone,
        events(2) == (ExpandEventView::Names { project_dir }),
        events(3) == ExpandEventView::StepDone,
        events(4) == ExpandEventView::StepDone,
    ensures
        ({
            let start = beginning(config, conditional);
            let at = |n: nat| after_steps(settings, start, events, n);
            let names_set = Expansion {
                state: ExpandStateView::SetNameVariables { project_dir },
                ..start
            };
            let filling = Expansion {
                state: ExpandStateView::FillPlaceholders {
                    project_dir,
                    conditionals: conditions(conditional),
                },
                config,
                conditional: None,
            };
            &&& at(1) == Expansion {
                state: ExpandStateView::InitHooks {
                    working_directory: settings.template_dir,
                    destination: settings.destination,
                },
                ..start
            }
            &&& at(2) == Expansion { state: ExpandStateView::ResolveNames, ..start }
            &&& settings.init ==> at(3) == names_set && at(4) == filling
            &&& !settings.init ==> {
                &&& at(3) == Expansion {
                    state: ExpandStateView::CreateDestination { project_dir },
                    ..start
                }
                &&& at(4) == names_set
                &&& at(5) == filling
            }
        }),
{
    reveal_with_fuel(after_steps, 6);
}

/// Round `k` of filling takes two steps, the first of them step `n`: one to fill the
/// placeholders and one to evaluate the conditions.
pub open spec fn plays(
    events: spec_fn(nat) -> ExpandEventView,
    n: nat,
    script: spec_fn(nat) -> Seq<Option<bool>>,
    k: nat,
) -> bool {
    events(n) == ExpandEventView::StepDone && events(n + 1) == ExpandEventView::Verdicts(script(k))
}

proof fn lemma_round(
    settings: ExpandSettingsView,
    start: Expansion,
    events: spec_fn(nat) -> ExpandEventView,
    n: nat,
    project_dir: PathView,
    conditionals: Seq<(Seq<char>, ConditionalView)>,
    verdicts: Seq<Option<bool>>,
)
    requires
        after_steps(settings, start, events, n).state == (ExpandStateView::FillPlaceholders {
            project_dir,
            conditionals,
        }),
        events(n) == ExpandEventView::StepDone,
        events(n + 1) == ExpandEventView::Verdicts(verdicts),
    ensures
        after_steps(settings, start, events, n + 2) == (Expansion {
            state: if adds_placeholders(conditionals, verdicts) {
                ExpandStateView::FillPlaceholders {
                    project_dir,
                    conditionals: left_over(conditionals, verdicts),
                }
            } else {
                ExpandStateView::AddProvidedValues { project_dir }
            },
            config: merged_all(
                after_steps(settings, start, events, n).config,
                conditionals,
                verdicts,
            ),
            ..after_steps(settings, start, events, n)
        }),
{
    reveal_with_fuel(after_steps, 3);
}

/// Placeholders are filled and conditions evaluated round by round, as long as each round
/// brings more placeholders. What is merged is what rounds merge, and what is left is what
/// rounds leave. A round that brings none is the last one.
pub proof fn law_filling_goes_round_by_round(
    settings: ExpandSettingsView,
    start: Expansion,
    events: spec_fn(nat) -> ExpandEventView,
    n: nat,
    project_dir: PathView,
    conditionals: Seq<(Seq<char>, ConditionalView)>,
    script: spec_fn(nat) -> Seq<Option<bool>>,
    rounds: nat,
)
    requires
        after_steps(settings, start, events, n).state == (ExpandStateView::FillPlaceholders {
            project_dir,
            conditionals,
        }),
        rounds > 0,
        forall|k: nat| k < rounds ==> #[trigger] plays(events, n + 2 * k, script, k),
        forall|k: nat|
            k < rounds - 1 ==> adds_placeholders(
                #[trigger] after_rounds(conditionals, script, k),
                script(k),
            ),
    ensures
        ({
            let last = (rounds - 1) as nat;
            let before = after_steps(settings, start, events, n);
            after_steps(settings, start, events, n + 2 * rounds) == Expansion {
                state: if adds_placeholders(
                    after_rounds(conditionals, script, last),
                    script(last),
                ) {
                    ExpandStateView::FillPlaceholders {
                        project_dir,
                        conditionals: after_rounds(conditionals, script, rounds),
                    }
                } else {
                    ExpandStateView::AddProvidedValues { project_dir }
                },
                config: config_after_rounds(before.config, conditionals, script, rounds),
                ..before
            }
        }),
    decreases rounds,
{
    let last = (rounds - 1) as nat;
    let i: nat = n + 2 * last;
    assert(plays(events, n + 2 * last, script, last));
    if last > 0 {
        law_filling_goes_round_by_round(
            settings,
            start,
            events,
            n,
            project_dir,
            conditionals,
            script,
            last,
        );
        let earlier = (last - 1) as nat;
        assert(adds_placeholders(after_rounds(conditionals, script, earlier), script(earlier)));
    } else {
        assert(after_rounds(conditionals, script, 0) == conditionals);
        assert(config_after_rounds(
            after_steps(settings, start, events, n).config,
            conditionals,
            script,
            0,
        ) == after_steps(settings, start, events, n).config);
    }
    lemma_round(
        settings,
        start,
        events,
        i,
        project_dir,
        after_rounds(conditionals, script, last),
        script(last),
    );
    assert(i + 2 == n + 2 * rounds);
}

/// Once the placeholders are filled, an expansion goes through the same steps in the same
/// order: the provided values, the hooks before the files, the files that are not needed, the
/// files, the hooks after them, and the files of hooks and filters. The hooks run in the folder
/// of the template, and now are told the folder of the project. While the files are expanded,
/// the configuration is without the settings of the template; in the end it has those that the
/// expansion of the files left.
pub proof fn law_expansion_ends_with_the_files(
    settings: ExpandSettingsView,
    start: Expansion,
    events: spec_fn(nat) -> ExpandEventView,
    n: nat,
    project_dir: PathView,
    template: TemplateView,
    filter_files: Seq<PathView>,
    succeeded: bool,
)
    requires
        after_steps(settings, start, events, n).state == (ExpandStateView::AddProvidedValues {
            project_dir,
        }),
        events(n) == ExpandEventView::StepDone,
        events(n + 1) == ExpandEventView::StepDone,
        events(n + 2) == ExpandEventView::StepDone,
        events(n + 3) == (ExpandEventView::Walked { template, filter_files, succeeded }),
        events(n + 4) == ExpandEventView::StepDone,
        events(n + 5) == ExpandEventView::StepDone,
    ensures
        ({
            let before = after_steps(settings, start, events, n);
            let taken = before.config.without_template();
            let at = |k: nat| after_steps(settings, start, events, n + k);
            &&& at(1) == Expansion {
                state: ExpandStateView::PreHooks {
                    working_directory: settings.template_dir,
                    destination: project_dir,
                },
                ..before
            }
            &&& at(2) == Expansion {
                state: ExpandStateView::RemoveUnneededFiles {
                    template_dir: settings.template_dir,
                    template: before.config.template_or_unset(),
                    project_dir,
                },
                config: taken,
                ..before
            }
            &&& at(3) == Expansion {
                state: ExpandStateView::WalkTemplate {
                    template_dir: settings.template_dir,
                    template: before.config.template_or_unset(),
                    hook_files: settings.hook_files,
                    project_dir,
                },
                config: taken,
                ..before
            }
            &&& !goes_on(settings, succeeded) ==> at(4) == Expansion {
                state: ExpandStateView::Failed,
                config: taken,
                ..before
            }
            &&& goes_on(settings, succeeded) ==> {
                &&& at(4) == Expansion {
                    state: ExpandStateView::PostHooks {
                        working_directory: settings.template_dir,
                        destination: project_dir,
                        template,
                        filter_files,
                    },
                    config: taken,
                    ..before
                }
                &&& at(5) == Expansion {
                    state: ExpandStateView::RemoveHookFiles {
                        files: hook_paths(settings) + filter_files,
                        template,
                        project_dir,
                    },
                    config: taken,
                    ..before
                }
                &&& at(6) == Expansion {
                    state: ExpandStateView::Done { project_dir },
                    config: before.config.with_template(template),
                    ..before
                }
            }
        }),
{
    lemma_next(settings, start, events, n);
    lemma_next(settings, start, events, n + 1);
    lemma_next(settings, start, events, n + 2);
    lemma_next(settings, start, events, n + 3);
    lemma_next(settings, start, events, n + 4);
    lemma_next(settings, start, events, n + 5);
}

/// The folder of the project, once it is known.
pub open spec fn project_dir_of(state: ExpandStateView) -> Option<PathView> {
    match state {
        ExpandStateView::CreateVariables => None,
        ExpandStateView::InitHooks { .. } => None,
        ExpandStateView::ResolveNames => None,
        ExpandStateView::CreateDestination { project_dir } => Some(project_dir),
        ExpandStateView::SetNameVariables { project_dir } => Some(project_dir),
        ExpandStateView::FillPlaceholders { project_dir, .. } => Some(project_dir),
        ExpandStateView::EvaluateConditions { project_dir, .. } => Some(project_dir),
        ExpandStateView::AddProvidedValues { project_dir } => Some(project_dir),
        ExpandStateView::PreHooks { destination, .. } => Some(destination),
        ExpandStateView::RemoveUnneededFiles { project_dir, .. } => Some(project_dir),
        ExpandStateView::WalkTemplate { project_dir, .. } => Some(project_dir),
        ExpandStateView::PostHooks { destination, .. } => Some(destination),
        ExpandStateView::RemoveHookFiles { project_dir, .. } => Some(project_dir),
        ExpandStateView::Done { project_dir } => Some(project_dir),
        ExpandStateView::Failed => None,
    }
}

/// The folder of the project, once it is known, stays the same to the end: it is the one in
/// which the project is when the expansion is complete.
pub proof fn law_project_stays_where_it_is(
    settings: ExpandSettingsView,
    start: Expansion,
    events: spec_fn(nat) -> ExpandEventView,
    n: nat,
    m: nat,
)
    requires
        n <= m,
        project_dir_of(after_steps(settings, start, events, n).state) is Some,
    ensures
        ({
            let early = after_steps(settings, start, events, n).state;
            let late = after_steps(settings, start, events, m).state;
            late is Failed || project_dir_of(late) == project_dir_of(early)
        }),
    decreases m,
{
    if n < m {
        law_project_stays_where_it_is(settings, start, events, n, (m - 1) as nat);
    }
}

/// What holds of the configuration in each state: from the filling of the placeholders on it is
/// without conditions, and while the state holds the settings of the template it is without
/// those.
pub open spec fn holds_what_it_should(at: Expansion) -> bool {
    match at.state {
        ExpandStateView::FillPlaceholders { .. } => at.conditional is None,
        ExpandStateView::EvaluateConditions { .. } => at.conditional is None,
        ExpandStateView::AddProvidedValues { .. } => at.conditional is None,
        ExpandStateView::PreHooks { .. } => at.conditional is None,
        ExpandStateView::RemoveUnneededFiles { .. } => {
            at.conditional is None && at.config.template is None
        },
        ExpandStateView::WalkTemplate { .. } => {
            at.conditional is None && at.config.template is None
        },
        ExpandStateView::PostHooks { .. } => at.conditional is None && at.config.template is None,
        ExpandStateView::RemoveHookFiles { .. } => {
            at.conditional is None && at.config.template is None
        },
        ExpandStateView::Done { .. } => at.conditional is None && at.config.template is Some,
        _ => true,
    }
}

/// A configuration is without the settings of the template only while the state holds them or
/// after a failure; a complete expansion has put them back, and has used up the conditions.
pub proof fn law_configuration_matches_the_state(
    settings: ExpandSettingsView,
    config: ConfigView,
    conditional: Option<Seq<(Seq<char>, ConditionalView)>>,
    events: spec_fn(nat) -> ExpandEventView,
    n: nat,
)
    ensures
        holds_what_it_should(after_steps(settings, beginning(config, conditional), events, n)),
    decreases n,
{
    if n > 0 {
        law_configuration_matches_the_state(
            settings,
            config,
            conditional,
            events,
            (n - 1) as nat,
        );
    }
}

/// The settings of the template, which the state holds while the configuration is without them.
pub open spec fn template_at(at: Expansion) -> TemplateView {
    match at.state {
        ExpandStateView::RemoveUnneededFiles { template, .. } => template,
        ExpandStateView::WalkTemplate { template, .. } => template,
        ExpandStateView::PostHooks { template, .. } => template,
        ExpandStateView::RemoveHookFiles { template, .. } => template,
        _ => at.config.template_or_unset(),
    }
}

/// The expansion of the files leaves these settings as they are: the version control system,
/// and whether the template is for an existing folder.
pub open spec fn walk_keeps(at: Expansion, event: ExpandEventView) -> bool {
    at.state is WalkTemplate ==> (event matches ExpandEventView::Walked { template, .. }
        ==> template.vcs == template_at(at).vcs && template.init == template_at(at).init)
}

/// An expansion that does not fail changes neither the version control system that the template
/// asks for nor whether it asks for an existing folder, if the expansion of the files does not:
/// what they are afterwards is what they were before.
pub proof fn law_expansion_keeps_what_the_template_asks_for(
    settings: ExpandSettingsView,
    start: Expansion,
    events: spec_fn(nat) -> ExpandEventView,
    n: nat,
)
    requires
        forall|k: nat|
            k < n ==> walk_keeps(#[trigger] after_steps(settings, start, events, k), events(k)),
    ensures
        ({
            let after = after_steps(settings, start, events, n);
            after.state is Failed || (template_at(after).vcs == template_at(start).vcs
                && template_at(after).init == template_at(start).init)
        }),
    decreases n,
{
    if n > 0 {
        let k = (n - 1) as nat;
        law_expansion_keeps_what_the_template_asks_for(settings, start, events, k);
        let before = after_steps(settings, start, events, k);
        assert(walk_keeps(before, events(k)));
        if let ExpandStateView::EvaluateConditions { conditionals, .. } = before.state {
            if let ExpandEventView::Verdicts(verdicts) = events(k) {
                law_merging_only_adds(before.config, conditionals, verdicts);
            }
        }
    }
}

/// How far an expansion has come. Filling placeholders and evaluating conditions is one stage.
pub open spec fn stage(state: ExpandStateView) -> int {
    match state {
        ExpandStateView::CreateVariables => 0,
        ExpandStateView::InitHooks { .. } => 1,
        ExpandStateView::ResolveNames => 2,
        ExpandStateView::CreateDestination { .. } => 3,
        ExpandStateView::SetNameVariables { .. } => 4,
        ExpandStateView::FillPlaceholders { .. } => 5,
        ExpandStateView::EvaluateConditions { .. } => 5,
        ExpandStateView::AddProvidedValues { .. } => 6,
        ExpandStateView::PreHooks { .. } => 7,
        ExpandStateView::RemoveUnneededFiles { .. } => 8,
        ExpandStateView::WalkTemplate { .. } => 9,
        ExpandStateView::PostHooks { .. } => 10,
        ExpandStateView::RemoveHookFiles { .. } => 11,
        ExpandStateView::Done { .. } => 12,
        ExpandStateView::Failed => 12,
    }
}

/// An expansion never goes back to an earlier stage, and stays in none but that of filling
/// placeholders and that of being over: every hook runs once, and so does the expansion of the
/// files.
pub proof fn law_expansion_never_goes_back(
    settings: ExpandSettingsView,
    start: Expansion,
    events: spec_fn(nat) -> ExpandEventView,
    i: nat,
    k: nat,
)
    requires
        all_fit(settings, start, events),
        i < k,
    ensures
        ({
            let early = after_steps(settings, start, events, i).state;
            let late = after_steps(settings, start, events, k).state;
            stage(early) < stage(late) || (stage(early) == stage(late) && (stage(late) == 5
                || stage(late) == 12))
        }),
    decreases k,
{
    let last = (k - 1) as nat;
    let before = after_steps(settings, start, events, last);
    assert(is_over(before.state) || fits(before.state, events(last)));
    assert(after_steps(settings, start, events, k) == next_step(settings, before, events(last)));
    if i < last {
        law_expansion_never_goes_back(settings, start, events, i, last);
    }
}

/// The steps of an expansion that is complete after `n` steps, for a project in `project_dir`.
pub open spec fn is_complete_course(
    settings: ExpandSettingsView,
    start: Expansion,
    events: spec_fn(nat) -> ExpandEventView,
    n: nat,
    project_dir: PathView,
) -> bool {
    let at = |k: int| after_steps(settings, start, events, k as nat);
    &&& n >= 12
    &&& at(1).state == ExpandStateView::InitHooks {
        working_directory: settings.template_dir,
        destination: settings.destination,
    }
    &&& at(2).state == ExpandStateView::ResolveNames
    &&& events(2) == ExpandEventView::Names { project_dir }
    &&& at(3).state == (if settings.init {
        ExpandStateView::SetNameVariables { project_dir }
    } else {
        ExpandStateView::CreateDestination { project_dir }
    })
    &&& at(n - 8).state is FillPlaceholders
    &&& at(n - 7).state matches ExpandStateView::EvaluateConditions { conditionals, .. }
    &&& events((n - 7) as nat) matches ExpandEventView::Verdicts(verdicts)
    &&& !adds_placeholders(conditionals, verdicts)
    &&& at(n - 6).state == ExpandStateView::AddProvidedValues { project_dir }
    &&& at(n - 5).state == ExpandStateView::PreHooks {
        working_directory: settings.template_dir,
        destination: project_dir,
    }
    &&& at(n - 4).state is RemoveUnneededFiles
    &&& at(n - 3).state == ExpandStateView::WalkTemplate {
        template_dir: settings.template_dir,
        template: at(n - 5).config.template_or_unset(),
        hook_files: settings.hook_files,
        project_dir,
    }
    &&& events((n - 3) as nat) matches ExpandEventView::Walked {
        template,
        filter_files,
        succeeded,
    }
    &&& goes_on(settings, succeeded)
    &&& at(n - 2).state == ExpandStateView::PostHooks {
        working_directory: settings.template_dir,
        destination: project_dir,
        template,
        filter_files,
    }
    &&& at(n - 1).state == ExpandStateView::RemoveHookFiles {
        files: hook_paths(settings) + filter_files,
        template,
        project_dir,
    }
    &&& at(n as int).config.template == Some(template)
    &&& at(n as int).conditional is None
}

proof fn lemma_step(
    settings: ExpandSettingsView,
    start: Expansion,
    events: spec_fn(nat) -> ExpandEventView,
    n: nat,
    k: nat,
)
    requires
        all_fit(settings, start, events),
        k < n,
        !(after_steps(settings, start, events, n).state is Failed),
        n > 0,
        !is_over(after_steps(settings, start, events, (n - 1) as nat).state),
    ensures
        ({
            let before = after_steps(settings, start, events, k);
            &&& !is_over(before.state)
            &&& fits(before.state, events(k))
            &&& !(events(k) is Failed)
            &&& after_steps(settings, start, events, k + 1) == next_step(
                settings,
                before,
                events(k),
            )
        }),
{
    let before = after_steps(settings, start, events, k);
    if is_over(before.state) {
        law_the_end_is_final(settings, start, events, k, (n - 1) as nat);
    }
    if events(k) is Failed {
        law_a_failure_ends_the_expansion(settings, start, events, k, n);
    }
}

proof fn lemma_complete_beginning(
    settings: ExpandSettingsView,
    config: ConfigView,
    conditional: Option<Seq<(Seq<char>, ConditionalView)>>,
    events: spec_fn(nat) -> ExpandEventView,
    n: nat,
    project_dir: PathView,
)
    requires
        all_fit(settings, beginning(config, conditional), events),
        n >= 12,
        !is_over(
            after_steps(settings, beginning(config, conditional), events, (n - 1) as nat).state,
        ),
        after_steps(settings, beginning(config, conditional), events, n).state == (
        ExpandStateView::Done { project_dir }),
    ensures
        ({
            let start = beginning(config, conditional);
            let at = |k: int| after_steps(settings, start, events, k as nat);
            &&& at(1).state == ExpandStateView::InitHooks {
                working_directory: settings.template_dir,
                destination: settings.destination,
            }
            &&& at(2).state == ExpandStateView::ResolveNames
            &&& events(2) == ExpandEventView::Names { project_dir }
            &&& at(3).state == (if settings.init {
                ExpandStateView::SetNameVariables { project_dir }
            } else {
                ExpandStateView::CreateDestination { project_dir }
            })
        }),
{
    let start = beginning(config, conditional);
    lemma_step(settings, start, events, n, 0);
    lemma_step(settings, start, events, n, 1);
    lemma_step(settings, start, events, n, 2);
    law_project_stays_where_it_is(settings, start, events, 3, n);
}

/// A complete expansion went through all its steps. All placeholders were filled before any
/// hooks but the first ones ran: the last round brought no more of them. The first hooks ran before the names were
/// resolved, and were told the folder that the user named; the hooks before and after the files
/// were told the folder of the project, which the names gave and which the expansion is
/// complete for. All of them ran in the folder of the template. The files of all hooks, and
/// those that served as filters, were to be removed. The settings of the template are back in
/// the configuration, and no conditions are left in it.
pub proof fn law_complete_expansion_went_through_all_steps(
    settings: ExpandSettingsView,
    config: ConfigView,
    conditional: Option<Seq<(Seq<char>, ConditionalView)>>,
    events: spec_fn(nat) -> ExpandEventView,
    n: nat,
    project_dir: PathView,
)
    requires
        all_fit(settings, beginning(config, conditional), events),
        n > 0,
        !is_over(
            after_steps(settings, beginning(config, conditional), events, (n - 1) as nat).state,
        ),
        after_steps(settings, beginning(config, conditional), events, n).state == (
        ExpandStateView::Done { project_dir }),
    ensures
        is_complete_course(settings, beginning(config, conditional), events, n, project_dir),
{
    let start = beginning(config, conditional);
    let at = |k: int| after_steps(settings, start, events, k as nat);
    assert(at(0).state is CreateVariables);
    lemma_step(settings, start, events, n, (n - 1) as nat);
    assert(at(n - 1).state is RemoveHookFiles);
    lemma_step(settings, start, events, n, (n - 2) as nat);
    assert(at(n - 2).state is PostHooks);
    lemma_step(settings, start, events, n, (n - 3) as nat);
    assert(at(n - 3).state is WalkTemplate);
    lemma_step(settings, start, events, n, (n - 4) as nat);
    assert(at(n - 4).state is RemoveUnneededFiles);
    lemma_step(settings, start, events, n, (n - 5) as nat);
    assert(at(n - 5).state is PreHooks);
    lemma_step(settings, start, events, n, (n - 6) as nat);
    assert(at(n - 6).state is AddProvidedValues);
    lemma_step(settings, start, events, n, (n - 7) as nat);
    assert(at(n - 7).state is EvaluateConditions);
    lemma_step(settings, start, events, n, (n - 8) as nat);
    assert(at(n - 8).state is FillPlaceholders);
    lemma_step(settings, start, events, n, 0);
    lemma_step(settings, start, events, n, 1);
    lemma_step(settings, start, events, n, 2);
    assert(at(3).state is SetNameVariables || at(3).state is CreateDestination);
    lemma_complete_beginning(settings, config, conditional, events, n, project_dir);
    law_configuration_matches_the_state(settings, config, conditional, events, n);
}

/// After the last hooks, the files of all hooks are to be removed, whatever the other settings:
/// each of them, in order, by the path that its text denotes. The files that served as filters
/// follow, and no others.
pub proof fn law_all_files_of_hooks_and_filters_are_removed(
    settings: ExpandSettingsView,
    before: Expansion,
    working_directory: PathView,
    project_dir: PathView,
    template: TemplateView,
    filter_files: Seq<PathView>,
)
    requires
        before.state == (ExpandStateView::PostHooks {
            working_directory,
            destination: project_dir,
            template,
            filter_files,
        }),
    ensures
        ({
            let after = next_step(settings, before, ExpandEventView::StepDone).state;
            let hooks = settings.hook_files.len() as int;
            &&& after is RemoveHookFiles
            &&& after->RemoveHookFiles_project_dir == project_dir
            &&& after->files.len() == hooks + filter_files.len()
            &&& forall|i: int|
                0 <= i < hooks ==> #[trigger] after->files[i] == path_of(
                    settings.hook_files[i],
                    settings.style,
                )
            &&& forall|i: int|
                0 <= i < filter_files.len() ==> after->files[hooks + i]
                    == #[trigger] filter_files[i]
        }),
{
}

/// An expansion goes on after its files were expanded, and also where that failed and errors are
/// to be passed over. A failure that is passed over is reported unless the user wants quiet;
/// nothing else is.
pub proof fn law_which_errors_are_passed_over(
    settings: ExpandSettingsView,
    before: Expansion,
    event: ExpandEventView,
)
    requires
        fits(before.state, event),
    ensures
        before.state is WalkTemplate ==> {
            let after = next_step(settings, before, event).state;
            &&& event->succeeded || settings.continue_on_error ==> {
                &&& after is PostHooks
                &&& after->PostHooks_template == event->Walked_template
                &&& after->filter_files == event->filter_files
            }
            &&& !event->succeeded && !settings.continue_on_error ==> after is Failed
            &&& is_reported(settings, before.state, event) <==> !event->succeeded
                && settings.continue_on_error && !settings.quiet
        },
        !(before.state is WalkTemplate) ==> !is_reported(settings, before.state, event),
{
}

/// Every step can fail or succeed, in the way that it does, until the expansion is over.
pub proof fn law_every_outcome_of_a_step_is_taken(
    state: ExpandStateView,
    project_dir: PathView,
    verdicts: Seq<Option<bool>>,
    template: TemplateView,
    filter_files: Seq<PathView>,
    succeeded: bool,
)
    ensures
        state is CreateVariables || state is InitHooks || state is CreateDestination
            || state is SetNameVariables || state is FillPlaceholders || state is AddProvidedValues
            || state is PreHooks || state is RemoveUnneededFiles || state is PostHooks ==> fits(
            state,
            ExpandEventView::StepDone,
        ) && fits(state, ExpandEventView::Failed),
        state is ResolveNames ==> fits(state, ExpandEventView::Names { project_dir }) && fits(
            state,
            ExpandEventView::Failed,
        ),
        state is EvaluateConditions && verdicts.len()
            == state->EvaluateConditions_conditionals.len() ==> fits(
            state,
            ExpandEventView::Verdicts(verdicts),
        ),
        state is WalkTemplate ==> fits(
            state,
            ExpandEventView::Walked { template, filter_files, succeeded },
        ),
        state is RemoveHookFiles ==> fits(state, ExpandEventView::StepDone),
{
}

/// The conditions that are evaluated are those of the configuration, if it has any.
pub proof fn law_which_conditions_are_evaluated(
    settings: ExpandSettingsView,
    before: Expansion,
    project_dir: PathView,
)
    requires
        before.state == (ExpandStateView::SetNameVariables { project_dir }),
    ensures
        ({
            let after = next_step(settings, before, ExpandEventView::StepDone);
            &&& after.state is FillPlaceholders
            &&& after.state->FillPlaceholders_project_dir == project_dir
            &&& before.conditional matches Some(c)
                ==> after.state->FillPlaceholders_conditionals == c
            &&& before.conditional is None
                ==> after.state->FillPlaceholders_conditionals.len() == 0
            &&& after.conditional is None
            &&& after.config == before.config
        }),
{
}

/// The model of the settings has all of them.
pub proof fn law_nothing_of_the_settings_is_lost(settings: ExpandSettings)
    ensures
        settings@.init == settings.init,
        settings@.continue_on_error == settings.continue_on_error,
        settings@.quiet == settings.quiet,
        settings@.template_dir == settings.template_dir@,
        settings@.destination == settings.destination@,
        settings@.hook_files == settings.hook_files.deep_view(),
        settings@.style == settings.style,
{
}

/// The model of a state has all that the state has.
pub proof fn law_nothing_of_a_state_is_lost(
    a: TemplatePath,
    b: TemplatePath,
    conditionals: Vec<Conditional>,
    template: TemplateConfig,
    texts: Vec<String>,
    files: Vec<TemplatePath>,
)
    ensures
        ExpandState::CreateVariables@ == ExpandStateView::CreateVariables,
        (ExpandState::InitHooks { working_directory: a, destination: b })@ == (
        ExpandStateView::InitHooks { working_directory: a@, destination: b@ }),
        ExpandState::ResolveNames@ == ExpandStateView::ResolveNames,
        (ExpandState::CreateDestination { project_dir: a })@ == (
        ExpandStateView::CreateDestination { project_dir: a@ }),
        (ExpandState::SetNameVariables { project_dir: a })@ == (
        ExpandStateView::SetNameVariables { project_dir: a@ }),
        (ExpandState::FillPlaceholders { project_dir: a, conditionals })@ == (
        ExpandStateView::FillPlaceholders {
            project_dir: a@,
            conditionals: conditionals.deep_view(),
        }),
        (ExpandState::EvaluateConditions { project_dir: a, conditionals })@ == (
        ExpandStateView::EvaluateConditions {
            project_dir: a@,
            conditionals: conditionals.deep_view(),
        }),
        (ExpandState::AddProvidedValues { project_dir: a })@ == (
        ExpandStateView::AddProvidedValues { project_dir: a@ }),
        (ExpandState::PreHooks { working_directory: a, destination: b })@ == (
        ExpandStateView::PreHooks { working_directory: a@, destination: b@ }),
        (ExpandState::RemoveUnneededFiles { template_dir: a, template, project_dir: b })@ == (
        ExpandStateView::RemoveUnneededFiles {
            template_dir: a@,
            template: template@,
            project_dir: b@,
        }),
        (ExpandState::WalkTemplate {
            template_dir: a,
            template,
            hook_files: texts,
            project_dir: b,
        })@ == (ExpandStateView::WalkTemplate {
            template_dir: a@,
            template: template@,
            hook_files: texts.deep_view(),
            project_dir: b@,
        }),
        (ExpandState::PostHooks {
            working_directory: a,
            destination: b,
            template,
            filter_files: files,
        })@ == (ExpandStateView::PostHooks {
            working_directory: a@,
            destination: b@,
            template: template@,
            filter_files: files.deep_view(),
        }),
        (ExpandState::RemoveHookFiles { files, template, project_dir: a })@ == (
        ExpandStateView::RemoveHookFiles {
            files: files.deep_view(),
            template: template@,
            project_dir: a@,
        }),
        (ExpandState::Done { project_dir: a })@ == (ExpandStateView::Done { project_dir: a@ }),
        ExpandState::Failed@ == ExpandStateView::Failed,
{
}

/// The model of an event has all that the event has, and that of an expansion its state and its
/// configuration, with the conditions.
pub proof fn law_nothing_of_an_event_is_lost(
    a: TemplatePath,
    verdicts: Vec<Option<bool>>,
    template: TemplateConfig,
    filter_files: Vec<TemplatePath>,
    succeeded: bool,
    state: ExpandState,
    config: Config,
)
    ensures
        ExpandEvent::StepDone@ == ExpandEventView::StepDone,
        (ExpandEvent::Names { project_dir: a })@ == (ExpandEventView::Names { project_dir: a@ }),
        ExpandEvent::Verdicts(verdicts)@ == ExpandEventView::Verdicts(verdicts@),
        (ExpandEvent::Walked { template, filter_files, succeeded })@ == (
        ExpandEventView::Walked {
            template: template@,
            filter_files: filter_files.deep_view(),
            succeeded,
        }),
        ExpandEvent::Failed@ == ExpandEventView::Failed,
        expansion(state, config).state == state@,
        expansion(state, config).config == config@,
        config.conditional matches Some(c) ==> expansion(state, config).conditional == Some(
            c.deep_view(),
        ),
        config.conditional is None ==> expansion(state, config).conditional is None,
{
}

/// What follows each step that succeeds, wherever it stands, and with which data. But for the
/// steps that take something out of the configuration or put something into it, the
/// configuration stays as it is.
pub proof fn law_what_follows_each_step(
    settings: ExpandSettingsView,
    before: Expansion,
    a: PathView,
    b: PathView,
    template: TemplateView,
    texts: Seq<Seq<char>>,
    files: Seq<PathView>,
    conditionals: Seq<(Seq<char>, ConditionalView)>,
    verdicts: Seq<Option<bool>>,
)
    ensures
        ({
            let after = |state: ExpandStateView|
                next_step(
                    settings,
                    Expansion { state, ..before },
                    ExpandEventView::StepDone,
                );
            let same = |state: ExpandStateView| Expansion { state, ..before };
            &&& after(ExpandStateView::CreateVariables) == same(
                ExpandStateView::InitHooks {
                    working_directory: settings.template_dir,
                    destination: settings.destination,
                },
            )
            &&& after(ExpandStateView::InitHooks { working_directory: a, destination: b }) == same(
                ExpandStateView::ResolveNames,
            )
            &&& after(ExpandStateView::CreateDestination { project_dir: a }) == same(
                ExpandStateView::SetNameVariables { project_dir: a },
            )
            &&& after(ExpandStateView::FillPlaceholders { project_dir: a, conditionals }) == same(
                ExpandStateView::EvaluateConditions { project_dir: a, conditionals },
            )
            &&& after(ExpandStateView::AddProvidedValues { project_dir: a }) == same(
                ExpandStateView::PreHooks {
                    working_directory: settings.template_dir,
                    destination: a,
                },
            )
            &&& after(ExpandStateView::PreHooks { working_directory: a, destination: b })
                == (Expansion {
                state: ExpandStateView::RemoveUnneededFiles {
                    template_dir: a,
                    template: before.config.template_or_unset(),
                    project_dir: b,
                },
                config: ConfigView { template: None, ..before.config },
                ..before
            })
            &&& after(
                ExpandStateView::RemoveUnneededFiles {
                    template_dir: a,
                    template,
                    project_dir: b,
                },
            ) == same(
                ExpandStateView::WalkTemplate {
                    template_dir: a,
                    template,
                    hook_files: settings.hook_files,
                    project_dir: b,
                },
            )
            &&& after(
                ExpandStateView::PostHooks {
                    working_directory: a,
                    destination: b,
                    template,
                    filter_files: files,
                },
            ).state->RemoveHookFiles_template == template
            &&& after(ExpandStateView::RemoveHookFiles { files, template, project_dir: a })
                == (Expansion {
                state: ExpandStateView::Done { project_dir: a },
                config: ConfigView { template: Some(template), ..before.config },
                ..before
            })
        }),
        ({
            let named = next_step(
                settings,
                Expansion { state: ExpandStateView::ResolveNames, ..before },
                ExpandEventView::Names { project_dir: a },
            );
            &&& settings.init ==> named.state == (ExpandStateView::SetNameVariables {
                project_dir: a,
            })
            &&& !settings.init ==> named.state == (ExpandStateView::CreateDestination {
                project_dir: a,
            })
            &&& named.config == before.config && named.conditional == before.conditional
        }),
        ({
            let judged = next_step(
                settings,
                Expansion {
                    state: ExpandStateView::EvaluateConditions { project_dir: a, conditionals },
                    ..before
                },
                ExpandEventView::Verdicts(verdicts),
            );
            &&& judged.config == merged_all(before.config, conditionals, verdicts)
            &&& judged.conditional == before.conditional
            &&& adds_placeholders(conditionals, verdicts) ==> judged.state == (
            ExpandStateView::FillPlaceholders {
                project_dir: a,
                conditionals: left_over(conditionals, verdicts),
            })
            &&& !adds_placeholders(conditionals, verdicts) ==> judged.state == (
            ExpandStateView::AddProvidedValues { project_dir: a })
        }),
        ({
            let walked = next_step(
                settings,
                Expansion {
                    state: ExpandStateView::WalkTemplate {
                        template_dir: a,
                        template,
                        hook_files: texts,
                        project_dir: b,
                    },
                    ..before
                },
                ExpandEventView::Walked { template, filter_files: files, succeeded: true },
            );
            &&& walked.state == (ExpandStateView::PostHooks {
                working_directory: a,
                destination: b,
                template,
                filter_files: files,
            })
            &&& walked.config == before.config && walked.conditional == before.conditional
        }),
{
}

} // verus!
