//! What holds of a whole search for a template, whatever the folders hold and the user answers.

use crate::config::Config;
use crate::locate::{
    after_listing, after_reading, answers, candidate, height, is_result, listed_sub_templates,
    next, none_below, resolved, single, EventView, LocateError, LocateErrorView, LocateEvent,
    LocateStep, LookupView, StepView, SubfolderError, SubfolderErrorView, SubfolderLookup,
};
use crate::path::{
    law_join_stays_below, law_parse_inverts_text, path_of, PathStyle, PathView, TemplatePath,
};
use crate::path_laws::{law_what_begins_with_it_lies_below, law_what_lies_below_begins_with_it};
use crate::slots::{InfoView, SlotsView, TemplateSlots};
use vstd::prelude::*;

verus! {

/// A folder structure and a user, as the search meets them.
pub struct World {
    /// How paths are written.
    pub style: PathStyle,
    /// The folders below a folder that hold a configuration.
    pub configs: spec_fn(PathView) -> Seq<PathView>,
    /// The sub-templates that the configuration of a folder lists.
    pub sub_templates: spec_fn(PathView) -> Option<Seq<Seq<char>>>,
    /// What is found out about a subfolder of a folder.
    pub subfolders: spec_fn(PathView, Seq<char>) -> LookupView,
    /// What the user answers to the question at a step.
    pub replies: spec_fn(nat) -> Seq<char>,
    /// Whether a step fails.
    pub fails: spec_fn(StepView, nat) -> bool,
}

impl World {
    /// What comes of the step with number `n`.
    pub open spec fn event(self, step: StepView, n: nat) -> EventView {
        if (self.fails)(step, n) && !(step is ReadConfig) {
            EventView::Failed
        } else {
            match step {
                StepView::ListConfigs { dir } => EventView::Configs((self.configs)(dir)),
                StepView::ReadConfig { dir } => EventView::ConfigRead((self.sub_templates)(dir)),
                StepView::LookUpSubfolder { dir, subfolder } => EventView::Subfolder(
                    (self.subfolders)(dir, subfolder),
                ),
                _ => EventView::Answer((self.replies)(n)),
            }
        }
    }

    /// Where the search that starts in `base` is after `n` steps. A search that has found the
    /// template goes no further.
    pub open spec fn search(self, base: PathView, n: nat) -> Result<StepView, LocateErrorView>
        decreases n,
    {
        if n == 0 {
            Ok(StepView::ListConfigs { dir: base })
        } else {
            match self.search(base, (n - 1) as nat) {
                Ok(step) => if step is Found {
                    Ok(step)
                } else {
                    next(step, self.event(step, (n - 1) as nat), self.style)
                },
                Err(e) => Err(e),
            }
        }
    }

    /// The folder is the only one below `above` that holds a configuration.
    pub open spec fn is_only_config(self, above: PathView, dir: PathView) -> bool {
        (self.configs)(above).len() == 1 && dir == above.join((self.configs)(above)[0])
    }

    /// The search was in some folder at step `m`, and `dir` leaves no choice there: no
    /// configuration is found and `dir` is that folder, or `dir` holds the only one and lists
    /// no sub-templates.
    pub open spec fn leaves_no_choice(self, base: PathView, m: nat, dir: PathView) -> bool {
        &&& self.search(base, m) matches Ok(StepView::ListConfigs { dir: folder })
        &&& {
            ||| (self.configs)(folder).len() == 0 && dir == folder
            ||| self.is_only_config(folder, dir) && (self.sub_templates)(dir) is None
        }
    }

    /// The search was in some folder at step `m`, and `dir` holds the only configuration there.
    spec fn is_lone_config(self, base: PathView, m: nat, dir: PathView) -> bool {
        self.search(base, m) matches Ok(StepView::ListConfigs { dir: folder })
            && self.is_only_config(folder, dir)
    }

    /// At some step before step `n`, `dir` left no choice.
    pub open spec fn left_no_choice(self, base: PathView, n: nat, dir: PathView) -> bool {
        exists|m: nat| m < n && #[trigger] self.leaves_no_choice(base, m, dir)
    }

    spec fn was_lone_config(self, base: PathView, n: nat, dir: PathView) -> bool {
        exists|m: nat| m < n && #[trigger] self.is_lone_config(base, m, dir)
    }
}

proof fn lemma_search(world: World, base: PathView, n: nat)
    ensures
        match world.search(base, n) {
            Ok(StepView::Found { dir }) => world.left_no_choice(base, n, dir),
            Ok(StepView::ReadConfig { dir }) => world.was_lone_config(base, n, dir),
            _ => true,
        },
    decreases n,
{
    if n > 0 {
        let k = (n - 1) as nat;
        lemma_search(world, base, k);
        match world.search(base, k) {
            Ok(StepView::ListConfigs { dir }) => {
                if (world.configs)(dir).len() == 0 {
                    assert(world.leaves_no_choice(base, k, dir));
                } else if (world.configs)(dir).len() == 1 {
                    assert(world.is_lone_config(base, k, dir.join((world.configs)(dir)[0])));
                }
            },
            Ok(StepView::ReadConfig { dir }) => {
                let m = choose|m: nat| m < k && #[trigger] world.is_lone_config(base, m, dir);
                if (world.sub_templates)(dir) is None {
                    assert(world.leaves_no_choice(base, m, dir));
                }
            },
            Ok(StepView::Found { dir }) => {
                let m = choose|m: nat| m < k && #[trigger] world.leaves_no_choice(base, m, dir);
                assert(world.leaves_no_choice(base, m, dir));
            },
            _ => {},
        }
    }
}

/// The search goes on until it hits a single or no configuration: whatever the folders hold and
/// the user answers, the folder that it finds left no choice in the folder that was searched
/// last.
pub proof fn law_found_template_leaves_no_choice(world: World, base: PathView, n: nat)
    ensures
        world.search(base, n) matches Ok(StepView::Found { dir }) ==> world.left_no_choice(
            base,
            n,
            dir,
        ),
{
    lemma_search(world, base, n);
}

/// A folder without configurations below it is the template itself.
pub proof fn law_no_configuration_means_the_folder_itself(world: World, base: PathView)
    requires
        (world.configs)(base).len() == 0,
        !(world.fails)(StepView::ListConfigs { dir: base }, 0),
    ensures
        world.search(base, 1) == Ok::<StepView, LocateErrorView>(StepView::Found { dir: base }),
{
    reveal_with_fuel(World::search, 2);
}

/// A single configured folder without sub-templates is found without a question.
pub proof fn law_single_configuration_is_found(world: World, base: PathView)
    requires
        (world.configs)(base).len() == 1,
        !(world.fails)(StepView::ListConfigs { dir: base }, 0),
        (world.sub_templates)(base.join((world.configs)(base)[0])) is None,
    ensures
        world.search(base, 2) == Ok::<StepView, LocateErrorView>(
            StepView::Found { dir: base.join((world.configs)(base)[0]) },
        ),
{
    reveal_with_fuel(World::search, 3);
}

/// Choosing one of the listed templates leads to the folder that was listed.
pub proof fn law_choosing_a_listed_template(
    dir: PathView,
    config_paths: Seq<PathView>,
    i: int,
    style: PathStyle,
)
    requires
        config_paths.len() >= 2,
        0 <= i < config_paths.len(),
        config_paths[i].is_plain(style),
    ensures
        after_listing(dir, config_paths, style) matches StepView::AskTemplate { slots, .. } && (
        slots.var_info matches InfoView::Text { choices: Some(choices), .. } && next(
            after_listing(dir, config_paths, style),
            EventView::Answer(choices[i]),
            style,
        ) == Ok::<StepView, LocateErrorView>(
            StepView::ListConfigs { dir: dir.join(config_paths[i]) },
        )),
{
    law_parse_inverts_text(config_paths[i], style);
}

/// A step is a question to the user.
pub open spec fn is_question(step: Result<StepView, LocateErrorView>) -> bool {
    step matches Ok(s) && (s is AskTemplate || s is AskSubTemplate)
}

/// A step that fails, such as a question without an answer, is the last one: the search has
/// failed from there on, whatever else would come.
pub proof fn law_a_failure_ends_the_search(world: World, base: PathView, n: nat, m: nat)
    requires
        n < m,
        world.search(base, n) matches Ok(step) && !(step is Found) && !(step is ReadConfig) && (
        world.fails)(step, n),
    ensures
        world.search(base, m) == Err::<StepView, LocateErrorView>(LocateErrorView::StepFailed),
    decreases m,
{
    if m > n + 1 {
        law_a_failure_ends_the_search(world, base, n, (m - 1) as nat);
    }
}

impl World {
    /// A folder that holds the only configuration below another folder is listed, from there, as
    /// the empty path, and nothing below it is listed.
    pub open spec fn lists_configured_folders_alone(self) -> bool {
        forall|dir: PathView|
            (#[trigger] (self.configs)(dir)).len() == 1 ==> (self.configs)(
                dir.join((self.configs)(dir)[0]),
            ) == seq![empty_path()]
    }

    /// The folders that are listed are those that hold a configuration, but for folders below
    /// another one of them.
    pub open spec fn lists_topmost_configs(self, holds_config: spec_fn(PathView) -> bool) -> bool {
        forall|dir: PathView|
            {
                &&& (#[trigger] (self.configs)(dir)).no_duplicates()
                &&& forall|path: PathView| #[trigger]
                    (self.configs)(dir).contains(path) <==> is_topmost_config(
                        holds_config,
                        dir,
                        path,
                    )
            }
    }
}

/// The folder with these names below a folder.
pub open spec fn below(dir: PathView, names: Seq<Seq<char>>) -> PathView {
    PathView { root: dir.root, names: dir.names + names }
}

/// The path leads from `dir` to a folder that holds a configuration, through none that does.
pub open spec fn is_topmost_config(
    holds_config: spec_fn(PathView) -> bool,
    dir: PathView,
    path: PathView,
) -> bool {
    &&& path.root.len() == 0
    &&& path.without_leading_dot() == path.names
    &&& holds_config(below(dir, path.names))
    &&& forall|k: int|
        0 <= k < path.names.len() ==> !holds_config(#[trigger] below(dir, path.names.take(k)))
}

/// Where the topmost folders with a configuration are listed, such a folder is listed alone from
/// itself.
pub proof fn law_topmost_configs_are_listed_alone(
    world: World,
    holds_config: spec_fn(PathView) -> bool,
)
    requires
        world.lists_topmost_configs(holds_config),
    ensures
        world.lists_configured_folders_alone(),
{
    assert forall|dir: PathView|
        (#[trigger] (world.configs)(dir)).len() == 1 implies (world.configs)(
        dir.join((world.configs)(dir)[0]),
    ) == seq![empty_path()] by {
        let path = (world.configs)(dir)[0];
        assert((world.configs)(dir).contains(path));
        let found = dir.join(path);
        assert(found =~= below(dir, path.names));
        let listed = (world.configs)(found);
        assert(below(found, Seq::empty()) =~= found);
        assert(empty_path().without_leading_dot() =~= empty_path().names);
        assert(is_topmost_config(holds_config, found, empty_path()));
        assert(listed.contains(empty_path()));
        assert forall|i: int| 0 <= i < listed.len() implies #[trigger] listed[i]
            == empty_path() by {
            let other = listed[i];
            assert(listed.contains(other));
            if other.names.len() > 0 {
                assert(other.names.take(0) =~= Seq::<Seq<char>>::empty());
                assert(!holds_config(below(found, other.names.take(0))));
            }
            assert(other =~= empty_path());
        }
        if listed.len() > 1 {
            assert(listed[0] == listed[1]);
        }
        assert(listed =~= seq![empty_path()]);
    }
}

/// The path with neither root nor names.
pub open spec fn empty_path() -> PathView {
    PathView { root: Seq::empty(), names: Seq::empty() }
}

/// A search that starts again in the folder that a search has found ends there, and asks
/// nothing, whoever would answer.
pub proof fn law_a_found_template_is_found_again(
    world: World,
    base: PathView,
    n: nat,
    again: World,
    k: nat,
)
    requires
        world.lists_configured_folders_alone(),
        again.configs == world.configs,
        again.sub_templates == world.sub_templates,
        forall|dir: PathView, i: nat|
            !#[trigger] (again.fails)(StepView::ListConfigs { dir }, i),
        world.search(base, n) matches Ok(step) && step is Found,
    ensures
        world.search(base, n) matches Ok(StepView::Found { dir }) && {
            &&& !is_question(again.search(dir, k))
            &&& k >= 2 ==> again.search(dir, k) == Ok::<StepView, LocateErrorView>(
                StepView::Found { dir },
            )
        },
    decreases k,
{
    lemma_search(world, base, n);
    let dir = world.search(base, n)->Ok_0->Found_dir;
    let m = choose|m: nat| m < n && #[trigger] world.leaves_no_choice(base, m, dir);
    let folder = world.search(base, m)->Ok_0->ListConfigs_dir;
    assert(!(again.fails)(StepView::ListConfigs { dir }, 0));
    reveal_with_fuel(World::search, 3);
    if (world.configs)(dir).len() == 0 {
    } else {
        assert((world.configs)(folder).len() == 1);
        assert((world.configs)(dir) == seq![empty_path()]);
        assert(dir.join(empty_path()) =~= dir) by {
            assert(empty_path().without_leading_dot() =~= empty_path().names);
        }
    }
    if k > 2 {
        law_a_found_template_is_found_again(world, base, n, again, (k - 1) as nat);
    }
}

impl World {
    /// The folders are listed by relative paths.
    pub open spec fn lists_relative_paths(self) -> bool {
        forall|dir: PathView, i: int|
            0 <= i < (self.configs)(dir).len() ==> (#[trigger] (self.configs)(
                dir,
            )[i]).root.len() == 0
    }

    /// What the user answers when asked for a template is one of the choices.
    pub open spec fn answers_are_choices(self, base: PathView) -> bool {
        forall|n: nat|
            (#[trigger] self.search(base, n)) matches Ok(StepView::AskTemplate { dir, .. }) ==> (
            self.is_some_choice(dir, (self.replies)(n)))
    }

    /// The text is that of some folder that was listed.
    pub open spec fn is_some_choice(self, dir: PathView, text: Seq<char>) -> bool {
        exists|i: int| #[trigger] self.is_choice(dir, i, text)
    }

    /// The text is that of the folder at a place in the list.
    pub open spec fn is_choice(self, dir: PathView, i: int, text: Seq<char>) -> bool {
        &&& 0 <= i < (self.configs)(dir).len()
        &&& (self.configs)(dir)[i].is_plain(self.style)
        &&& text == (self.configs)(dir)[i].text(self.style)
    }

    /// Folders are looked up by their canonical paths.
    pub open spec fn lookups_are_canonical(self) -> bool {
        forall|dir: PathView, name: Seq<char>|
            (#[trigger] (self.subfolders)(dir, name)) matches LookupView::Present {
                base,
                ..
            } ==> base == dir
    }
}

/// The folder that a step is about.
pub open spec fn folder_of(step: StepView) -> PathView {
    match step {
        StepView::ListConfigs { dir } => dir,
        StepView::ReadConfig { dir } => dir,
        StepView::AskTemplate { dir, .. } => dir,
        StepView::AskSubTemplate { dir, .. } => dir,
        StepView::LookUpSubfolder { dir, .. } => dir,
        StepView::Found { dir } => dir,
    }
}

proof fn lemma_leads_up_further(dir: PathView, middle: PathView, base: PathView)
    requires
        dir.leads_up_to(middle),
        middle.leads_up_to(base),
    ensures
        dir.leads_up_to(base),
{
    assert(base.names =~= dir.names.subrange(0, base.names.len() as int)) by {
        assert(middle.names =~= dir.names.subrange(0, middle.names.len() as int));
        assert(base.names =~= middle.names.subrange(0, base.names.len() as int));
        assert forall|i: int| 0 <= i < base.names.len() implies base.names[i] == dir.names[i] by {
            assert(middle.names[i] == dir.names.subrange(0, middle.names.len() as int)[i]);
            assert(base.names[i] == middle.names.subrange(0, base.names.len() as int)[i]);
        }
    }
}

/// The search stays within the folder in which it started: so does the template that it finds.
pub proof fn law_the_search_stays_within(world: World, base: PathView, n: nat)
    requires
        world.lists_relative_paths(),
        world.answers_are_choices(base),
        world.lookups_are_canonical(),
    ensures
        world.search(base, n) matches Ok(step) ==> folder_of(step).starts_with(base),
    decreases n,
{
    if base.is_empty() {
    } else if n == 0 {
        assert(base.names =~= base.names.subrange(0, base.names.len() as int));
    } else {
        let k = (n - 1) as nat;
        law_the_search_stays_within(world, base, k);
        match world.search(base, k) {
            Ok(step) => {
                let dir = folder_of(step);
                match step {
                    StepView::ListConfigs { .. } => {
                        if (world.configs)(dir).len() == 1 {
                            let path = (world.configs)(dir)[0];
                            law_join_stays_below(dir, path);
                            lemma_leads_up_further(dir.join(path), dir, base);
                        }
                    },
                    StepView::AskTemplate { .. } => {
                        let reply = (world.replies)(k);
                        let i = choose|i: int| #[trigger] world.is_choice(dir, i, reply);
                        let path = (world.configs)(dir)[i];
                        law_parse_inverts_text(path, world.style);
                        law_join_stays_below(dir, path);
                        lemma_leads_up_further(dir.join(path), dir, base);
                    },
                    StepView::LookUpSubfolder { subfolder, .. } => {
                        let lookup = (world.subfolders)(dir, subfolder);
                        if let Ok(found) = resolved(subfolder, lookup) {
                            lemma_leads_up_further(found, dir, base);
                        }
                    },
                    _ => {},
                }
            },
            Err(_) => {},
        }
    }
}

impl World {
    /// `canon` takes a path to the canonical path of the same folder: what is listed below a
    /// folder lies below it, and subfolders are looked up by canonical paths.
    pub open spec fn has_canonical_paths(self, canon: spec_fn(PathView) -> PathView) -> bool {
        &&& forall|dir: PathView, i: int|
            0 <= i < (self.configs)(dir).len() ==> canon(
                dir.join(#[trigger] (self.configs)(dir)[i]),
            ).starts_with(canon(dir))
        &&& forall|dir: PathView, name: Seq<char>|
            (#[trigger] (self.subfolders)(dir, name)) matches LookupView::Present {
                base,
                dir: found,
                ..
            } ==> base == canon(dir) && found == canon(found)
    }
}

proof fn lemma_starts_with_further(dir: PathView, middle: PathView, base: PathView)
    requires
        dir.starts_with(middle),
        middle.starts_with(base),
    ensures
        dir.starts_with(base),
{
    if !base.is_empty() {
        assert(base.names =~= middle.names.subrange(0, base.names.len() as int));
        assert(!middle.is_empty());
        lemma_leads_up_further(dir, middle, base);
    }
}

/// The search stays within the folder in which it started, by whatever paths the folders are
/// given: the canonical path of the template that it finds begins with that of the folder.
pub proof fn law_the_search_stays_within_canonically(
    world: World,
    canon: spec_fn(PathView) -> PathView,
    base: PathView,
    n: nat,
)
    requires
        world.has_canonical_paths(canon),
        world.answers_are_choices(base),
    ensures
        world.search(base, n) matches Ok(step) ==> canon(folder_of(step)).starts_with(canon(base)),
    decreases n,
{
    if n == 0 {
        let start = canon(base);
        assert(start.names =~= start.names.subrange(0, start.names.len() as int));
    } else {
        let k = (n - 1) as nat;
        law_the_search_stays_within_canonically(world, canon, base, k);
        match world.search(base, k) {
            Ok(step) => {
                let dir = folder_of(step);
                match step {
                    StepView::ListConfigs { .. } => {
                        if (world.configs)(dir).len() == 1 {
                            let path = (world.configs)(dir)[0];
                            lemma_starts_with_further(
                                canon(dir.join(path)),
                                canon(dir),
                                canon(base),
                            );
                        }
                    },
                    StepView::AskTemplate { .. } => {
                        let reply = (world.replies)(k);
                        let i = choose|i: int| #[trigger] world.is_choice(dir, i, reply);
                        let path = (world.configs)(dir)[i];
                        law_parse_inverts_text(path, world.style);
                        lemma_starts_with_further(canon(dir.join(path)), canon(dir), canon(base));
                    },
                    StepView::LookUpSubfolder { subfolder, .. } => {
                        let lookup = (world.subfolders)(dir, subfolder);
                        if let Ok(found) = resolved(subfolder, lookup) {
                            lemma_starts_with_further(canon(found), canon(dir), canon(base));
                        }
                    },
                    _ => {},
                }
            },
            Err(_) => {},
        }
    }
}

/// Which subfolders are accepted, and why others are not. A folder that lies within the base is
/// accepted at whatever depth, the base itself too; something there that is no folder is not.
/// What is missing is told by its name.
pub proof fn law_every_folder_within_is_accepted(
    subfolder: Seq<char>,
    base: PathView,
    names: Seq<Seq<char>>,
)
    ensures
        ({
            let dir = PathView { root: base.root, names: base.names + names };
            &&& resolved(subfolder, LookupView::Present { base, dir, is_dir: true }) == Ok::<
                PathView,
                SubfolderErrorView,
            >(dir)
            &&& resolved(subfolder, LookupView::Present { base, dir, is_dir: false }) == Err::<
                PathView,
                SubfolderErrorView,
            >(SubfolderErrorView::NotAFolder)
        }),
        resolved(subfolder, LookupView::SubfolderMissing) == Err::<PathView, SubfolderErrorView>(
            SubfolderErrorView::NotFound { subfolder },
        ),
{
    law_what_lies_below_begins_with_it(base, names);
}

/// What has another root than the base, fewer names, or another name in the place of one of the
/// base's, is outside, whether it is a folder or not.
pub proof fn law_everything_outside_is_refused(
    subfolder: Seq<char>,
    base: PathView,
    dir: PathView,
    is_dir: bool,
    i: int,
)
    requires
        base.root.len() > 0 || base.names.len() > 0,
        dir.root != base.root || dir.names.len() < base.names.len() || (0 <= i < base.names.len()
            && i < dir.names.len() && dir.names[i] != base.names[i]),
    ensures
        resolved(subfolder, LookupView::Present { base, dir, is_dir }) == Err::<
            PathView,
            SubfolderErrorView,
        >(SubfolderErrorView::OutsideTemplate),
{
    law_what_begins_with_it_lies_below(dir, base, i);
}

/// A result and its model succeed together, with the same folder, or fail together, for the same
/// reason.
pub proof fn law_a_result_is_what_its_model_says(
    r: Result<TemplatePath, SubfolderError>,
    model: Result<PathView, SubfolderErrorView>,
)
    ensures
        is_result(r, model) ==> {
            &&& r is Ok <==> model is Ok
            &&& r is Ok ==> r->Ok_0@ == model->Ok_0
            &&& r is Err ==> r->Err_0@ == model->Err_0
        },
{
}

/// What follows from a listing. Of no folders: the folder itself is the template. Of one: its
/// configuration is read. Of more: the user is offered each of them, by its path as it is
/// written, and the first is preselected.
pub proof fn law_what_follows_from_a_listing(
    dir: PathView,
    config_paths: Seq<PathView>,
    style: PathStyle,
    i: int,
)
    ensures
        ({
            let step = after_listing(dir, config_paths, style);
            &&& config_paths.len() == 0 ==> step == (StepView::Found { dir })
            &&& config_paths.len() == 1 ==> step == (StepView::ReadConfig {
                dir: dir.join(config_paths[0]),
            })
            &&& config_paths.len() > 1 ==> {
                &&& step is AskTemplate
                &&& folder_of(step) == dir
                &&& slots_of(step).prompt == "Which template should be expanded?"@
                &&& slots_of(step).var_name == "Template"@
                &&& slots_of(step).var_info is Text
                &&& choices_of(step).len() == config_paths.len()
                &&& 0 <= i < config_paths.len() ==> choices_of(step)[i] == config_paths[i].text(
                    style,
                )
                &&& slots_of(step).var_info->Text_default == Some(config_paths[0].text(style))
                &&& slots_of(step).var_info->regex is None
            }
        }),
{
}

/// The question that a step asks.
pub open spec fn slots_of(step: StepView) -> SlotsView {
    match step {
        StepView::AskTemplate { slots, .. } => slots,
        StepView::AskSubTemplate { slots, .. } => slots,
        _ => arbitrary(),
    }
}

/// The choices that a step offers.
pub open spec fn choices_of(step: StepView) -> Seq<Seq<char>> {
    slots_of(step).var_info->Text_choices->0
}

/// What follows from reading a configuration. One that cannot be read, that has no settings for
/// the template, or that lists no sub-templates leaves the folder as the template. Of the
/// sub-templates that it lists the user is offered all, and the first is preselected.
pub proof fn law_what_follows_from_a_configuration(dir: PathView, config: Option<Config>)
    ensures
        ({
            let step = after_reading(dir, listed_sub_templates(config));
            &&& config is None ==> step == (StepView::Found { dir })
            &&& config is Some && config->0.template is None ==> step == (StepView::Found { dir })
            &&& config is Some && config->0.template is Some ==> {
                let listed = config->0.template->0.sub_templates;
                &&& listed is None ==> step == (StepView::Found { dir })
                &&& listed is Some ==> {
                    &&& step is AskSubTemplate
                    &&& folder_of(step) == dir
                    &&& slots_of(step).prompt == "Which sub-template should be expanded?"@
                    &&& slots_of(step).var_name == "Template"@
                    &&& slots_of(step).var_info is Text
                    &&& choices_of(step) == listed->0.deep_view()
                    &&& slots_of(step).var_info->Text_default == Some(listed->0.deep_view()[0])
                    &&& slots_of(step).var_info->regex is None
                }
            }
        }),
{
}

/// What follows from an answer and from a lookup. The search goes on in the folder that was
/// chosen, taken from the one that was searched; a sub-template is looked up there by the very
/// text that was answered. A folder that is accepted is searched next, and a reason to refuse it
/// ends the search.
pub proof fn law_what_follows_from_an_answer(
    dir: PathView,
    slots: SlotsView,
    text: Seq<char>,
    lookup: LookupView,
    style: PathStyle,
)
    ensures
        next(StepView::AskTemplate { dir, slots }, EventView::Answer(text), style) == Ok::<
            StepView,
            LocateErrorView,
        >(StepView::ListConfigs { dir: dir.join(path_of(text, style)) }),
        next(StepView::AskSubTemplate { dir, slots }, EventView::Answer(text), style) == Ok::<
            StepView,
            LocateErrorView,
        >(StepView::LookUpSubfolder { dir, subfolder: text }),
        ({
            let after = next(
                StepView::LookUpSubfolder { dir, subfolder: text },
                EventView::Subfolder(lookup),
                style,
            );
            match resolved(text, lookup) {
                Ok(found) => after == Ok::<StepView, LocateErrorView>(
                    StepView::ListConfigs { dir: found },
                ),
                Err(e) => after == Err::<StepView, LocateErrorView>(LocateErrorView::Subfolder(e)),
            }
        }),
{
}

/// What follows from a listing and from a configuration is what the search does next.
pub proof fn law_the_search_does_what_follows(
    dir: PathView,
    paths: Seq<PathView>,
    listed: Option<Seq<Seq<char>>>,
    style: PathStyle,
)
    ensures
        next(StepView::ListConfigs { dir }, EventView::Configs(paths), style) == Ok::<
            StepView,
            LocateErrorView,
        >(after_listing(dir, paths, style)),
        next(StepView::ReadConfig { dir }, EventView::ConfigRead(listed), style) == Ok::<
            StepView,
            LocateErrorView,
        >(after_reading(dir, listed)),
{
}

/// Every step takes what can come of it, and every step but the reading of a configuration can
/// fail. Only an empty list of sub-templates is not taken.
pub proof fn law_every_outcome_of_a_step_is_taken(
    dir: PathView,
    slots: SlotsView,
    text: Seq<char>,
    paths: Seq<PathView>,
    listed: Option<Seq<Seq<char>>>,
    lookup: LookupView,
)
    ensures
        answers(StepView::ListConfigs { dir }, EventView::Configs(paths)),
        answers(StepView::ListConfigs { dir }, EventView::Failed),
        listed is None || listed->0.len() > 0 ==> answers(
            StepView::ReadConfig { dir },
            EventView::ConfigRead(listed),
        ),
        answers(StepView::AskTemplate { dir, slots }, EventView::Answer(text)),
        answers(StepView::AskTemplate { dir, slots }, EventView::Failed),
        answers(StepView::AskSubTemplate { dir, slots }, EventView::Answer(text)),
        answers(StepView::AskSubTemplate { dir, slots }, EventView::Failed),
        answers(
            StepView::LookUpSubfolder { dir, subfolder: text },
            EventView::Subfolder(lookup),
        ),
        answers(StepView::LookUpSubfolder { dir, subfolder: text }, EventView::Failed),
{
}

/// Where a file of a template is looked for: in each folder from the template folder up to the
/// base folder, and in no other. Where the base folder is not above, up to the root.
pub proof fn law_where_a_file_is_looked_for(
    base: PathView,
    names: Seq<Seq<char>>,
    folder: PathView,
    file: PathView,
    k: int,
)
    ensures
        ({
            let within = PathView { root: base.root, names: base.names + names };
            &&& height(base, within) == names.len()
            &&& 0 <= k <= names.len() ==> candidate(file, within, k) == (PathView {
                root: base.root,
                names: base.names + names.take(names.len() - k),
            }).join(file)
        }),
        !folder.leads_up_to(base) ==> height(base, folder) == folder.names.len(),
        0 <= k <= folder.names.len() ==> candidate(file, folder, k) == (PathView {
            root: folder.root,
            names: folder.names.take(folder.names.len() - k),
        }).join(file),
{
    let within = PathView { root: base.root, names: base.names + names };
    law_what_lies_below_begins_with_it(base, names);
    if 0 <= k <= names.len() {
        assert(within.names.take(within.names.len() - k) =~= base.names + names.take(
            names.len() - k,
        ));
    }
}

/// A file is at none of the first places where it is at none before the last of them, and not at
/// that one. It is at none of no places.
pub proof fn law_places_are_looked_at_one_by_one(
    file: PathView,
    folder: PathView,
    existing: Seq<PathView>,
    n: int,
)
    requires
        0 <= n,
    ensures
        none_below(file, folder, existing, 0),
        none_below(file, folder, existing, n + 1) <==> none_below(file, folder, existing, n)
            && !existing.contains(candidate(file, folder, n)),
{
}

/// The path that is a single name has that name, and is relative.
pub proof fn law_a_single_name(name: Seq<char>)
    ensures
        single(name).root.len() == 0,
        single(name).names == seq![name],
{
}

/// The model of a step has all that the step has.
pub proof fn law_nothing_of_a_step_is_lost(
    dir: TemplatePath,
    slots: TemplateSlots,
    subfolder: String,
)
    ensures
        (LocateStep::ListConfigs { dir })@ == (StepView::ListConfigs { dir: dir@ }),
        (LocateStep::ReadConfig { dir })@ == (StepView::ReadConfig { dir: dir@ }),
        (LocateStep::AskTemplate { dir, slots })@ == (StepView::AskTemplate {
            dir: dir@,
            slots: slots@,
        }),
        (LocateStep::AskSubTemplate { dir, slots })@ == (StepView::AskSubTemplate {
            dir: dir@,
            slots: slots@,
        }),
        (LocateStep::LookUpSubfolder { dir, subfolder })@ == (StepView::LookUpSubfolder {
            dir: dir@,
            subfolder: subfolder@,
        }),
        (LocateStep::Found { dir })@ == (StepView::Found { dir: dir@ }),
{
}

/// The model of an event has what the search reads of it, and that of an error its reason.
pub proof fn law_nothing_of_an_event_is_lost(
    paths: Vec<TemplatePath>,
    config: Option<Config>,
    text: String,
    lookup: SubfolderLookup,
    base: TemplatePath,
    dir: TemplatePath,
    is_dir: bool,
    error: SubfolderError,
)
    ensures
        LocateEvent::Configs(paths)@ == EventView::Configs(paths.deep_view()),
        LocateEvent::ConfigRead(config)@ == EventView::ConfigRead(listed_sub_templates(config)),
        LocateEvent::Answer(text)@ == EventView::Answer(text@),
        LocateEvent::Subfolder(lookup)@ == EventView::Subfolder(lookup@),
        LocateEvent::Failed@ == EventView::Failed,
        SubfolderLookup::SubfolderMissing@ == LookupView::SubfolderMissing,
        (SubfolderLookup::Present { base, dir, is_dir })@ == (LookupView::Present {
            base: base@,
            dir: dir@,
            is_dir,
        }),
        (SubfolderError::NotFound { subfolder: text })@ == (SubfolderErrorView::NotFound {
            subfolder: text@,
        }),
        SubfolderError::OutsideTemplate@ == SubfolderErrorView::OutsideTemplate,
        SubfolderError::NotAFolder@ == SubfolderErrorView::NotAFolder,
        LocateError::Subfolder(error)@ == LocateErrorView::Subfolder(error@),
        LocateError::StepFailed@ == LocateErrorView::StepFailed,
{
}

/// A step that fails ends the search, whichever it is, and for no other reason than that.
pub proof fn law_any_failure_ends_the_search(step: StepView, style: PathStyle)
    ensures
        next(step, EventView::Failed, style) == Err::<StepView, LocateErrorView>(
            LocateErrorView::StepFailed,
        ),
{
}

} // verus!
