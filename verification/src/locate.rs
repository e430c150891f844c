//! Locating a template and its files within a folder structure.

use crate::config::{Config, CONFIG_FILE_NAME};
use crate::path::{path_of, PathStyle, PathView, TemplatePath};
use crate::slots::{choice_slot, choice_view, SlotsView, TemplateSlots};
use vstd::prelude::*;

verus! {

/// What was found out about a subfolder. Folders are given by their canonical paths.
#[derive(Debug)]
pub enum SubfolderLookup {
    /// There is nothing at the place of the subfolder.
    SubfolderMissing,
    /// There is something at the place of the subfolder.
    Present { base: TemplatePath, dir: TemplatePath, is_dir: bool },
}

/// Why a subfolder cannot be used.
#[derive(Debug)]
pub enum SubfolderError {
    /// There is nothing at the place of the subfolder.
    NotFound { subfolder: String },
    /// The subfolder is not part of the folder structure of the template.
    OutsideTemplate,
    /// What is at the place of the subfolder is no folder.
    NotAFolder,
}

/// What a [`SubfolderError`] says.
pub enum SubfolderErrorView {
    NotFound { subfolder: Seq<char> },
    OutsideTemplate,
    NotAFolder,
}

impl View for SubfolderError {
    type V = SubfolderErrorView;

    open spec fn view(&self) -> SubfolderErrorView {
        match self {
            SubfolderError::NotFound { subfolder } => SubfolderErrorView::NotFound {
                subfolder: subfolder@,
            },
            SubfolderError::OutsideTemplate => SubfolderErrorView::OutsideTemplate,
            SubfolderError::NotAFolder => SubfolderErrorView::NotAFolder,
        }
    }
}

/// What a [`SubfolderLookup`] holds.
pub enum LookupView {
    SubfolderMissing,
    Present { base: PathView, dir: PathView, is_dir: bool },
}

impl View for SubfolderLookup {
    type V = LookupView;

    open spec fn view(&self) -> LookupView {
        match self {
            SubfolderLookup::SubfolderMissing => LookupView::SubfolderMissing,
            SubfolderLookup::Present { base, dir, is_dir } => LookupView::Present {
                base: base@,
                dir: dir@,
                is_dir: *is_dir,
            },
        }
    }
}

/// The folder that a subfolder is: one that exists, at or below the base.
pub open spec fn resolved(subfolder: Seq<char>, lookup: LookupView) -> Result<
    PathView,
    SubfolderErrorView,
> {
    match lookup {
        LookupView::SubfolderMissing => Err(SubfolderErrorView::NotFound { subfolder }),
        LookupView::Present { base, dir, is_dir } => if !dir.starts_with(base) {
            Err(SubfolderErrorView::OutsideTemplate)
        } else if !is_dir {
            Err(SubfolderErrorView::NotAFolder)
        } else {
            Ok(dir)
        },
    }
}

/// Whether a result of the library is what its model says.
pub open spec fn is_result(
    r: Result<TemplatePath, SubfolderError>,
    model: Result<PathView, SubfolderErrorView>,
) -> bool {
    match (r, model) {
        (Ok(dir), Ok(d)) => dir@ == d,
        (Err(e), Err(f)) => e@ == f,
        _ => false,
    }
}

/// Joins the base folder and the subfolder, where one is given, ensuring that the result stays
/// within the base folder. Without a subfolder the base folder is the result.
pub fn resolve_template_dir_subfolder(
    template_base_dir: TemplatePath,
    subfolder: Option<(String, SubfolderLookup)>,
) -> (r: Result<TemplatePath, SubfolderError>)
    ensures
        match subfolder {
            Some((name, lookup)) => is_result(r, resolved(name@, lookup@)),
            None => r is Ok && r->Ok_0 == template_base_dir,
        },
        subfolder matches Some((_, SubfolderLookup::Present { base, dir, is_dir })) ==> (is_dir
            && dir@.root == base@.root && base@.names.is_prefix_of(dir@.names) ==> r == Ok::<
            TemplatePath,
            SubfolderError,
        >(dir)),
{
    match subfolder {
        Some((name, lookup)) => match lookup {
            SubfolderLookup::SubfolderMissing => Err(SubfolderError::NotFound { subfolder: name }),
            SubfolderLookup::Present { base, dir, is_dir } => if !dir.starts_with(&base) {
                Err(SubfolderError::OutsideTemplate)
            } else if !is_dir {
                Err(SubfolderError::NotAFolder)
            } else {
                Ok(dir)
            },
        },
        None => Ok(template_base_dir),
    }
}

/// A subfolder that is accepted stays within the base folder, and is a folder.
pub proof fn law_subfolder_stays_within(subfolder: Seq<char>, lookup: LookupView)
    ensures
        resolved(subfolder, lookup) matches Ok(dir) ==> (lookup matches LookupView::Present {
            base,
            dir: found,
            is_dir,
        } && dir == found && is_dir && dir.starts_with(base)),
{
}

/// What is to be done next in the search for the template to expand.
#[derive(Debug)]
pub enum LocateStep {
    /// List the folders below `dir` that hold a configuration, by their paths from `dir`.
    ListConfigs { dir: TemplatePath },
    /// Read the configuration in `dir`.
    ReadConfig { dir: TemplatePath },
    /// Ask which of the configured folders below `dir` to expand.
    AskTemplate { dir: TemplatePath, slots: TemplateSlots },
    /// Ask which sub-template of the template in `dir` to expand.
    AskSubTemplate { dir: TemplatePath, slots: TemplateSlots },
    /// Look up a subfolder of `dir`.
    LookUpSubfolder { dir: TemplatePath, subfolder: String },
    /// The template to expand is in `dir`.
    Found { dir: TemplatePath },
}

/// What a [`LocateStep`] holds.
pub enum StepView {
    ListConfigs { dir: PathView },
    ReadConfig { dir: PathView },
    AskTemplate { dir: PathView, slots: SlotsView },
    AskSubTemplate { dir: PathView, slots: SlotsView },
    LookUpSubfolder { dir: PathView, subfolder: Seq<char> },
    Found { dir: PathView },
}

impl View for LocateStep {
    type V = StepView;

    open spec fn view(&self) -> StepView {
        match self {
            LocateStep::ListConfigs { dir } => StepView::ListConfigs { dir: dir@ },
            LocateStep::ReadConfig { dir } => StepView::ReadConfig { dir: dir@ },
            LocateStep::AskTemplate { dir, slots } => StepView::AskTemplate {
                dir: dir@,
                slots: slots@,
            },
            LocateStep::AskSubTemplate { dir, slots } => StepView::AskSubTemplate {
                dir: dir@,
                slots: slots@,
            },
            LocateStep::LookUpSubfolder { dir, subfolder } => StepView::LookUpSubfolder {
                dir: dir@,
                subfolder: subfolder@,
            },
            LocateStep::Found { dir } => StepView::Found { dir: dir@ },
        }
    }
}

/// The texts of several paths.
pub open spec fn path_texts(paths: Seq<PathView>, style: PathStyle) -> Seq<Seq<char>> {
    Seq::new(paths.len(), |i: int| paths[i].text(style))
}

/// What follows from the configurations below a folder. Without any, the folder is the
/// template. A single one is read, since it may list sub-templates. Of several, the user is to
/// choose, by their paths as the operating system writes them.
pub open spec fn after_listing(
    dir: PathView,
    config_paths: Seq<PathView>,
    style: PathStyle,
) -> StepView {
    if config_paths.len() == 0 {
        StepView::Found { dir }
    } else if config_paths.len() == 1 {
        StepView::ReadConfig { dir: dir.join(config_paths[0]) }
    } else {
        StepView::AskTemplate {
            dir,
            slots: choice_view(
                "Which template should be expanded?"@,
                "Template"@,
                path_texts(config_paths, style),
            ),
        }
    }
}

/// Looks through the configurations below a folder for a suitable template.
pub fn auto_locate_template_dir(
    template_base_dir: TemplatePath,
    config_paths: &Vec<TemplatePath>,
    style: PathStyle,
) -> (r: LocateStep)
    ensures
        r@ == after_listing(template_base_dir@, config_paths.deep_view(), style),
{
    if config_paths.len() == 0 {
        return LocateStep::Found { dir: template_base_dir };
    }
    if config_paths.len() == 1 {
        return LocateStep::ReadConfig { dir: template_base_dir.join(&config_paths[0]) };
    }
    let mut choices: Vec<String> = Vec::new();
    let ghost texts = path_texts(config_paths.deep_view(), style);
    let mut i: usize = 0;
    while i < config_paths.len()
        invariant
            i <= config_paths@.len(),
            texts == path_texts(config_paths.deep_view(), style),
            choices.deep_view() == texts.take(i as int),
        decreases config_paths@.len() - i,
    {
        let ghost earlier = choices.deep_view();
        choices.push(config_paths[i].to_text(style));
        assert(choices.deep_view() =~= earlier.push(texts[i as int]));
        assert(choices.deep_view() =~= texts.take(i + 1));
        i = i + 1;
    }
    assert(texts.take(i as int) =~= texts);
    assert(choices@.len() == choices.deep_view().len());
    LocateStep::AskTemplate {
        dir: template_base_dir,
        slots: choice_slot("Which template should be expanded?", "Template", choices),
    }
}

/// The sub-templates that a configuration lists. A configuration that cannot be read lists
/// none.
pub open spec fn listed_sub_templates(config: Option<Config>) -> Option<Seq<Seq<char>>> {
    match config {
        Some(c) => match c.template {
            Some(template) => template.sub_templates.deep_view(),
            None => None,
        },
        None => None,
    }
}

/// What follows from the sub-templates that are configured for a folder. Without any, the
/// folder is the template. Else the user is to choose.
pub open spec fn after_reading(dir: PathView, sub_templates: Option<Seq<Seq<char>>>) -> StepView {
    match sub_templates {
        None => StepView::Found { dir },
        Some(choices) => StepView::AskSubTemplate {
            dir,
            slots: choice_view("Which sub-template should be expanded?"@, "Template"@, choices),
        },
    }
}

/// Looks through the configuration of a folder for sub-templates. A list of sub-templates must
/// not be empty.
pub fn resolve_configured_sub_templates(config_path: TemplatePath, config: Option<Config>) -> (r:
    LocateStep)
    requires
        listed_sub_templates(config) matches Some(choices) ==> choices.len() > 0,
    ensures
        r@ == after_reading(config_path@, listed_sub_templates(config)),
{
    let sub_templates: Option<Vec<String>> = match config {
        Some(c) => match c.template {
            Some(template) => template.sub_templates,
            None => None,
        },
        None => None,
    };
    match sub_templates {
        None => LocateStep::Found { dir: config_path },
        Some(choices) => {
            assert(choices@.len() == choices.deep_view().len());
            LocateStep::AskSubTemplate {
                dir: config_path,
                slots: choice_slot("Which sub-template should be expanded?", "Template", choices),
            }
        },
    }
}

/// What came of a step.
#[derive(Debug)]
pub enum LocateEvent {
    /// The folders that hold a configuration.
    Configs(Vec<TemplatePath>),
    /// The configuration, where it could be read.
    ConfigRead(Option<Config>),
    /// What the user answered.
    Answer(String),
    /// What was found out about the subfolder.
    Subfolder(SubfolderLookup),
    /// The step failed: the folders could not be listed or looked up, or there was no answer.
    Failed,
}

/// What a [`LocateEvent`] holds.
pub enum EventView {
    Configs(Seq<PathView>),
    ConfigRead(Option<Seq<Seq<char>>>),
    Answer(Seq<char>),
    Subfolder(LookupView),
    Failed,
}

/// Why a search ended without a template.
#[derive(Debug)]
pub enum LocateError {
    /// A sub-template cannot be used.
    Subfolder(SubfolderError),
    /// A step failed.
    StepFailed,
}

/// What a [`LocateError`] says.
pub enum LocateErrorView {
    Subfolder(SubfolderErrorView),
    StepFailed,
}

impl View for LocateError {
    type V = LocateErrorView;

    open spec fn view(&self) -> LocateErrorView {
        match self {
            LocateError::Subfolder(e) => LocateErrorView::Subfolder(e@),
            LocateError::StepFailed => LocateErrorView::StepFailed,
        }
    }
}

impl View for LocateEvent {
    type V = EventView;

    open spec fn view(&self) -> EventView {
        match self {
            LocateEvent::Configs(paths) => EventView::Configs(paths.deep_view()),
            LocateEvent::ConfigRead(config) => EventView::ConfigRead(
                listed_sub_templates(*config),
            ),
            LocateEvent::Answer(text) => EventView::Answer(text@),
            LocateEvent::Subfolder(lookup) => EventView::Subfolder(lookup@),
            LocateEvent::Failed => EventView::Failed,
        }
    }
}

/// The event can come of the step. Reading a configuration does not fail: one that cannot be
/// read is none.
pub open spec fn answers(step: StepView, event: EventView) -> bool {
    match step {
        StepView::ListConfigs { .. } => event is Configs || event is Failed,
        StepView::ReadConfig { .. } => event matches EventView::ConfigRead(listed) && (
        listed matches Some(choices) ==> choices.len() > 0),
        StepView::AskTemplate { .. } => event is Answer || event is Failed,
        StepView::AskSubTemplate { .. } => event is Answer || event is Failed,
        StepView::LookUpSubfolder { .. } => event is Subfolder || event is Failed,
        StepView::Found { .. } => false,
    }
}

/// The step after a step, by what came of it. A step that fails ends the search.
pub open spec fn next(step: StepView, event: EventView, style: PathStyle) -> Result<
    StepView,
    LocateErrorView,
> {
    match (step, event) {
        (_, EventView::Failed) => Err(LocateErrorView::StepFailed),
        (StepView::ListConfigs { dir }, EventView::Configs(paths)) => Ok(
            after_listing(dir, paths, style),
        ),
        (StepView::ReadConfig { dir }, EventView::ConfigRead(listed)) => Ok(
            after_reading(dir, listed),
        ),
        (StepView::AskTemplate { dir, .. }, EventView::Answer(text)) => Ok(
            StepView::ListConfigs { dir: dir.join(path_of(text, style)) },
        ),
        (StepView::AskSubTemplate { dir, .. }, EventView::Answer(text)) => Ok(
            StepView::LookUpSubfolder { dir, subfolder: text },
        ),
        (StepView::LookUpSubfolder { subfolder, .. }, EventView::Subfolder(lookup)) => {
            match resolved(subfolder, lookup) {
                Ok(dir) => Ok(StepView::ListConfigs { dir }),
                Err(e) => Err(LocateErrorView::Subfolder(e)),
            }
        },
        _ => Ok(step),
    }
}

/// Takes the search one step on. It goes on in the folder that was chosen, until there is no
/// choice left. A step that fails ends it: nothing is tried again, and no answer is made up.
pub fn advance(step: LocateStep, event: LocateEvent, style: PathStyle) -> (r: Result<
    LocateStep,
    LocateError,
>)
    requires
        answers(step@, event@),
    ensures
        match r {
            Ok(s) => next(step@, event@, style) == Ok::<StepView, LocateErrorView>(s@),
            Err(e) => next(step@, event@, style) == Err::<StepView, LocateErrorView>(e@),
        },
{
    match (step, event) {
        (_, LocateEvent::Failed) => Err(LocateError::StepFailed),
        (LocateStep::ListConfigs { dir }, LocateEvent::Configs(paths)) => Ok(
            auto_locate_template_dir(dir, &paths, style),
        ),
        (LocateStep::ReadConfig { dir }, LocateEvent::ConfigRead(config)) => Ok(
            resolve_configured_sub_templates(dir, config),
        ),
        (LocateStep::AskTemplate { dir, .. }, LocateEvent::Answer(text)) => Ok(
            LocateStep::ListConfigs { dir: dir.join(&TemplatePath::parse(text.as_str(), style)) },
        ),
        (LocateStep::AskSubTemplate { dir, .. }, LocateEvent::Answer(text)) => Ok(
            LocateStep::LookUpSubfolder { dir, subfolder: text },
        ),
        (LocateStep::LookUpSubfolder { dir, subfolder }, LocateEvent::Subfolder(lookup)) => {
            match resolve_template_dir_subfolder(dir, Some((subfolder, lookup))) {
                Ok(dir) => Ok(LocateStep::ListConfigs { dir }),
                Err(e) => Err(LocateError::Subfolder(e)),
            }
        },
        (step, _) => Ok(step),
    }
}

/// The path that is a single name.
pub open spec fn single(name: Seq<char>) -> PathView {
    PathView { root: Seq::empty(), names: seq![name] }
}

/// The file that configures the template in a folder.
pub fn config_file(dir: &TemplatePath) -> (r: TemplatePath)
    ensures
        r@ == dir@.join(single(CONFIG_FILE_NAME@)),
{
    let mut names: Vec<String> = Vec::new();
    names.push(CONFIG_FILE_NAME.to_owned());
    let file: TemplatePath = TemplatePath { root: String::new(), names };
    assert(file@ =~= single(CONFIG_FILE_NAME@));
    dir.join(&file)
}

/// A file of a template was not found.
#[derive(Clone, Copy, PartialEq, Eq, Debug, Structural)]
pub enum LocateFileError {
    /// It is in no folder from the template folder up to the base folder.
    NotFound,
    /// It is in no folder from the template folder up to the root, and the base folder is not
    /// among them.
    ReachedRoot,
}

/// The folder `k` levels above a folder.
pub open spec fn levels_up(folder: PathView, k: int) -> PathView {
    PathView { root: folder.root, names: folder.names.take(folder.names.len() - k) }
}

/// The place of a file `k` levels above a folder.
pub open spec fn candidate(file: PathView, folder: PathView, k: int) -> PathView {
    levels_up(folder, k).join(file)
}

/// How many levels up the search goes: to the base where it lies above the folder, else to the
/// root.
pub open spec fn height(base: PathView, folder: PathView) -> int {
    if folder.leads_up_to(base) {
        folder.names.len() - base.names.len()
    } else {
        folder.names.len() as int
    }
}

/// None of the first `n` places of the file is among the existing files.
pub open spec fn none_below(
    file: PathView,
    folder: PathView,
    existing: Seq<PathView>,
    n: int,
) -> bool {
    forall|k: int| 0 <= k < n ==> !existing.contains(#[trigger] candidate(file, folder, k))
}

proof fn lemma_levels_up(base: PathView, folder: PathView, k: int)
    requires
        0 <= k <= height(base, folder),
    ensures
        levels_up(folder, k) == base <==> folder.leads_up_to(base) && k == height(base, folder),
        levels_up(folder, k).parent() == (if k == folder.names.len() {
            None
        } else {
            Some(levels_up(folder, k + 1))
        }),
{
    let here = levels_up(folder, k);
    if folder.leads_up_to(base) && k == height(base, folder) {
        assert(here.names =~= base.names);
        assert(here =~= base);
    }
    if here == base {
        assert(base.names =~= folder.names.subrange(0, base.names.len() as int));
    }
    if k < folder.names.len() {
        assert(here.names.drop_last() =~= levels_up(folder, k + 1).names);
    }
}

fn is_among(path: &TemplatePath, paths: &Vec<TemplatePath>) -> (r: bool)
    ensures
        r == paths.deep_view().contains(path@),
{
    let mut i: usize = 0;
    while i < paths.len()
        invariant
            i <= paths@.len(),
            forall|j: int| 0 <= j < i ==> paths.deep_view()[j] != path@,
        decreases paths@.len() - i,
    {
        if paths[i].same(path) {
            assert(paths.deep_view()[i as int] == path@);
            return true;
        }
        i = i + 1;
    }
    false
}

/// The places where a file of a template may be, the nearest to the template folder first.
pub fn template_file_candidates(
    name: &str,
    template_base_folder: &TemplatePath,
    template_folder: &TemplatePath,
    style: PathStyle,
) -> (r: Vec<TemplatePath>)
    ensures
        r.deep_view() == Seq::new(
            (height(template_base_folder@, template_folder@) + 1) as nat,
            |k: int| candidate(path_of(name@, style), template_folder@, k),
        ),
{
    let file: TemplatePath = TemplatePath::parse(name, style);
    let mut r: Vec<TemplatePath> = Vec::new();
    let mut search_folder: TemplatePath = template_folder.clone();
    let ghost base = template_base_folder@;
    let ghost folder = template_folder@;
    let ghost mut k: int = 0;
    let ghost all = Seq::new((height(base, folder) + 1) as nat, |j: int| candidate(path_of(name@, style), folder, j));
    assert(levels_up(folder, 0) =~= folder);
    loop
        invariant
            0 <= k <= height(base, folder),
            file@ == path_of(name@, style),
            base == template_base_folder@,
            folder == template_folder@,
            all == Seq::new(
                (height(base, folder) + 1) as nat,
                |j: int| candidate(path_of(name@, style), folder, j),
            ),
            search_folder@ == levels_up(folder, k),
            r.deep_view() == all.take(k),
        decreases height(base, folder) - k,
    {
        let ghost earlier = r.deep_view();
        r.push(search_folder.join(&file));
        proof {
            lemma_levels_up(base, folder, k);
            assert(r.deep_view() =~= earlier.push(all[k]));
            assert(r.deep_view() =~= all.take(k + 1));
            assert(k == height(base, folder) ==> all.take(k + 1) =~= all);
        }
        if search_folder.same(template_base_folder) {
            return r;
        }
        match search_folder.parent() {
            Some(parent) => {
                search_folder = parent;
                proof {
                    k = k + 1;
                }
            },
            None => {
                return r;
            },
        }
    }
}

/// Locates a file of a template: in the template folder, or else in the nearest folder above it
/// that has the file, up to the base folder. Of the existing files, those count that stand at
/// one of the candidate places.
pub fn locate_template_file(
    name: &str,
    template_base_folder: &TemplatePath,
    template_folder: &TemplatePath,
    existing: &Vec<TemplatePath>,
    style: PathStyle,
) -> (r: Result<TemplatePath, LocateFileError>)
    ensures
        ({
            let base = template_base_folder@;
            let folder = template_folder@;
            let files = existing.deep_view();
            match r {
                Ok(file) => exists|k: int| {
                    &&& 0 <= k <= height(base, folder)
                    &&& file@ == #[trigger] candidate(path_of(name@, style), folder, k)
                    &&& files.contains(file@)
                    &&& none_below(path_of(name@, style), folder, files, k)
                },
                Err(e) => {
                    &&& none_below(path_of(name@, style), folder, files, height(base, folder) + 1)
                    &&& e == (if folder.leads_up_to(base) {
                        LocateFileError::NotFound
                    } else {
                        LocateFileError::ReachedRoot
                    })
                },
            }
        }),
{
    let file: TemplatePath = TemplatePath::parse(name, style);
    let mut search_folder: TemplatePath = template_folder.clone();
    let ghost base = template_base_folder@;
    let ghost folder = template_folder@;
    let ghost files = existing.deep_view();
    let ghost mut k: int = 0;
    assert(levels_up(folder, 0) =~= folder);
    loop
        invariant
            0 <= k <= height(base, folder),
            file@ == path_of(name@, style),
            base == template_base_folder@,
            folder == template_folder@,
            files == existing.deep_view(),
            search_folder@ == levels_up(folder, k),
            none_below(path_of(name@, style), folder, files, k),
        decreases height(base, folder) - k,
    {
        let file_path: TemplatePath = search_folder.join(&file);
        assert(file_path@ == candidate(path_of(name@, style), folder, k));
        if is_among(&file_path, existing) {
            return Ok(file_path);
        }
        proof {
            lemma_levels_up(base, folder, k);
        }
        if search_folder.same(template_base_folder) {
            return Err(LocateFileError::NotFound);
        }
        match search_folder.parent() {
            Some(parent) => {
                search_folder = parent;
                proof {
                    k = k + 1;
                }
            },
            None => {
                return Err(LocateFileError::ReachedRoot);
            },
        }
    }
}

} // verus!
