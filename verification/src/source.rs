//! Getting a template from where it is into a temporary folder.

use crate::path::{PathView, TemplatePath};
use crate::text::{lemma_filter_keeps, lemma_filter_last, strip_suffix, LIQUID_SUFFIX};
use vstd::prelude::*;

verus! {

/// A template in a git repository.
#[derive(Debug)]
pub struct GitLocation {
    pub url: String,
    pub branch: Option<String>,
    pub tag: Option<String>,
    pub revision: Option<String>,
    pub identity: Option<TemplatePath>,
    pub gitconfig: Option<TemplatePath>,
    pub skip_submodules: bool,
}

/// Where a template is.
#[derive(Debug)]
pub enum TemplateLocation {
    Git(GitLocation),
    Path(TemplatePath),
}

/// What is to be done to get a template into a temporary folder. The first step that fails is
/// the last one.
#[derive(Debug)]
pub enum SourceStep {
    /// Clone a repository into a new temporary folder. The branch is that of the clone.
    Clone { git: GitLocation },
    /// Make a new temporary folder.
    MakeFolder,
    /// Copy the files of a folder there.
    CopyFiles { from: TemplatePath, overwrite: bool },
    /// Remove the history of the repository from the temporary folder.
    RemoveHistory,
    /// Rename the files there that have the suffix of a template file.
    StripLiquidSuffixes,
    /// Read the branch, where there is one, from a folder.
    ReadBranch { path: TemplatePath },
}

/// What a [`SourceStep`] holds.
pub enum SourceStepView {
    Clone { git: GitLocation },
    MakeFolder,
    CopyFiles { from: PathView, overwrite: bool },
    RemoveHistory,
    StripLiquidSuffixes,
    ReadBranch { path: PathView },
}

impl View for SourceStep {
    type V = SourceStepView;

    open spec fn view(&self) -> SourceStepView {
        match self {
            SourceStep::Clone { git } => SourceStepView::Clone { git: *git },
            SourceStep::MakeFolder => SourceStepView::MakeFolder,
            SourceStep::CopyFiles { from, overwrite } => SourceStepView::CopyFiles {
                from: from@,
                overwrite: *overwrite,
            },
            SourceStep::RemoveHistory => SourceStepView::RemoveHistory,
            SourceStep::StripLiquidSuffixes => SourceStepView::StripLiquidSuffixes,
            SourceStep::ReadBranch { path } => SourceStepView::ReadBranch { path: path@ },
        }
    }
}

impl DeepView for SourceStep {
    type V = SourceStepView;

    open spec fn deep_view(&self) -> SourceStepView {
        self@
    }
}

/// The steps for a location. Either way the history of the template is removed. Only what was
/// cloned is rid of suffixes: copying does so by itself.
pub open spec fn source_steps(location: TemplateLocation) -> Seq<SourceStepView> {
    match location {
        TemplateLocation::Git(git) => seq![
            SourceStepView::Clone { git },
            SourceStepView::RemoveHistory,
            SourceStepView::StripLiquidSuffixes,
        ],
        TemplateLocation::Path(path) => seq![
            SourceStepView::MakeFolder,
            SourceStepView::CopyFiles { from: path@, overwrite: false },
            SourceStepView::RemoveHistory,
            SourceStepView::ReadBranch { path: path@ },
        ],
    }
}

/// Plans how to get a template into a temporary folder.
pub fn get_source_template_into_temp(template_location: TemplateLocation) -> (r: Vec<SourceStep>)
    ensures
        r.deep_view() == source_steps(template_location),
        template_location matches TemplateLocation::Git(git) ==> r@.len() > 0 && r@[0] == (
        SourceStep::Clone { git }),
{
    let mut r: Vec<SourceStep> = Vec::new();
    match template_location {
        TemplateLocation::Git(git) => {
            r.push(SourceStep::Clone { git });
            r.push(SourceStep::RemoveHistory);
            r.push(SourceStep::StripLiquidSuffixes);
        },
        TemplateLocation::Path(path) => {
            r.push(SourceStep::MakeFolder);
            r.push(SourceStep::CopyFiles { from: path.clone(), overwrite: false });
            r.push(SourceStep::RemoveHistory);
            r.push(SourceStep::ReadBranch { path });
        },
    }
    assert(r.deep_view() =~= source_steps(template_location));
    r
}

/// What an entry of a folder is.
#[derive(Clone, Copy, PartialEq, Eq, Debug, Structural)]
pub enum EntryKind {
    Folder,
    File,
    /// Something else, such as a symbolic link.
    Other,
}

/// An entry of a folder or of one of its subfolders.
#[derive(Debug)]
pub struct FolderEntry {
    pub path: String,
    pub kind: EntryKind,
}

/// A file and its new path.
#[derive(Debug)]
pub struct Renaming {
    pub from: String,
    pub to: String,
}

impl DeepView for FolderEntry {
    type V = (Seq<char>, EntryKind);

    open spec fn deep_view(&self) -> (Seq<char>, EntryKind) {
        (self.path@, self.kind)
    }
}

impl DeepView for Renaming {
    type V = (Seq<char>, Seq<char>);

    open spec fn deep_view(&self) -> (Seq<char>, Seq<char>) {
        (self.from@, self.to@)
    }
}

/// The entry is a file with the suffix of a template file.
pub open spec fn has_liquid_suffix() -> spec_fn((Seq<char>, EntryKind)) -> bool {
    |entry: (Seq<char>, EntryKind)|
        entry.1 == EntryKind::File && LIQUID_SUFFIX@.is_suffix_of(entry.0)
}

/// The path of an entry without the suffix, beside the path that it has.
pub open spec fn renaming() -> spec_fn((Seq<char>, EntryKind)) -> (Seq<char>, Seq<char>) {
    |entry: (Seq<char>, EntryKind)|
        (entry.0, entry.0.take(entry.0.len() - LIQUID_SUFFIX@.len()))
}

/// The files with the suffix of a template file, each with its path without the suffix, in the
/// order of the entries.
pub open spec fn renamings(entries: Seq<(Seq<char>, EntryKind)>) -> Seq<(Seq<char>, Seq<char>)> {
    entries.filter(has_liquid_suffix()).map_values(renaming())
}

/// Lists the files whose suffix is to be removed, for parity with templates that are copied.
/// The entries are those of a folder and of all its subfolders.
pub fn strip_liquid_suffixes(entries: &Vec<FolderEntry>) -> (r: Vec<Renaming>)
    ensures
        r.deep_view() == renamings(entries.deep_view()),
{
    let mut r: Vec<Renaming> = Vec::new();
    let ghost all = entries.deep_view();
    let mut i: usize = 0;
    proof {
        reveal(Seq::filter);
        assert(all.take(0) =~= Seq::empty());
        assert(r.deep_view() =~= renamings(all.take(0)));
    }
    while i < entries.len()
        invariant
            i <= entries@.len(),
            all == entries.deep_view(),
            r.deep_view() == renamings(all.take(i as int)),
        decreases entries@.len() - i,
    {
        let ghost earlier = r.deep_view();
        let entry: &FolderEntry = &entries[i];
        proof {
            lemma_filter_last(all.take(i + 1), has_liquid_suffix());
            assert(all.take(i + 1).drop_last() =~= all.take(i as int));
            assert(all.take(i + 1).last() == all[i as int]);
        }
        if entry.kind == EntryKind::File {
            if let Some(to) = strip_suffix(entry.path.as_str(), LIQUID_SUFFIX) {
                r.push(Renaming { from: entry.path.clone(), to });
                assert(r.deep_view() =~= earlier.push(renaming()(all[i as int])));
                assert(r.deep_view() =~= renamings(all.take(i + 1)));
            }
        }
        i = i + 1;
    }
    assert(all.take(i as int) =~= all);
    r
}

/// A renaming takes the suffix off, and nothing else.
pub proof fn law_renaming_takes_the_suffix_off(entries: Seq<(Seq<char>, EntryKind)>, i: int)
    requires
        0 <= i < renamings(entries).len(),
    ensures
        renamings(entries)[i].0 == renamings(entries)[i].1 + LIQUID_SUFFIX@,
        entries.contains((renamings(entries)[i].0, EntryKind::File)),
{
    let kept = entries.filter(has_liquid_suffix());
    lemma_filter_keeps(entries, has_liquid_suffix(), i);
    let from = kept[i].0;
    let cut = from.len() - LIQUID_SUFFIX@.len();
    assert(from.skip(cut) =~= LIQUID_SUFFIX@);
    assert(from =~= from.take(cut) + LIQUID_SUFFIX@);
}

/// A step clones a repository.
pub open spec fn is_clone(step: SourceStepView) -> bool {
    step is Clone
}

/// From a git location there is one clone, the first step, of the very location that was given:
/// each part of it is as it was. What was cloned is rid of its history and of suffixes.
pub proof fn law_the_given_location_is_cloned(git: GitLocation)
    ensures
        ({
            let steps = source_steps(TemplateLocation::Git(git));
            &&& steps.len() == 3
            &&& steps[0] is Clone
            &&& steps[0]->git.url == git.url
            &&& steps[0]->git.branch == git.branch
            &&& steps[0]->git.tag == git.tag
            &&& steps[0]->git.revision == git.revision
            &&& steps[0]->git.identity == git.identity
            &&& steps[0]->git.gitconfig == git.gitconfig
            &&& steps[0]->git.skip_submodules == git.skip_submodules
            &&& forall|i: int| 0 < i < steps.len() ==> !is_clone(#[trigger] steps[i])
            &&& steps[1] is RemoveHistory
            &&& steps[2] is StripLiquidSuffixes
        }),
{
}

/// A template in a folder is copied from that folder into a new one, without overwriting
/// anything, and rid of its history. The branch is read from the folder that was given. Nothing
/// is cloned.
pub proof fn law_the_given_folder_is_copied(path: TemplatePath)
    ensures
        ({
            let steps = source_steps(TemplateLocation::Path(path));
            &&& steps.len() == 4
            &&& steps[0] is MakeFolder
            &&& steps[1] is CopyFiles && steps[1]->from == path@ && !steps[1]->overwrite
            &&& steps[2] is RemoveHistory
            &&& steps[3] is ReadBranch && steps[3]->path == path@
            &&& forall|i: int| 0 <= i < steps.len() ==> !is_clone(#[trigger] steps[i])
        }),
{
}

/// The model of a step has all that the step has.
pub proof fn law_nothing_of_a_source_step_is_lost(
    git: GitLocation,
    path: TemplatePath,
    overwrite: bool,
)
    ensures
        (SourceStep::Clone { git })@ == (SourceStepView::Clone { git }),
        SourceStep::MakeFolder@ == SourceStepView::MakeFolder,
        (SourceStep::CopyFiles { from: path, overwrite })@ == (SourceStepView::CopyFiles {
            from: path@,
            overwrite,
        }),
        SourceStep::RemoveHistory@ == SourceStepView::RemoveHistory,
        SourceStep::StripLiquidSuffixes@ == SourceStepView::StripLiquidSuffixes,
        (SourceStep::ReadBranch { path })@ == (SourceStepView::ReadBranch { path: path@ }),
        (SourceStep::Clone { git }).deep_view() == (SourceStepView::Clone { git }),
        (SourceStep::CopyFiles { from: path, overwrite }).deep_view() == (
        SourceStepView::CopyFiles { from: path@, overwrite }),
        (SourceStep::ReadBranch { path }).deep_view() == (SourceStepView::ReadBranch {
            path: path@,
        }),
{
}

/// The model of an entry is its path and its kind, and that of a renaming the old and the new
/// path.
pub proof fn law_nothing_of_an_entry_is_lost(entry: FolderEntry, renaming: Renaming)
    ensures
        entry.deep_view() == (entry.path@, entry.kind),
        renaming.deep_view() == (renaming.from@, renaming.to@),
{
}

/// A file with the suffix is renamed, to its path without the suffix. A folder, anything else
/// that is no file, and a file without the suffix are not.
pub proof fn law_which_entries_are_renamed(path: Seq<char>, kind: EntryKind)
    ensures
        ({
            let suffix = seq!['.', 'l', 'i', 'q', 'u', 'i', 'd'];
            &&& renamings(seq![(path + suffix, EntryKind::File)]) == seq![(path + suffix, path)]
            &&& kind != EntryKind::File || !suffix.is_suffix_of(path) ==> renamings(
                seq![(path, kind)],
            ).len() == 0
        }),
{
    let suffix = seq!['.', 'l', 'i', 'q', 'u', 'i', 'd'];
    reveal_strlit(".liquid");
    assert(LIQUID_SUFFIX@ =~= suffix);
    reveal(Seq::filter);
    let whole = path + suffix;
    assert(whole.subrange(whole.len() - suffix.len(), whole.len() as int) =~= suffix);
    assert(whole.take(path.len() as int) =~= path);
    let one = seq![(whole, EntryKind::File)];
    lemma_filter_last(one, has_liquid_suffix());
    assert(one.drop_last() =~= Seq::<(Seq<char>, EntryKind)>::empty());
    assert(one.filter(has_liquid_suffix()) =~= one);
    assert(renamings(one) =~= seq![(whole, path)]);
    let other = seq![(path, kind)];
    lemma_filter_last(other, has_liquid_suffix());
    assert(other.drop_last() =~= Seq::<(Seq<char>, EntryKind)>::empty());
}

/// Entries are renamed one by one: which of them are, and to what, depends on nothing else, and
/// they stay in order.
pub proof fn law_entries_are_renamed_one_by_one(
    front: Seq<(Seq<char>, EntryKind)>,
    back: Seq<(Seq<char>, EntryKind)>,
)
    ensures
        renamings(front + back) == renamings(front) + renamings(back),
        renamings(Seq::empty()).len() == 0,
    decreases back.len(),
{
    reveal(Seq::filter);
    if back.len() == 0 {
        assert(front + back =~= front);
        assert(renamings(front) + renamings(back) =~= renamings(front));
    } else {
        law_entries_are_renamed_one_by_one(front, back.drop_last());
        assert((front + back).drop_last() =~= front + back.drop_last());
        lemma_filter_last(front + back, has_liquid_suffix());
        lemma_filter_last(back, has_liquid_suffix());
        assert(renamings(front + back) =~= renamings(front) + renamings(back));
    }
}

} // verus!
