//! Paths as the rules see them: a root and the names below it.

use crate::text::{
    is_separator, join, joined, law_pieces_are_unbroken, lemma_filter_last, pieces, same_text,
    separates, split, strip_suffix, unbroken, Separator,
};
use vstd::prelude::*;

verus! {

/// A path: the text of its root (empty where the path is relative) and the names below the
/// root, in order.
#[derive(Debug)]
pub struct TemplatePath {
    pub root: String,
    pub names: Vec<String>,
}

/// What a [`TemplatePath`] holds.
#[verifier::ext_equal]
pub struct PathView {
    pub root: Seq<char>,
    pub names: Seq<Seq<char>>,
}

impl View for TemplatePath {
    type V = PathView;

    open spec fn view(&self) -> PathView {
        PathView { root: self.root@, names: self.names.deep_view() }
    }
}

impl DeepView for TemplatePath {
    type V = PathView;

    open spec fn deep_view(&self) -> PathView {
        self@
    }
}

impl Clone for TemplatePath {
    fn clone(&self) -> (r: TemplatePath)
        ensures
            r@ == self@,
    {
        let names: Vec<String> = duplicate_texts(&self.names);
        TemplatePath { root: self.root.clone(), names }
    }
}

/// How the operating system writes paths.
#[derive(Clone, Copy, PartialEq, Eq, Debug, Structural)]
pub enum PathStyle {
    /// With slashes.
    Unix,
    /// With backslashes. Slashes are read too, and a path may begin with a drive or a share.
    Windows,
}

impl PathStyle {
    /// What stands between the names of a path when it is written.
    pub open spec fn mark(self) -> Seq<char> {
        match self {
            PathStyle::Unix => seq!['/'],
            PathStyle::Windows => seq!['\\'],
        }
    }

    /// What separates the names of a path when it is read.
    pub open spec fn separator(self) -> Separator {
        match self {
            PathStyle::Unix => Separator::Slash,
            PathStyle::Windows => Separator::AnySlash,
        }
    }

    fn write_mark(self) -> (r: &'static str)
        ensures
            r@ == self.mark(),
    {
        proof {
            reveal_strlit("/");
            reveal_strlit("\\");
            assert("/"@ =~= seq!['/']);
            assert("\\"@ =~= seq!['\\']);
        }
        match self {
            PathStyle::Unix => "/",
            PathStyle::Windows => "\\",
        }
    }

    fn read_separator(self) -> (r: Separator)
        ensures
            r == self.separator(),
    {
        match self {
            PathStyle::Unix => Separator::Slash,
            PathStyle::Windows => Separator::AnySlash,
        }
    }
}

/// A piece of a path's text that names something: neither empty nor a lone dot.
pub open spec fn names_something() -> spec_fn(Seq<char>) -> bool {
    |piece: Seq<char>| piece.len() > 0 && piece != seq!['.']
}

/// A text that begins with a drive: a letter and a colon.
pub open spec fn has_drive(text: Seq<char>, style: PathStyle) -> bool {
    &&& style == PathStyle::Windows
    &&& text.len() >= 2
    &&& 'a' <= text[0] <= 'z' || 'A' <= text[0] <= 'Z'
    &&& text[1] == ':'
}

/// A text that begins with a share: two separators, the name of a server, and that of a share.
pub open spec fn has_share(text: Seq<char>, style: PathStyle) -> bool {
    let all = pieces(text, style.separator());
    &&& style == PathStyle::Windows
    &&& all.len() >= 4
    &&& all[0].len() == 0 && all[1].len() == 0
    &&& all[2].len() > 0 && all[3].len() > 0
}

/// The path that a text without drive or share denotes. A leading separator is the root;
/// repeated separators, a trailing one and lone dots mean nothing, except for a dot at the very
/// beginning of a relative path.
pub open spec fn local_path_of(text: Seq<char>, style: PathStyle) -> PathView {
    let all = pieces(text, style.separator());
    PathView {
        root: if text.len() > 0 && separates(style.separator(), text[0]) {
            style.mark()
        } else {
            Seq::empty()
        },
        names: if all[0] == seq!['.'] {
            seq![seq!['.']] + all.filter(names_something())
        } else {
            all.filter(names_something())
        },
    }
}

/// The path that a text denotes. A drive is part of the root; a path on a share is kept whole.
pub open spec fn path_of(text: Seq<char>, style: PathStyle) -> PathView {
    if has_share(text, style) {
        PathView { root: text, names: Seq::empty() }
    } else if has_drive(text, style) {
        let rest = local_path_of(text.skip(2), style);
        PathView { root: text.take(2) + rest.root, names: rest.names }
    } else {
        local_path_of(text, style)
    }
}

impl PathView {
    /// The text of the path: its root, then its names with a separator between them.
    pub open spec fn text(self, style: PathStyle) -> Seq<char> {
        self.root + joined(self.names, style.mark())
    }

    /// The path with neither root nor names.
    pub open spec fn is_empty(self) -> bool {
        self.root.len() == 0 && self.names.len() == 0
    }

    /// The names without a dot in front.
    pub open spec fn without_leading_dot(self) -> Seq<Seq<char>> {
        if self.names.len() > 0 && self.names[0] == seq!['.'] {
            self.names.skip(1)
        } else {
            self.names
        }
    }

    /// The root that takes the place of this path's root, where another path has a root that is
    /// a lone separator. The drive or share stays.
    pub open spec fn rooted(self, mark: Seq<char>) -> Seq<char> {
        if mark.is_suffix_of(self.root) {
            self.root
        } else {
            self.root + mark
        }
    }

    /// The path `other`, taken from `self` where it is relative. From a path with a drive or a
    /// share, a path that has a root but neither of these keeps what `self` has.
    pub open spec fn join(self, other: PathView) -> PathView {
        if other.root.len() == 1 {
            PathView { root: self.rooted(other.root), names: other.names }
        } else if other.root.len() > 0 || self.is_empty() {
            other
        } else {
            PathView { root: self.root, names: self.names + other.without_leading_dot() }
        }
    }

    /// The path without its last name, where it has one.
    pub open spec fn parent(self) -> Option<PathView> {
        if self.names.len() == 0 {
            None
        } else {
            Some(PathView { root: self.root, names: self.names.drop_last() })
        }
    }

    /// Whether going up from the path leads to `base`: it has the same root, and begins with
    /// the same names.
    pub open spec fn leads_up_to(self, base: PathView) -> bool {
        self.root == base.root && base.names.is_prefix_of(self.names)
    }

    /// Whether the path begins with `base`. Only whole names count, and the empty path is at
    /// the beginning of every path.
    pub open spec fn starts_with(self, base: PathView) -> bool {
        base.is_empty() || self.leads_up_to(base)
    }

    /// A relative path that names what its text says, and nothing else: no name is empty,
    /// holds a separator or is a lone dot, and the first is no drive.
    pub open spec fn is_plain(self, style: PathStyle) -> bool {
        &&& self.root.len() == 0
        &&& self.names.len() > 0
        &&& !has_drive(self.names[0], style)
        &&& forall|i: int|
            0 <= i < self.names.len() ==> is_plain_name(#[trigger] self.names[i], style)
    }
}

/// A name that is neither empty nor a lone dot and holds no separator.
pub open spec fn is_plain_name(name: Seq<char>, style: PathStyle) -> bool {
    &&& names_something()(name)
    &&& unbroken(name, style.separator())
}

/// Reads a path from a text without drive or share.
fn parse_local(text: &str, style: PathStyle) -> (r: TemplatePath)
    ensures
        r@ == local_path_of(text@, style),
{
    let all: Vec<String> = split(text, style.read_separator());
    let ghost view = all.deep_view();
    proof {
        law_pieces_are_unbroken(text@, style.separator());
        reveal_strlit(".");
        assert("."@ =~= seq!['.']);
    }
    assert(all@.len() == view.len());
    let root: String = if !text.is_empty() && is_separator(
        style.read_separator(),
        text.get_char(0),
    ) {
        style.write_mark().to_owned()
    } else {
        String::new()
    };
    let mut names: Vec<String> = Vec::new();
    assert(names.deep_view() =~= Seq::<Seq<char>>::empty());
    if same_text(all[0].as_str(), ".") {
        names.push(".".to_owned());
        assert(names.deep_view() =~= seq![seq!['.']]);
    }
    let ghost front = names.deep_view();
    let mut i: usize = 0;
    proof {
        reveal(Seq::filter);
        assert(view.take(0) =~= Seq::<Seq<char>>::empty());
        assert(names.deep_view() =~= front + view.take(0).filter(names_something()));
    }
    while i < all.len()
        invariant
            i <= all@.len(),
            view == all.deep_view(),
            "."@ == seq!['.'],
            names.deep_view() == front + view.take(i as int).filter(names_something()),
        decreases all@.len() - i,
    {
        let ghost earlier = names.deep_view();
        proof {
            lemma_filter_last(view.take(i + 1), names_something());
            assert(view.take(i + 1).drop_last() =~= view.take(i as int));
        }
        if !all[i].as_str().is_empty() && !same_text(all[i].as_str(), ".") {
            names.push(all[i].clone());
            assert(names.deep_view() =~= earlier.push(view[i as int]));
            assert(names.deep_view() =~= front + view.take(i + 1).filter(names_something()));
        }
        i = i + 1;
    }
    assert(view.take(i as int) =~= view);
    let r: TemplatePath = TemplatePath { root, names };
    assert(r@ =~= local_path_of(text@, style));
    r
}

fn begins_with_share(text: &str, style: PathStyle) -> (r: bool)
    ensures
        r == has_share(text@, style),
{
    let all: Vec<String> = split(text, style.read_separator());
    let ghost view = all.deep_view();
    assert(all@.len() == view.len());
    assert(forall|i: int| 0 <= i < view.len() ==> view[i] == (#[trigger] all@[i])@);
    style == PathStyle::Windows && all.len() >= 4 && all[0].as_str().is_empty()
        && all[1].as_str().is_empty() && !all[2].as_str().is_empty() && !all[3].as_str().is_empty()
}

fn begins_with_drive(text: &str, style: PathStyle) -> (r: bool)
    ensures
        r == has_drive(text@, style),
{
    if style != PathStyle::Windows || text.unicode_len() < 2 {
        return false;
    }
    let letter: char = text.get_char(0);
    (('a' <= letter && letter <= 'z') || ('A' <= letter && letter <= 'Z')) && text.get_char(1)
        == ':'
}

impl TemplatePath {
    /// Reads a path from its text.
    pub fn parse(text: &str, style: PathStyle) -> (r: TemplatePath)
        ensures
            r@ == path_of(text@, style),
    {
        if begins_with_share(text, style) {
            let names: Vec<String> = Vec::new();
            assert(names.deep_view() =~= Seq::<Seq<char>>::empty());
            return TemplatePath { root: text.to_owned(), names };
        }
        if begins_with_drive(text, style) {
            let len: usize = text.unicode_len();
            let rest: TemplatePath = parse_local(text.substring_char(2, len), style);
            let mut root: String = text.substring_char(0, 2).to_owned();
            assert(text@.subrange(2, len as int) =~= text@.skip(2));
            assert(text@.subrange(0, 2) =~= text@.take(2));
            root.append(rest.root.as_str());
            return TemplatePath { root, names: rest.names };
        }
        parse_local(text, style)
    }

    /// Writes the path as a text.
    pub fn to_text(&self, style: PathStyle) -> (r: String)
        ensures
            r@ == self@.text(style),
    {
        let mut r: String = self.root.clone();
        let names: String = join(&self.names, style.write_mark());
        r.append(names.as_str());
        r
    }

    /// The root that takes the place of this path's root, where another path has a root that is
    /// a lone separator.
    fn root_with(&self, mark: &str) -> (r: String)
        ensures
            r@ == self@.rooted(mark@),
    {
        match strip_suffix(self.root.as_str(), mark) {
            Some(_) => self.root.clone(),
            None => {
                let mut root: String = self.root.clone();
                root.append(mark);
                root
            },
        }
    }

    /// Takes `other` from here, where it is relative.
    pub fn join(&self, other: &TemplatePath) -> (r: TemplatePath)
        ensures
            r@ == self@.join(other@),
    {
        if other.root.as_str().unicode_len() == 1 {
            let root: String = self.root_with(other.root.as_str());
            return TemplatePath { root, names: duplicate_texts(&other.names) };
        }
        if !other.root.as_str().is_empty() || (self.root.as_str().is_empty() && self.names.len()
            == 0) {
            return other.clone();
        }
        proof {
            reveal_strlit(".");
            assert("."@ =~= seq!['.']);
        }
        let mut names: Vec<String> = duplicate_texts(&self.names);
        let mut i: usize = if other.names.len() > 0 && same_text(other.names[0].as_str(), ".") {
            1
        } else {
            0
        };
        let ghost start = i as int;
        let ghost rest = other.names.deep_view();
        assert(names.deep_view() =~= self@.names + rest.subrange(start, start));
        while i < other.names.len()
            invariant
                0 <= start <= i <= other.names@.len(),
                rest == other.names.deep_view(),
                names.deep_view() == self@.names + rest.subrange(start, i as int),
            decreases other.names@.len() - i,
        {
            let ghost earlier = names.deep_view();
            names.push(other.names[i].clone());
            assert(names.deep_view() =~= earlier.push(rest[i as int]));
            assert(names.deep_view() =~= self@.names + rest.subrange(start, i + 1));
            i = i + 1;
        }
        assert(rest.subrange(start, i as int) =~= other@.without_leading_dot());
        TemplatePath { root: self.root.clone(), names }
    }

    /// Takes off the last name, where there is one.
    pub fn parent(&self) -> (r: Option<TemplatePath>)
        ensures
            r.deep_view() == self@.parent(),
    {
        if self.names.len() == 0 {
            return None;
        }
        let mut names: Vec<String> = duplicate_texts(&self.names);
        let ghost whole = names@;
        let _ = names.pop();
        assert(names@ =~= whole.drop_last());
        let r: TemplatePath = TemplatePath { root: self.root.clone(), names };
        assert(r@.names =~= self@.names.drop_last());
        Some(r)
    }

    /// Tells whether the path begins with `base`.
    pub fn starts_with(&self, base: &TemplatePath) -> (r: bool)
        ensures
            r == self@.starts_with(base@),
    {
        (base.root.as_str().is_empty() && base.names.len() == 0) || self.leads_up_to(base)
    }

    /// Tells whether going up from the path leads to `base`.
    fn leads_up_to(&self, base: &TemplatePath) -> (r: bool)
        ensures
            r == self@.leads_up_to(base@),
    {
        if !same_text(self.root.as_str(), base.root.as_str()) {
            return false;
        }
        if base.names.len() > self.names.len() {
            return false;
        }
        let ghost mine = self.names.deep_view();
        let ghost theirs = base.names.deep_view();
        let mut i: usize = 0;
        while i < base.names.len()
            invariant
                i <= base.names@.len() <= self.names@.len(),
                mine == self.names.deep_view(),
                theirs == base.names.deep_view(),
                mine == self@.names,
                theirs == base@.names,
                forall|j: int| 0 <= j < i ==> theirs[j] == mine[j],
            decreases base.names@.len() - i,
        {
            if !same_text(base.names[i].as_str(), self.names[i].as_str()) {
                assert(theirs[i as int] != mine[i as int]);
                assert(mine.subrange(0, theirs.len() as int)[i as int] == mine[i as int]);
                return false;
            }
            i = i + 1;
        }
        assert(theirs =~= mine.subrange(0, theirs.len() as int));
        true
    }

    /// Tells whether two paths have the same root and the same names.
    pub fn same(&self, other: &TemplatePath) -> (r: bool)
        ensures
            r == (self@ == other@),
    {
        if self.names.len() != other.names.len() {
            assert(self@.names.len() != other@.names.len());
            return false;
        }
        let r: bool = self.leads_up_to(other);
        if r {
            assert(self@.names =~= other@.names);
        }
        r
    }
}

/// The same texts once more.
pub fn duplicate_texts(texts: &Vec<String>) -> (r: Vec<String>)
    ensures
        r@ == texts@,
{
    let mut r: Vec<String> = Vec::new();
    let mut i: usize = 0;
    while i < texts.len()
        invariant
            i <= texts@.len(),
            r@ == texts@.take(i as int),
        decreases texts@.len() - i,
    {
        r.push(texts[i].clone());
        assert(r@ =~= texts@.take(i + 1));
        i = i + 1;
    }
    assert(r@ =~= texts@);
    r
}

/// Cutting at separators undoes joining by one, for pieces that hold none.
proof fn lemma_pieces_of_joined(parts: Seq<Seq<char>>, style: PathStyle)
    requires
        parts.len() > 0,
        forall|i: int|
            0 <= i < parts.len() ==> unbroken(#[trigger] parts[i], style.separator()),
    ensures
        pieces(joined(parts, style.mark()), style.separator()) == parts,
    decreases parts.len(),
{
    let sep = style.separator();
    let mark = style.mark();
    if parts.len() == 1 {
        lemma_pieces_extend(Seq::empty(), parts[0], sep);
        assert(Seq::<char>::empty() + parts[0] =~= parts[0]);
        let start = pieces(Seq::<char>::empty(), sep);
        assert(start.drop_last().push(start.last() + parts[0]) =~= parts);
    } else {
        let before = joined(parts.drop_last(), mark);
        assert forall|i: int| 0 <= i < parts.drop_last().len() implies unbroken(
            #[trigger] parts.drop_last()[i],
            sep,
        ) by {
            assert(parts.drop_last()[i] == parts[i]);
        }
        lemma_pieces_of_joined(parts.drop_last(), style);
        let opened = before.push(mark[0]);
        assert(opened.drop_last() =~= before);
        assert(pieces(opened, sep) == parts.drop_last().push(Seq::empty()));
        lemma_pieces_extend(opened, parts.last(), sep);
        assert(before + mark + parts.last() =~= opened + parts.last());
        let start = pieces(opened, sep);
        assert(start.drop_last() =~= parts.drop_last());
        assert(start.drop_last().push(start.last() + parts.last()) =~= parts);
    }
}

/// Text without a separator goes into the last piece.
proof fn lemma_pieces_extend(text: Seq<char>, more: Seq<char>, sep: Separator)
    requires
        unbroken(more, sep),
    ensures
        pieces(text + more, sep) == pieces(text, sep).drop_last().push(
            pieces(text, sep).last() + more,
        ),
    decreases more.len(),
{
    law_pieces_are_unbroken(text, sep);
    let all = pieces(text, sep);
    if more.len() == 0 {
        assert(text + more =~= text);
        assert(all.drop_last().push(all.last() + more) =~= all);
    } else {
        let less = more.drop_last();
        assert forall|i: int| 0 <= i < less.len() implies !separates(sep, #[trigger] less[i]) by {
            assert(less[i] == more[i]);
        }
        lemma_pieces_extend(text, less, sep);
        assert((text + more).drop_last() =~= text + less);
        assert((text + more).last() == more.last());
        assert(!separates(sep, more[more.len() - 1]));
        let before = pieces(text + less, sep);
        assert(before.drop_last() =~= all.drop_last());
        assert((all.last() + less).push(more.last()) =~= all.last() + more);
    }
}

/// Reading back the text of a plain path gives the path.
pub proof fn law_parse_inverts_text(path: PathView, style: PathStyle)
    requires
        path.is_plain(style),
    ensures
        path_of(path.text(style), style) == path,
{
    let names = path.names;
    let text = path.text(style);
    let sep = style.separator();
    assert(text =~= joined(names, style.mark()));
    assert forall|i: int| 0 <= i < names.len() implies unbroken(#[trigger] names[i], sep) by {
        assert(is_plain_name(names[i], style));
    }
    lemma_pieces_of_joined(names, style);
    lemma_all_kept(names, style);
    assert(is_plain_name(names[0], style));
    lemma_joined_starts(names, style.mark());
    let first = names[0];
    assert(first =~= text.subrange(0, first.len() as int));
    assert(text[0] == first[0]);
    assert(!separates(sep, first[0]));
    if has_drive(text, style) {
        if first.len() >= 2 {
            assert(text[1] == first[1]);
        } else {
            assert(text[1] == style.mark()[0]);
        }
        assert(false);
    }
    assert(path_of(text, style) =~= path);
}

/// Joined parts begin with the first of them, and what follows it begins with what joins them.
proof fn lemma_joined_starts(parts: Seq<Seq<char>>, mark: Seq<char>)
    requires
        parts.len() > 0,
        mark.len() == 1,
    ensures
        parts[0].is_prefix_of(joined(parts, mark)),
        joined(parts, mark).len() > parts[0].len() ==> joined(parts, mark)[parts[0].len() as int]
            == mark[0],
    decreases parts.len(),
{
    if parts.len() > 1 {
        lemma_joined_starts(parts.drop_last(), mark);
        let before = joined(parts.drop_last(), mark);
        assert(parts.drop_last()[0] == parts[0]);
        let whole = joined(parts, mark);
        assert(whole.subrange(0, parts[0].len() as int) =~= before.subrange(
            0,
            parts[0].len() as int,
        ));
    } else {
        assert(parts[0].subrange(0, parts[0].len() as int) =~= parts[0]);
    }
}

proof fn lemma_all_kept(names: Seq<Seq<char>>, style: PathStyle)
    requires
        forall|i: int| 0 <= i < names.len() ==> is_plain_name(#[trigger] names[i], style),
    ensures
        names.filter(names_something()) == names,
    decreases names.len(),
{
    reveal(Seq::filter);
    if names.len() > 0 {
        assert forall|i: int| 0 <= i < names.drop_last().len() implies is_plain_name(
            #[trigger] names.drop_last()[i],
            style,
        ) by {
            assert(names.drop_last()[i] == names[i]);
        }
        lemma_all_kept(names.drop_last(), style);
        lemma_filter_last(names, names_something());
        assert(is_plain_name(names[names.len() - 1], style));
        assert(names.drop_last().push(names.last()) =~= names);
    }
}

/// A relative path taken from `base` begins with `base`, and leads up to it.
pub proof fn law_join_stays_below(base: PathView, other: PathView)
    requires
        other.root.len() == 0,
    ensures
        base.join(other).starts_with(base),
        base.join(other).leads_up_to(base),
{
    let whole = base.join(other);
    assert(whole.root =~= base.root);
    assert(base.names =~= whole.names.subrange(0, base.names.len() as int));
}

/// The parent of a plain name taken from `base` is `base`.
pub proof fn law_parent_inverts_join(base: PathView, name: Seq<char>, style: PathStyle)
    requires
        is_plain_name(name, style),
    ensures
        base.join(PathView { root: Seq::empty(), names: seq![name] }).parent() == Some(base),
{
    let other = PathView { root: Seq::empty(), names: seq![name] };
    assert(other.without_leading_dot() =~= other.names);
    assert(base.join(other).names.drop_last() =~= base.names);
    assert(base.join(other).parent()->0 =~= base);
}

} // verus!
