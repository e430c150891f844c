//! What paths are, by how they are read, written, joined and compared.

use crate::path::{
    has_drive, has_share, local_path_of, names_something, path_of, PathStyle, PathView,
    TemplatePath,
};
use crate::text::{
    joined, law_pieces_are_unbroken, lemma_filter_keeps, lemma_filter_last, pieces, separates,
    unbroken, Separator,
};
use crate::text_laws::{law_joining_group_by_group, law_pieces_of_both_sides};
use vstd::prelude::*;

verus! {

/// The model of a path is its root and its names.
pub proof fn law_nothing_of_a_path_is_lost(path: TemplatePath)
    ensures
        path@.root == path.root@,
        path@.names.len() == path.names@.len(),
        forall|i: int| 0 <= i < path.names@.len() ==> path@.names[i] == (#[trigger] path.names@[i])@,
        path.deep_view() == path@,
{
}

/// Which characters paths are written with, and read with.
pub proof fn law_characters_between_names(c: char)
    ensures
        PathStyle::Unix.mark() == seq!['/'],
        PathStyle::Windows.mark() == seq!['\\'],
        separates(PathStyle::Unix.separator(), c) <==> c == '/',
        separates(PathStyle::Windows.separator(), c) <==> c == '/' || c == '\\',
{
}

/// A path is written as its root, followed by its names. Between two names stands one character.
pub proof fn law_text_of_a_path(
    root: Seq<char>,
    names: Seq<Seq<char>>,
    name: Seq<char>,
    style: PathStyle,
)
    ensures
        (PathView { root, names: Seq::empty() }).text(style) == root,
        (PathView { root, names: seq![name] }).text(style) == root + name,
        names.len() > 0 ==> (PathView { root, names: names.push(name) }).text(style) == (PathView {
            root,
            names,
        }).text(style) + style.mark() + name,
{
    assert(root + Seq::<char>::empty() =~= root);
    if names.len() > 0 {
        law_joining_group_by_group(names, seq![name], style.mark());
        assert(names + seq![name] =~= names.push(name));
        law_joining_group_by_group(seq![name], Seq::empty(), style.mark());
        assert(root + (joined(names, style.mark()) + style.mark() + name) =~= root + joined(
            names,
            style.mark(),
        ) + style.mark() + name);
    }
}

proof fn lemma_named_both(front: Seq<Seq<char>>, back: Seq<Seq<char>>)
    ensures
        (front + back).filter(names_something()) == front.filter(names_something()) + back.filter(
            names_something(),
        ),
    decreases back.len(),
{
    reveal(Seq::filter);
    if back.len() == 0 {
        assert(front + back =~= front);
        assert(front.filter(names_something()) + back.filter(names_something()) =~= front.filter(
            names_something(),
        ));
    } else {
        lemma_named_both(front, back.drop_last());
        assert((front + back).drop_last() =~= front + back.drop_last());
        lemma_filter_last(front + back, names_something());
        lemma_filter_last(back, names_something());
        assert((front + back).filter(names_something()) =~= front.filter(names_something())
            + back.filter(names_something()));
    }
}

/// What is left of the names of a text's path without a dot in front.
proof fn lemma_without_dot(text: Seq<char>, style: PathStyle)
    ensures
        local_path_of(text, style).without_leading_dot() == pieces(text, style.separator()).filter(
            names_something(),
        ),
{
    let all = pieces(text, style.separator());
    let kept = all.filter(names_something());
    let path = local_path_of(text, style);
    if all[0] == seq!['.'] {
        assert((seq![seq!['.']] + kept).skip(1) =~= kept);
    } else if kept.len() > 0 {
        lemma_filter_keeps(all, names_something(), 0);
    }
}

/// A text that does not begin with a separator has a path that is relative, and names something
/// if the text has anything in it.
proof fn lemma_not_empty(text: Seq<char>, style: PathStyle)
    requires
        text.len() > 0,
        !separates(style.separator(), text[0]),
    ensures
        local_path_of(text, style).names.len() > 0,
        pieces(text, style.separator())[0].len() > 0,
    decreases text.len(),
{
    let sep = style.separator();
    lemma_first_piece(text, sep);
    let all = pieces(text, sep);
    law_pieces_are_unbroken(text, sep);
    if all[0] != seq!['.'] {
        lemma_kept_first(all);
    }
}

proof fn lemma_first_piece(text: Seq<char>, sep: Separator)
    requires
        text.len() > 0,
        !separates(sep, text[0]),
    ensures
        pieces(text, sep)[0].len() > 0,
    decreases text.len(),
{
    let front = text.drop_last();
    law_pieces_are_unbroken(front, sep);
    if front.len() == 0 {
        assert(front =~= Seq::<char>::empty());
    } else {
        assert(front[0] == text[0]);
        lemma_first_piece(front, sep);
    }
}

proof fn lemma_kept_first(all: Seq<Seq<char>>)
    requires
        all.len() > 0,
        names_something()(all[0]),
    ensures
        all.filter(names_something()).len() > 0,
    decreases all.len(),
{
    lemma_filter_last(all, names_something());
    if all.len() > 1 {
        assert(all.drop_last()[0] == all[0]);
        lemma_kept_first(all.drop_last());
    }
}

proof fn lemma_local_path_in_two(
    front: Seq<char>,
    c: char,
    back: Seq<char>,
    style: PathStyle,
)
    requires
        front.len() > 0,
        separates(style.separator(), c),
        back.len() > 0 ==> !separates(style.separator(), back[0]),
    ensures
        local_path_of(front.push(c) + back, style) == local_path_of(front, style).join(
            local_path_of(back, style),
        ),
{
    let sep = style.separator();
    let whole = front.push(c) + back;
    law_pieces_of_both_sides(front, c, back, sep);
    law_pieces_are_unbroken(front, sep);
    lemma_named_both(pieces(front, sep), pieces(back, sep));
    lemma_without_dot(back, style);
    if !separates(sep, front[0]) {
        lemma_not_empty(front, style);
    }
    assert(whole[0] == front[0]);
    assert(pieces(whole, sep)[0] == pieces(front, sep)[0]);
    let one = local_path_of(front, style);
    let other = local_path_of(back, style);
    assert(other.root.len() == 0);
    assert(!one.is_empty());
    assert(local_path_of(whole, style).names =~= one.names + other.without_leading_dot());
    assert(local_path_of(whole, style) =~= one.join(other));
}

/// A text is read in parts: what stands before a slash and what stands after it are read, and
/// the second path is taken from the first. A slash at the end thus means nothing.
pub proof fn law_paths_are_read_in_parts(front: Seq<char>, back: Seq<char>)
    requires
        front.len() > 0,
        back.len() > 0 ==> back[0] != '/',
    ensures
        path_of(front.push('/') + back, PathStyle::Unix) == path_of(front, PathStyle::Unix).join(
            path_of(back, PathStyle::Unix),
        ),
        path_of(front.push('/'), PathStyle::Unix) == path_of(front, PathStyle::Unix),
{
    lemma_local_path_in_two(front, '/', back, PathStyle::Unix);
    lemma_local_path_in_two(front, '/', Seq::empty(), PathStyle::Unix);
    assert(front.push('/') + Seq::<char>::empty() =~= front.push('/'));
    law_a_name_is_read_as_itself(Seq::empty(), PathStyle::Unix);
    let one = path_of(front, PathStyle::Unix);
    let none = path_of(Seq::empty(), PathStyle::Unix);
    assert(none.without_leading_dot() =~= Seq::empty());
    if one.is_empty() {
        assert(one =~= none);
    } else {
        assert(one.names + none.without_leading_dot() =~= one.names);
        assert(one.join(none) =~= one);
    }
}

/// So it is with both separators of Windows, in texts without drive or share.
pub proof fn law_paths_are_read_in_parts_on_windows(front: Seq<char>, c: char, back: Seq<char>)
    requires
        front.len() > 0,
        c == '/' || c == '\\',
        back.len() > 0 ==> back[0] != '/' && back[0] != '\\',
    ensures
        ({
            let whole = front.push(c) + back;
            let style = PathStyle::Windows;
            !has_drive(whole, style) && !has_share(whole, style) && !has_drive(front, style)
                && !has_share(front, style) && !has_drive(back, style) && !has_share(back, style)
                ==> path_of(whole, style) == path_of(front, style).join(path_of(back, style))
        }),
{
    lemma_local_path_in_two(front, c, back, PathStyle::Windows);
}

/// A text without separators is the name that it is. The empty text names nothing.
pub proof fn law_a_name_is_read_as_itself(name: Seq<char>, style: PathStyle)
    requires
        unbroken(name, style.separator()),
        !has_drive(name, style),
    ensures
        path_of(name, style).root.len() == 0,
        name.len() > 0 ==> path_of(name, style).names == seq![name],
        name.len() == 0 ==> path_of(name, style).names.len() == 0,
{
    let sep = style.separator();
    law_pieces_of_both_sides(name, '/', Seq::empty(), sep);
    reveal(Seq::filter);
    let one = seq![name];
    lemma_filter_last(one, names_something());
    assert(one.drop_last() =~= Seq::<Seq<char>>::empty());
    let none = Seq::<Seq<char>>::empty();
    assert(none.filter(names_something()) =~= none);
    if name == seq!['.'] {
        assert(seq![seq!['.']] + none =~= one);
    } else if name.len() > 0 {
        assert(none.push(name) =~= one);
    }
    if name.len() > 0 {
        assert(!separates(sep, name[0]));
    }
}

/// A leading slash is the root, however many there are of it. What follows is read from there.
pub proof fn law_a_leading_slash_is_the_root(text: Seq<char>)
    ensures
        ({
            let rooted = path_of(seq!['/'] + text, PathStyle::Unix);
            &&& rooted.root == seq!['/']
            &&& text.len() == 0 || text[0] != '/' ==> rooted.names == path_of(
                text,
                PathStyle::Unix,
            ).without_leading_dot()
            &&& path_of(seq!['/', '/'] + text, PathStyle::Unix) == rooted
        }),
{
    let style = PathStyle::Unix;
    let empty = Seq::<char>::empty();
    law_pieces_of_both_sides(empty, '/', text, Separator::Slash);
    assert(empty.push('/') + text =~= seq!['/'] + text);
    law_pieces_of_both_sides(empty, '/', seq!['/'] + text, Separator::Slash);
    assert(empty.push('/') + (seq!['/'] + text) =~= seq!['/', '/'] + text);
    let nothing = pieces(empty, Separator::Slash);
    lemma_named_both(nothing, pieces(text, Separator::Slash));
    lemma_named_both(nothing, pieces(seq!['/'] + text, Separator::Slash));
    lemma_without_dot(text, style);
    reveal(Seq::filter);
    lemma_filter_last(nothing, names_something());
    let none = Seq::<Seq<char>>::empty();
    assert(nothing.drop_last() =~= none);
    assert(nothing.filter(names_something()) =~= none);
    assert(none + pieces(text, Separator::Slash).filter(names_something()) =~= pieces(
        text,
        Separator::Slash,
    ).filter(names_something()));
    assert(path_of(seq!['/'] + text, style).names =~= pieces(text, Separator::Slash).filter(
        names_something(),
    ));
    assert(path_of(seq!['/', '/'] + text, style) =~= path_of(seq!['/'] + text, style));
}

/// Only on Windows are there drives and shares. A drive is a letter and a colon at the beginning
/// of a text, and part of the root; what follows is read as it is without it.
pub proof fn law_drives_are_part_of_the_root(letter: char, rest: Seq<char>)
    ensures
        !has_drive(seq![letter, ':'] + rest, PathStyle::Unix),
        !has_share(rest, PathStyle::Unix),
        !has_drive(rest, PathStyle::Unix),
        'a' <= letter <= 'z' || 'A' <= letter <= 'Z' ==> {
            let text = seq![letter, ':'] + rest;
            let style = PathStyle::Windows;
            &&& has_drive(text, style)
            &&& !has_drive(rest, style) && !has_share(rest, style) && !has_share(text, style) ==> {
                &&& path_of(text, style).root == seq![letter, ':'] + path_of(rest, style).root
                &&& path_of(text, style).names == path_of(rest, style).names
            }
        },
        has_drive(rest, PathStyle::Windows) ==> rest.len() >= 2 && rest[1] == ':',
{
    let text = seq![letter, ':'] + rest;
    assert(text.skip(2) =~= rest);
    assert(text.take(2) =~= seq![letter, ':']);
}

/// A path on a share is kept whole, as a root.
pub proof fn law_paths_on_a_share_are_kept_whole(text: Seq<char>, style: PathStyle)
    ensures
        has_share(text, style) ==> {
            &&& style == PathStyle::Windows
            &&& path_of(text, style).root == text
            &&& path_of(text, style).names.len() == 0
            &&& text.len() > 0 && (text[0] == '/' || text[0] == '\\')
        },
{
    if has_share(text, style) {
        if text.len() > 0 && !separates(style.separator(), text[0]) {
            lemma_first_piece(text, style.separator());
        }
    }
}

/// A relative path that is taken from another goes on with its names where that one ends. A dot
/// in front is dropped, unless there is nothing to take the path from.
pub proof fn law_a_relative_path_goes_on(base: PathView, names: Seq<Seq<char>>)
    ensures
        ({
            let other = PathView { root: Seq::empty(), names };
            let dotted = PathView { root: Seq::empty(), names: seq![seq!['.']] + names };
            &&& names.len() == 0 || names[0] != seq!['.'] ==> base.join(other) == (PathView {
                root: base.root,
                names: base.names + names,
            })
            &&& base.root.len() > 0 || base.names.len() > 0 ==> base.join(dotted) == (PathView {
                root: base.root,
                names: base.names + names,
            })
            &&& base.root.len() == 0 && base.names.len() == 0 ==> base.join(dotted) == dotted
        }),
{
    let dotted = PathView { root: Seq::empty(), names: seq![seq!['.']] + names };
    assert(dotted.names.skip(1) =~= names);
    if base.root.len() == 0 && base.names.len() == 0 {
        assert(base.names + names =~= names);
        assert(base.root =~= Seq::<char>::empty());
    }
}

/// A path with a root of its own takes the place of the one that it is taken from. The drive of
/// that one stays, where the other path has a root but no drive.
pub proof fn law_a_path_with_a_root_takes_the_place(
    base: PathView,
    other: PathView,
    mark: char,
)
    ensures
        other.root.len() > 1 ==> base.join(other) == other,
        other.root == seq![mark] ==> {
            &&& base.join(other).names == other.names
            &&& base.root.len() == 0 ==> base.join(other) == other
            &&& base.root.len() > 0 && base.root.last() == mark ==> base.join(other).root
                == base.root
            &&& base.root.len() > 0 && base.root.last() != mark ==> base.join(other).root
                == base.root.push(mark)
        },
{
    if other.root == seq![mark] {
        let end = base.root.subrange(
            if base.root.len() > 0 {
                base.root.len() - 1
            } else {
                0
            },
            base.root.len() as int,
        );
        if base.root.len() == 0 {
            assert(base.root + other.root =~= other.root);
        } else if base.root.last() == mark {
            assert(end =~= seq![mark]);
        } else {
            assert(end[0] != seq![mark][0]);
            assert(base.root + seq![mark] =~= base.root.push(mark));
        }
    }
}

/// A path begins with another where it has the same root and goes on with any names after those
/// of the other, at whatever depth. Every path begins with the empty one.
pub proof fn law_what_lies_below_begins_with_it(base: PathView, names: Seq<Seq<char>>)
    ensures
        (PathView { root: base.root, names: base.names + names }).starts_with(base),
        (PathView { root: base.root, names: base.names + names }).leads_up_to(base),
        base.starts_with(PathView { root: Seq::empty(), names: Seq::empty() }),
{
    assert(base.names =~= (base.names + names).subrange(0, base.names.len() as int));
}

/// A path that begins with another, which is not the empty one, has its root and all of its
/// names, in the same places.
pub proof fn law_what_begins_with_it_lies_below(path: PathView, base: PathView, i: int)
    ensures
        path.leads_up_to(base) ==> path.starts_with(base),
        path.starts_with(base) && (base.root.len() > 0 || base.names.len() > 0)
            ==> path.leads_up_to(base),
        path.leads_up_to(base) ==> {
            &&& path.root == base.root
            &&& path.names.len() >= base.names.len()
            &&& 0 <= i < base.names.len() ==> path.names[i] == base.names[i]
            &&& path.names == base.names + path.names.skip(base.names.len() as int)
        },
{
    if path.leads_up_to(base) {
        assert(path.names.subrange(0, base.names.len() as int) =~= base.names);
        assert(path.names =~= base.names + path.names.skip(base.names.len() as int));
    }
}

/// The parent of a path lacks its last name, and nothing else. A path without names has none.
pub proof fn law_the_parent_lacks_the_last_name(
    root: Seq<char>,
    names: Seq<Seq<char>>,
    name: Seq<char>,
)
    ensures
        (PathView { root, names: names.push(name) }).parent() == Some(PathView { root, names }),
        (PathView { root, names: Seq::empty() }).parent() is None,
{
    assert(names.push(name).drop_last() =~= names);
}

/// Two separators, the name of a server, a separator and the name of a share are a share.
pub proof fn law_what_a_share_is(server: Seq<char>, share: Seq<char>, a: char, b: char, c: char)
    requires
        server.len() > 0,
        share.len() > 0,
        unbroken(server, Separator::AnySlash),
        unbroken(share, Separator::AnySlash),
        a == '/' || a == '\\',
        b == '/' || b == '\\',
        c == '/' || c == '\\',
    ensures
        has_share(seq![a, b] + server.push(c) + share, PathStyle::Windows),
{
    let sep = Separator::AnySlash;
    let empty = Seq::<char>::empty();
    let both = server.push(c) + share;
    law_pieces_of_both_sides(server, c, share, sep);
    law_pieces_of_both_sides(share, c, empty, sep);
    law_pieces_of_both_sides(empty, b, both, sep);
    law_pieces_of_both_sides(empty, a, empty.push(b) + both, sep);
    assert(empty.push(a) + (empty.push(b) + both) =~= seq![a, b] + server.push(c) + share);
    assert(pieces(empty, sep) =~= seq![empty]);
}

} // verus!
