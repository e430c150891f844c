//! Text: decimal numerals, joining and splitting, suffixes.

use vstd::prelude::*;

verus! {

/// The separator between the items of a list that is written as one text.
pub const LIST_SEP: &'static str = ",";

/// The suffix of a file whose name asks for expansion by the template engine.
pub const LIQUID_SUFFIX: &'static str = ".liquid";

/// The decimal digit for `d`, which is below ten.
pub open spec fn digit_char(d: nat) -> char {
    (('0' as nat) + d) as char
}

/// The decimal numeral of a natural number, without leading zeros.
pub open spec fn nat_text(n: nat) -> Seq<char>
    decreases n,
{
    if n < 10 {
        seq![digit_char(n)]
    } else {
        nat_text(n / 10).push(digit_char(n % 10))
    }
}

/// The decimal numeral of an integer, with a minus sign where it is negative.
pub open spec fn int_text(i: int) -> Seq<char> {
    if i < 0 {
        seq!['-'] + nat_text((-i) as nat)
    } else {
        nat_text(i as nat)
    }
}

/// The word for a truth value.
pub open spec fn bool_text(b: bool) -> Seq<char> {
    if b {
        "true"@
    } else {
        "false"@
    }
}

fn digit_string(d: u64) -> (r: String)
    requires
        d < 10,
    ensures
        r@ == seq![digit_char(d as nat)],
{
    proof {
        reveal_strlit("0");
        reveal_strlit("1");
        reveal_strlit("2");
        reveal_strlit("3");
        reveal_strlit("4");
        reveal_strlit("5");
        reveal_strlit("6");
        reveal_strlit("7");
        reveal_strlit("8");
        reveal_strlit("9");
    }
    let digit: &str = match d {
        0 => "0",
        1 => "1",
        2 => "2",
        3 => "3",
        4 => "4",
        5 => "5",
        6 => "6",
        7 => "7",
        8 => "8",
        _ => "9",
    };
    assert(digit@ =~= seq![digit_char(d as nat)]);
    digit.to_owned()
}

fn nat_string(n: u64) -> (r: String)
    ensures
        r@ == nat_text(n as nat),
    decreases n,
{
    if n < 10 {
        digit_string(n)
    } else {
        let mut r: String = nat_string(n / 10);
        let last: String = digit_string(n % 10);
        r.append(last.as_str());
        assert(r@ =~= nat_text(n as nat));
        r
    }
}

/// Writes an integer as a decimal numeral.
pub fn int_string(i: i64) -> (r: String)
    ensures
        r@ == int_text(i as int),
{
    if i < 0 {
        let magnitude: u64 = (-(i + 1)) as u64 + 1;
        let mut r: String = "-".to_owned();
        let digits: String = nat_string(magnitude);
        r.append(digits.as_str());
        proof {
            reveal_strlit("-");
        }
        assert(r@ =~= int_text(i as int));
        r
    } else {
        nat_string(i as u64)
    }
}

/// Writes a truth value as a word.
pub fn bool_string(b: bool) -> (r: String)
    ensures
        r@ == bool_text(b),
{
    if b {
        "true".to_owned()
    } else {
        "false".to_owned()
    }
}

/// Tells whether two texts are the same.
pub fn same_text(a: &str, b: &str) -> (r: bool)
    ensures
        r == (a@ == b@),
{
    a.to_owned() == b.to_owned()
}

/// The parts one after the other, with `sep` between neighbours.
pub open spec fn joined(parts: Seq<Seq<char>>, sep: Seq<char>) -> Seq<char>
    decreases parts.len(),
{
    if parts.len() == 0 {
        Seq::empty()
    } else if parts.len() == 1 {
        parts[0]
    } else {
        joined(parts.drop_last(), sep) + sep + parts.last()
    }
}

/// Joins texts with a separator between neighbours.
pub fn join(parts: &Vec<String>, sep: &str) -> (r: String)
    ensures
        r@ == joined(parts.deep_view(), sep@),
{
    let mut r: String = String::new();
    let mut i: usize = 0;
    while i < parts.len()
        invariant
            i <= parts@.len(),
            r@ == joined(parts.deep_view().take(i as int), sep@),
        decreases parts@.len() - i,
    {
        if i > 0 {
            r.append(sep);
        }
        r.append(parts[i].as_str());
        proof {
            let next = parts.deep_view().take(i + 1);
            assert(next.drop_last() =~= parts.deep_view().take(i as int));
            assert(r@ =~= joined(next, sep@));
        }
        i = i + 1;
    }
    assert(parts.deep_view().take(i as int) =~= parts.deep_view());
    r
}

/// What may separate the pieces of a text.
#[derive(Clone, Copy, PartialEq, Eq, Debug, Structural)]
pub enum Separator {
    /// The slash between the names in a path.
    Slash,
    /// The slash, and the backslash that can stand in its place.
    AnySlash,
    /// Any character with the Unicode property `White_Space`.
    WhiteSpace,
}

/// Whether a character has the Unicode property `White_Space`.
pub open spec fn is_white_space(c: char) -> bool {
    ||| 0x9 <= c as nat <= 0xd
    ||| c as nat == 0x20
    ||| c as nat == 0x85
    ||| c as nat == 0xa0
    ||| c as nat == 0x1680
    ||| 0x2000 <= c as nat <= 0x200a
    ||| 0x2028 <= c as nat <= 0x2029
    ||| c as nat == 0x202f
    ||| c as nat == 0x205f
    ||| c as nat == 0x3000
}

/// Whether the character `c` is a separator of the kind `sep`.
pub open spec fn separates(sep: Separator, c: char) -> bool {
    match sep {
        Separator::Slash => c == '/',
        Separator::AnySlash => c == '/' || c == '\\',
        Separator::WhiteSpace => is_white_space(c),
    }
}

/// Tells whether the character `c` is a separator of the kind `sep`.
pub fn is_separator(sep: Separator, c: char) -> (r: bool)
    ensures
        r == separates(sep, c),
{
    match sep {
        Separator::Slash => c == '/',
        Separator::AnySlash => c == '/' || c == '\\',
        Separator::WhiteSpace => {
            let code: u32 = c as u32;
            (0x9 <= code && code <= 0xd) || code == 0x20 || code == 0x85 || code == 0xa0 || code
                == 0x1680 || (0x2000 <= code && code <= 0x200a) || (0x2028 <= code && code
                <= 0x2029) || code == 0x202f || code == 0x205f || code == 0x3000
        },
    }
}

/// The pieces of a text between its separators: one more than there are separators, and some
/// of them possibly empty.
pub open spec fn pieces(text: Seq<char>, sep: Separator) -> Seq<Seq<char>>
    decreases text.len(),
{
    if text.len() == 0 {
        seq![Seq::empty()]
    } else {
        let before = pieces(text.drop_last(), sep);
        if separates(sep, text.last()) {
            before.push(Seq::empty())
        } else {
            before.drop_last().push(before.last().push(text.last()))
        }
    }
}

/// A text that holds no separator.
pub open spec fn unbroken(piece: Seq<char>, sep: Separator) -> bool {
    forall|i: int| 0 <= i < piece.len() ==> !separates(sep, #[trigger] piece[i])
}

/// There is a piece at least, and no piece holds a separator.
pub proof fn law_pieces_are_unbroken(text: Seq<char>, sep: Separator)
    ensures
        pieces(text, sep).len() >= 1,
        forall|i: int|
            0 <= i < pieces(text, sep).len() ==> unbroken(#[trigger] pieces(text, sep)[i], sep),
    decreases text.len(),
{
    if text.len() > 0 {
        let all = pieces(text, sep);
        let before = pieces(text.drop_last(), sep);
        law_pieces_are_unbroken(text.drop_last(), sep);
        if !separates(sep, text.last()) {
            assert(unbroken(before.last(), sep));
            assert(forall|i: int| 0 <= i < before.len() - 1 ==> all[i] == before[i]);
        }
    }
}

/// Cutting a text at its slashes loses nothing: joined by slashes, the pieces are the text
/// again.
pub proof fn law_slash_pieces_rejoin(text: Seq<char>)
    ensures
        joined(pieces(text, Separator::Slash), seq!['/']) == text,
    decreases text.len(),
{
    let all = pieces(text, Separator::Slash);
    if text.len() == 0 {
        assert(joined(all, seq!['/']) =~= text);
    } else {
        let before = pieces(text.drop_last(), Separator::Slash);
        law_pieces_are_unbroken(text.drop_last(), Separator::Slash);
        law_slash_pieces_rejoin(text.drop_last());
        if text.last() == '/' {
            assert(all.drop_last() =~= before);
            assert(joined(all, seq!['/']) =~= text);
        } else {
            assert(all.drop_last() =~= before.drop_last());
            assert(joined(all, seq!['/']) =~= joined(before, seq!['/']).push(text.last()));
            assert(joined(all, seq!['/']) =~= text);
        }
    }
}

/// The characters of a text.
fn characters(text: &str) -> (r: Vec<char>)
    ensures
        r@ == text@,
{
    let mut r: Vec<char> = Vec::new();
    for c in it: text.chars()
        invariant
            r@ == it.seq().take(it.index() as int),
            it.seq() == text@,
    {
        r.push(c);
        assert(r@ =~= it.seq().take(it.index() + 1));
    }
    assert(r@ =~= text@);
    r
}

/// Cuts a text into the pieces between its separators.
pub fn split(text: &str, sep: Separator) -> (r: Vec<String>)
    ensures
        r.deep_view() == pieces(text@, sep),
{
    let chars: Vec<char> = characters(text);
    let mut r: Vec<String> = Vec::new();
    let mut start: usize = 0;
    let mut i: usize = 0;
    assert(chars@.take(0) =~= Seq::<char>::empty());
    assert(chars@.subrange(0, 0) =~= Seq::<char>::empty());
    assert(r.deep_view() =~= Seq::<Seq<char>>::empty());
    assert(r.deep_view().push(chars@.subrange(0, 0)) =~= pieces(chars@.take(0), sep));
    while i < chars.len()
        invariant
            chars@ == text@,
            start <= i <= chars@.len(),
            pieces(chars@.take(i as int), sep) == r.deep_view().push(
                chars@.subrange(start as int, i as int),
            ),
        decreases chars@.len() - i,
    {
        let c: char = chars[i];
        proof {
            assert(chars@.take(i + 1).drop_last() =~= chars@.take(i as int));
            assert(chars@.take(i + 1).last() == c);
        }
        let ghost earlier = r.deep_view();
        let ghost piece = chars@.subrange(start as int, i as int);
        assert(earlier.push(piece).drop_last() =~= earlier);
        if is_separator(sep, c) {
            r.push(text.substring_char(start, i).to_owned());
            start = i + 1;
            assert(r.deep_view() =~= earlier.push(piece));
            assert(chars@.subrange(i + 1, i + 1) =~= Seq::<char>::empty());
        } else {
            assert(chars@.subrange(start as int, i + 1) =~= piece.push(c));
        }
        i = i + 1;
    }
    let ghost earlier = r.deep_view();
    r.push(text.substring_char(start, i).to_owned());
    proof {
        assert(chars@.take(i as int) =~= text@);
        assert(r.deep_view() =~= earlier.push(chars@.subrange(start as int, i as int)));
    }
    r
}

/// A text with something in it.
pub open spec fn nonempty() -> spec_fn(Seq<char>) -> bool {
    |piece: Seq<char>| piece.len() > 0
}

/// What is kept of a sequence that ends in `last`.
pub proof fn lemma_filter_last<A>(items: Seq<A>, keep: spec_fn(A) -> bool)
    requires
        items.len() > 0,
    ensures
        items.filter(keep) == (if keep(items.last()) {
            items.drop_last().filter(keep).push(items.last())
        } else {
            items.drop_last().filter(keep)
        }),
{
    reveal(Seq::filter);
}

/// The words of a text: what stands between white space.
pub open spec fn words_of(text: Seq<char>) -> Seq<Seq<char>> {
    pieces(text, Separator::WhiteSpace).filter(nonempty())
}

/// Cuts a text into its words.
pub fn words(text: &str) -> (r: Vec<String>)
    ensures
        r.deep_view() == words_of(text@),
{
    let all: Vec<String> = split(text, Separator::WhiteSpace);
    let mut r: Vec<String> = Vec::new();
    let mut i: usize = 0;
    let ghost view = all.deep_view();
    proof {
        reveal(Seq::filter);
        assert(view.take(0) =~= Seq::<Seq<char>>::empty());
        assert(r.deep_view() =~= view.take(0).filter(nonempty()));
    }
    while i < all.len()
        invariant
            i <= all@.len(),
            view == all.deep_view(),
            r.deep_view() == view.take(i as int).filter(nonempty()),
        decreases all@.len() - i,
    {
        let ghost earlier = r.deep_view();
        proof {
            lemma_filter_last(view.take(i + 1), nonempty());
            assert(view.take(i + 1).drop_last() =~= view.take(i as int));
        }
        if !all[i].as_str().is_empty() {
            r.push(all[i].clone());
            assert(r.deep_view() =~= earlier.push(view[i as int]));
        }
        i = i + 1;
    }
    assert(view.take(i as int) =~= view);
    r
}

/// A word is not empty and holds no white space.
pub proof fn law_words_are_unbroken(text: Seq<char>, i: int)
    requires
        0 <= i < words_of(text).len(),
    ensures
        words_of(text)[i].len() > 0,
        unbroken(words_of(text)[i], Separator::WhiteSpace),
{
    law_pieces_are_unbroken(text, Separator::WhiteSpace);
    let all = pieces(text, Separator::WhiteSpace);
    lemma_filter_keeps(all, nonempty(), i);
    let j = all.index_of(words_of(text)[i]);
    assert(unbroken(all[j], Separator::WhiteSpace));
}

/// What is kept of a sequence was in it, and was to be kept.
pub proof fn lemma_filter_keeps<A>(items: Seq<A>, keep: spec_fn(A) -> bool, i: int)
    requires
        0 <= i < items.filter(keep).len(),
    ensures
        keep(items.filter(keep)[i]),
        items.contains(items.filter(keep)[i]),
    decreases items.len(),
{
    reveal(Seq::filter);
    if items.len() > 0 {
        lemma_filter_last(items, keep);
        let front = items.drop_last();
        if i < front.filter(keep).len() {
            lemma_filter_keeps(front, keep, i);
            let j = front.index_of(front.filter(keep)[i]);
            assert(items[j] == front.filter(keep)[i]);
        } else {
            assert(items[items.len() - 1] == items.filter(keep)[i]);
        }
    }
}

/// The text without `suffix` at its end, where it has it.
pub open spec fn without_suffix(text: Seq<char>, suffix: Seq<char>) -> Option<Seq<char>> {
    if suffix.is_suffix_of(text) {
        Some(text.take(text.len() - suffix.len()))
    } else {
        None
    }
}

/// Takes a suffix off a text, where it has it.
pub fn strip_suffix(text: &str, suffix: &str) -> (r: Option<String>)
    ensures
        r.deep_view() == without_suffix(text@, suffix@),
{
    let len: usize = text.unicode_len();
    let suffix_len: usize = suffix.unicode_len();
    if suffix_len > len {
        return None;
    }
    let cut: usize = len - suffix_len;
    assert(text@.subrange(cut as int, len as int) =~= text@.skip(cut as int));
    assert(suffix@.is_suffix_of(text@) <==> text@.skip(cut as int) =~= suffix@);
    if same_text(text.substring_char(cut, len), suffix) {
        assert(text@.subrange(0, cut as int) =~= text@.take(cut as int));
        Some(text.substring_char(0, cut).to_owned())
    } else {
        None
    }
}

} // verus!
