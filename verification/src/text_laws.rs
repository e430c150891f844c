//! What numerals, words, pieces and suffixes are, by how they behave.

use crate::text::{
    bool_text, int_text, joined, lemma_filter_last, nat_text, nonempty, pieces, separates, unbroken,
    without_suffix, words_of, Separator,
};
use vstd::prelude::*;

verus! {

/// The number that a text of digits denotes in the decimal system.
pub open spec fn decimal_value(digits: Seq<char>) -> int
    decreases digits.len(),
{
    if digits.len() == 0 {
        0
    } else {
        10 * decimal_value(digits.drop_last()) + (digits.last() as int - 0x30)
    }
}

/// A decimal numeral: digits, of which the first is no zero unless it is the only one.
pub open spec fn is_numeral(digits: Seq<char>) -> bool {
    &&& digits.len() > 0
    &&& forall|i: int| 0 <= i < digits.len() ==> 0x30 <= (#[trigger] digits[i]) as int <= 0x39
    &&& digits.len() > 1 ==> digits[0] as int != 0x30
}

proof fn lemma_natural_numeral(n: nat)
    ensures
        is_numeral(nat_text(n)),
        decimal_value(nat_text(n)) == n,
        nat_text(n)[0] as int == 0x30 ==> n == 0,
    decreases n,
{
    if n < 10 {
        assert(nat_text(n).drop_last() =~= Seq::<char>::empty());
        assert(decimal_value(Seq::<char>::empty()) == 0);
    } else {
        lemma_natural_numeral(n / 10);
        assert(nat_text(n).drop_last() =~= nat_text(n / 10));
        assert(nat_text(n)[0] == nat_text(n / 10)[0]);
    }
}

/// An integer is written as the decimal numeral of its amount, which denotes that very amount,
/// after a minus sign where it is negative.
pub proof fn law_numerals_denote_their_numbers(i: int)
    ensures
        i >= 0 ==> is_numeral(int_text(i)) && decimal_value(int_text(i)) == i,
        i < 0 ==> {
            &&& int_text(i).len() > 1
            &&& int_text(i)[0] == '-'
            &&& is_numeral(int_text(i).skip(1))
            &&& decimal_value(int_text(i).skip(1)) == -i
        },
{
    if i >= 0 {
        lemma_natural_numeral(i as nat);
    } else {
        lemma_natural_numeral((-i) as nat);
        assert(int_text(i).skip(1) =~= nat_text((-i) as nat));
    }
}

/// Truth values are written as words.
pub proof fn law_words_for_truth_values(b: bool)
    ensures
        b ==> bool_text(b) == seq!['t', 'r', 'u', 'e'],
        !b ==> bool_text(b) == seq!['f', 'a', 'l', 's', 'e'],
{
    reveal_strlit("true");
    reveal_strlit("false");
    assert("true"@ =~= seq!['t', 'r', 'u', 'e']);
    assert("false"@ =~= seq!['f', 'a', 'l', 's', 'e']);
}

/// Nothing joined is the empty text, and a single text joined is that text. Texts in two groups
/// are joined group by group, with the separator between the two.
pub proof fn law_joining_group_by_group(
    front: Seq<Seq<char>>,
    back: Seq<Seq<char>>,
    sep: Seq<char>,
)
    ensures
        joined(Seq::<Seq<char>>::empty(), sep) == Seq::<char>::empty(),
        front.len() == 1 ==> joined(front, sep) == front[0],
        front.len() > 0 && back.len() > 0 ==> joined(front + back, sep) == joined(front, sep) + sep
            + joined(back, sep),
    decreases back.len(),
{
    if front.len() > 0 && back.len() > 0 {
        assert((front + back).drop_last() =~= front + back.drop_last());
        assert((front + back).last() == back.last());
        if back.len() == 1 {
            assert(front + back.drop_last() =~= front);
        } else {
            law_joining_group_by_group(front, back.drop_last(), sep);
            assert(joined(front + back, sep) =~= joined(front, sep) + sep + joined(back, sep));
        }
    }
}

/// A separator cuts a text in two, each of which is cut for itself. A text without separators is
/// in one piece.
pub proof fn law_pieces_of_both_sides(
    front: Seq<char>,
    c: char,
    back: Seq<char>,
    sep: Separator,
)
    ensures
        separates(sep, c) ==> pieces(front.push(c) + back, sep) == pieces(front, sep) + pieces(
            back,
            sep,
        ),
        unbroken(front, sep) ==> pieces(front, sep) == seq![front],
    decreases front.len() + back.len(),
{
    if separates(sep, c) {
        let whole = front.push(c) + back;
        crate::text::law_pieces_are_unbroken(back, sep);
        if back.len() == 0 {
            assert(whole =~= front.push(c));
            assert(whole.drop_last() =~= front);
            assert(pieces(whole, sep) =~= pieces(front, sep) + pieces(back, sep));
        } else {
            law_pieces_of_both_sides(front, c, back.drop_last(), sep);
            crate::text::law_pieces_are_unbroken(back.drop_last(), sep);
            assert(whole.drop_last() =~= front.push(c) + back.drop_last());
            assert(whole.last() == back.last());
            assert(pieces(whole, sep) =~= pieces(front, sep) + pieces(back, sep));
        }
    }
    if unbroken(front, sep) && front.len() > 0 {
        assert forall|i: int| 0 <= i < front.drop_last().len() implies !separates(
            sep,
            #[trigger] front.drop_last()[i],
        ) by {
            assert(front.drop_last()[i] == front[i]);
        }
        law_pieces_of_both_sides(front.drop_last(), c, Seq::empty(), sep);
        assert(!separates(sep, front[front.len() - 1]));
        assert(front.drop_last().push(front.last()) =~= front);
        assert(pieces(front, sep) =~= seq![front]);
    } else if front.len() == 0 {
        assert(front =~= Seq::<char>::empty());
        assert(pieces(front, sep) =~= seq![front]);
    }
}

/// Which characters separate: a slash; a slash or a backslash; white space, among which are the
/// space and the ends of lines, and no letter, digit or slash.
pub proof fn law_what_separates(c: char)
    ensures
        separates(Separator::Slash, c) <==> c == '/',
        separates(Separator::AnySlash, c) <==> c == '/' || c == '\\',
        c == ' ' || c == '\t' || c == '\n' || c == '\r' ==> separates(Separator::WhiteSpace, c),
        '!' <= c <= '~' ==> !separates(Separator::WhiteSpace, c),
{
}

proof fn lemma_filter_both(front: Seq<Seq<char>>, back: Seq<Seq<char>>)
    ensures
        (front + back).filter(nonempty()) == front.filter(nonempty()) + back.filter(nonempty()),
    decreases back.len(),
{
    reveal(Seq::filter);
    if back.len() == 0 {
        assert(front + back =~= front);
        assert(front.filter(nonempty()) + back.filter(nonempty()) =~= front.filter(nonempty()));
    } else {
        lemma_filter_both(front, back.drop_last());
        assert((front + back).drop_last() =~= front + back.drop_last());
        lemma_filter_last(front + back, nonempty());
        lemma_filter_last(back, nonempty());
        assert((front + back).filter(nonempty()) =~= front.filter(nonempty()) + back.filter(
            nonempty(),
        ));
    }
}

/// The words of a text are those before a white space and those after it.
pub proof fn law_words_of_both_sides(front: Seq<char>, c: char, back: Seq<char>)
    requires
        separates(Separator::WhiteSpace, c),
    ensures
        words_of(front.push(c) + back) == words_of(front) + words_of(back),
{
    law_pieces_of_both_sides(front, c, back, Separator::WhiteSpace);
    lemma_filter_both(
        pieces(front, Separator::WhiteSpace),
        pieces(back, Separator::WhiteSpace),
    );
}

/// A text without white space is one word.
pub proof fn law_single_word(word: Seq<char>)
    requires
        word.len() > 0,
        unbroken(word, Separator::WhiteSpace),
    ensures
        words_of(word) == seq![word],
{
    law_pieces_of_both_sides(word, ' ', Seq::empty(), Separator::WhiteSpace);
    reveal(Seq::filter);
    lemma_filter_last(seq![word], nonempty());
    assert(seq![word].drop_last() =~= Seq::<Seq<char>>::empty());
    assert(Seq::<Seq<char>>::empty().filter(nonempty()) =~= Seq::<Seq<char>>::empty());
    assert(words_of(word) =~= seq![word]);
}

/// The empty text has no words.
pub proof fn law_text_without_words()
    ensures
        words_of(Seq::empty()) == Seq::<Seq<char>>::empty(),
{
    reveal(Seq::filter);
    let one = seq![Seq::<char>::empty()];
    assert(pieces(Seq::empty(), Separator::WhiteSpace) =~= one);
    lemma_filter_last(one, nonempty());
    assert(one.drop_last() =~= Seq::<Seq<char>>::empty());
    assert(Seq::<Seq<char>>::empty().filter(nonempty()) =~= Seq::<Seq<char>>::empty());
}

/// A suffix that was put at the end of a text is taken off again. What it is taken off from ends
/// in it.
pub proof fn law_taking_a_suffix_off(text: Seq<char>, suffix: Seq<char>)
    ensures
        without_suffix(text + suffix, suffix) == Some(text),
        without_suffix(text, suffix) is Some ==> without_suffix(text, suffix)->0 + suffix == text,
{
    let whole = text + suffix;
    assert(whole.subrange(whole.len() - suffix.len(), whole.len() as int) =~= suffix);
    assert(suffix.is_suffix_of(whole));
    assert(whole.take(text.len() as int) =~= text);
    if without_suffix(text, suffix) is Some {
        assert(text.subrange(text.len() - suffix.len(), text.len() as int) =~= suffix);
        assert(text.take(text.len() - suffix.len()) + suffix =~= text);
    }
}

/// A text is without separators where each of its characters is none.
pub proof fn law_a_text_without_separators(text: Seq<char>, c: char, sep: Separator)
    ensures
        unbroken(Seq::empty(), sep),
        unbroken(text.push(c), sep) <==> unbroken(text, sep) && !separates(sep, c),
{
    let more = text.push(c);
    if unbroken(more, sep) {
        assert forall|i: int| 0 <= i < text.len() implies !separates(sep, #[trigger] text[i]) by {
            assert(more[i] == text[i]);
        }
        assert(more[text.len() as int] == c);
    }
}

} // verus!
