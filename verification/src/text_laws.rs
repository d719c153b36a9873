use vstd::prelude::*;

use crate::text::{
    all_digits, contains_text, decimal, digit_char, digits_value, first_position, is_digit,
    is_space, joined, lower, number_digits, split_on, stands_at, trim, trim_end, trim_end_of,
    trim_start,
};

verus! {

/// Whether a character is nowhere in a text.
pub open spec fn is_without(text: Seq<char>, c: char) -> bool {
    forall|i: int| 0 <= i < text.len() ==> (#[trigger] text[i]) != c
}

/// Whether a text has nothing in it but white space.
pub open spec fn is_all_space(text: Seq<char>) -> bool {
    forall|i: int| 0 <= i < text.len() ==> is_space(#[trigger] text[i])
}

/// White space alone is taken off the start of a text, and all of it.
pub proof fn law_start_is_trimmed(text: Seq<char>)
    ensures
        ({
            let kept = trim_start(text);
            let n = text.len() - kept.len();
            &&& n >= 0
            &&& kept == text.skip(n)
            &&& is_all_space(text.take(n))
            &&& kept.len() > 0 ==> !is_space(kept[0])
        }),
    decreases text.len(),
{
    if text.len() > 0 && is_space(text[0]) {
        let rest = text.drop_first();
        law_start_is_trimmed(rest);
        let kept = trim_start(text);
        let n = text.len() - kept.len();
        assert(rest.skip(n - 1) =~= text.skip(n));
        assert forall|i: int| 0 <= i < text.take(n).len() implies is_space(
            #[trigger] text.take(n)[i],
        ) by {
            if i > 0 {
                assert(rest.take(n - 1)[i - 1] == text[i]);
            }
        }
    } else {
        assert(text.skip(0) =~= text);
    }
}

/// White space alone is taken off the end of a text, and all of it.
pub proof fn law_end_is_trimmed(text: Seq<char>)
    ensures
        ({
            let kept = trim_end(text);
            let n = kept.len() as int;
            &&& n <= text.len()
            &&& kept == text.take(n)
            &&& is_all_space(text.skip(n))
            &&& kept.len() > 0 ==> !is_space(kept.last())
        }),
    decreases text.len(),
{
    if text.len() > 0 && is_space(text.last()) {
        let rest = text.drop_last();
        law_end_is_trimmed(rest);
        let kept = trim_end(text);
        let n = kept.len() as int;
        assert(rest.take(n) =~= text.take(n));
        assert forall|i: int| 0 <= i < text.skip(n).len() implies is_space(
            #[trigger] text.skip(n)[i],
        ) by {
            if i < rest.skip(n).len() {
                assert(rest.skip(n)[i] == text[n + i]);
            }
        }
    } else {
        assert(text.take(text.len() as int) =~= text);
    }
}

/// A text without white space at its ends is trimmed to itself.
pub proof fn law_trimmed_text_stays(text: Seq<char>)
    requires
        text.len() > 0 ==> !is_space(text[0]) && !is_space(text.last()),
    ensures
        trim(text) == text,
{
}

/// One of the characters alone is taken off the end of a text, and all of them.
pub proof fn law_end_of_is_trimmed(text: Seq<char>, c: char)
    ensures
        ({
            let kept = trim_end_of(text, c);
            let n = kept.len() as int;
            &&& n <= text.len()
            &&& kept == text.take(n)
            &&& forall|i: int| n <= i < text.len() ==> (#[trigger] text[i]) == c
            &&& kept.len() > 0 ==> kept.last() != c
        }),
    decreases text.len(),
{
    if text.len() > 0 && text.last() == c {
        let rest = text.drop_last();
        law_end_of_is_trimmed(rest, c);
        let n = trim_end_of(text, c).len() as int;
        assert(rest.take(n) =~= text.take(n));
        assert forall|i: int| n <= i < text.len() implies (#[trigger] text[i]) == c by {
            if i < rest.len() {
                assert(rest[i] == text[i]);
            }
        }
    } else {
        assert(text.take(text.len() as int) =~= text);
    }
}

/// The first position of a character is where it stands first.
pub proof fn law_first_position(before: Seq<char>, c: char, after: Seq<char>)
    requires
        is_without(before, c),
    ensures
        first_position(before.push(c) + after, c) == before.len(),
    decreases before.len(),
{
    let text = before.push(c) + after;
    if before.len() == 0 {
        assert(text[0] == c);
    } else {
        let rest = before.drop_first();
        assert(text[0] == before[0]);
        assert forall|i: int| 0 <= i < rest.len() implies (#[trigger] rest[i]) != c by {
            assert(rest[i] == before[i + 1]);
        }
        law_first_position(rest, c, after);
        assert(text.drop_first() =~= rest.push(c) + after);
    }
}

proof fn lemma_split_extends(text: Seq<char>, c: char, more: Seq<char>)
    requires
        is_without(more, c),
    ensures
        split_on(text, c).len() > 0,
        split_on(text + more, c) == split_on(text, c).drop_last().push(
            split_on(text, c).last() + more,
        ),
    decreases more.len(),
{
    lemma_split_has_a_piece(text, c);
    let pieces = split_on(text, c);
    if more.len() == 0 {
        assert(text + more =~= text);
        assert(pieces.last() + more =~= pieces.last());
        assert(pieces.drop_last().push(pieces.last()) =~= pieces);
    } else {
        let fewer = more.drop_last();
        assert forall|i: int| 0 <= i < fewer.len() implies (#[trigger] fewer[i]) != c by {
            assert(fewer[i] == more[i]);
        }
        lemma_split_extends(text, c, fewer);
        assert((text + more).drop_last() =~= text + fewer);
        assert((text + more).last() == more[more.len() - 1]);
        let before = split_on(text + fewer, c);
        assert(before.drop_last() =~= pieces.drop_last());
        assert((pieces.last() + fewer).push(more.last()) =~= pieces.last() + more);
    }
}

proof fn lemma_split_has_a_piece(text: Seq<char>, c: char)
    ensures
        split_on(text, c).len() > 0,
    decreases text.len(),
{
    if text.len() > 0 {
        lemma_split_has_a_piece(text.drop_last(), c);
    }
}

/// Pieces that are put together with a separator come apart again as they were.
pub proof fn law_split_undoes_join(pieces: Seq<Seq<char>>, c: char)
    requires
        pieces.len() > 0,
        forall|i: int| 0 <= i < pieces.len() ==> is_without(#[trigger] pieces[i], c),
    ensures
        split_on(joined(pieces, seq![c]), c) == pieces,
    decreases pieces.len(),
{
    let last = pieces[pieces.len() - 1];
    assert(is_without(last, c));
    if pieces.len() == 1 {
        lemma_split_extends(Seq::empty(), c, last);
        assert(Seq::<char>::empty() + last =~= last);
        assert(split_on(last, c) =~= pieces);
    } else {
        let fewer = pieces.drop_last();
        assert forall|i: int| 0 <= i < fewer.len() implies is_without(#[trigger] fewer[i], c) by {
            assert(fewer[i] == pieces[i]);
        }
        law_split_undoes_join(fewer, c);
        let before = joined(fewer, seq![c]);
        let text = before + seq![c];
        assert(text.drop_last() =~= before);
        assert(text.last() == c);
        assert(split_on(text, c) == fewer.push(Seq::empty()));
        lemma_split_extends(text, c, last);
        assert(Seq::<char>::empty() + last =~= last);
        assert(fewer.push(Seq::empty()).drop_last() =~= fewer);
        assert(fewer.push(last) =~= pieces);
    }
}

/// Two pieces with a separator between them come apart at the separator, and the rest of the
/// pieces with them.
pub proof fn law_first_piece_comes_apart(first: Seq<char>, rest: Seq<char>, c: char)
    requires
        is_without(first, c),
    ensures
        split_on(first.push(c) + rest, c) == seq![first] + split_on(rest, c),
    decreases rest.len(),
{
    let text = first.push(c) + rest;
    if rest.len() == 0 {
        assert(text.drop_last() =~= first);
        lemma_split_extends(Seq::empty(), c, first);
        assert(Seq::<char>::empty() + first =~= first);
        assert(split_on(first, c) =~= seq![first]);
        assert(split_on(rest, c) =~= seq![Seq::<char>::empty()]);
        assert(split_on(text, c) =~= seq![first] + split_on(rest, c));
    } else {
        let fewer = rest.drop_last();
        law_first_piece_comes_apart(first, fewer, c);
        lemma_split_has_a_piece(fewer, c);
        assert(text.drop_last() =~= first.push(c) + fewer);
        assert(text.last() == rest.last());
        let pieces = split_on(fewer, c);
        let all = split_on(text.drop_last(), c);
        assert(all.last() == pieces.last());
        assert(all.drop_last() =~= seq![first] + pieces.drop_last());
        assert(split_on(text, c) =~= seq![first] + split_on(rest, c));
    }
}

/// Texts that are put together all stand in the whole, the first at its start.
pub proof fn law_joined_texts_stand_in_the_whole(
    texts: Seq<Seq<char>>,
    separator: Seq<char>,
    i: int,
)
    requires
        0 <= i < texts.len(),
    ensures
        contains_text(joined(texts, separator), texts[i]),
        stands_at(joined(texts, separator), texts[0], 0),
    decreases texts.len(),
{
    let all = joined(texts, separator);
    if texts.len() == 1 {
        assert(all.subrange(0, all.len() as int) =~= all);
        assert(stands_at(all, texts[i], 0));
    } else {
        let fewer = texts.drop_last();
        let before = joined(fewer, separator);
        if i < fewer.len() {
            law_joined_texts_stand_in_the_whole(fewer, separator, i);
            let at = choose|at: int| stands_at(before, fewer[i], at);
            assert(all.subrange(at, at + texts[i].len()) =~= before.subrange(
                at,
                at + fewer[i].len(),
            ));
            assert(stands_at(all, texts[i], at));
        } else {
            law_joined_texts_stand_in_the_whole(fewer, separator, 0);
            let at = all.len() - texts[i].len();
            assert(all.subrange(at, at + texts[i].len()) =~= texts[i]);
            assert(stands_at(all, texts[i], at));
        }
        assert(stands_at(before, fewer[0], 0));
        assert(all.subrange(0, texts[0].len() as int) =~= before.subrange(
            0,
            fewer[0].len() as int,
        ));
    }
}

/// Texts in lower case are as long as they were, and only the letters from A to Z change.
pub proof fn law_lower_case(text: Seq<char>)
    ensures
        lower(text).len() == text.len(),
        forall|i: int|
            0 <= i < text.len() && !('A' <= text[i] && text[i] <= 'Z') ==> #[trigger] lower(text)[i]
                == text[i],
        forall|i: int|
            0 <= i < text.len() && 'A' <= text[i] && text[i] <= 'Z' ==> #[trigger] lower(
                text,
            )[i] as int == text[i] as int + 32,
        lower(lower(text)) == lower(text),
{
    assert forall|i: int|
        0 <= i < text.len() && 'A' <= text[i] && text[i] <= 'Z' implies #[trigger] lower(
        text,
    )[i] as int == text[i] as int + 32 by {
        let c = text[i];
        let code = (c as u32 + 32) as u32;
        assert(code <= 0x7a);
        assert(lower(text)[i] == code as char);
    }
    assert(lower(lower(text)) =~= lower(text));
}

proof fn lemma_digit(digit: nat)
    requires
        digit < 10,
    ensures
        is_digit(digit_char(digit)),
        digit_char(digit) as int - '0' as int == digit,
{
    let code = (48 + digit) as u32;
    assert(code as char as int == code);
}

/// A number that is written in digits is read back.
pub proof fn law_number_is_read_back(number: nat)
    ensures
        all_digits(number_digits(number)),
        digits_value(number_digits(number)) == number,
        decimal(number_digits(number)) == Some(number as int),
    decreases number,
{
    if number < 10 {
        lemma_digit(number);
        let text = seq![digit_char(number)];
        assert(text.drop_last() =~= Seq::empty());
        reveal_with_fuel(digits_value, 2);
    } else {
        law_number_is_read_back(number / 10);
        lemma_digit(number % 10);
        let before = number_digits(number / 10);
        let text = before.push(digit_char(number % 10));
        assert(text.drop_last() =~= before);
        assert forall|i: int| 0 <= i < text.len() implies is_digit(#[trigger] text[i]) by {
            if i < before.len() {
                assert(text[i] == before[i]);
            }
        }
    }
}

} // verus!
