//! Where the pieces of a text lie in it, and where its characters first and last stand.
use vstd::prelude::*;

use crate::command::optional_text;
use crate::text::{
    ascii_lower, begins_with, first_index, has_text, last_index, lemma_pieces_nonempty, pieces,
    same_but_for_case, stands_at, texts,
};

verus! {

/// Where the `k`th of the parts of a text begins, the parts before it each followed by one
/// separator.
pub open spec fn start_of(parts: Seq<Seq<char>>, k: int) -> int
    decreases k,
{
    if k <= 0 {
        0
    } else {
        start_of(parts, k - 1) + parts[k - 1].len() + 1
    }
}

proof fn lemma_start_of_same(a: Seq<Seq<char>>, b: Seq<Seq<char>>, k: int)
    requires
        forall|i: int| 0 <= i < k ==> a[i] == b[i],
    ensures
        start_of(a, k) == start_of(b, k),
        start_of(a, k) >= 0,
    decreases k,
{
    if k > 0 {
        lemma_start_of_same(a, b, k - 1);
        assert(a[k - 1] == b[k - 1]);
    }
}

/// A piece stands in the text where the pieces before it leave off, holds no separator, and lies
/// between two of them, but for the first and the last one.
pub proof fn pieces_lie_side_by_side(text: Seq<char>, sep: char, k: int)
    requires
        0 <= k < pieces(text, sep).len(),
    ensures
        ({
            let piece = pieces(text, sep)[k];
            let start = start_of(pieces(text, sep), k);
            let end = start + piece.len();
            &&& 0 <= start <= end <= text.len()
            &&& piece == text.subrange(start, end)
            &&& forall|i: int| start <= i < end ==> text[i] != sep
            &&& k > 0 ==> start > 0 && text[start - 1] == sep
            &&& k == 0 ==> start == 0
            &&& k + 1 < pieces(text, sep).len() ==> end < text.len() && text[end] == sep
            &&& k + 1 == pieces(text, sep).len() ==> end == text.len()
        }),
    decreases text.len(),
{
    let all = pieces(text, sep);
    let start = start_of(all, k);
    if text.len() > 0 {
        let rest = text.drop_last();
        let before = pieces(rest, sep);
        lemma_pieces_nonempty(rest, sep);
        let j = if k < before.len() {
            k
        } else {
            k - 1
        };
        lemma_start_of_same(all, before, j);
        pieces_lie_side_by_side(rest, sep, j);
        if text.last() == sep && k == before.len() {
            assert(all[j] == before[j]);
            assert(start == start_of(all, j) + before[j].len() + 1);
        } else if text.last() != sep && k + 1 == before.len() {
            assert(all[k] == before[k].push(text.last()));
        } else {
            assert(all[k] == before[k]);
        }
        let end = start + all[k].len();
        assert(all[k] =~= text.subrange(start, end));
        assert forall|i: int| start <= i < end implies text[i] != sep by {
            assert(i < rest.len() ==> rest[i] == text[i]);
        }
    } else {
        assert(all[0] =~= text.subrange(0, 0));
    }
}

/// Every place before the start of a part lies in one of the parts before that, or right behind
/// it.
pub proof fn every_place_lies_in_a_part(parts: Seq<Seq<char>>, k: int, at: int) -> (j: int)
    requires
        0 <= at < start_of(parts, k),
    ensures
        0 <= j < k,
        start_of(parts, j) <= at <= start_of(parts, j) + parts[j].len(),
    decreases k,
{
    if at >= start_of(parts, k - 1) {
        k - 1
    } else {
        every_place_lies_in_a_part(parts, k - 1, at)
    }
}

/// The first place of a character has it and none before does; where there is none, none has it.
pub proof fn the_first_place_is_the_first(text: Seq<char>, c: char)
    ensures
        ({
            let at = first_index(text, c);
            &&& -1 <= at < text.len()
            &&& at >= 0 ==> text[at] == c
            &&& at >= 0 ==> forall|j: int| 0 <= j < at ==> text[j] != c
            &&& at < 0 ==> forall|j: int| 0 <= j < text.len() ==> text[j] != c
        }),
    decreases text.len(),
{
    if text.len() > 0 && text[0] != c {
        let rest = text.drop_first();
        the_first_place_is_the_first(rest, c);
        assert forall|j: int| 0 < j < text.len() implies text[j] == rest[j - 1] by {}
    }
}

/// The last place of a character has it and none behind does; where there is none, none has it.
pub proof fn the_last_place_is_the_last(text: Seq<char>, c: char)
    ensures
        ({
            let at = last_index(text, c);
            &&& -1 <= at < text.len()
            &&& at >= 0 ==> text[at] == c
            &&& forall|j: int| at < j < text.len() ==> text[j] != c
        }),
    decreases text.len(),
{
    if text.len() > 0 && text.last() != c {
        let rest = text.drop_last();
        the_last_place_is_the_last(rest, c);
        assert forall|j: int| last_index(text, c) < j < text.len() implies text[j] != c by {
            assert(j < rest.len() ==> rest[j] == text[j]);
        }
    }
}

/// A text has a pattern exactly where the characters from some place on spell it.
pub proof fn a_text_has_what_it_spells(text: Seq<char>, pattern: Seq<char>, at: int)
    ensures
        0 <= at <= text.len() - pattern.len() && (forall|i: int|
            0 <= i < pattern.len() ==> text[at + i] == #[trigger] pattern[i]) ==> has_text(
            text,
            pattern,
        ),
        has_text(text, pattern) ==> exists|at: int|
            0 <= at <= text.len() - pattern.len() && #[trigger] text.subrange(
                at,
                at + pattern.len(),
            ) == pattern,
{
    if 0 <= at <= text.len() - pattern.len() && (forall|i: int|
        0 <= i < pattern.len() ==> text[at + i] == #[trigger] pattern[i]) {
        assert(text.subrange(at, at + pattern.len()) =~= pattern);
        assert(stands_at(text, pattern, at));
    }
    if has_text(text, pattern) {
        let at = choose|at: int| stands_at(text, pattern, at);
        assert(text.subrange(at, at + pattern.len()) == pattern);
    }
}

/// A text begins with a prefix exactly where its first characters are those of the prefix.
pub proof fn a_text_begins_with_its_first_characters(text: Seq<char>, prefix: Seq<char>)
    ensures
        begins_with(text, prefix) <==> text.len() >= prefix.len() && text.take(prefix.len() as int)
            == prefix,
{
    if text.len() >= prefix.len() {
        assert(text.take(prefix.len() as int) =~= text.subrange(0, prefix.len() as int));
    }
}

/// The capitals from A to Z have the small letter that stands thirty-two places behind them, and
/// no other character has another.
pub proof fn only_capitals_have_a_small_letter(c: char)
    ensures
        'A' <= c && c <= 'Z' ==> ascii_lower(c) as u32 == c as u32 + 32,
        c < 'A' || c > 'Z' ==> ascii_lower(c) == c,
{
}

/// Two texts are the same but for case exactly where each character of one is that of the other,
/// or one of the two is a capital of A to Z and the other its small letter.
pub proof fn case_is_all_that_may_differ(a: Seq<char>, b: Seq<char>)
    ensures
        same_but_for_case(a, b) <==> a.len() == b.len() && forall|i: int|
            0 <= i < a.len() ==> {
                ||| #[trigger] a[i] == b[i]
                ||| 'A' <= a[i] && a[i] <= 'Z' && b[i] as u32 == a[i] as u32 + 32
                ||| 'A' <= b[i] && b[i] <= 'Z' && a[i] as u32 == b[i] as u32 + 32
            },
{
    assert forall|i: int| 0 <= i < a.len() && a.len() == b.len() implies (ascii_lower(
        #[trigger] a[i],
    ) == ascii_lower(b[i])) == {
        ||| a[i] == b[i]
        ||| 'A' <= a[i] && a[i] <= 'Z' && b[i] as u32 == a[i] as u32 + 32
        ||| 'A' <= b[i] && b[i] <= 'Z' && a[i] as u32 == b[i] as u32 + 32
    } by {
        only_capitals_have_a_small_letter(a[i]);
        only_capitals_have_a_small_letter(b[i]);
    }
}

/// What is said of a list of texts holds of each of them.
pub proof fn texts_are_what_they_spell(list: Seq<String>, text: Option<String>, i: int)
    requires
        0 <= i < list.len(),
    ensures
        texts(list).len() == list.len(),
        texts(list)[i] == list[i]@,
        text matches Some(some) ==> optional_text(text) == Some(some@),
        text is None ==> optional_text(text) is None,
{
}

} // verus!
