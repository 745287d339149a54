//! Texts as sequences of characters: the comparisons and searches that the rest of the
//! library is written with.
use vstd::prelude::*;

verus! {

/// `String::push`: one character more at the end of the text.
pub assume_specification[ String::push ](text: &mut String, c: char)
    ensures
        final(text)@ == old(text)@.push(c),
;

/// What a list of strings says.
pub open spec fn texts(list: Seq<String>) -> Seq<Seq<char>> {
    list.map_values(|text: String| text@)
}

/// The parts of `text` between the occurrences of `sep`: one more than there are occurrences.
pub open spec fn pieces(text: Seq<char>, sep: char) -> Seq<Seq<char>>
    decreases text.len(),
{
    if text.len() == 0 {
        seq![Seq::empty()]
    } else {
        let before = pieces(text.drop_last(), sep);
        if text.last() == sep {
            before.push(Seq::empty())
        } else {
            before.drop_last().push(before.last().push(text.last()))
        }
    }
}

/// Where `c` occurs last in `text`, or -1.
pub open spec fn last_index(text: Seq<char>, c: char) -> int
    decreases text.len(),
{
    if text.len() == 0 {
        -1
    } else if text.last() == c {
        text.len() - 1
    } else {
        last_index(text.drop_last(), c)
    }
}

/// Where `c` occurs first in `text`, or -1.
pub open spec fn first_index(text: Seq<char>, c: char) -> int
    decreases text.len(),
{
    if text.len() == 0 {
        -1
    } else if text[0] == c {
        0
    } else {
        let after = first_index(text.drop_first(), c);
        if after < 0 {
            -1
        } else {
            after + 1
        }
    }
}

/// `pattern` stands in `text` at `at`.
pub open spec fn stands_at(text: Seq<char>, pattern: Seq<char>, at: int) -> bool {
    0 <= at && at + pattern.len() <= text.len() && text.subrange(at, at + pattern.len()) == pattern
}

/// `pattern` stands somewhere in `text`.
pub open spec fn has_text(text: Seq<char>, pattern: Seq<char>) -> bool {
    exists|at: int| stands_at(text, pattern, at)
}

/// `text` begins with `prefix`.
pub open spec fn begins_with(text: Seq<char>, prefix: Seq<char>) -> bool {
    stands_at(text, prefix, 0)
}

/// The lower-case form of an ASCII letter; any other character as it is.
pub open spec fn ascii_lower(c: char) -> char {
    if 'A' <= c && c <= 'Z' {
        (c as u32 + 32) as char
    } else {
        c
    }
}

/// The texts differ at most in the case of ASCII letters.
pub open spec fn same_but_for_case(a: Seq<char>, b: Seq<char>) -> bool {
    a.len() == b.len() && forall|i: int|
        0 <= i < a.len() ==> ascii_lower(#[trigger] a[i]) == ascii_lower(b[i])
}

/// The text that bytes spell when what is not UTF-8 among them is replaced.
pub uninterp spec fn lossy_text(bytes: Seq<u8>) -> Seq<char>;

/// `String::from_utf8_lossy`: a text that depends on the bytes alone, and that is what they
/// spell where they are UTF-8.
#[verifier::external_body]
pub(crate) fn from_utf8_lossy(bytes: &[u8]) -> (text: String)
    ensures
        text@ == lossy_text(bytes@),
        vstd::utf8::valid_utf8(bytes@) ==> text@ == vstd::utf8::decode_utf8(bytes@),
{
    String::from_utf8_lossy(bytes).into_owned()
}

/// A text has at least one piece.
pub proof fn lemma_pieces_nonempty(text: Seq<char>, sep: char)
    ensures
        pieces(text, sep).len() > 0,
    decreases text.len(),
{
    if text.len() > 0 {
        lemma_pieces_nonempty(text.drop_last(), sep);
    }
}

/// Whether the two texts are the same.
pub fn text_eq(a: &str, b: &str) -> (equal: bool)
    ensures
        equal == (a@ == b@),
{
    a.to_owned() == b.to_owned()
}

/// A copy of the list.
pub fn copies(list: &Vec<String>) -> (copy: Vec<String>)
    ensures
        copy@ == list@,
{
    let mut copy: Vec<String> = Vec::new();
    for i in 0..list.len()
        invariant
            copy.len() == i,
            forall|j: int| 0 <= j < i ==> copy@[j] == list@[j],
    {
        copy.push(list[i].clone());
    }
    assert(copy@ =~= list@);
    copy
}

/// The characters of `text`, one by one.
pub fn chars_of(text: &str) -> (chars: Vec<char>)
    ensures
        chars@ == text@,
{
    let mut chars: Vec<char> = Vec::new();
    for c in rest: text.chars()
        invariant
            rest.seq() == text@,
            chars@ == text@.take(rest.index() as int),
    {
        chars.push(c);
    }
    assert(text@.take(text@.len() as int) == text@);
    chars
}

/// The text that the characters from `from` up to `to` spell.
pub fn string_of(chars: &Vec<char>, from: usize, to: usize) -> (text: String)
    requires
        from <= to <= chars.len(),
    ensures
        text@ == chars@.subrange(from as int, to as int),
{
    let mut text: String = String::new();
    for i in from..to
        invariant
            from <= i <= to <= chars.len(),
            text@ == chars@.subrange(from as int, i as int),
    {
        text.push(chars[i]);
    }
    text
}

/// Owned copies of the texts in `items`.
pub fn strings(items: Vec<&str>) -> (list: Vec<String>)
    ensures
        texts(list@) == items@.map_values(|item: &str| item@),
{
    let mut list: Vec<String> = Vec::new();
    for i in 0..items.len()
        invariant
            list.len() == i,
            forall|j: int| 0 <= j < i ==> (#[trigger] list@[j])@ == items@[j]@,
    {
        list.push(items[i].to_owned());
    }
    list
}

proof fn lemma_last_index(text: Seq<char>, c: char, at: int)
    requires
        -1 <= at < text.len(),
        at >= 0 ==> text[at] == c,
        forall|j: int| at < j < text.len() ==> text[j] != c,
    ensures
        last_index(text, c) == at,
    decreases text.len(),
{
    if text.len() > 0 && at < text.len() - 1 {
        assert(text[text.len() - 1] != c);
        lemma_last_index(text.drop_last(), c, at);
    }
}

proof fn lemma_first_index(text: Seq<char>, c: char, at: int)
    requires
        0 <= at <= text.len(),
        at < text.len() ==> text[at] == c,
        forall|j: int| 0 <= j < at ==> text[j] != c,
    ensures
        first_index(text, c) == if at < text.len() {
            at
        } else {
            -1
        },
    decreases text.len(),
{
    if text.len() > 0 && at > 0 {
        let rest = text.drop_first();
        assert forall|j: int| 0 <= j < at - 1 implies rest[j] != c by {
            assert(text[j + 1] != c);
        }
        lemma_first_index(rest, c, at - 1);
    }
}

/// Where `c` occurs first among the characters.
pub fn find_char(chars: &Vec<char>, c: char) -> (found: Option<usize>)
    ensures
        match found {
            Some(at) => first_index(chars@, c) == at && at < chars.len(),
            None => first_index(chars@, c) == -1,
        },
{
    for i in 0..chars.len()
        invariant
            forall|j: int| 0 <= j < i ==> chars@[j] != c,
    {
        if chars[i] == c {
            proof {
                lemma_first_index(chars@, c, i as int);
            }
            return Some(i);
        }
    }
    proof {
        lemma_first_index(chars@, c, chars@.len() as int);
    }
    None
}

/// Where `c` occurs last among the characters, counted from 1; 0 where it does not.
pub fn after_last(chars: &Vec<char>, c: char) -> (n: usize)
    ensures
        n == last_index(chars@, c) + 1,
        n <= chars.len(),
{
    let mut i: usize = chars.len();
    while i > 0
        invariant
            i <= chars.len(),
            forall|j: int| i <= j < chars.len() ==> chars@[j] != c,
        decreases i,
    {
        if chars[i - 1] == c {
            proof {
                lemma_last_index(chars@, c, i - 1);
            }
            return i;
        }
        i = i - 1;
    }
    proof {
        lemma_last_index(chars@, c, -1);
    }
    0
}

/// The parts of `text` between the occurrences of `sep`.
pub fn split(text: &str, sep: char) -> (parts: Vec<String>)
    ensures
        texts(parts@) == pieces(text@, sep),
{
    let chars: Vec<char> = chars_of(text);
    let mut parts: Vec<String> = Vec::new();
    let mut part: String = String::new();
    assert(texts(parts@).push(part@) =~= pieces(text@.take(0), sep));
    for i in 0..chars.len()
        invariant
            chars@ == text@,
            texts(parts@).push(part@) == pieces(text@.take(i as int), sep),
    {
        let ghost before = texts(parts@).push(part@);
        let ghost seen = text@.take(i + 1);
        assert(seen.drop_last() == text@.take(i as int));
        assert(before.drop_last() =~= texts(parts@));
        assert(before.last() == part@);
        if chars[i] == sep {
            parts.push(part);
            part = String::new();
            assert(texts(parts@) =~= before);
        } else {
            part.push(chars[i]);
        }
        assert(pieces(seen, sep) == texts(parts@).push(part@));
    }
    let ghost all = texts(parts@).push(part@);
    assert(text@.take(text@.len() as int) == text@);
    parts.push(part);
    assert(texts(parts@) =~= all);
    parts
}

/// Whether `pattern` stands in `text` at `at`.
fn matches_at(text: &Vec<char>, pattern: &Vec<char>, at: usize) -> (stands: bool)
    requires
        at + pattern.len() <= text.len(),
    ensures
        stands == stands_at(text@, pattern@, at as int),
{
    for i in 0..pattern.len()
        invariant
            at + pattern.len() <= text.len(),
            forall|j: int| 0 <= j < i ==> text@[at + j] == pattern@[j],
    {
        if text[at + i] != pattern[i] {
            assert(text@.subrange(at as int, at + pattern.len())[i as int] != pattern@[i as int]);
            return false;
        }
    }
    assert(text@.subrange(at as int, at + pattern.len()) =~= pattern@);
    true
}

/// Whether `pattern` stands somewhere in `text`.
pub fn contains(text: &str, pattern: &str) -> (found: bool)
    ensures
        found == has_text(text@, pattern@),
{
    let chars: Vec<char> = chars_of(text);
    let sought: Vec<char> = chars_of(pattern);
    if sought.len() > chars.len() {
        return false;
    }
    for at in 0..chars.len() - sought.len()
        invariant
            chars@ == text@,
            sought@ == pattern@,
            sought.len() <= chars.len(),
            forall|j: int| 0 <= j < at ==> !stands_at(text@, pattern@, j),
    {
        if matches_at(&chars, &sought, at) {
            return true;
        }
    }
    matches_at(&chars, &sought, chars.len() - sought.len())
}

/// Whether `text` begins with `prefix`.
pub fn starts_with(text: &str, prefix: &str) -> (yes: bool)
    ensures
        yes == begins_with(text@, prefix@),
{
    let chars: Vec<char> = chars_of(text);
    let sought: Vec<char> = chars_of(prefix);
    sought.len() <= chars.len() && matches_at(&chars, &sought, 0)
}

/// The lower-case form of an ASCII letter; any other character as it is.
fn lower(c: char) -> (l: char)
    ensures
        l == ascii_lower(c),
{
    if 'A' <= c && c <= 'Z' {
        (c as u8 + 32) as char
    } else {
        c
    }
}

/// Whether the texts differ at most in the case of ASCII letters.
pub fn eq_ignore_ascii_case(a: &str, b: &str) -> (equal: bool)
    ensures
        equal == same_but_for_case(a@, b@),
{
    let left: Vec<char> = chars_of(a);
    let right: Vec<char> = chars_of(b);
    if left.len() != right.len() {
        return false;
    }
    for i in 0..left.len()
        invariant
            left@ == a@,
            right@ == b@,
            left.len() == right.len(),
            forall|j: int| 0 <= j < i ==> ascii_lower(#[trigger] a@[j]) == ascii_lower(b@[j]),
    {
        if lower(left[i]) != lower(right[i]) {
            return false;
        }
    }
    true
}

} // verus!
