//! What a Windows path begins with, and how one is joined to another.
use vstd::prelude::*;

use crate::path::name_stem;
use crate::path_laws::plain_name;
use crate::windows_path::{
    backslashed, before_body, descended, drive_at, extension_replaced, file_name_of, head_of,
    joined, last_start, name_start, parent_of, root_follows, separates, slash, trimmed,
    trimmed_to, word_len, words, HeadView,
};

verus! {

/// A word goes on up to the next separator.
pub proof fn a_word_ends_at_the_next_separator(
    verbatim: bool,
    path: Seq<char>,
    from: int,
    to: int,
)
    requires
        0 <= from <= to <= path.len(),
        to == path.len() || path[to] == '\\' || (!verbatim && path[to] == '/'),
        forall|i: int| from <= i < to ==> path[i] != '\\' && (verbatim || path[i] != '/'),
    ensures
        word_len(verbatim, path, from) == to - from,
    decreases to - from,
{
    if from < to {
        a_word_ends_at_the_next_separator(verbatim, path, from + 1, to);
    }
}

/// The character is a letter from A to Z, in either case.
pub open spec fn drive_letter(c: char) -> bool {
    ('a' <= c && c <= 'z') || ('A' <= c && c <= 'Z')
}

/// A letter and a colon in front are a drive, and what begins with neither that nor two separators
/// has no prefix.
pub proof fn a_drive_is_a_letter_and_a_colon(path: Seq<char>)
    ensures
        path.len() >= 2 && drive_letter(path[0]) && path[1] == ':' ==> head_of(path) == (HeadView {
            prefix: 2,
            verbatim: false,
            drive: true,
        }),
        path.len() < 2 || (!(drive_letter(path[0]) && path[1] == ':') && !(slash(path[0]) && slash(
            path[1],
        ))) ==> head_of(path) == (HeadView { prefix: 0, verbatim: false, drive: false }),
{
    reveal(head_of);
}

/// A path is verbatim exactly where it begins with two backslashes, a question mark and one more
/// backslash; no slash will do for any of them.
pub proof fn a_verbatim_path_begins_with_backslashes(path: Seq<char>)
    ensures
        head_of(path).verbatim <==> path.len() >= 4 && path.take(4) == seq!['\\', '\\', '?', '\\'],
        head_of(path).drive <==> path.len() >= 2 && drive_letter(path[0]) && path[1] == ':',
{
    reveal(head_of);
    if path.len() >= 4 {
        let front = path.take(4);
        assert(front[0] == path[0] && front[1] == path[1] && front[2] == path[2] && front[3]
            == path[3]);
        if path[0] == '\\' && path[1] == '\\' && path[2] == '?' && path[3] == '\\' {
            assert(front =~= seq!['\\', '\\', '?', '\\']);
        }
    }
}

/// The text is one word for both ways in which paths are separated.
pub open spec fn one_word(text: Seq<char>) -> bool {
    text.len() > 0 && forall|i: int|
        0 <= i < text.len() ==> text[i] != '\\' && #[trigger] text[i] != '/'
}

/// Two backslashes, a server, one more and a share are the prefix of a path on that share.
pub proof fn a_share_is_a_prefix(server: Seq<char>, share: Seq<char>, rest: Seq<char>)
    requires
        one_word(server),
        one_word(share),
        server != seq!['?'],
        server != seq!['.'],
        rest.len() == 0 || rest[0] == '\\' || rest[0] == '/',
    ensures
        head_of(seq!['\\', '\\'] + server + seq!['\\'] + share + rest) == (HeadView {
            prefix: 3int + server.len() + share.len(),
            verbatim: false,
            drive: false,
        }),
{
    reveal(head_of);
    let path = seq!['\\', '\\'] + server + seq!['\\'] + share + rest;
    let a = 2 + server.len() as int;
    let b = a + 1 + share.len();
    assert(path[a] == '\\');
    assert forall|i: int| 2 <= i < a implies path[i] != '\\' && path[i] != '/' by {
        assert(path[i] == server[i - 2]);
    }
    assert forall|i: int| a + 1 <= i < b implies path[i] != '\\' && path[i] != '/' by {
        assert(path[i] == share[i - a - 1]);
    }
    if b < path.len() {
        assert(path[b] == rest[0]);
    }
    a_word_ends_at_the_next_separator(false, path, 2, a);
    a_word_ends_at_the_next_separator(false, path, a + 1, b);
    assert(path[2] == server[0]);
    if server.len() == 1 {
        if server[0] == '?' {
            assert(server =~= seq!['?']);
        }
        if server[0] == '.' {
            assert(server =~= seq!['.']);
        }
    } else {
        assert(path[3] == server[1]);
    }
}

/// Behind two backslashes, a question mark and one more, a drive is part of the prefix.
pub proof fn a_verbatim_drive_is_a_prefix(letter: char, rest: Seq<char>)
    requires
        drive_letter(letter),
        rest.len() == 0 || rest[0] == '\\' || rest[0] == '/',
    ensures
        head_of(seq!['\\', '\\', '?', '\\', letter, ':'] + rest) == (HeadView {
            prefix: 6,
            verbatim: true,
            drive: false,
        }),
{
    reveal(head_of);
    let path = seq!['\\', '\\', '?', '\\', letter, ':'] + rest;
    assert(path[0] == '\\' && path[1] == '\\' && path[2] == '?' && path[3] == '\\');
    assert(path[4] == letter && path[5] == ':');
    if rest.len() > 0 {
        assert(path[6] == rest[0]);
    }
}

/// Behind the same, and UNC with one more backslash, a server and a share are.
pub proof fn a_verbatim_share_is_a_prefix(server: Seq<char>, share: Seq<char>, rest: Seq<char>)
    requires
        one_word(server),
        one_word(share),
        rest.len() == 0 || rest[0] == '\\',
    ensures
        head_of(
            seq!['\\', '\\', '?', '\\', 'U', 'N', 'C', '\\'] + server + seq!['\\'] + share + rest,
        ) == (HeadView { prefix: 9int + server.len() + share.len(), verbatim: true, drive: false }),
{
    reveal(head_of);
    let front = seq!['\\', '\\', '?', '\\', 'U', 'N', 'C', '\\'];
    let path = front + server + seq!['\\'] + share + rest;
    let a = 8 + server.len() as int;
    let b = a + 1 + share.len();
    assert forall|i: int| 0 <= i < 8 implies path[i] == front[i] by {}
    assert(path[0] == '\\' && path[1] == '\\' && path[2] == '?' && path[3] == '\\');
    assert(path[4] == 'U' && path[5] == 'N' && path[6] == 'C' && path[7] == '\\');
    assert(path[a] == '\\');
    assert forall|i: int| 8 <= i < a implies path[i] != '\\' by {
        assert(path[i] == server[i - 8]);
    }
    assert forall|i: int| a + 1 <= i < b implies path[i] != '\\' by {
        assert(path[i] == share[i - a - 1]);
    }
    if b < path.len() {
        assert(path[b] == rest[0]);
    }
    a_word_ends_at_the_next_separator(true, path, 8, a);
    a_word_ends_at_the_next_separator(true, path, a + 1, b);
}

/// What has a prefix of its own stands for itself; what has only a root takes the prefix of the
/// base; and the rest goes behind the base, with a backslash between them unless the base ends in
/// a separator or is a mere drive.
pub proof fn a_path_goes_behind_its_base(base: Seq<char>, rel: Seq<char>)
    ensures
        head_of(rel).prefix > 0 ==> joined(base, rel) == rel,
        head_of(rel).prefix == 0 && !head_of(base).verbatim && rel.len() > 0 && slash(rel[0])
            ==> joined(base, rel) == base.take(head_of(base).prefix) + rel,
        head_of(rel).prefix == 0 && (rel.len() == 0 || (!head_of(base).verbatim && !slash(rel[0])))
            && base.len() > 0 ==> {
            &&& slash(base.last()) || (base.len() == 2 && drive_letter(base[0]) && base[1] == ':')
                ==> joined(base, rel) == base + rel
            &&& !slash(base.last()) && !(base.len() == 2 && drive_letter(base[0]) && base[1]
                == ':') ==> joined(base, rel) == base + seq!['\\'] + rel
        },
{
    reveal(joined);
    a_drive_is_a_letter_and_a_colon(base);
    assert(base + seq!['\\'] + rel =~= base.push('\\') + rel);
    if base.len() == 2 {
        assert(head_of(base).drive ==> drive_letter(base[0]) && base[1] == ':') by {
            reveal(head_of);
        }
    }
}

proof fn lemma_words_of_one(verbatim: bool, path: Seq<char>, from: int)
    requires
        0 <= from < path.len(),
        forall|i: int| from <= i < path.len() ==> path[i] != '\\' && path[i] != '/',
    ensures
        words(verbatim, path, from) == seq![path.skip(from)],
{
    let n = path.len() as int;
    a_word_ends_at_the_next_separator(verbatim, path, from, n);
    assert(words(verbatim, path, n) == Seq::<Seq<char>>::empty());
    assert(path.subrange(from, n) =~= path.skip(from));
    assert(seq![path.skip(from)] + Seq::<Seq<char>>::empty() =~= seq![path.skip(from)]);
}

/// A way down adds a name, a dot nothing, and two dots take the last name off.
pub proof fn each_word_of_a_way_leads_on(
    parts: Seq<Seq<char>>,
    word: Seq<char>,
    rest: Seq<Seq<char>>,
)
    ensures
        descended(parts, Seq::empty()) == parts,
        word == seq!['.'] ==> descended(parts, seq![word] + rest) == descended(parts, rest),
        word != seq!['.'] && word != seq!['.', '.'] ==> descended(parts, seq![word] + rest)
            == descended(parts.push(word), rest),
        word == seq!['.', '.'] && parts.len() == 0 ==> descended(parts, seq![word] + rest)
            == descended(parts, rest),
        word == seq!['.', '.'] && parts.len() > 0 && parts.last() != seq!['.'] && parts.last()
            != seq!['.', '.'] ==> descended(parts, seq![word] + rest) == descended(
            parts.drop_last(),
            rest,
        ),
{
    assert((seq![word] + rest).drop_first() =~= rest);
    if word == seq!['.'] {
        assert(seq!['.'].len() != seq!['.', '.'].len());
    }
    if word == seq!['.', '.'] {
        assert(word.len() == 2);
        assert(word != seq!['.']);
    }
}

/// A name goes behind a verbatim directory with a backslash, and two dots lead up from it.
pub proof fn a_name_goes_behind_a_verbatim_directory(
    letter: char,
    dir: Seq<char>,
    name: Seq<char>,
)
    requires
        drive_letter(letter),
        plain_name(dir),
        plain_name(name),
    ensures
        ({
            let base = seq!['\\', '\\', '?', '\\', letter, ':', '\\'] + dir;
            &&& joined(base, name) == base + seq!['\\'] + name
            &&& joined(base, seq!['.', '.']) == seq!['\\', '\\', '?', '\\', letter, ':', '\\']
            &&& joined(base, seq!['.']) == base
        }),
{
    reveal(joined);
    let front = seq!['\\', '\\', '?', '\\', letter, ':'];
    let rest = seq!['\\'] + dir;
    let base = seq!['\\', '\\', '?', '\\', letter, ':', '\\'] + dir;
    let up = seq!['.', '.'];
    let here = seq!['.'];
    assert(front + rest =~= base);
    a_verbatim_drive_is_a_prefix(letter, rest);
    assert(base[6] == '\\');
    assert forall|i: int| 7 <= i < base.len() implies base[i] != '\\' && base[i] != '/' by {
        assert(base[i] == dir[i - 7]);
    }
    lemma_words_of_one(true, base, 7);
    assert(base.skip(7) =~= dir);
    assert(root_follows(base));
    assert(base.take(6) =~= front);
    // the name
    assert(name[0] != '\\' && name[0] != '/');
    a_drive_is_a_letter_and_a_colon(name);
    lemma_words_of_one(false, name, 0);
    assert(name.skip(0) =~= name);
    let empty = Seq::<Seq<char>>::empty();
    each_word_of_a_way_leads_on(seq![dir], name, empty);
    assert(seq![name] + empty =~= seq![name]);
    assert(descended(seq![dir].push(name), empty) == seq![dir].push(name));
    lemma_backslashed(dir, name);
    assert(front + (seq!['\\'] + dir + seq!['\\'] + name) =~= base + seq!['\\'] + name);
    // two dots
    a_drive_is_a_letter_and_a_colon(up);
    lemma_words_of_one(false, up, 0);
    assert(up.skip(0) =~= up);
    each_word_of_a_way_leads_on(seq![dir], up, empty);
    assert(seq![up] + empty =~= seq![up]);
    assert(seq![dir].last() == dir);
    assert(descended(seq![dir].drop_last(), empty) == seq![dir].drop_last());
    assert(front.push('\\') =~= seq!['\\', '\\', '?', '\\', letter, ':', '\\']);
    // one dot
    a_drive_is_a_letter_and_a_colon(here);
    lemma_words_of_one(false, here, 0);
    assert(here.skip(0) =~= here);
    each_word_of_a_way_leads_on(seq![dir], here, empty);
    assert(seq![here] + empty =~= seq![here]);
    assert(descended(seq![dir], empty) == seq![dir]);
    assert(front + (seq!['\\'] + dir) =~= base);
}

proof fn lemma_backslashed(a: Seq<char>, b: Seq<char>)
    ensures
        backslashed(seq![a]) == seq!['\\'] + a,
        backslashed(seq![a].push(b)) == seq!['\\'] + a + seq!['\\'] + b,
{
    let one = seq![a];
    let two = seq![a].push(b);
    assert(one.drop_last() =~= Seq::<Seq<char>>::empty());
    assert(backslashed(one.drop_last()) == Seq::<char>::empty());
    assert(backslashed(one) =~= seq!['\\'] + a);
    assert(two.drop_last() =~= one);
    assert(backslashed(two) =~= seq!['\\'] + a + seq!['\\'] + b);
}

/// A mere name is its own file name, in nowhere; behind a drive it is in that drive; and a drive
/// with its root has neither.
pub proof fn a_name_may_stand_alone(letter: char, name: Seq<char>)
    requires
        drive_letter(letter),
        plain_name(name),
    ensures
        file_name_of(name) == Some(name),
        parent_of(name) == Some(Seq::<char>::empty()),
        file_name_of(seq![letter, ':'] + name) == Some(name),
        parent_of(seq![letter, ':'] + name) == Some(seq![letter, ':']),
        file_name_of(seq![letter, ':', '\\']) is None,
        parent_of(seq![letter, ':', '\\']) is None,
{
    reveal(file_name_of);
    reveal(parent_of);
    let on_drive = seq![letter, ':'] + name;
    let root = seq![letter, ':', '\\'];
    a_drive_is_a_letter_and_a_colon(name);
    a_drive_is_a_letter_and_a_colon(on_drive);
    a_drive_is_a_letter_and_a_colon(root);
    assert(name[0] != '/' && name[0] != '\\');
    assert(on_drive[2] == name[0]);
    if name.len() == 1 {
        if name[0] == '.' {
            assert(name =~= seq!['.']);
        }
    } else {
        assert(name[1] != '/' && name[1] != '\\');
        assert(on_drive[3] == name[1]);
    }
    lemma_alone(name, 0);
    assert forall|i: int| 2 <= i < on_drive.len() implies on_drive[i] != '/' && on_drive[i]
        != '\\' by {
        assert(on_drive[i] == name[i - 2]);
    }
    lemma_alone(on_drive, 2);
    assert(name.skip(0) =~= name);
    assert(on_drive.skip(2) =~= name);
    assert(name.take(0) =~= Seq::<char>::empty());
    assert(on_drive.take(2) =~= seq![letter, ':']);
    assert(trimmed(root) == root);
    assert(name_start(root) == 3);
    assert(root.skip(3) =~= Seq::<char>::empty());
}

proof fn lemma_alone(path: Seq<char>, keep: int)
    requires
        0 <= keep < path.len(),
        forall|i: int| keep <= i < path.len() ==> path[i] != '/' && path[i] != '\\',
        path.len() == keep + 1 ==> path[keep] != '.',
    ensures
        trimmed_to(false, path, keep) == path,
        last_start(false, path, keep) == keep,
{
    let n = path.len() as int;
    assert(!separates(false, path[n - 1]));
    if n > keep + 1 {
        assert(!separates(false, path[n - 2]));
    }
    assert forall|i: int| keep <= i < path.len() implies !separates(false, path[i]) by {
        assert(path[i] != '/' && path[i] != '\\');
    }
    lemma_last_word(false, path, keep, keep);
}

/// A name behind a dot and a separator is in what that dot stands for, and the dot itself has no
/// name and is in nowhere.
pub proof fn a_dot_stands_for_where_one_is(separator: char, name: Seq<char>)
    requires
        separator == '/' || separator == '\\',
        plain_name(name),
    ensures
        file_name_of(seq!['.', separator] + name) == Some(name),
        parent_of(seq!['.', separator] + name) == Some(seq!['.']),
        file_name_of(seq!['.']) is None,
        parent_of(seq!['.']) == Some(Seq::<char>::empty()),
{
    reveal(file_name_of);
    reveal(parent_of);
    let path = seq!['.', separator] + name;
    let dot = seq!['.'];
    let n = name.len() as int;
    a_drive_is_a_letter_and_a_colon(path);
    a_drive_is_a_letter_and_a_colon(dot);
    assert(path[0] == '.' && path[1] == separator);
    assert(before_body(path) == 1);
    assert(path.last() == name[n - 1]);
    assert(name[n - 1] != '/' && name[n - 1] != '\\');
    if name.last() == '.' {
        if n == 1 {
            assert(name =~= seq!['.']);
        }
        assert(name[n - 2] != '/' && name[n - 2] != '\\');
        assert(path[path.len() - 2] == name[n - 2]);
    }
    assert(trimmed(path) == path);
    assert forall|i: int| 2 <= i < path.len() implies !separates(false, path[i]) by {
        assert(path[i] == name[i - 2]);
    }
    lemma_last_word(false, path, 1, 2);
    assert(path.skip(2) =~= name);
    assert(path.take(2) =~= seq!['.', separator]);
    assert(path.take(2).drop_last() =~= dot);
    assert(trimmed_to(false, dot, 1) == dot);
    assert(trimmed_to(false, path.take(2), 1) == trimmed_to(false, dot, 1));
    assert(trimmed(dot) == dot);
    assert(dot.skip(1) =~= Seq::<char>::empty());
    assert(dot.take(0) =~= Seq::<char>::empty());
}

/// Two backslashes, a dot and one more name a device, whose name is part of the prefix.
pub proof fn a_device_is_a_prefix(device: Seq<char>, rest: Seq<char>)
    requires
        one_word(device),
        rest.len() == 0 || rest[0] == '\\' || rest[0] == '/',
    ensures
        head_of(seq!['\\', '\\', '.', '\\'] + device + rest) == (HeadView {
            prefix: 4int + device.len(),
            verbatim: false,
            drive: false,
        }),
{
    reveal(head_of);
    let path = seq!['\\', '\\', '.', '\\'] + device + rest;
    let a = 4 + device.len() as int;
    assert(path[0] == '\\' && path[1] == '\\' && path[2] == '.' && path[3] == '\\');
    assert forall|i: int| 4 <= i < a implies path[i] != '\\' && path[i] != '/' by {
        assert(path[i] == device[i - 4]);
    }
    if a < path.len() {
        assert(path[a] == rest[0]);
    }
    a_word_ends_at_the_next_separator(false, path, 4, a);
}

/// A server without a share is no prefix, and nor is a share without a server.
pub proof fn a_share_has_a_server(word: Seq<char>)
    requires
        one_word(word),
        word != seq!['?'],
        word != seq!['.'],
    ensures
        head_of(seq!['\\', '\\'] + word).prefix == 0,
        head_of(seq!['\\', '\\'] + word + seq!['\\']).prefix == 0,
        head_of(seq!['\\', '\\', '\\'] + word).prefix == 0,
{
    reveal(head_of);
    let alone = seq!['\\', '\\'] + word;
    let ended = alone + seq!['\\'];
    let third = seq!['\\', '\\', '\\'] + word;
    let n = word.len() as int;
    assert forall|i: int| 2 <= i < n + 2 implies alone[i] == word[i - 2] && ended[i] == word[i
        - 2] by {}
    assert(ended[n + 2] == '\\');
    a_word_ends_at_the_next_separator(false, alone, 2, n + 2);
    a_word_ends_at_the_next_separator(false, ended, 2, n + 2);
    a_word_ends_at_the_next_separator(false, ended, n + 3, n + 3);
    a_word_ends_at_the_next_separator(false, third, 2, 2);
    assert(alone[2] == word[0] && ended[2] == word[0]);
    assert(third[2] == '\\');
    if n == 1 {
        if word[0] == '?' {
            assert(word =~= seq!['?']);
        }
        if word[0] == '.' {
            assert(word =~= seq!['.']);
        }
    } else {
        assert(alone[3] == word[1] && ended[3] == word[1]);
    }
    assert(word_len(false, alone, n + 3) == 0);
}

/// Behind two backslashes, a question mark and one more, UNC with a server alone is the prefix,
/// and so is any other word.
pub proof fn a_verbatim_word_is_a_prefix(word: Seq<char>, rest: Seq<char>)
    requires
        one_word(word),
        rest.len() == 0 || rest[0] == '\\',
    ensures
        head_of(seq!['\\', '\\', '?', '\\', 'U', 'N', 'C', '\\'] + word) == (HeadView {
            prefix: 8int + word.len(),
            verbatim: true,
            drive: false,
        }),
        word != seq!['U', 'N', 'C'] ==> head_of(seq!['\\', '\\', '?', '\\'] + word + rest)
            == (HeadView { prefix: 4int + word.len(), verbatim: true, drive: false }),
{
    reveal(head_of);
    let n = word.len() as int;
    let front = seq!['\\', '\\', '?', '\\', 'U', 'N', 'C', '\\'];
    let server = front + word;
    assert forall|i: int| 0 <= i < 8 implies server[i] == front[i] by {}
    assert(server[0] == '\\' && server[1] == '\\' && server[2] == '?' && server[3] == '\\');
    assert(server[4] == 'U' && server[5] == 'N' && server[6] == 'C' && server[7] == '\\');
    assert forall|i: int| 8 <= i < n + 8 implies server[i] != '\\' by {
        assert(server[i] == word[i - 8]);
    }
    a_word_ends_at_the_next_separator(true, server, 8, n + 8);
    assert(word_len(true, server, n + 9) == 0);
    let path = seq!['\\', '\\', '?', '\\'] + word + rest;
    assert(path[0] == '\\' && path[1] == '\\' && path[2] == '?' && path[3] == '\\');
    assert forall|i: int| 4 <= i < n + 4 implies path[i] == word[i - 4] by {}
    assert forall|i: int| 4 <= i < n + 4 implies path[i] != '\\' && path[i] != '/' by {
        assert(path[i] == word[i - 4]);
    }
    if n + 4 < path.len() {
        assert(path[n + 4] == rest[0]);
    }
    a_word_ends_at_the_next_separator(true, path, 4, n + 4);
    if word != seq!['U', 'N', 'C'] && path.len() >= 8 && path[4] == 'U' && path[5] == 'N' && path[6]
        == 'C' && slash(path[7]) {
        assert(n == 3) by {
            if n > 3 {
                assert(path[7] == word[3]);
            }
            if n < 3 {
                assert(path[n + 4] == '\\');
            }
        }
        assert(word =~= seq!['U', 'N', 'C']);
    }
    if drive_at(path, 4) && (path.len() == 6 || slash(path[6])) {
        if n == 1 {
            assert(path[5] == '\\');
        }
        if n > 2 {
            assert(path[6] == word[2]);
        }
        assert(n == 2);
    }
}

proof fn lemma_last_word(verbatim: bool, path: Seq<char>, keep: int, k: int)
    requires
        0 <= keep <= k <= path.len(),
        k == keep || separates(verbatim, path[k - 1]),
        forall|i: int| k <= i < path.len() ==> !separates(verbatim, path[i]),
    ensures
        last_start(verbatim, path, keep) == k,
    decreases path.len(),
{
    if path.len() > k {
        assert(!separates(verbatim, path[path.len() - 1]));
        lemma_last_word(verbatim, path.drop_last(), keep, k);
    }
}

/// Whatever a Windows path begins with, its last word behind that is its file name, where that is
/// neither one dot nor two, and an extension is put in the place of what that word has.
pub proof fn a_windows_name_stands_behind_the_last_separator(
    path: Seq<char>,
    k: int,
    extension: Seq<char>,
)
    requires
        before_body(path) >= 0,
        before_body(path) <= k < path.len(),
        k == before_body(path) || separates(head_of(path).verbatim, path[k - 1]),
        forall|i: int| k <= i < path.len() ==> !separates(head_of(path).verbatim, path[i]),
        path.skip(k) != seq!['.'],
        path.skip(k) != seq!['.', '.'],
    ensures
        file_name_of(path) == Some(path.skip(k)),
        extension_replaced(path, extension) == path.take(k) + name_stem(path.skip(k)).push('.')
            + extension,
        parent_of(path) matches Some(up) && up.is_prefix_of(path.take(k)) && (up.len()
            > before_body(path) ==> !separates(head_of(path).verbatim, up.last())),
{
    reveal(file_name_of);
    reveal(extension_replaced);
    reveal(parent_of);
    let verbatim = head_of(path).verbatim;
    let keep = before_body(path);
    let n = path.len() as int;
    assert(!separates(verbatim, path[n - 1]));
    if path.last() == '.' {
        if n - 1 == k {
            assert(path.skip(k) =~= seq!['.']);
        }
        assert(!separates(verbatim, path[n - 2]));
    }
    assert(trimmed(path) == path);
    lemma_last_word(verbatim, path, keep, k);
    lemma_trimmed_to(verbatim, path.take(k), keep);
}

proof fn lemma_trimmed_to(verbatim: bool, path: Seq<char>, keep: int)
    ensures
        ({
            let rest = trimmed_to(verbatim, path, keep);
            &&& rest.is_prefix_of(path)
            &&& rest.len() > keep && rest.len() > 0 ==> !separates(verbatim, rest.last())
        }),
    decreases path.len(),
{
    let rest = trimmed_to(verbatim, path, keep);
    if path.len() > keep && path.len() > 0 {
        let shorter = path.drop_last();
        lemma_trimmed_to(verbatim, shorter, keep);
        if rest != path {
            assert(rest == trimmed_to(verbatim, shorter, keep));
            assert(rest =~= shorter.take(rest.len() as int));
            assert(rest =~= path.take(rest.len() as int));
        } else {
            assert(rest =~= path.take(rest.len() as int));
        }
    } else {
        assert(rest =~= path.take(rest.len() as int));
    }
}

} // verus!
