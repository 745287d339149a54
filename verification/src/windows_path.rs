//! Windows paths as texts, with `/` or `\` between their components.
use vstd::prelude::*;

use crate::path::name_stem;
use crate::text::{after_last, chars_of, string_of};

verus! {

/// The character separates components.
pub open spec fn slash(c: char) -> bool {
    c == '/' || c == '\\'
}

/// What a path begins with.
pub ghost struct HeadView {
    /// The length of the prefix, 0 where there is none.
    pub prefix: int,
    /// The prefix is one behind which only a backslash separates, and dots have no meaning.
    pub verbatim: bool,
    /// The prefix is a drive, such as `C:`.
    pub drive: bool,
}

/// How many characters there are from `from` to the next separator, or to the end.
pub open spec fn word_len(verbatim: bool, path: Seq<char>, from: int) -> int
    decreases path.len() - from,
{
    if from >= path.len() || separates(verbatim, path[from]) {
        0
    } else {
        1 + word_len(verbatim, path, from + 1)
    }
}

/// The character separates components behind such a prefix.
pub open spec fn separates(verbatim: bool, c: char) -> bool {
    if verbatim {
        c == '\\'
    } else {
        slash(c)
    }
}

/// A drive such as `C:` stands at `at`.
pub open spec fn drive_at(path: Seq<char>, at: int) -> bool {
    at + 1 < path.len() && (('a' <= path[at] && path[at] <= 'z') || ('A' <= path[at] && path[at]
        <= 'Z')) && path[at + 1] == ':'
}

/// The length of a server's name at `from`.
pub open spec fn server_len(verbatim: bool, path: Seq<char>, from: int) -> int {
    word_len(verbatim, path, from)
}

/// The length of a share's name behind the server's name at `from`.
pub open spec fn share_len(verbatim: bool, path: Seq<char>, from: int) -> int {
    word_len(verbatim, path, from + server_len(verbatim, path, from) + 1)
}

/// What a Windows path begins with. A prefix is `C:`, `\\server\share`, `\\.\device`, or behind
/// `\\?\` one of `UNC\server\share`, `C:` and any other word.
#[verifier::opaque]
pub open spec fn head_of(path: Seq<char>) -> HeadView {
    let none = HeadView { prefix: 0, verbatim: false, drive: false };
    if path.len() >= 2 && slash(path[0]) && slash(path[1]) {
        if path.len() >= 4 && path[0] == '\\' && path[1] == '\\' && path[2] == '?' && path[3]
            == '\\' {
            HeadView { prefix: verbatim_len(path), verbatim: true, drive: false }
        } else if path.len() >= 4 && path[2] == '.' && slash(path[3]) {
            HeadView { prefix: 4 + word_len(false, path, 4), verbatim: false, drive: false }
        } else if server_len(false, path, 2) > 0 && share_len(false, path, 2) > 0 {
            HeadView {
                prefix: 2 + server_len(false, path, 2) + 1 + share_len(false, path, 2),
                verbatim: false,
                drive: false,
            }
        } else {
            none
        }
    } else if drive_at(path, 0) {
        HeadView { prefix: 2, verbatim: false, drive: true }
    } else {
        none
    }
}

/// The length of the prefix of a path that begins with `\\?\`.
pub open spec fn verbatim_len(path: Seq<char>) -> int {
    if path.len() >= 8 && path[4] == 'U' && path[5] == 'N' && path[6] == 'C' && slash(path[7]) {
        8 + server_len(true, path, 8) + (if share_len(true, path, 8) > 0 {
            1 + share_len(true, path, 8)
        } else {
            0
        })
    } else if drive_at(path, 4) && (path.len() == 6 || slash(path[6])) {
        6
    } else {
        4 + word_len(true, path, 4)
    }
}

/// A separator follows the prefix, if any: the path starts at the root.
pub open spec fn root_follows(path: Seq<char>) -> bool {
    let p = head_of(path).prefix;
    p < path.len() && slash(path[p])
}

/// The path has a root: one is written, or the prefix is more than a drive.
pub open spec fn has_root(path: Seq<char>) -> bool {
    let head = head_of(path);
    root_follows(path) || (head.prefix > 0 && !head.drive)
}

/// A path without a root that begins with the current directory.
pub open spec fn starts_here(path: Seq<char>) -> bool {
    let p = head_of(path).prefix;
    !has_root(path) && p < path.len() && path[p] == '.' && (p + 1 == path.len() || slash(
        path[p + 1],
    ))
}

/// How long the part of the path is that stands before its components: the prefix, the root and the
/// current directory.
pub open spec fn before_body(path: Seq<char>) -> int {
    head_of(path).prefix + (if root_follows(path) || starts_here(path) {
        1int
    } else {
        0int
    })
}

/// The path without the separators and the dots that add nothing at its end; the first `keep`
/// characters stay.
pub open spec fn trimmed_to(verbatim: bool, path: Seq<char>, keep: int) -> Seq<char>
    decreases path.len(),
{
    if path.len() <= keep || path.len() == 0 {
        path
    } else if separates(verbatim, path.last()) {
        trimmed_to(verbatim, path.drop_last(), keep)
    } else if !verbatim && path.last() == '.' && (path.len() == keep + 1 || (path.len() > 1
        && separates(verbatim, path[path.len() - 2]))) {
        trimmed_to(verbatim, path.drop_last(), keep)
    } else {
        path
    }
}

/// The path without the separators and the dots that add nothing at its end.
pub open spec fn trimmed(path: Seq<char>) -> Seq<char> {
    trimmed_to(head_of(path).verbatim, path, before_body(path))
}

/// Where the last component of the path begins that ends with the text, not before `keep`.
pub open spec fn last_start(verbatim: bool, path: Seq<char>, keep: int) -> int
    decreases path.len(),
{
    if path.len() <= keep || path.len() == 0 {
        keep
    } else if separates(verbatim, path.last()) {
        path.len() as int
    } else {
        last_start(verbatim, path.drop_last(), keep)
    }
}

/// Where the last component of the path begins, once nothing superfluous stands behind it.
pub open spec fn name_start(path: Seq<char>) -> int {
    last_start(head_of(path).verbatim, trimmed(path), before_body(path))
}

/// The path without its last component. A root, a prefix and the empty path have no parent.
#[verifier::opaque]
pub open spec fn parent_of(path: Seq<char>) -> Option<Seq<char>> {
    let keep = before_body(path);
    let rest = trimmed(path);
    if rest.len() > keep {
        let verbatim = head_of(path).verbatim;
        Some(trimmed_to(verbatim, rest.take(name_start(path)), keep))
    } else if starts_here(path) {
        Some(rest.take(keep - 1))
    } else {
        None
    }
}

/// The last component of the path, where it names a file or directory.
#[verifier::opaque]
pub open spec fn file_name_of(path: Seq<char>) -> Option<Seq<char>> {
    let name = trimmed(path).skip(name_start(path));
    if name.len() == 0 || name == seq!['.'] || name == seq!['.', '.'] {
        None
    } else {
        Some(name)
    }
}

/// The path with `extension` in place of the one that its file name has, or behind it where
/// it has none. A path that names no file stays as it is.
#[verifier::opaque]
pub open spec fn extension_replaced(path: Seq<char>, extension: Seq<char>) -> Seq<char> {
    match file_name_of(path) {
        Some(name) => trimmed(path).take(name_start(path)) + name_stem(name).push('.') + extension,
        None => path,
    }
}

/// The words between the separators, from `from` on.
pub open spec fn words(verbatim: bool, path: Seq<char>, from: int) -> Seq<Seq<char>>
    decreases path.len() - from,
{
    let n = word_len(verbatim, path, from);
    if from >= path.len() {
        Seq::empty()
    } else if n <= 0 || from + n > path.len() {
        words(verbatim, path, from + 1)
    } else {
        seq![path.subrange(from, from + n)] + words(verbatim, path, from + n)
    }
}

/// Where one comes from the components `parts` along the words `way`: a dot stays, two dots go back
/// over a name, where one is last.
pub open spec fn descended(parts: Seq<Seq<char>>, way: Seq<Seq<char>>) -> Seq<Seq<char>>
    decreases way.len(),
{
    if way.len() == 0 {
        parts
    } else {
        let next = if way[0] == seq!['.'] {
            parts
        } else if way[0] != seq!['.', '.'] {
            parts.push(way[0])
        } else if parts.len() > 0 && parts.last() != seq!['.'] && parts.last() != seq!['.', '.'] {
            parts.drop_last()
        } else {
            parts
        };
        descended(next, way.drop_first())
    }
}

/// The words with a backslash before each.
pub open spec fn backslashed(parts: Seq<Seq<char>>) -> Seq<char>
    decreases parts.len(),
{
    if parts.len() == 0 {
        Seq::empty()
    } else {
        backslashed(parts.drop_last()).push('\\') + parts.last()
    }
}

/// `rel` as seen from the directory `base`, whose prefix begins with `\\?\`. There the dots in
/// `rel` are resolved.
pub open spec fn joined_verbatim(base: Seq<char>, rel: Seq<char>) -> Seq<char> {
    let prefix = head_of(base).prefix;
    let rooted = root_follows(base) || has_root(rel);
    let parts = if has_root(rel) {
        Seq::empty()
    } else {
        words(true, base, prefix + (if root_follows(base) {
            1int
        } else {
            0int
        }))
    };
    let all = descended(parts, words(false, rel, 0));
    if all.len() == 0 && rooted {
        base.take(prefix).push('\\')
    } else {
        base.take(prefix) + backslashed(all)
    }
}

/// `rel` as seen from the directory `base`, both Windows paths. One with a prefix is the same from
/// everywhere, and one with a root alone keeps the prefix of `base`.
#[verifier::opaque]
pub open spec fn joined(base: Seq<char>, rel: Seq<char>) -> Seq<char> {
    let head = head_of(base);
    if head_of(rel).prefix > 0 {
        rel
    } else if head.verbatim && rel.len() > 0 {
        joined_verbatim(base, rel)
    } else if has_root(rel) {
        base.take(head.prefix) + rel
    } else if base.len() == 0 || slash(base.last()) || (head.drive && base.len() == 2) {
        base + rel
    } else {
        base.push('\\') + rel
    }
}

/// What a path begins with.
struct Head {
    prefix: usize,
    verbatim: bool,
    drive: bool,
}

impl View for Head {
    type V = HeadView;

    closed spec fn view(&self) -> HeadView {
        HeadView { prefix: self.prefix as int, verbatim: self.verbatim, drive: self.drive }
    }
}

fn is_slash(c: char) -> (yes: bool)
    ensures
        yes == slash(c),
{
    c == '/' || c == '\\'
}

fn is_separator(verbatim: bool, c: char) -> (yes: bool)
    ensures
        yes == separates(verbatim, c),
{
    if verbatim {
        c == '\\'
    } else {
        is_slash(c)
    }
}

/// How many characters there are from `from` to the next separator, or to the end.
fn word(verbatim: bool, path: &Vec<char>, from: usize) -> (n: usize)
    requires
        from <= path.len(),
    ensures
        n == word_len(verbatim, path@, from as int),
        from + n <= path.len(),
{
    let mut n: usize = 0;
    while from + n < path.len() && !is_separator(verbatim, path[from + n])
        invariant
            from + n <= path.len(),
            n + word_len(verbatim, path@, from + n) == word_len(verbatim, path@, from as int),
        decreases path.len() - n,
    {
        n = n + 1;
    }
    n
}

fn is_drive(path: &Vec<char>, at: usize) -> (yes: bool)
    requires
        at <= path.len(),
    ensures
        yes == drive_at(path@, at as int),
{
    path.len() - at >= 2 && (('a' <= path[at] && path[at] <= 'z') || ('A' <= path[at] && path[at]
        <= 'Z')) && path[at + 1] == ':'
}

/// The lengths of the names of a server and a share at `from`.
fn server_and_share(verbatim: bool, path: &Vec<char>, from: usize) -> (lens: (usize, usize))
    requires
        from <= path.len(),
    ensures
        lens.0 == server_len(verbatim, path@, from as int),
        lens.1 == share_len(verbatim, path@, from as int),
        from + lens.0 <= path.len(),
        lens.1 > 0 ==> from + lens.0 + 1 + lens.1 <= path.len(),
{
    let server: usize = word(verbatim, path, from);
    if path.len() - from > server {
        (server, word(verbatim, path, from + server + 1))
    } else {
        (server, 0)
    }
}

/// What a path begins with.
fn head(path: &Vec<char>) -> (head: Head)
    ensures
        head@ == head_of(path@),
        head.prefix <= path.len(),
{
    reveal(head_of);
    let len: usize = path.len();
    if len >= 2 && is_slash(path[0]) && is_slash(path[1]) {
        if len >= 4 && path[0] == '\\' && path[1] == '\\' && path[2] == '?' && path[3] == '\\' {
            let prefix: usize = if len >= 8 && path[4] == 'U' && path[5] == 'N' && path[6] == 'C'
                && is_slash(path[7]) {
                let (server, share) = server_and_share(true, path, 8);
                if share > 0 {
                    8 + server + 1 + share
                } else {
                    8 + server
                }
            } else if is_drive(path, 4) && (len == 6 || is_slash(path[6])) {
                6
            } else {
                4 + word(true, path, 4)
            };
            Head { prefix, verbatim: true, drive: false }
        } else if len >= 4 && path[2] == '.' && is_slash(path[3]) {
            Head { prefix: 4 + word(false, path, 4), verbatim: false, drive: false }
        } else {
            let (server, share) = server_and_share(false, path, 2);
            if server > 0 && share > 0 {
                Head { prefix: 2 + server + 1 + share, verbatim: false, drive: false }
            } else {
                Head { prefix: 0, verbatim: false, drive: false }
            }
        }
    } else if is_drive(path, 0) {
        Head { prefix: 2, verbatim: false, drive: true }
    } else {
        Head { prefix: 0, verbatim: false, drive: false }
    }
}

fn is_root_next(path: &Vec<char>, prefix: usize) -> (yes: bool)
    requires
        prefix == head_of(path@).prefix,
    ensures
        yes == root_follows(path@),
{
    prefix < path.len() && is_slash(path[prefix])
}

/// How long the part of the path is that stands before its components, and whether it ends in the
/// current directory.
fn body_start(path: &Vec<char>, head: &Head) -> (start: (usize, bool))
    requires
        head@ == head_of(path@),
        head.prefix <= path.len(),
    ensures
        start.0 == before_body(path@),
        start.1 == starts_here(path@),
        start.0 <= path.len(),
{
    let p: usize = head.prefix;
    let root = is_root_next(path, p);
    let here = !root && (p == 0 || head.drive) && p < path.len() && path[p] == '.' && (p + 1
        == path.len() || is_slash(path[p + 1]));
    if root || here {
        (p + 1, here)
    } else {
        (p, here)
    }
}

/// The path without what adds nothing at its end.
fn trim(verbatim: bool, path: Vec<char>, keep: usize) -> (rest: Vec<char>)
    ensures
        rest@ == trimmed_to(verbatim, path@, keep as int),
        rest.len() <= path.len(),
        keep <= path.len() ==> keep <= rest.len(),
{
    let mut rest: Vec<char> = path;
    let ghost whole = rest@;
    while rest.len() > keep && (is_separator(verbatim, rest[rest.len() - 1]) || (!verbatim
        && rest[rest.len() - 1] == '.' && (rest.len() - 1 == keep || (rest.len() > 1
        && is_separator(verbatim, rest[rest.len() - 2])))))
        invariant
            rest.len() <= whole.len(),
            keep <= whole.len() ==> keep <= rest.len(),
            trimmed_to(verbatim, rest@, keep as int) == trimmed_to(verbatim, whole, keep as int),
        decreases rest.len(),
    {
        let ghost before = rest@;
        rest.pop();
        assert(rest@ =~= before.drop_last());
    }
    rest
}

/// Where the last component of the path begins that ends with the text.
fn start_of_last(verbatim: bool, path: &Vec<char>, keep: usize) -> (start: usize)
    requires
        keep <= path.len(),
    ensures
        start == last_start(verbatim, path@, keep as int),
        keep <= start <= path.len(),
{
    let mut i: usize = path.len();
    assert(path@.take(i as int) =~= path@);
    while i > keep
        invariant
            keep <= i <= path.len(),
            last_start(verbatim, path@, keep as int) == last_start(
                verbatim,
                path@.take(i as int),
                keep as int,
            ),
        decreases i,
    {
        if is_separator(verbatim, path[i - 1]) {
            return i;
        }
        assert(path@.take(i as int).drop_last() =~= path@.take(i - 1));
        i = i - 1;
    }
    keep
}

/// The words between the separators, from `from` on.
fn split_words(verbatim: bool, path: &Vec<char>, from: usize) -> (list: Vec<Vec<char>>)
    requires
        from <= path.len(),
    ensures
        list@.map_values(|word: Vec<char>| word@) == words(verbatim, path@, from as int),
{
    let mut list: Vec<Vec<char>> = Vec::new();
    let mut at: usize = from;
    let ghost all = words(verbatim, path@, from as int);
    assert(list@.map_values(|word: Vec<char>| word@) =~= Seq::empty());
    assert(Seq::<Seq<char>>::empty() + all =~= all);
    while at < path.len()
        invariant
            at <= path.len(),
            all == list@.map_values(|word: Vec<char>| word@) + words(verbatim, path@, at as int),
        decreases path.len() - at,
    {
        let n: usize = word(verbatim, path, at);
        if n == 0 {
            at = at + 1;
        } else {
            let ghost before = list@.map_values(|word: Vec<char>| word@);
            let mut one: Vec<char> = Vec::new();
            for i in at..at + n
                invariant
                    at + n <= path.len(),
                    at <= i,
                    one@ == path@.subrange(at as int, i as int),
            {
                one.push(path[i]);
                assert(one@ =~= path@.subrange(at as int, i + 1));
            }
            let ghost text = one@;
            list.push(one);
            at = at + n;
            assert(list@.map_values(|word: Vec<char>| word@) =~= before.push(text));
            assert(before.push(text) + words(verbatim, path@, at as int) =~= before + (
            seq![text] + words(verbatim, path@, at as int)));
        }
    }
    assert(list@.map_values(|word: Vec<char>| word@) + Seq::<Seq<char>>::empty()
        =~= list@.map_values(|word: Vec<char>| word@));
    list
}

fn is_dot(word: &Vec<char>) -> (yes: bool)
    ensures
        yes == (word@ == seq!['.']),
{
    let yes = word.len() == 1 && word[0] == '.';
    assert(seq!['.'].len() == 1 && seq!['.'][0] == '.');
    assert(yes ==> word@ =~= seq!['.']);
    yes
}

fn is_dot_dot(word: &Vec<char>) -> (yes: bool)
    ensures
        yes == (word@ == seq!['.', '.']),
{
    let yes = word.len() == 2 && word[0] == '.' && word[1] == '.';
    assert(seq!['.', '.'].len() == 2 && seq!['.', '.'][0] == '.' && seq!['.', '.'][1] == '.');
    assert(yes ==> word@ =~= seq!['.', '.']);
    yes
}

/// Where one comes from the components `parts` along the words `way`.
fn descend(parts: Vec<Vec<char>>, way: Vec<Vec<char>>) -> (all: Vec<Vec<char>>)
    ensures
        all@.map_values(|word: Vec<char>| word@) == descended(
            parts@.map_values(|word: Vec<char>| word@),
            way@.map_values(|word: Vec<char>| word@),
        ),
{
    let ghost start = parts@.map_values(|word: Vec<char>| word@);
    let ghost texts = way@.map_values(|word: Vec<char>| word@);
    let mut all: Vec<Vec<char>> = parts;
    assert(texts.skip(0) =~= texts);
    for i in 0..way.len()
        invariant
            texts == way@.map_values(|word: Vec<char>| word@),
            descended(start, texts) == descended(
                all@.map_values(|word: Vec<char>| word@),
                texts.skip(i as int),
            ),
    {
        let ghost before = all@.map_values(|word: Vec<char>| word@);
        assert(texts.skip(i as int)[0] == way@[i as int]@);
        assert(texts.skip(i as int).drop_first() =~= texts.skip(i + 1));
        if is_dot(&way[i]) {
        } else if is_dot_dot(&way[i]) {
            if all.len() > 0 && !is_dot(&all[all.len() - 1]) && !is_dot_dot(&all[all.len() - 1]) {
                all.pop();
                assert(all@.map_values(|word: Vec<char>| word@) =~= before.drop_last());
            }
        } else {
            let word: Vec<char> = way[i].clone();
            assert(word@ =~= way@[i as int]@);
            all.push(word);
            assert(all@.map_values(|word: Vec<char>| word@) =~= before.push(way@[i as int]@));
        }
    }
    all
}

/// The text with each of the words behind it, after a backslash.
fn append_backslashed(text: String, parts: &Vec<Vec<char>>) -> (path: String)
    ensures
        path@ == text@ + backslashed(parts@.map_values(|word: Vec<char>| word@)),
{
    let mut path: String = text;
    let ghost start = path@;
    let ghost texts = parts@.map_values(|word: Vec<char>| word@);
    assert(start + Seq::<char>::empty() =~= start);
    assert(texts.take(0) =~= Seq::empty());
    for i in 0..parts.len()
        invariant
            texts == parts@.map_values(|word: Vec<char>| word@),
            path@ == start + backslashed(texts.take(i as int)),
    {
        assert(texts.take(i + 1).drop_last() =~= texts.take(i as int));
        let word: &Vec<char> = &parts[i];
        assert(word@.subrange(0, word@.len() as int) =~= word@);
        path.push('\\');
        path = path.concat(string_of(word, 0, word.len()).as_str());
        assert(path@ =~= start + backslashed(texts.take(i + 1)));
    }
    assert(texts.take(parts.len() as int) =~= texts);
    path
}

/// `rel` as seen from the directory `base`.
pub fn join(base: &str, rel: &str) -> (path: String)
    ensures
        path@ == joined(base@, rel@),
{
    reveal(joined);
    let rel_chars: Vec<char> = chars_of(rel);
    let base_chars: Vec<char> = chars_of(base);
    let base_head: Head = head(&base_chars);
    let rel_head: Head = head(&rel_chars);
    let rel_root = is_root_next(&rel_chars, rel_head.prefix);
    assert(base@.subrange(0, base_head.prefix as int) =~= base@.take(base_head.prefix as int));
    if rel_head.prefix > 0 {
        return rel.to_owned();
    }
    if base_head.verbatim && rel_chars.len() > 0 {
        let prefix: usize = base_head.prefix;
        let base_root = is_root_next(&base_chars, prefix);
        let parts: Vec<Vec<char>> = if rel_root {
            Vec::new()
        } else if base_root {
            split_words(true, &base_chars, prefix + 1)
        } else {
            split_words(true, &base_chars, prefix)
        };
        assert(rel_root ==> parts@.map_values(|word: Vec<char>| word@) =~= Seq::empty());
        let way: Vec<Vec<char>> = split_words(false, &rel_chars, 0);
        let all: Vec<Vec<char>> = descend(parts, way);
        let mut path: String = string_of(&base_chars, 0, prefix);
        if all.len() == 0 && (base_root || rel_root) {
            path.push('\\');
            path
        } else {
            append_backslashed(path, &all)
        }
    } else if rel_root {
        string_of(&base_chars, 0, base_head.prefix).concat(rel)
    } else if base_chars.len() == 0 || is_slash(base_chars[base_chars.len() - 1]) || (
    base_head.drive && base_chars.len() == 2) {
        base.to_owned().concat(rel)
    } else {
        let mut path: String = base.to_owned();
        path.push('\\');
        path.concat(rel)
    }
}

/// The path without its last component.
pub fn parent(path: &str) -> (up: Option<String>)
    ensures
        match up {
            Some(up) => parent_of(path@) == Some(up@),
            None => parent_of(path@) is None,
        },
{
    reveal(parent_of);
    let chars: Vec<char> = chars_of(path);
    let first: Head = head(&chars);
    let (keep, here) = body_start(&chars, &first);
    let mut rest: Vec<char> = trim(first.verbatim, chars, keep);
    if rest.len() > keep {
        let start: usize = start_of_last(first.verbatim, &rest, keep);
        let ghost whole = rest@;
        rest.truncate(start);
        assert(rest@ =~= whole.take(start as int));
        let up: Vec<char> = trim(first.verbatim, rest, keep);
        assert(up@.subrange(0, up@.len() as int) =~= up@);
        Some(string_of(&up, 0, up.len()))
    } else if here {
        assert(rest@.subrange(0, keep - 1) =~= rest@.take(keep - 1));
        Some(string_of(&rest, 0, keep - 1))
    } else {
        None
    }
}

/// The path without what adds nothing at its end, and where its last component begins.
fn last_part(path: &str) -> (part: (Vec<char>, usize))
    ensures
        part.0@ == trimmed(path@),
        part.1 == name_start(path@),
        part.1 <= part.0.len(),
{
    let chars: Vec<char> = chars_of(path);
    let first: Head = head(&chars);
    let (keep, _) = body_start(&chars, &first);
    let rest: Vec<char> = trim(first.verbatim, chars, keep);
    let start: usize = start_of_last(first.verbatim, &rest, keep);
    (rest, start)
}

/// The last component of the path, where it names a file or directory.
pub fn file_name(path: &str) -> (name: Option<String>)
    ensures
        match name {
            Some(name) => file_name_of(path@) == Some(name@),
            None => file_name_of(path@) is None,
        },
{
    reveal(file_name_of);
    let (chars, start) = last_part(path);
    let len: usize = chars.len() - start;
    let ghost name = chars@.skip(start as int);
    assert(name =~= chars@.subrange(start as int, chars@.len() as int));
    assert(seq!['.'].len() == 1);
    assert(seq!['.', '.'].len() == 2);
    if len == 0 || (len == 1 && chars[start] == '.') || (len == 2 && chars[start] == '.'
        && chars[start + 1] == '.') {
        assert(len == 1 ==> name =~= seq!['.']);
        assert(len == 2 ==> name =~= seq!['.', '.']);
        None
    } else {
        assert(name == seq!['.'] ==> name[0] == '.');
        assert(name == seq!['.', '.'] ==> name[0] == '.' && name[1] == '.');
        Some(string_of(&chars, start, chars.len()))
    }
}

/// The path with another extension.
pub fn with_extension(path: &str, extension: &str) -> (changed: String)
    ensures
        changed@ == extension_replaced(path@, extension@),
{
    reveal(extension_replaced);
    reveal(file_name_of);
    match file_name(path) {
        Some(name) => {
            let (chars, start) = last_part(path);
            let name_chars: Vec<char> = chars_of(name.as_str());
            let dot: usize = after_last(&name_chars, '.');
            let end: usize = if dot <= 1 {
                chars.len()
            } else {
                start + dot - 1
            };
            let mut changed: String = string_of(&chars, 0, end);
            changed.push('.');
            proof {
                let head = chars@.take(start as int);
                assert(name@ =~= chars@.skip(start as int));
                assert(changed@ =~= head + name_stem(name@).push('.'));
            }
            changed.concat(extension)
        },
        None => path.to_owned(),
    }
}

} // verus!
