//! How the parts of a path fit together again, in either style.
use vstd::prelude::*;

use crate::path::{
    extension_replaced, file_name_of, joined, name_extension, name_stem, parent_of, PathStyle,
};
use crate::text::last_index;
use crate::text_laws::the_last_place_is_the_last;
use crate::unix_path;
use crate::windows_path;

verus! {

/// The text can be the name of a file: it has no separator of either style, names no drive, and is
/// neither of the two names that every directory has.
pub open spec fn plain_name(name: Seq<char>) -> bool {
    &&& name.len() > 0
    &&& forall|i: int| 0 <= i < name.len() ==> name[i] != '/' && name[i] != '\\'
    &&& name.len() < 2 || name[1] != ':'
    &&& name != seq!['.']
    &&& name != seq!['.', '.']
}

/// The path of a directory below the root, or on Windows below that of a drive, with no separator
/// at its end.
pub open spec fn plain_dir(style: PathStyle, dir: Seq<char>) -> bool {
    match style {
        PathStyle::Unix => {
            &&& dir.len() > 1
            &&& dir[0] == '/'
            &&& dir.last() != '/'
            &&& dir.last() != '.'
        },
        PathStyle::Windows => {
            &&& dir.len() > 3
            &&& 'A' <= dir[0] && dir[0] <= 'Z'
            &&& dir[1] == ':'
            &&& dir[2] == '\\'
            &&& dir.last() != '/' && dir.last() != '\\'
            &&& dir.last() != '.'
        },
    }
}

/// The separator that is written in the style.
pub open spec fn written_separator(style: PathStyle) -> char {
    match style {
        PathStyle::Unix => '/',
        PathStyle::Windows => '\\',
    }
}

/// A name joined to a directory stands behind it and one separator, and is the file name of that
/// path, as the directory is its parent.
pub proof fn a_joined_name_can_be_taken_off(style: PathStyle, dir: Seq<char>, name: Seq<char>)
    requires
        plain_dir(style, dir),
        plain_name(name),
    ensures
        ({
            let path = joined(style, dir, name);
            &&& path == dir.push(written_separator(style)) + name
            &&& file_name_of(style, path) == Some(name)
            &&& parent_of(style, path) == Some(dir)
        }),
{
    match style {
        PathStyle::Unix => lemma_unix_name(dir, name),
        PathStyle::Windows => lemma_windows_name(dir, name),
    }
}

proof fn lemma_unix_name(dir: Seq<char>, name: Seq<char>)
    requires
        plain_dir(PathStyle::Unix, dir),
        plain_name(name),
    ensures
        ({
            let path = unix_path::joined(dir, name);
            &&& path == dir.push('/') + name
            &&& unix_path::trimmed(path) == path
            &&& unix_path::file_name_of(path) == Some(name)
            &&& unix_path::parent_of(path) == Some(dir)
        }),
{
    let path = dir.push('/') + name;
    let n = name.len() as int;
    assert(name.last() != '/');
    if name.last() == '.' {
        if n == 1 {
            assert(name =~= seq!['.']);
        }
        assert(name[n - 2] != '/');
        assert(path[path.len() - 2] == name[n - 2]);
    }
    assert(path.last() == name.last());
    assert(unix_path::trimmed(path) == path);
    the_last_place_is_the_last(path, '/');
    let at = last_index(path, '/');
    assert(path[dir.len() as int] == '/');
    if at > dir.len() {
        assert(path[at] == name[at - dir.len() - 1]);
    }
    assert(at == dir.len());
    assert(path.skip(at + 1) =~= name);
    assert(path.take(at + 1) =~= dir.push('/'));
    assert(dir.push('/').drop_last() =~= dir);
    assert(unix_path::trimmed(dir) == dir);
    assert(unix_path::trimmed(dir.push('/')) == unix_path::trimmed(dir));
}

proof fn lemma_windows_last_start(path: Seq<char>, keep: int, at: int)
    requires
        0 < keep <= at + 1 <= path.len(),
        windows_path::slash(path[at]),
        forall|i: int| at < i < path.len() ==> !windows_path::slash(path[i]),
    ensures
        windows_path::last_start(false, path, keep) == at + 1,
    decreases path.len(),
{
    if path.len() > at + 1 {
        assert(!windows_path::slash(path[path.len() - 1]));
        assert(path.drop_last()[at] == path[at]);
        lemma_windows_last_start(path.drop_last(), keep, at);
    } else if path.len() > keep {
        assert(path.last() == path[at]);
    }
}

proof fn lemma_windows_head(path: Seq<char>)
    requires
        path.len() > 3,
        'A' <= path[0] && path[0] <= 'Z',
        path[1] == ':',
        path[2] == '\\',
    ensures
        windows_path::head_of(path) == (windows_path::HeadView {
            prefix: 2,
            verbatim: false,
            drive: true,
        }),
        windows_path::before_body(path) == 3,
{
    reveal(windows_path::head_of);
}

proof fn lemma_windows_name(dir: Seq<char>, name: Seq<char>)
    requires
        plain_dir(PathStyle::Windows, dir),
        plain_name(name),
    ensures
        ({
            let path = windows_path::joined(dir, name);
            &&& path == dir.push('\\') + name
            &&& windows_path::trimmed(path) == path
            &&& windows_path::name_start(path) == dir.len() + 1
            &&& windows_path::file_name_of(path) == Some(name)
            &&& windows_path::parent_of(path) == Some(dir)
        }),
{
    reveal(windows_path::joined);
    reveal(windows_path::file_name_of);
    reveal(windows_path::parent_of);
    let path = dir.push('\\') + name;
    let n = name.len() as int;
    lemma_windows_head(dir);
    lemma_windows_head(path);
    assert(name[0] != '/' && name[0] != '\\');
    assert(windows_path::head_of(name).prefix == 0 && !windows_path::has_root(name)) by {
        reveal(windows_path::head_of);
    }
    assert(windows_path::joined(dir, name) == path);
    assert(path.last() == name.last());
    assert(name[n - 1] != '/' && name[n - 1] != '\\');
    if name.last() == '.' {
        if n == 1 {
            assert(name =~= seq!['.']);
        }
        assert(name[n - 2] != '/' && name[n - 2] != '\\');
        assert(path[path.len() - 2] == name[n - 2]);
    }
    assert(windows_path::trimmed(path) == path);
    let at = dir.len() as int;
    assert(path[at] == '\\');
    assert forall|i: int| at < i < path.len() implies !windows_path::slash(path[i]) by {
        assert(path[i] == name[i - at - 1]);
    }
    lemma_windows_last_start(path, 3, at);
    assert(path.skip(at + 1) =~= name);
    assert(path.take(at + 1) =~= dir.push('\\'));
    assert(dir.push('\\').drop_last() =~= dir);
    assert(windows_path::trimmed_to(false, dir, 3) == dir);
    assert(windows_path::trimmed_to(false, dir.push('\\'), 3) == windows_path::trimmed_to(
        false,
        dir,
        3,
    ));
}

/// A name that ends in a dot and an extension has that extension, and what stands before the dot
/// for its stem; a dot at its front alone makes no extension, nor does the want of one.
pub proof fn a_name_is_its_stem_and_its_extension(stem: Seq<char>, extension: Seq<char>)
    requires
        !extension.contains('.'),
    ensures
        stem.len() > 0 ==> name_extension(stem.push('.') + extension) == Some(extension),
        stem.len() > 0 ==> name_stem(stem.push('.') + extension) == stem,
        name_extension(extension) is None,
        name_stem(extension) == extension,
        name_extension(seq!['.'] + extension) is None,
        name_stem(seq!['.'] + extension) == seq!['.'] + extension,
{
    the_last_place_is_the_last(extension, '.');
    let name = stem.push('.') + extension;
    the_last_place_is_the_last(name, '.');
    let at = last_index(name, '.');
    assert(name[stem.len() as int] == '.');
    if at > stem.len() {
        assert(name[at] == extension[at - stem.len() - 1]);
        assert(extension.contains(name[at]));
    }
    assert(name.skip(at + 1) =~= extension);
    assert(name.take(at) =~= stem);
    let hidden = seq!['.'] + extension;
    the_last_place_is_the_last(hidden, '.');
    let at = last_index(hidden, '.');
    if at > 0 {
        assert(hidden[at] == extension[at - 1]);
        assert(extension.contains(hidden[at]));
    }
}

/// Another extension takes the place of the last one, and the rest of the path stays.
pub proof fn an_extension_takes_the_place_of_another(
    style: PathStyle,
    dir: Seq<char>,
    stem: Seq<char>,
    extension: Seq<char>,
    other: Seq<char>,
)
    requires
        plain_dir(style, dir),
        plain_name(stem.push('.') + extension),
        stem.len() > 0,
        !extension.contains('.'),
    ensures
        extension_replaced(style, joined(style, dir, stem.push('.') + extension), other)
            == dir.push(written_separator(style)) + stem.push('.') + other,
{
    let name = stem.push('.') + extension;
    a_name_is_its_stem_and_its_extension(stem, extension);
    match style {
        PathStyle::Unix => {
            lemma_unix_name(dir, name);
            let path = unix_path::joined(dir, name);
            assert(path.take(path.len() - name.len()) =~= dir.push('/'));
        },
        PathStyle::Windows => {
            reveal(windows_path::extension_replaced);
            lemma_windows_name(dir, name);
            let path = windows_path::joined(dir, name);
            assert(path.take(dir.len() as int + 1) =~= dir.push('\\'));
        },
    }
}

/// What is joined one after the other to a Unix directory is joined with one slash each, and what
/// begins with a slash stands for itself.
pub proof fn unix_paths_are_joined_with_a_slash(base: Seq<char>, rel: Seq<char>)
    ensures
        rel.len() > 0 && rel[0] == '/' ==> joined(PathStyle::Unix, base, rel) == rel,
        (rel.len() == 0 || rel[0] != '/') && base.len() > 0 && base.last() != '/' ==> joined(
            PathStyle::Unix,
            base,
            rel,
        ) == base + seq!['/'] + rel,
        (rel.len() == 0 || rel[0] != '/') && base.len() > 0 && base.last() == '/' ==> joined(
            PathStyle::Unix,
            base,
            rel,
        ) == base + rel,
        (rel.len() == 0 || rel[0] != '/') && base.len() == 0 ==> joined(PathStyle::Unix, base, rel)
            == rel,
{
    assert(base + seq!['/'] + rel =~= base.push('/') + rel);
    if base.len() == 0 {
        assert(base + rel =~= rel);
    }
}

/// A slash at the end of a Unix path, or a dot behind one, changes neither its file name nor its
/// parent.
pub proof fn what_trails_a_unix_path_makes_no_difference(path: Seq<char>)
    requires
        path.len() > 0,
    ensures
        unix_path::file_name_of(path.push('/')) == unix_path::file_name_of(path),
        unix_path::parent_of(path.push('/')) == unix_path::parent_of(path),
        unix_path::file_name_of(path.push('/').push('.')) == unix_path::file_name_of(path),
        unix_path::parent_of(path.push('/').push('.')) == unix_path::parent_of(path),
{
    let slashed = path.push('/');
    let dotted = slashed.push('.');
    assert(slashed.drop_last() =~= path);
    assert(dotted.drop_last() =~= slashed);
    assert(unix_path::trimmed(slashed) == unix_path::trimmed(path));
    assert(unix_path::trimmed(dotted) == unix_path::trimmed(slashed));
}

/// The root has neither a name nor a parent, and nor has the empty path.
pub proof fn the_root_has_no_parent()
    ensures
        unix_path::parent_of(seq!['/']) is None,
        unix_path::file_name_of(seq!['/']) is None,
        unix_path::parent_of(Seq::empty()) is None,
        unix_path::file_name_of(Seq::empty()) is None,
{
    the_last_place_is_the_last(seq!['/'], '/');
    the_last_place_is_the_last(Seq::empty(), '/');
}

/// A path that leads up has no name, and its parent is what it leads up from.
pub proof fn two_dots_are_no_name(dir: Seq<char>)
    requires
        plain_dir(PathStyle::Unix, dir),
    ensures
        unix_path::file_name_of(dir + seq!['/', '.', '.']) is None,
        unix_path::parent_of(dir + seq!['/', '.', '.']) == Some(dir),
{
    let path = dir + seq!['/', '.', '.'];
    assert(path[path.len() - 2] == '.');
    assert(unix_path::trimmed(path) == path);
    the_last_place_is_the_last(path, '/');
    let at = last_index(path, '/');
    assert(path[dir.len() as int] == '/');
    assert(path[dir.len() as int + 1] == '.' && path[dir.len() as int + 2] == '.');
    assert(at == dir.len());
    assert(path.skip(at + 1) =~= seq!['.', '.']);
    assert(path.take(at + 1) =~= dir.push('/'));
    assert(dir.push('/').drop_last() =~= dir);
    assert(unix_path::trimmed(dir) == dir);
    assert(unix_path::trimmed(dir.push('/')) == dir);
}

/// The character at `i` says nothing of where a Unix path leads: it is a slash, or a dot right
/// behind one.
pub open spec fn says_nothing(path: Seq<char>, i: int) -> bool {
    path[i] == '/' || (path[i] == '.' && i > 0 && path[i - 1] == '/')
}

/// What is trimmed off a Unix path is all that says nothing at its end, but for a root.
pub proof fn trimming_takes_off_what_says_nothing(path: Seq<char>)
    ensures
        ({
            let rest = unix_path::trimmed(path);
            &&& rest.is_prefix_of(path)
            &&& forall|i: int| rest.len() <= i < path.len() ==> says_nothing(path, i)
            &&& rest.len() > 1 ==> !says_nothing(rest, rest.len() - 1)
            &&& path.len() > 0 ==> rest.len() > 0
        }),
    decreases path.len(),
{
    let rest = unix_path::trimmed(path);
    if rest.len() < path.len() {
        let shorter = path.drop_last();
        trimming_takes_off_what_says_nothing(shorter);
        assert(rest == unix_path::trimmed(shorter));
        assert(rest =~= path.take(rest.len() as int)) by {
            assert(rest =~= shorter.take(rest.len() as int));
        }
        assert forall|i: int| rest.len() <= i < path.len() implies says_nothing(path, i) by {
            if i < shorter.len() {
                assert(says_nothing(shorter, i));
            }
        }
    } else {
        lemma_trimmed_is_shorter(path);
        assert(rest =~= path);
    }
}

proof fn lemma_trimmed_is_shorter(path: Seq<char>)
    ensures
        unix_path::trimmed(path).len() <= path.len(),
        unix_path::trimmed(path).len() == path.len() ==> unix_path::trimmed(path) == path && (
        path.len() > 1 ==> !says_nothing(path, path.len() - 1)),
    decreases path.len(),
{
    if path.len() > 1 {
        lemma_trimmed_is_shorter(path.drop_last());
    }
}

/// Whatever a Unix path begins with, a name behind its last slash is its file name, and its parent
/// is what comes before that slash, without what says nothing at its end.
pub proof fn a_unix_name_stands_behind_the_last_slash(dir: Seq<char>, name: Seq<char>)
    requires
        plain_name(name),
    ensures
        unix_path::file_name_of(name) == Some(name),
        unix_path::parent_of(name) == Some(Seq::<char>::empty()),
        unix_path::file_name_of(dir.push('/') + name) == Some(name),
        ({
            &&& unix_path::parent_of(dir.push('/') + name) matches Some(up)
            &&& up.is_prefix_of(dir.push('/'))
            &&& up.len() > 0
            &&& forall|i: int| up.len() <= i <= dir.len() ==> says_nothing(dir.push('/'), i)
            &&& up.len() > 1 ==> !says_nothing(up, up.len() - 1)
        }),
{
    let path = dir.push('/') + name;
    let n = name.len() as int;
    assert(name[n - 1] != '/');
    if n == 1 && name[0] == '.' {
        assert(name =~= seq!['.']);
    }
    if n > 1 {
        assert(name[n - 2] != '/');
        assert(path[path.len() - 2] == name[n - 2]);
    }
    assert(path.last() == name.last());
    assert(unix_path::trimmed(path) == path);
    assert(unix_path::trimmed(name) == name);
    the_last_place_is_the_last(path, '/');
    the_last_place_is_the_last(name, '/');
    let at = last_index(path, '/');
    assert(path[dir.len() as int] == '/');
    if at > dir.len() {
        assert(path[at] == name[at - dir.len() - 1]);
    }
    assert(path.skip(at + 1) =~= name);
    assert(path.take(at + 1) =~= dir.push('/'));
    if name == seq!['/'] {
        assert(name[0] == '/');
    }
    if path == seq!['/'] {
        assert(path.len() == 1);
    }
    let none = last_index(name, '/');
    if none >= 0 {
        assert(name[none] == '/');
    }
    assert(name.skip(0) =~= name);
    assert(name.take(0) =~= Seq::<char>::empty());
    trimming_takes_off_what_says_nothing(dir.push('/'));
    assert(unix_path::trimmed(Seq::<char>::empty()) == Seq::<char>::empty());
}

} // verus!
