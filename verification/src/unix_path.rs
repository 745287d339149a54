//! Unix paths as texts, with `/` between their components.
use vstd::prelude::*;

use crate::path::{extension_in_name, name_extension, name_stem};
use crate::text::{after_last, chars_of, last_index, string_of};

verus! {

/// `rel` as seen from the directory `base`; an absolute path is the same from everywhere.
pub open spec fn joined(base: Seq<char>, rel: Seq<char>) -> Seq<char> {
    if rel.len() > 0 && rel[0] == '/' {
        rel
    } else if base.len() == 0 || base.last() == '/' {
        base + rel
    } else {
        base.push('/') + rel
    }
}

/// The path without the slashes and the dots that add nothing at its end.
pub open spec fn trimmed(path: Seq<char>) -> Seq<char>
    decreases path.len(),
{
    if path.len() > 1 && path.last() == '/' {
        trimmed(path.drop_last())
    } else if path.len() > 1 && path.last() == '.' && path[path.len() - 2] == '/' {
        trimmed(path.drop_last())
    } else {
        path
    }
}

/// The path without its last component. The root and the empty path have no parent.
pub open spec fn parent_of(path: Seq<char>) -> Option<Seq<char>> {
    let path = trimmed(path);
    if path.len() == 0 || path == seq!['/'] {
        None
    } else {
        Some(trimmed(path.take(last_index(path, '/') + 1)))
    }
}

/// The last component of the path.
pub open spec fn last_component(path: Seq<char>) -> Seq<char> {
    trimmed(path).skip(last_index(trimmed(path), '/') + 1)
}

/// The last component of the path, where it names a file or directory.
pub open spec fn file_name_of(path: Seq<char>) -> Option<Seq<char>> {
    let name = last_component(path);
    if name.len() == 0 || name == seq!['.'] || name == seq!['.', '.'] {
        None
    } else {
        Some(name)
    }
}

/// The extension of the file that the path names.
pub open spec fn extension_of(path: Seq<char>) -> Option<Seq<char>> {
    match file_name_of(path) {
        Some(name) => name_extension(name),
        None => None,
    }
}

/// The path with `extension` in place of the one that its file name has, or behind it where
/// it has none. A path that names no file stays as it is.
pub open spec fn extension_replaced(path: Seq<char>, extension: Seq<char>) -> Seq<char> {
    match file_name_of(path) {
        Some(name) => trimmed(path).take(trimmed(path).len() - name.len()) + name_stem(name).push(
            '.',
        ) + extension,
        None => path,
    }
}

/// The characters of the path without the slashes and the dots that add nothing at its end.
fn trim(path: Vec<char>) -> (rest: Vec<char>)
    ensures
        rest@ == trimmed(path@),
{
    let mut rest: Vec<char> = path;
    let ghost whole = rest@;
    while rest.len() > 1 && (rest[rest.len() - 1] == '/' || (rest[rest.len() - 1] == '.'
        && rest[rest.len() - 2] == '/'))
        invariant
            trimmed(rest@) == trimmed(whole),
        decreases rest.len(),
    {
        let ghost before = rest@;
        rest.pop();
        assert(rest@ =~= before.drop_last());
    }
    rest
}

/// `rel` as seen from the directory `base`; an absolute path is the same from everywhere.
pub fn join(base: &str, rel: &str) -> (path: String)
    ensures
        path@ == joined(base@, rel@),
{
    let rel_chars: Vec<char> = chars_of(rel);
    let base_chars: Vec<char> = chars_of(base);
    if rel_chars.len() > 0 && rel_chars[0] == '/' {
        rel.to_owned()
    } else if base_chars.len() == 0 || base_chars[base_chars.len() - 1] == '/' {
        base.to_owned().concat(rel)
    } else {
        let mut path: String = base.to_owned();
        path.push('/');
        path.concat(rel)
    }
}

/// The path without its last component.
pub fn parent(path: &str) -> (up: Option<String>)
    ensures
        match up {
            Some(up) => parent_of(path@) == Some(up@),
            None => parent_of(path@) is None,
        },
{
    let mut chars: Vec<char> = trim(chars_of(path));
    assert(seq!['/'].len() == 1);
    if chars.len() == 0 || (chars.len() == 1 && chars[0] == '/') {
        assert(chars.len() == 1 ==> chars@ =~= seq!['/']);
        None
    } else {
        let ghost whole = chars@;
        let end: usize = after_last(&chars, '/');
        chars.truncate(end);
        assert(chars@ =~= whole.take(end as int));
        let up: Vec<char> = trim(chars);
        assert(up@.subrange(0, up@.len() as int) =~= up@);
        Some(string_of(&up, 0, up.len()))
    }
}

/// The last component of the path, where it names a file or directory.
pub fn file_name(path: &str) -> (name: Option<String>)
    ensures
        match name {
            Some(name) => file_name_of(path@) == Some(name@),
            None => file_name_of(path@) is None,
        },
{
    let chars: Vec<char> = trim(chars_of(path));
    let start: usize = after_last(&chars, '/');
    let len: usize = chars.len() - start;
    let ghost name = last_component(path@);
    assert(name =~= chars@.subrange(start as int, chars@.len() as int));
    assert(seq!['.'].len() == 1);
    assert(seq!['.', '.'].len() == 2);
    if len == 0 || (len == 1 && chars[start] == '.') || (len == 2 && chars[start] == '.'
        && chars[start + 1] == '.') {
        assert(len == 1 ==> name =~= seq!['.']);
        assert(len == 2 ==> name =~= seq!['.', '.']);
        None
    } else {
        assert(name == seq!['.'] ==> name[0] == '.');
        assert(name == seq!['.', '.'] ==> name[0] == '.' && name[1] == '.');
        Some(string_of(&chars, start, chars.len()))
    }
}

/// The extension of the file that the path names.
pub fn extension(path: &str) -> (extension: Option<String>)
    ensures
        match extension {
            Some(extension) => extension_of(path@) == Some(extension@),
            None => extension_of(path@) is None,
        },
{
    match file_name(path) {
        Some(name) => extension_in_name(name.as_str()),
        None => None,
    }
}

/// The path with another extension.
pub fn with_extension(path: &str, extension: &str) -> (changed: String)
    ensures
        changed@ == extension_replaced(path@, extension@),
{
    match file_name(path) {
        Some(name) => {
            let chars: Vec<char> = trim(chars_of(path));
            let name_chars: Vec<char> = chars_of(name.as_str());
            let start: usize = after_last(&chars, '/');
            let dot: usize = after_last(&name_chars, '.');
            let end: usize = if dot <= 1 {
                chars.len()
            } else {
                start + dot - 1
            };
            let mut changed: String = string_of(&chars, 0, end);
            changed.push('.');
            proof {
                let head = chars@.take(start as int);
                assert(name@ =~= chars@.skip(start as int));
                assert(changed@ =~= head + name_stem(name@).push('.'));
            }
            changed.concat(extension)
        },
        None => path.to_owned(),
    }
}

} // verus!
