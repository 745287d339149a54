//! Paths as texts, as the system at hand reads them.
use vstd::prelude::*;

use crate::text::{after_last, chars_of, last_index, string_of};
use crate::{unix_path, windows_path};

verus! {

/// How a system reads paths.
#[derive(Clone, Copy, Debug, PartialEq, Eq, Structural)]
pub enum PathStyle {
    Unix,
    Windows,
}

/// `rel` as seen from the directory `base`; an absolute path is the same from everywhere.
pub open spec fn joined(style: PathStyle, base: Seq<char>, rel: Seq<char>) -> Seq<char> {
    match style {
        PathStyle::Unix => unix_path::joined(base, rel),
        PathStyle::Windows => windows_path::joined(base, rel),
    }
}

/// The path without its last component, where it has one.
pub open spec fn parent_of(style: PathStyle, path: Seq<char>) -> Option<Seq<char>> {
    match style {
        PathStyle::Unix => unix_path::parent_of(path),
        PathStyle::Windows => windows_path::parent_of(path),
    }
}

/// The last component of the path, where it names a file or directory.
pub open spec fn file_name_of(style: PathStyle, path: Seq<char>) -> Option<Seq<char>> {
    match style {
        PathStyle::Unix => unix_path::file_name_of(path),
        PathStyle::Windows => windows_path::file_name_of(path),
    }
}

/// What follows the last dot of a file name. A dot at the very beginning does not count.
pub open spec fn name_extension(name: Seq<char>) -> Option<Seq<char>> {
    let dot = last_index(name, '.');
    if dot <= 0 {
        None
    } else {
        Some(name.skip(dot + 1))
    }
}

/// The file name up to the dot before its extension.
pub open spec fn name_stem(name: Seq<char>) -> Seq<char> {
    let dot = last_index(name, '.');
    if dot <= 0 {
        name
    } else {
        name.take(dot)
    }
}

/// The path with `extension` in place of the one that its file name has, or behind it where
/// it has none. A path that names no file stays as it is.
pub open spec fn extension_replaced(
    style: PathStyle,
    path: Seq<char>,
    extension: Seq<char>,
) -> Seq<char> {
    match style {
        PathStyle::Unix => unix_path::extension_replaced(path, extension),
        PathStyle::Windows => windows_path::extension_replaced(path, extension),
    }
}

/// The path says on its own where it leads.
pub open spec fn is_absolute(style: PathStyle, path: Seq<char>) -> bool {
    match style {
        PathStyle::Unix => path.len() > 0 && path[0] == '/',
        PathStyle::Windows => {
            &&& windows_path::head_of(path).prefix > 0
            &&& windows_path::has_root(path)
        },
    }
}

/// An absolute path is the same from everywhere.
pub proof fn an_absolute_path_stays_as_it_is(style: PathStyle, base: Seq<char>, rel: Seq<char>)
    requires
        is_absolute(style, rel),
    ensures
        joined(style, base, rel) == rel,
{
    reveal(windows_path::joined);
}

/// `rel` as seen from the directory `base`.
pub fn join(style: PathStyle, base: &str, rel: &str) -> (path: String)
    ensures
        path@ == joined(style, base@, rel@),
{
    match style {
        PathStyle::Unix => unix_path::join(base, rel),
        PathStyle::Windows => windows_path::join(base, rel),
    }
}

/// The path without its last component, where it has one.
pub fn parent(style: PathStyle, path: &str) -> (up: Option<String>)
    ensures
        match up {
            Some(up) => parent_of(style, path@) == Some(up@),
            None => parent_of(style, path@) is None,
        },
{
    match style {
        PathStyle::Unix => unix_path::parent(path),
        PathStyle::Windows => windows_path::parent(path),
    }
}

/// The last component of the path, where it names a file or directory.
pub fn file_name(style: PathStyle, path: &str) -> (name: Option<String>)
    ensures
        match name {
            Some(name) => file_name_of(style, path@) == Some(name@),
            None => file_name_of(style, path@) is None,
        },
{
    match style {
        PathStyle::Unix => unix_path::file_name(path),
        PathStyle::Windows => windows_path::file_name(path),
    }
}

/// What follows the last dot of a file name. A dot at the very beginning does not count.
pub fn extension_in_name(name: &str) -> (extension: Option<String>)
    ensures
        match extension {
            Some(extension) => name_extension(name@) == Some(extension@),
            None => name_extension(name@) is None,
        },
{
    let chars: Vec<char> = chars_of(name);
    let start: usize = after_last(&chars, '.');
    if start <= 1 {
        None
    } else {
        assert(name@.skip(start as int) =~= chars@.subrange(start as int, chars@.len() as int));
        Some(string_of(&chars, start, chars.len()))
    }
}

/// The path with another extension.
pub fn with_extension(style: PathStyle, path: &str, extension: &str) -> (changed: String)
    ensures
        changed@ == extension_replaced(style, path@, extension@),
{
    match style {
        PathStyle::Unix => unix_path::with_extension(path, extension),
        PathStyle::Windows => windows_path::with_extension(path, extension),
    }
}

} // verus!
