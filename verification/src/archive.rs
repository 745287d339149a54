//! Update archives: what their entries become when they are extracted.
use vstd::prelude::*;

use crate::error::UpdateError;
use crate::path::{joined, PathStyle};
use crate::text::{chars_of, pieces};
use crate::windows_path;
use crate::windows_path::drive_at;

verus! {

/// `zip::ZipArchive`: an opened archive.
#[verifier::external_type_specification]
#[verifier::external_body]
#[verifier::reject_recursive_types(R)]
pub struct ExZipArchive<R>(zip::ZipArchive<R>);

/// `std::io::Cursor`: bytes that can be read from anywhere.
#[verifier::external_type_specification]
#[verifier::external_body]
#[verifier::reject_recursive_types(T)]
pub struct ExCursor<T>(std::io::Cursor<T>);

/// An entry of an archive.
#[derive(Debug)]
pub struct ArchiveEntry {
    /// The name that stands in the archive.
    pub name: String,
    /// The path to extract it to, where that is inside the directory to extract to.
    pub enclosed_name: Option<String>,
    /// The permissions that stand in the archive.
    pub unix_mode: Option<u32>,
}

/// One thing to do when an archive is extracted. Paths are relative to the directory to
/// extract to.
#[derive(Debug)]
pub enum ExtractStep<E> {
    /// Create the directory and those above it.
    CreateDir { path: String },
    /// Create the directories above the file and write the contents of the entry to it, with
    /// these permissions where the system has them.
    CreateFile { index: usize, path: String, unix_mode: Option<u32> },
    /// Give up.
    Fail(UpdateError<E>),
}

/// How deep below its start the way along `parts` ends; nothing where it leads above its
/// start on the way.
pub open spec fn depth(parts: Seq<Seq<char>>) -> Option<nat>
    decreases parts.len(),
{
    if parts.len() == 0 {
        Some(0)
    } else {
        let part = parts.last();
        match depth(parts.drop_last()) {
            None => None,
            Some(d) => if part == ".."@ {
                if d == 0 {
                    None
                } else {
                    Some((d - 1) as nat)
                }
            } else if part == "."@ || part == ""@ {
                Some(d)
            } else {
                Some(d + 1)
            },
        }
    }
}

/// The name is a path with `/` between its components that leads nowhere above its start.
pub open spec fn stays_below(name: Seq<char>) -> bool {
    !name.contains('\0') && !(name.len() > 0 && name[0] == '/') && depth(pieces(name, '/')) is Some
}

/// The name with each backslash read as a slash, as systems do that take either for a separator.
pub open spec fn slashed(name: Seq<char>) -> Seq<char> {
    name.map_values(
        |c: char|
            if c == '\\' {
                '/'
            } else {
                c
            },
    )
}

/// The name has a colon where that of a drive stands, as in `C:`, whatever stands before it.
pub open spec fn names_drive(name: Seq<char>) -> bool {
    name.len() >= 2 && name[1] == ':'
}

/// The name as a system reads it that takes a backslash for a separator, or one that does not.
/// Without a backslash both read it alike.
pub open spec fn as_read(name: Seq<char>, backslash: bool) -> Seq<char> {
    if backslash && name.contains('\\') {
        slashed(name)
    } else {
        name
    }
}

/// The name is a path that stays inside the directory that it is relative to, on a system that
/// takes a backslash for a separator, or one that does not. The former has drives: a name that
/// begins with one, as in `C:`, leads to that drive.
pub open spec fn stays_inside(name: Seq<char>, backslash: bool) -> bool {
    stays_below(as_read(name, backslash)) && !(backslash && drive_at(name, 0))
}

/// What holds of every entry, `backslash` being whether the system takes a backslash for a
/// separator. There is a path only where the name stays inside, and there is one wherever it does.
/// The latter is left open where a system of that kind meets a colon in the place of that of a
/// drive.
pub open spec fn sound_entry(entry: ArchiveEntry, backslash: bool) -> bool {
    let inside = stays_inside(entry.name@, backslash);
    &&& entry.enclosed_name matches Some(path) ==> path@ == entry.name@
    &&& entry.enclosed_name is Some ==> inside
    &&& inside && !(backslash && names_drive(entry.name@)) ==> entry.enclosed_name is Some
}

/// The bytes that an archive was opened on.
pub uninterp spec fn archive_bytes(archive: zip::ZipArchive<std::io::Cursor<Vec<u8>>>) -> Seq<u8>;

/// Whether the system that the archive was opened on takes a backslash for a separator.
pub uninterp spec fn backslash_separates(
    archive: zip::ZipArchive<std::io::Cursor<Vec<u8>>>,
) -> bool;

/// The bytes are a ZIP archive.
pub uninterp spec fn is_zip(bytes: Seq<u8>) -> bool;

/// How many entries a ZIP archive has.
pub uninterp spec fn zip_entry_count(bytes: Seq<u8>) -> nat;

/// The name and the permissions of an entry; nothing where it cannot be read.
pub uninterp spec fn zip_entry(bytes: Seq<u8>, index: nat) -> Option<(Seq<char>, Option<u32>)>;

/// `zip::ZipArchive::new` on a cursor over the bytes: whether it opens depends on the bytes
/// alone.
#[verifier::external_body]
fn open_zip(bytes: Vec<u8>) -> (archive: Result<
    zip::ZipArchive<std::io::Cursor<Vec<u8>>>,
    zip::result::ZipError,
>)
    ensures
        archive is Ok <==> is_zip(bytes@),
        archive matches Ok(archive) ==> archive_bytes(archive) == bytes@,
{
    zip::ZipArchive::new(std::io::Cursor::new(bytes))
}

/// `zip::ZipArchive::len`: the number of entries, which depends on the bytes alone.
#[verifier::external_body]
fn zip_len(archive: &zip::ZipArchive<std::io::Cursor<Vec<u8>>>) -> (count: usize)
    ensures
        count == zip_entry_count(archive_bytes(*archive)),
{
    archive.len()
}

/// `zip::ZipArchive::by_index`, and what the `name`, `enclosed_name` and `unix_mode` of its entry
/// give. Whether it can be read, its name and its permissions depend on the bytes alone. The
/// enclosed name, where there is one, is the name, and there is none where the name has a NUL, is
/// absolute, begins with a drive or leads above its start, as the system reads it. All entries of
/// an opened archive are read by the one system that it was opened on. On a system that takes a
/// backslash for a separator, of a name whose second character is a colon behind something else
/// than a letter, it is left open whether there is one.
#[verifier::external_body]
fn zip_entry_at(archive: &mut zip::ZipArchive<std::io::Cursor<Vec<u8>>>, index: usize) -> (entry:
    Result<ArchiveEntry, zip::result::ZipError>)
    ensures
        archive_bytes(*final(archive)) == archive_bytes(*old(archive)),
        backslash_separates(*final(archive)) == backslash_separates(*old(archive)),
        entry is Ok <==> zip_entry(archive_bytes(*old(archive)), index as nat) is Some,
        entry matches Ok(entry) ==> sound_entry(entry, backslash_separates(*old(archive)))
            && zip_entry(archive_bytes(*old(archive)), index as nat) == Some(
            (entry.name@, entry.unix_mode),
        ),
{
    let file = archive.by_index(index)?;
    Ok(
        ArchiveEntry {
            name: file.name().to_string(),
            enclosed_name: file.enclosed_name().map(|path| path.to_string_lossy().into_owned()),
            unix_mode: file.unix_mode(),
        },
    )
}

/// What an entry becomes: a directory where its name ends in a slash, else a file. An entry
/// that would leave the directory is refused.
pub open spec fn step_of<E>(index: usize, entry: ArchiveEntry) -> ExtractStep<E> {
    match entry.enclosed_name {
        None => ExtractStep::Fail(UpdateError::UnsafeArchivePath(entry.name)),
        Some(path) => if entry.name@.len() > 0 && entry.name@.last() == '/' {
            ExtractStep::CreateDir { path }
        } else {
            ExtractStep::CreateFile { index, path, unix_mode: entry.unix_mode }
        },
    }
}

/// The step is what the entry at `index` of the archive calls for, on a system that takes a
/// backslash for a separator, or one that does not.
pub open spec fn step_fits<E>(
    bytes: Seq<u8>,
    backslash: bool,
    index: int,
    step: ExtractStep<E>,
) -> bool {
    match zip_entry(bytes, index as nat) {
        None => step matches ExtractStep::Fail(UpdateError::Zip(_)),
        Some((name, unix_mode)) => exists|entry: ArchiveEntry|
            {
                &&& entry.name@ == name
                &&& entry.unix_mode == unix_mode
                &&& sound_entry(entry, backslash)
                &&& step == #[trigger] step_of::<E>(index as usize, entry)
            },
    }
}

/// The steps are those that extract the archive on a system of that kind: each is what the entry
/// with its number calls for, and only the last may fail. Where none does, they are all.
pub open spec fn steps_fit<E>(
    bytes: Seq<u8>,
    backslash: bool,
    steps: Seq<ExtractStep<E>>,
) -> bool {
    &&& steps.len() <= zip_entry_count(bytes)
    &&& forall|i: int| 0 <= i < steps.len() ==> step_fits(bytes, backslash, i, #[trigger] steps[i])
    &&& forall|i: int| 0 <= i < steps.len() - 1 ==> !(#[trigger] steps[i] is Fail)
    &&& steps.len() < zip_entry_count(bytes) ==> steps.len() > 0 && steps.last() is Fail
}

/// What the entry becomes when the archive is extracted.
pub fn entry_step<E>(index: usize, entry: ArchiveEntry) -> (step: ExtractStep<E>)
    ensures
        step == step_of::<E>(index, entry),
{
    match entry.enclosed_name {
        None => ExtractStep::Fail(UpdateError::UnsafeArchivePath(entry.name)),
        Some(path) => {
            let chars: Vec<char> = chars_of(entry.name.as_str());
            if chars.len() > 0 && chars[chars.len() - 1] == '/' {
                ExtractStep::CreateDir { path }
            } else {
                ExtractStep::CreateFile { index, path, unix_mode: entry.unix_mode }
            }
        },
    }
}

/// The steps that extract an archive: one for each entry in their order, up to the first that
/// fails.
pub fn extract_zip<E>(archive: Vec<u8>) -> (steps: Vec<ExtractStep<E>>)
    ensures
        !is_zip(archive@) ==> steps.len() == 1 && steps[0] matches ExtractStep::Fail(
            UpdateError::Zip(_),
        ),
        is_zip(archive@) ==> exists|backslash: bool|
            #[trigger] steps_fit(archive@, backslash, steps@),
{
    let ghost bytes = archive@;
    let mut steps: Vec<ExtractStep<E>> = Vec::new();
    let mut opened = match open_zip(archive) {
        Ok(opened) => opened,
        Err(error) => {
            steps.push(ExtractStep::Fail(UpdateError::Zip(error)));
            return steps;
        },
    };
    let count: usize = zip_len(&opened);
    let ghost backslash = backslash_separates(opened);
    for i in 0..count
        invariant
            count == zip_entry_count(bytes),
            is_zip(bytes),
            bytes == archive@,
            archive_bytes(opened) == bytes,
            backslash_separates(opened) == backslash,
            steps.len() == i,
            forall|j: int| 0 <= j < i ==> step_fits(bytes, backslash, j, #[trigger] steps@[j]),
            forall|j: int| 0 <= j < i ==> !(#[trigger] steps@[j] is Fail),
    {
        match zip_entry_at(&mut opened, i) {
            Ok(entry) => {
                let ghost told = entry;
                let step: ExtractStep<E> = entry_step(i, entry);
                assert(step == step_of::<E>(i, told));
                let failed = matches!(&step, ExtractStep::Fail(_));
                steps.push(step);
                if failed {
                    assert(steps_fit(bytes, backslash, steps@));
                    return steps;
                }
            },
            Err(error) => {
                steps.push(ExtractStep::Fail(UpdateError::Zip(error)));
                assert(steps_fit(bytes, backslash, steps@));
                return steps;
            },
        }
    }
    assert(steps_fit(bytes, backslash, steps@));
    steps
}

/// The path that the step creates or writes, if any.
pub open spec fn path_of<E>(step: ExtractStep<E>) -> Option<Seq<char>> {
    match step {
        ExtractStep::CreateDir { path } => Some(path@),
        ExtractStep::CreateFile { path, .. } => Some(path@),
        ExtractStep::Fail(_) => None,
    }
}

/// No step of an extraction writes outside the directory to extract to: every path that it creates
/// or writes stays inside, as the system reads it.
pub proof fn extraction_stays_inside<E>(
    bytes: Seq<u8>,
    backslash: bool,
    steps: Seq<ExtractStep<E>>,
)
    requires
        steps_fit(bytes, backslash, steps),
    ensures
        forall|i: int|
            0 <= i < steps.len() ==> (path_of(#[trigger] steps[i]) matches Some(path)
                ==> stays_inside(path, backslash)),
{
    assert forall|i: int| 0 <= i < steps.len() implies (path_of(#[trigger] steps[i]) matches Some(
        path,
    ) ==> stays_inside(path, backslash)) by {
        assert(step_fits(bytes, backslash, i, steps[i]));
    }
}

/// A name that leads outside as the system reads it is refused, with that name.
pub proof fn a_name_that_leads_outside_is_refused<E>(
    bytes: Seq<u8>,
    backslash: bool,
    index: int,
    step: ExtractStep<E>,
    name: Seq<char>,
    unix_mode: Option<u32>,
)
    requires
        step_fits(bytes, backslash, index, step),
        zip_entry(bytes, index as nat) == Some((name, unix_mode)),
        !stays_inside(name, backslash),
    ensures
        step matches ExtractStep::Fail(UpdateError::UnsafeArchivePath(refused)) && refused@ == name,
{
}

/// A name that stays inside as the system reads it is taken, unless a system that takes a backslash
/// for a separator finds a colon in the place of that of a drive.
pub proof fn a_name_that_stays_inside_is_taken<E>(
    bytes: Seq<u8>,
    backslash: bool,
    index: int,
    step: ExtractStep<E>,
    name: Seq<char>,
    unix_mode: Option<u32>,
)
    requires
        step_fits(bytes, backslash, index, step),
        zip_entry(bytes, index as nat) == Some((name, unix_mode)),
        stays_inside(name, backslash),
        !(backslash && names_drive(name)),
    ensures
        match step {
            ExtractStep::CreateDir { path } => path@ == name && name.last() == '/',
            ExtractStep::CreateFile { index: at, path, unix_mode: mode } => {
                &&& path@ == name
                &&& at == index as usize
                &&& mode == unix_mode
                &&& name.len() == 0 || name.last() != '/'
            },
            ExtractStep::Fail(_) => false,
        },
{
}

/// The way in which a system reads paths that takes a backslash for a separator, or one that does
/// not.
pub open spec fn style_of(backslash: bool) -> PathStyle {
    if backslash {
        PathStyle::Windows
    } else {
        PathStyle::Unix
    }
}

/// A name that stays inside is not absolute: seen from a directory, it is that directory with the
/// name behind it. On Windows this speaks of directories without a `\\?\` prefix, behind which the
/// name is resolved; there too it has neither a prefix nor a root of its own.
pub proof fn an_inside_name_goes_on_from_its_directory(
    dir: Seq<char>,
    name: Seq<char>,
    backslash: bool,
)
    requires
        stays_inside(name, backslash),
    ensures
        backslash ==> windows_path::head_of(name).prefix == 0 && !windows_path::has_root(name),
        !(backslash && windows_path::head_of(dir).verbatim) ==> dir.is_prefix_of(
            joined(style_of(backslash), dir, name),
        ),
{
    reveal(windows_path::head_of);
    reveal(windows_path::joined);
    if backslash && name.len() > 0 {
        assert(as_read(name, backslash)[0] != '/');
        assert(name[0] == '\\' ==> name.contains(name[0]));
        assert(slashed(name)[0] == if name[0] == '\\' {
            '/'
        } else {
            name[0]
        });
        assert(!windows_path::slash(name[0]));
    }
    let path = joined(style_of(backslash), dir, name);
    if !(backslash && windows_path::head_of(dir).verbatim) {
        assert(path.take(dir.len() as int) =~= dir);
    }
}

} // verus!
