//! What an extracted archive brings, and where an application bundle is.
use vstd::prelude::*;

use crate::error::{RestartError, UpdateError};
use crate::path::{extension_in_name, name_extension};
use crate::text::{eq_ignore_ascii_case, same_but_for_case, text_eq};
use crate::unix_path::{extension, extension_of, parent, parent_of};

verus! {

/// An entry of a directory: the name of the file or directory, and which of them it is.
#[derive(Debug)]
pub struct PayloadEntry {
    pub name: String,
    pub is_dir: bool,
    pub is_file: bool,
}

/// Why an extracted archive has no payload to install.
#[derive(Debug)]
pub enum PayloadSelectionError {
    Io(std::io::Error),
    Missing,
    Multiple,
}

/// The entry is a payload of the kind that `wanted` stands for: `app` for a bundle, which is a
/// directory, `exe` for an executable, which is a file. Nothing else is a payload.
pub open spec fn is_payload(entry: PayloadEntry, wanted: Seq<char>) -> bool {
    &&& name_extension(entry.name@) matches Some(extension)
    &&& same_but_for_case(extension, wanted)
    &&& (wanted == "app"@ && entry.is_dir) || (wanted == "exe"@ && entry.is_file)
}

/// The directory entry at `at` could be read and is a payload.
pub open spec fn payload_at(
    entries: Seq<Result<PayloadEntry, std::io::Error>>,
    wanted: Seq<char>,
    at: int,
) -> bool {
    0 <= at < entries.len() && (entries[at] matches Ok(entry) && is_payload(entry, wanted))
}

/// The first `n` directory entries could be read.
pub open spec fn readable(entries: Seq<Result<PayloadEntry, std::io::Error>>, n: int) -> bool {
    forall|i: int| 0 <= i < n ==> #[trigger] entries[i] is Ok
}

/// At most one of the first `n` directory entries is a payload.
pub open spec fn at_most_one(
    entries: Seq<Result<PayloadEntry, std::io::Error>>,
    wanted: Seq<char>,
    n: int,
) -> bool {
    forall|i: int, j: int|
        0 <= i < n && 0 <= j < n && #[trigger] payload_at(entries, wanted, i)
            && #[trigger] payload_at(entries, wanted, j) ==> i == j
}

/// What a look at the entries, one after the other, has found: the payload among them, if
/// there is one. The first entry that cannot be read, and a second payload, end it.
pub open spec fn seen(
    entries: Seq<Result<PayloadEntry, std::io::Error>>,
    wanted: Seq<char>,
) -> Result<Option<usize>, PayloadSelectionError>
    decreases entries.len(),
{
    if entries.len() == 0 {
        Ok(None)
    } else {
        match (seen(entries.drop_last(), wanted), entries.last()) {
            (Err(error), _) => Err(error),
            (Ok(_), Err(error)) => Err(PayloadSelectionError::Io(error)),
            (Ok(before), Ok(entry)) => if !is_payload(entry, wanted) {
                Ok(before)
            } else if before is Some {
                Err(PayloadSelectionError::Multiple)
            } else {
                Ok(Some((entries.len() - 1) as usize))
            },
        }
    }
}

/// The only payload among the entries, or why there is none to take.
pub open spec fn single_payload(
    entries: Seq<Result<PayloadEntry, std::io::Error>>,
    wanted: Seq<char>,
) -> Result<usize, PayloadSelectionError> {
    match seen(entries, wanted) {
        Ok(Some(at)) => Ok(at),
        Ok(None) => Err(PayloadSelectionError::Missing),
        Err(error) => Err(error),
    }
}

/// The bundle that the executable at `path` belongs to: the first of the `levels` directories
/// above it whose name ends in `.app`.
pub open spec fn bundle_above(path: Seq<char>, levels: nat) -> Option<Seq<char>>
    decreases levels,
{
    if levels == 0 {
        None
    } else {
        match parent_of(path) {
            None => None,
            Some(up) => if extension_of(up) == Some("app"@) {
                Some(up)
            } else {
                bundle_above(up, (levels - 1) as nat)
            },
        }
    }
}

fn selects(entry: &PayloadEntry, wanted: &str) -> (yes: bool)
    ensures
        yes == is_payload(*entry, wanted@),
{
    match extension_in_name(entry.name.as_str()) {
        Some(extension) => eq_ignore_ascii_case(extension.as_str(), wanted) && ((text_eq(
            wanted,
            "app",
        ) && entry.is_dir) || (text_eq(wanted, "exe") && entry.is_file)),
        None => false,
    }
}

/// Which of the entries of a directory is its only payload. The entries come in the order in
/// which the directory gives them; the first that cannot be read, and the second payload, end
/// the search.
pub fn find_single_payload(
    entries: Vec<Result<PayloadEntry, std::io::Error>>,
    wanted: &str,
) -> (found: Result<usize, PayloadSelectionError>)
    ensures
        found == single_payload(entries@, wanted@),
{
    let mut payload: Option<usize> = None;
    let mut left: Vec<Result<PayloadEntry, std::io::Error>> = entries;
    let ghost all = left@;
    let count: usize = left.len();
    for i in 0..count
        invariant
            all == entries@,
            left@ == all,
            count == all.len(),
            seen(all.take(i as int), wanted@) == Ok::<Option<usize>, PayloadSelectionError>(
                payload,
            ),
    {
        proof {
            assert(all.take(i + 1).drop_last() =~= all.take(i as int));
            lemma_an_end_is_the_end(all, wanted@, i + 1);
        }
        let (broken, selected) = match &left[i] {
            Ok(entry) => (false, selects(entry, wanted)),
            Err(_) => (true, false),
        };
        if broken {
            match left.swap_remove(i) {
                Err(error) => {
                    return Err(PayloadSelectionError::Io(error));
                },
                Ok(_) => {},
            }
        }
        if selected {
            if payload.is_some() {
                return Err(PayloadSelectionError::Multiple);
            }
            payload = Some(i);
        }
    }
    assert(all.take(count as int) =~= all);
    match payload {
        Some(at) => Ok(at),
        None => Err(PayloadSelectionError::Missing),
    }
}

/// What has ended a search is what the search comes to.
proof fn lemma_an_end_is_the_end(
    entries: Seq<Result<PayloadEntry, std::io::Error>>,
    wanted: Seq<char>,
    n: int,
)
    requires
        0 <= n <= entries.len(),
    ensures
        seen(entries.take(n), wanted) is Err ==> seen(entries, wanted) == seen(
            entries.take(n),
            wanted,
        ),
    decreases entries.len(),
{
    if n < entries.len() {
        lemma_an_end_is_the_end(entries.drop_last(), wanted, n);
        assert(entries.drop_last().take(n) =~= entries.take(n));
    } else {
        assert(entries.take(n) =~= entries);
    }
}

/// What a look at the first entries says of them.
proof fn lemma_seen(entries: Seq<Result<PayloadEntry, std::io::Error>>, wanted: Seq<char>, n: int)
    requires
        0 <= n <= entries.len() <= usize::MAX,
    ensures
        match seen(entries.take(n), wanted) {
            Ok(Some(at)) => at < n && payload_at(entries, wanted, at as int) && at_most_one(
                entries,
                wanted,
                n,
            ) && readable(entries, n),
            Ok(None) => readable(entries, n) && forall|i: int|
                0 <= i < n ==> !payload_at(entries, wanted, i),
            Err(PayloadSelectionError::Io(error)) => exists|k: int|
                {
                    &&& 0 <= k < n
                    &&& #[trigger] entries[k] == Err::<PayloadEntry, std::io::Error>(error)
                    &&& readable(entries, k)
                    &&& at_most_one(entries, wanted, k)
                },
            Err(PayloadSelectionError::Multiple) => exists|k: int|
                {
                    &&& k < n
                    &&& #[trigger] payload_at(entries, wanted, k)
                    &&& readable(entries, k)
                    &&& !at_most_one(entries, wanted, k + 1)
                },
            Err(PayloadSelectionError::Missing) => false,
        },
    decreases n,
{
    let first = entries.take(n);
    if n > 0 {
        lemma_seen(entries, wanted, n - 1);
        assert(first.drop_last() =~= entries.take(n - 1));
        assert(first.last() == entries[n - 1]);
        match (seen(entries.take(n - 1), wanted), entries[n - 1]) {
            (Ok(before), Ok(entry)) => {
                assert(payload_at(entries, wanted, n - 1) == is_payload(entry, wanted));
            },
            (Ok(before), Err(error)) => {
                assert(entries[n - 1] == Err::<PayloadEntry, std::io::Error>(error));
            },
            _ => {},
        }
    }
}

/// A payload is selected exactly where all entries could be read and one of them, and no
/// other, is a payload. None is missing but where all could be read and none is one. There are
/// several where a second one comes before any entry that cannot be read, and an entry that
/// cannot be read is the reason where it comes before a second payload.
pub proof fn a_payload_is_selected_only_where_it_is_the_only_one(
    entries: Seq<Result<PayloadEntry, std::io::Error>>,
    wanted: Seq<char>,
)
    requires
        entries.len() <= usize::MAX,
    ensures
        match single_payload(entries, wanted) {
            Ok(at) => payload_at(entries, wanted, at as int) && at_most_one(
                entries,
                wanted,
                entries.len() as int,
            ) && readable(entries, entries.len() as int),
            Err(PayloadSelectionError::Missing) => readable(entries, entries.len() as int)
                && forall|i: int| !payload_at(entries, wanted, i),
            Err(PayloadSelectionError::Multiple) => exists|k: int|
                {
                    &&& #[trigger] payload_at(entries, wanted, k)
                    &&& readable(entries, k)
                    &&& !at_most_one(entries, wanted, k + 1)
                },
            Err(PayloadSelectionError::Io(error)) => exists|k: int|
                {
                    &&& 0 <= k < entries.len()
                    &&& #[trigger] entries[k] == Err::<PayloadEntry, std::io::Error>(error)
                    &&& readable(entries, k)
                    &&& at_most_one(entries, wanted, k)
                },
        },
{
    lemma_seen(entries, wanted, entries.len() as int);
    assert(entries.take(entries.len() as int) =~= entries);
}

/// The bundle that the executable at `exe_path` belongs to, looked for in the three
/// directories above it.
pub fn app_bundle_path(exe_path: &str) -> (bundle: Option<String>)
    ensures
        match bundle {
            Some(bundle) => bundle_above(exe_path@, 3) == Some(bundle@),
            None => bundle_above(exe_path@, 3) is None,
        },
{
    let mut current: String = exe_path.to_owned();
    let mut levels: usize = 0;
    while levels < 3
        invariant
            levels <= 3,
            bundle_above(exe_path@, 3) == bundle_above(current@, (3 - levels) as nat),
        decreases 3 - levels,
    {
        let up: String = match parent(current.as_str()) {
            Some(up) => up,
            None => {
                return None;
            },
        };
        match extension(up.as_str()) {
            Some(extension) => if text_eq(extension.as_str(), "app") {
                return Some(up);
            },
            None => {},
        }
        current = up;
        levels = levels + 1;
    }
    None
}

/// The bundle that an update is to be installed over.
pub fn find_app_bundle<E>(exe_path: &str) -> (bundle: Result<String, UpdateError<E>>)
    ensures
        match bundle {
            Ok(bundle) => bundle_above(exe_path@, 3) == Some(bundle@),
            Err(error) => bundle_above(exe_path@, 3) is None && error
                == UpdateError::<E>::MissingAppBundle,
        },
{
    match app_bundle_path(exe_path) {
        Some(bundle) => Ok(bundle),
        None => Err(UpdateError::MissingAppBundle),
    }
}

/// The bundle that is to be started again.
pub fn restart_app_bundle(exe_path: &str) -> (bundle: Result<String, RestartError>)
    ensures
        match bundle {
            Ok(bundle) => bundle_above(exe_path@, 3) == Some(bundle@),
            Err(error) => bundle_above(exe_path@, 3) is None && error
                == RestartError::MissingAppBundle,
        },
{
    match app_bundle_path(exe_path) {
        Some(bundle) => Ok(bundle),
        None => Err(RestartError::MissingAppBundle),
    }
}

} // verus!
