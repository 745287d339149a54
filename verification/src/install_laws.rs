//! What is taken for an application, and what installing and restarting it comes to.
use vstd::prelude::*;

use crate::bundle_laws::{lemma_app_extension, names_bundle};
use crate::error::{RestartError, UpdateError};
use crate::install::{
    install_awaits, install_begins, install_goes, InstallAction, InstallEvent, InstallStage,
};
use crate::path::{name_extension, PathStyle};
use crate::path_laws::{a_joined_name_can_be_taken_off, plain_dir, plain_name};
use crate::payload::{
    bundle_above, is_payload, single_payload, PayloadEntry, PayloadSelectionError,
};
use crate::restart::{restart_plan, RestartStep};
use crate::text::{ascii_lower, last_index, lossy_text, same_but_for_case};
use crate::text_laws::the_last_place_is_the_last;
use crate::unix_path::{extension_of, file_name_of, joined, parent_of};

verus! {

/// The character is the letter, as it is or as a capital.
pub open spec fn letter(c: char, small: char, capital: char) -> bool {
    c == small || c == capital
}

/// The name ends in ".app", with letters of either case and something before that.
pub open spec fn ends_in_app(name: Seq<char>) -> bool {
    let n = name.len() as int;
    n > 4 && name[n - 4] == '.' && letter(name[n - 3], 'a', 'A') && letter(name[n - 2], 'p', 'P')
        && letter(name[n - 1], 'p', 'P')
}

/// The name ends in ".exe", with letters of either case and something before that.
pub open spec fn ends_in_exe(name: Seq<char>) -> bool {
    let n = name.len() as int;
    n > 4 && name[n - 4] == '.' && letter(name[n - 3], 'e', 'E') && letter(name[n - 2], 'x', 'X')
        && letter(name[n - 1], 'e', 'E')
}

proof fn lemma_lower(c: char, small: char)
    requires
        'a' <= small && small <= 'z',
    ensures
        ascii_lower(c) == small <==> c == small || c as u32 + 32 == small as u32,
{
}

proof fn lemma_three_letters(name: Seq<char>, wanted: Seq<char>)
    requires
        wanted.len() == 3,
        forall|i: int| 0 <= i < 3 ==> 'a' <= #[trigger] wanted[i] && wanted[i] <= 'z',
    ensures
        ({
            let n = name.len() as int;
            (name_extension(name) matches Some(extension) && same_but_for_case(extension, wanted))
                <==> n > 4 && name[n - 4] == '.' && ascii_lower(name[n - 3]) == wanted[0]
                && ascii_lower(name[n - 2]) == wanted[1] && ascii_lower(name[n - 1]) == wanted[2]
        }),
{
    let n = name.len() as int;
    let dot = last_index(name, '.');
    the_last_place_is_the_last(name, '.');
    assert(ascii_lower('.') == '.');
    assert(ascii_lower(wanted[0]) == wanted[0]);
    assert(ascii_lower(wanted[1]) == wanted[1]);
    assert(ascii_lower(wanted[2]) == wanted[2]);
    if n > 4 && name[n - 4] == '.' && ascii_lower(name[n - 3]) == wanted[0] && ascii_lower(
        name[n - 2],
    ) == wanted[1] && ascii_lower(name[n - 1]) == wanted[2] {
        assert(dot == n - 4);
        let extension = name.skip(dot + 1);
        assert(extension.len() == 3);
        assert(extension[0] == name[n - 3] && extension[1] == name[n - 2] && extension[2]
            == name[n - 1]);
        assert(same_but_for_case(extension, wanted));
    }
    if dot > 0 && same_but_for_case(name.skip(dot + 1), wanted) {
        let extension = name.skip(dot + 1);
        assert(extension.len() == 3);
        assert(extension[0] == name[n - 3] && extension[1] == name[n - 2] && extension[2]
            == name[n - 1]);
    }
}

/// For a Mac the payload is a directory whose name ends in ".app", for Windows a file whose name
/// ends in ".exe", both in letters of either case.
pub proof fn a_payload_has_the_right_name_and_kind(entry: PayloadEntry)
    ensures
        is_payload(entry, "app"@) <==> entry.is_dir && ends_in_app(entry.name@),
        is_payload(entry, "exe"@) <==> entry.is_file && ends_in_exe(entry.name@),
{
    reveal_strlit("app");
    reveal_strlit("exe");
    let name = entry.name@;
    let n = name.len() as int;
    assert("app"@[0] == 'a' && "exe"@[0] == 'e');
    lemma_three_letters(name, "app"@);
    lemma_three_letters(name, "exe"@);
    if n > 4 {
        lemma_lower(name[n - 3], 'a');
        lemma_lower(name[n - 2], 'p');
        lemma_lower(name[n - 1], 'p');
        lemma_lower(name[n - 3], 'e');
        lemma_lower(name[n - 2], 'x');
        lemma_lower(name[n - 1], 'e');
    }
}

/// The path has a file name that ends in ".app".
pub open spec fn is_bundle_path(path: Seq<char>) -> bool {
    names_bundle(file_name_of(path))
}

proof fn lemma_bundle_path(path: Seq<char>)
    ensures
        extension_of(path) == Some("app"@) <==> is_bundle_path(path),
{
    if file_name_of(path) is Some {
        lemma_app_extension(file_name_of(path)->0);
    }
}

/// The bundle of an executable is the nearest of the three directories above it whose name ends in
/// ".app"; one further up is none.
pub proof fn the_nearest_bundle_above_is_found(path: Seq<char>)
    ensures
        match parent_of(path) {
            None => bundle_above(path, 3) is None,
            Some(one) => if is_bundle_path(one) {
                bundle_above(path, 3) == Some(one)
            } else {
                match parent_of(one) {
                    None => bundle_above(path, 3) is None,
                    Some(two) => if is_bundle_path(two) {
                        bundle_above(path, 3) == Some(two)
                    } else {
                        match parent_of(two) {
                            None => bundle_above(path, 3) is None,
                            Some(three) => if is_bundle_path(three) {
                                bundle_above(path, 3) == Some(three)
                            } else {
                                bundle_above(path, 3) is None
                            },
                        }
                    },
                }
            },
        },
{
    reveal_with_fuel(bundle_above, 4);
    if parent_of(path) is Some {
        let one = parent_of(path)->0;
        lemma_bundle_path(one);
        if parent_of(one) is Some {
            let two = parent_of(one)->0;
            lemma_bundle_path(two);
            if parent_of(two) is Some {
                lemma_bundle_path(parent_of(two)->0);
            }
        }
    }
}

/// The executable of a bundle, two directories below it, is found to belong to it.
pub proof fn an_executable_belongs_to_its_bundle(
    dir: Seq<char>,
    name: Seq<char>,
    executable: Seq<char>,
)
    requires
        plain_dir(PathStyle::Unix, dir),
        plain_name(name),
        names_bundle(Some(name)),
        plain_name(executable),
    ensures
        bundle_above(
            joined(joined(joined(joined(dir, name), "Contents"@), "MacOS"@), executable),
            3,
        ) == Some(joined(dir, name)),
{
    reveal_strlit("Contents");
    reveal_strlit("MacOS");
    reveal_strlit(".app");
    let bundle = joined(dir, name);
    let contents = joined(bundle, "Contents"@);
    let macos = joined(contents, "MacOS"@);
    a_joined_name_can_be_taken_off(PathStyle::Unix, dir, name);
    assert(name.last() == name.subrange(name.len() - 4, name.len() as int)[3]);
    assert(bundle.last() == 'p');
    assert(plain_name("Contents"@)) by {
        assert("Contents"@[0] == 'C');
    }
    assert(plain_name("MacOS"@)) by {
        assert("MacOS"@[0] == 'M');
    }
    a_joined_name_can_be_taken_off(PathStyle::Unix, bundle, "Contents"@);
    assert(contents.last() == 's');
    a_joined_name_can_be_taken_off(PathStyle::Unix, contents, "MacOS"@);
    assert(macos.last() == 'S');
    a_joined_name_can_be_taken_off(PathStyle::Unix, macos, executable);
    the_nearest_bundle_above_is_found(joined(macos, executable));
    assert("MacOS"@.subrange(1, 5)[0] == 'a');
    assert(".app"@[0] == '.');
    assert("Contents"@.subrange(4, 8)[0] == 'e');
}

/// An installation begins on Windows with the archive, on a Mac with where the application is, and
/// is refused anywhere else.
pub proof fn an_installation_begins_by_the_system<E>(
    os: Seq<char>,
    first: InstallStage,
    action: InstallAction<E>,
)
    requires
        install_begins(os, first, action),
    ensures
        os == "windows"@ ==> action == InstallAction::<E>::Unpack && first
            == (InstallStage::Unpacking { bundle: None }),
        os == "macos"@ ==> action == InstallAction::<E>::LocateExecutable && first
            == InstallStage::Locating,
        os != "windows"@ && os != "macos"@ ==> first == InstallStage::Finished && (
        action matches InstallAction::Finish(Err(UpdateError::UnsupportedOs(name))) && name@
            == os),
{
    reveal_strlit("windows");
    reveal_strlit("macos");
    assert("windows"@.len() != "macos"@.len());
}

/// Once it is known where the application is, its bundle is kept for later and the archive is
/// unpacked; where there is no bundle the installation ends.
pub proof fn a_located_bundle_is_kept<E>(
    exe_path: String,
    next: InstallStage,
    action: InstallAction<E>,
)
    requires
        install_goes(InstallStage::Locating, InstallEvent::Located { exe_path }, next, action),
    ensures
        bundle_above(exe_path@, 3) is None ==> action == InstallAction::<E>::Finish(
            Err(UpdateError::MissingAppBundle),
        ) && next == InstallStage::Finished,
        bundle_above(exe_path@, 3) matches Some(bundle) ==> action == InstallAction::<E>::Unpack
            && (next matches InstallStage::Unpacking { bundle: Some(kept) } && kept@ == bundle),
{
}

/// On a Mac, the only bundle of the unpacked archive is copied over the installed one, so that
/// nothing else is left in that; where there is none, or more than one, that is the error.
pub proof fn a_bundle_is_copied_over_the_installed_one<E>(
    bundle: String,
    dir: String,
    entries: Vec<Result<PayloadEntry, std::io::Error>>,
    next: InstallStage,
    action: InstallAction<E>,
)
    requires
        install_goes(
            InstallStage::Listing { bundle: Some(bundle) },
            InstallEvent::Listed { dir, entries },
            next,
            action,
        ),
    ensures
        match single_payload(entries@, "app"@) {
            Ok(at) => {
                &&& next == InstallStage::Syncing
                &&& action matches InstallAction::Sync(command)
                &&& command@.program == "rsync"@
                &&& command@.args == seq![
                    "-a"@,
                    "--delete"@,
                    joined(joined(dir@, entries@[at as int]->Ok_0.name@), "."@),
                    bundle@,
                ]
                &&& command@.dir is None && command@.env is None
            },
            Err(error) => {
                &&& next == InstallStage::Finished
                &&& action == InstallAction::<E>::Finish(
                    Err(
                        match error {
                            PayloadSelectionError::Io(error) => UpdateError::Io(error),
                            PayloadSelectionError::Missing => UpdateError::MissingMacosBundle,
                            PayloadSelectionError::Multiple => UpdateError::MultipleMacosBundles,
                        },
                    ),
                )
            },
        },
{
}

/// On Windows, the only executable of the unpacked archive takes the place of the running one;
/// where there is none, or more than one, that is the error.
pub proof fn an_executable_takes_the_place_of_the_running_one<E>(
    dir: String,
    entries: Vec<Result<PayloadEntry, std::io::Error>>,
    next: InstallStage,
    action: InstallAction<E>,
)
    requires
        install_goes(
            InstallStage::Listing { bundle: None },
            InstallEvent::Listed { dir, entries },
            next,
            action,
        ),
    ensures
        match single_payload(entries@, "exe"@) {
            Ok(at) => next == InstallStage::Replacing && action
                == InstallAction::<E>::ReplaceExecutable(at),
            Err(error) => {
                &&& next == InstallStage::Finished
                &&& action == InstallAction::<E>::Finish(
                    Err(
                        match error {
                            PayloadSelectionError::Io(error) => UpdateError::Io(error),
                            PayloadSelectionError::Missing => UpdateError::MissingExecutable,
                            PayloadSelectionError::Multiple => UpdateError::MultipleExecutables,
                        },
                    ),
                )
            },
        },
{
}

/// What has been unpacked is listed, for the same bundle; what has been copied ends the
/// installation, well or with what the command said; and so does what has been replaced.
pub proof fn an_installation_goes_on_to_its_end<E>(
    stage: InstallStage,
    event: InstallEvent,
    next: InstallStage,
    action: InstallAction<E>,
)
    requires
        install_goes(stage, event, next, action),
    ensures
        install_awaits(stage, event),
        stage matches InstallStage::Unpacking { bundle } ==> next == (InstallStage::Listing {
            bundle,
        }) && action == InstallAction::<E>::ListUnpacked,
        event matches InstallEvent::Synced { success, stderr } ==> {
            &&& next == InstallStage::Finished
            &&& action matches InstallAction::Finish(result)
            &&& success ==> result is Ok
            &&& !success ==> (result matches Err(UpdateError::InstallCommandFailed(output))
                && output@ == lossy_text(stderr@))
        },
        event is Replaced ==> next == InstallStage::Finished && action
            == InstallAction::<E>::Finish(Ok(())),
{
}

/// A restart on Windows runs the executable again and ends; on a Mac it opens the bundle anew,
/// waits for a tenth of a second and ends; anywhere else it is refused.
pub proof fn a_restart_begins_the_application_anew(
    os: Seq<char>,
    exe_path: String,
    error: std::io::Error,
    plan: Result<Vec<RestartStep>, RestartError>,
    failed: Result<Vec<RestartStep>, RestartError>,
)
    requires
        restart_plan(os, Ok(exe_path), plan),
        restart_plan(os, Err(error), failed),
    ensures
        os == "windows"@ ==> (plan matches Ok(steps) && steps@ == seq![
            RestartStep::SpawnSelf,
            RestartStep::Exit(0),
        ]),
        os == "macos"@ && bundle_above(exe_path@, 3) is None ==> plan == Err::<
            Vec<RestartStep>,
            RestartError,
        >(RestartError::MissingAppBundle),
        bundle_above(exe_path@, 3) matches Some(bundle) ==> os == "macos"@ ==> {
            &&& plan matches Ok(steps)
            &&& steps.len() == 3
            &&& steps[0] matches RestartStep::Spawn(command)
            &&& command@.program == "open"@
            &&& command@.args == seq!["-n"@, bundle]
            &&& command@.dir is None && command@.env is None
            &&& steps[1] == RestartStep::Pause(100)
            &&& steps[2] == RestartStep::Exit(0)
        },
        os == "windows"@ || os == "macos"@ ==> failed == Err::<Vec<RestartStep>, RestartError>(
            RestartError::Io(error),
        ),
        os != "windows"@ && os != "macos"@ ==> (plan matches Err(RestartError::UnsupportedOs(name))
            && name@ == os),
        os != "windows"@ && os != "macos"@ ==> (failed matches Err(
            RestartError::UnsupportedOs(name),
        ) && name@ == os),
{
    reveal_strlit("windows");
    reveal_strlit("macos");
    assert("windows"@.len() != "macos"@.len());
}

} // verus!
