//! Installing an update from its archive.
use vstd::prelude::*;

use crate::command::{plain_command, Command, CommandView};
use crate::error::UpdateError;
use crate::payload::{
    a_payload_is_selected_only_where_it_is_the_only_one, at_most_one, bundle_above,
    find_app_bundle, find_single_payload, payload_at, single_payload, PayloadEntry,
    PayloadSelectionError,
};
use crate::text::{from_utf8_lossy, lossy_text, text_eq};
use crate::unix_path::{join, joined};

verus! {

/// What an installation waits for.
#[derive(Debug)]
pub enum InstallStage {
    /// Where the running executable is.
    Locating,
    /// The archive to be extracted. On macOS `bundle` is the bundle to install over.
    Unpacking { bundle: Option<String> },
    /// The entries of the directory that the archive was extracted to.
    Listing { bundle: Option<String> },
    /// The command that brings the new bundle over the old one.
    Syncing,
    /// The executable to be replaced.
    Replacing,
    Finished,
}

/// What has happened outside.
#[derive(Debug)]
pub enum InstallEvent {
    Located { exe_path: String },
    Unpacked,
    Listed { dir: String, entries: Vec<Result<PayloadEntry, std::io::Error>> },
    Synced { success: bool, stderr: Vec<u8> },
    Replaced,
}

/// What is to be done outside.
#[derive(Debug)]
pub enum InstallAction<E> {
    /// Find out where the running executable is.
    LocateExecutable,
    /// Extract the archive to a new directory.
    Unpack,
    /// List that directory.
    ListUnpacked,
    /// Run the command.
    Sync(Command),
    /// Put the entry with this number in place of the running executable, and remove it.
    ReplaceExecutable(usize),
    /// Nothing more: this is the result.
    Finish(Result<(), UpdateError<E>>),
}

/// The event is one that the stage waits for.
pub open spec fn install_awaits(stage: InstallStage, event: InstallEvent) -> bool {
    match stage {
        InstallStage::Locating => event is Located,
        InstallStage::Unpacking { .. } => event is Unpacked,
        InstallStage::Listing { .. } => event is Listed,
        InstallStage::Syncing => event is Synced,
        InstallStage::Replacing => event is Replaced,
        InstallStage::Finished => false,
    }
}

/// What a failed search for the executable means for the update.
pub open spec fn executable_error<E>(error: PayloadSelectionError) -> UpdateError<E> {
    match error {
        PayloadSelectionError::Io(error) => UpdateError::Io(error),
        PayloadSelectionError::Missing => UpdateError::MissingExecutable,
        PayloadSelectionError::Multiple => UpdateError::MultipleExecutables,
    }
}

/// What a failed search for the bundle means for the update.
pub open spec fn bundle_error<E>(error: PayloadSelectionError) -> UpdateError<E> {
    match error {
        PayloadSelectionError::Io(error) => UpdateError::Io(error),
        PayloadSelectionError::Missing => UpdateError::MissingMacosBundle,
        PayloadSelectionError::Multiple => UpdateError::MultipleMacosBundles,
    }
}

/// The command that makes `bundle` the same as the bundle `new`.
pub open spec fn sync_command(new: Seq<char>, bundle: Seq<char>) -> CommandView {
    plain_command("rsync"@, seq!["-a"@, "--delete"@, joined(new, "."@), bundle])
}

/// How an installation starts, and what is done first, on the system `os`.
pub open spec fn install_begins<E>(
    os: Seq<char>,
    first: InstallStage,
    action: InstallAction<E>,
) -> bool {
    if os == "windows"@ {
        first == (InstallStage::Unpacking { bundle: None }) && action == InstallAction::<E>::Unpack
    } else if os == "macos"@ {
        first == InstallStage::Locating && action == InstallAction::<E>::LocateExecutable
    } else {
        &&& first == InstallStage::Finished
        &&& action matches InstallAction::Finish(Err(UpdateError::UnsupportedOs(name)))
        &&& name@ == os
    }
}

/// What the end of the command that brings the new bundle over the old one means, `stderr`
/// being what it wrote to its standard error.
pub open spec fn sync_ends<E>(
    success: bool,
    stderr: Seq<char>,
    result: Result<(), UpdateError<E>>,
) -> bool {
    if success {
        result is Ok
    } else {
        result matches Err(UpdateError::InstallCommandFailed(output)) && output@ == stderr
    }
}

/// Where an installation goes from `stage` when `event` happens, and what it asks for then.
pub open spec fn install_goes<E>(
    stage: InstallStage,
    event: InstallEvent,
    next: InstallStage,
    action: InstallAction<E>,
) -> bool {
    match (stage, event) {
        (InstallStage::Locating, InstallEvent::Located { exe_path }) => match bundle_above(
            exe_path@,
            3,
        ) {
            None => {
                &&& next == InstallStage::Finished
                &&& action == InstallAction::<E>::Finish(Err(UpdateError::MissingAppBundle))
            },
            Some(bundle) => {
                &&& next matches InstallStage::Unpacking { bundle: Some(found) }
                &&& found@ == bundle
                &&& action == InstallAction::<E>::Unpack
            },
        },
        (InstallStage::Unpacking { bundle }, InstallEvent::Unpacked) => {
            &&& next == (InstallStage::Listing { bundle })
            &&& action == InstallAction::<E>::ListUnpacked
        },
        (
            InstallStage::Listing { bundle: None },
            InstallEvent::Listed { dir, entries },
        ) => match single_payload(entries@, "exe"@) {
            Ok(at) => {
                &&& next == InstallStage::Replacing
                &&& action == InstallAction::<E>::ReplaceExecutable(at)
            },
            Err(error) => {
                &&& next == InstallStage::Finished
                &&& action == InstallAction::<E>::Finish(Err(executable_error(error)))
            },
        },
        (
            InstallStage::Listing { bundle: Some(bundle) },
            InstallEvent::Listed { dir, entries },
        ) => match single_payload(entries@, "app"@) {
            Ok(at) => {
                &&& next == InstallStage::Syncing
                &&& action matches InstallAction::Sync(command)
                &&& command@ == sync_command(joined(dir@, entries@[at as int]->Ok_0.name@), bundle@)
            },
            Err(error) => {
                &&& next == InstallStage::Finished
                &&& action == InstallAction::<E>::Finish(Err(bundle_error(error)))
            },
        },
        (InstallStage::Syncing, InstallEvent::Synced { success, stderr }) => {
            &&& next == InstallStage::Finished
            &&& action matches InstallAction::Finish(result)
            &&& sync_ends(success, lossy_text(stderr@), result)
        },
        (InstallStage::Replacing, InstallEvent::Replaced) => {
            &&& next == InstallStage::Finished
            &&& action == InstallAction::<E>::Finish(Ok(()))
        },
        _ => false,
    }
}

/// An installation on its way.
#[derive(Debug)]
pub struct InstallRun {
    stage: InstallStage,
}

/// Starts an installation on the system that the standard library calls `os`.
pub fn install<E>(os: &'static str) -> (start: (InstallRun, InstallAction<E>))
    ensures
        install_begins(os@, start.0.waits_for(), start.1),
{
    if text_eq(os, "windows") {
        (InstallRun { stage: InstallStage::Unpacking { bundle: None } }, InstallAction::Unpack)
    } else if text_eq(os, "macos") {
        (InstallRun { stage: InstallStage::Locating }, InstallAction::LocateExecutable)
    } else {
        (
            InstallRun { stage: InstallStage::Finished },
            InstallAction::Finish(Err(UpdateError::UnsupportedOs(os))),
        )
    }
}

/// What the end of the command that brings the new bundle over the old one means.
pub fn sync_result<E>(success: bool, stderr: String) -> (result: Result<(), UpdateError<E>>)
    ensures
        sync_ends(success, stderr@, result),
{
    if success {
        Ok(())
    } else {
        Err(UpdateError::InstallCommandFailed(stderr))
    }
}

fn to_executable_error<E>(error: PayloadSelectionError) -> (e: UpdateError<E>)
    ensures
        e == executable_error::<E>(error),
{
    match error {
        PayloadSelectionError::Io(error) => UpdateError::Io(error),
        PayloadSelectionError::Missing => UpdateError::MissingExecutable,
        PayloadSelectionError::Multiple => UpdateError::MultipleExecutables,
    }
}

fn to_bundle_error<E>(error: PayloadSelectionError) -> (e: UpdateError<E>)
    ensures
        e == bundle_error::<E>(error),
{
    match error {
        PayloadSelectionError::Io(error) => UpdateError::Io(error),
        PayloadSelectionError::Missing => UpdateError::MissingMacosBundle,
        PayloadSelectionError::Multiple => UpdateError::MultipleMacosBundles,
    }
}

/// The names of the entries; an empty name for one that could not be read.
fn names_of(entries: &Vec<Result<PayloadEntry, std::io::Error>>) -> (names: Vec<String>)
    ensures
        names.len() == entries.len(),
        forall|i: int|
            0 <= i < entries.len() && #[trigger] entries@[i] is Ok ==> names@[i]@
                == entries@[i]->Ok_0.name@,
{
    let mut names: Vec<String> = Vec::new();
    for i in 0..entries.len()
        invariant
            names.len() == i,
            forall|j: int|
                0 <= j < i && #[trigger] entries@[j] is Ok ==> names@[j]@
                    == entries@[j]->Ok_0.name@,
    {
        names.push(
            match &entries[i] {
                Ok(entry) => entry.name.clone(),
                Err(_) => String::new(),
            },
        );
    }
    names
}

impl InstallRun {
    /// What the installation waits for.
    pub closed spec fn waits_for(self) -> InstallStage {
        self.stage
    }

    /// What to do next, now that `event` has happened.
    pub fn advance<E>(&mut self, event: InstallEvent) -> (action: InstallAction<E>)
        requires
            install_awaits(old(self).waits_for(), event),
        ensures
            install_goes(old(self).waits_for(), event, final(self).waits_for(), action),
    {
        let mut stage: InstallStage = InstallStage::Finished;
        std::mem::swap(&mut stage, &mut self.stage);
        match (stage, event) {
            (InstallStage::Locating, InstallEvent::Located { exe_path }) => {
                match find_app_bundle::<E>(exe_path.as_str()) {
                    Ok(bundle) => {
                        self.stage = InstallStage::Unpacking { bundle: Some(bundle) };
                        InstallAction::Unpack
                    },
                    Err(error) => InstallAction::Finish(Err(error)),
                }
            },
            (InstallStage::Unpacking { bundle }, InstallEvent::Unpacked) => {
                self.stage = InstallStage::Listing { bundle };
                InstallAction::ListUnpacked
            },
            (InstallStage::Listing { bundle }, InstallEvent::Listed { dir, entries }) => {
                match bundle {
                    None => match find_single_payload(entries, "exe") {
                        Ok(at) => {
                            self.stage = InstallStage::Replacing;
                            InstallAction::ReplaceExecutable(at)
                        },
                        Err(error) => InstallAction::Finish(Err(to_executable_error(error))),
                    },
                    Some(bundle) => {
                        let names: Vec<String> = names_of(&entries);
                        proof {
                            a_payload_is_selected_only_where_it_is_the_only_one(
                                entries@,
                                "app"@,
                            );
                        }
                        match find_single_payload(entries, "app") {
                            Ok(at) => {
                                let new: String = join(dir.as_str(), names[at].as_str());
                                let source: String = join(new.as_str(), ".");
                                let command = Command::new(
                                    "rsync",
                                    vec!["-a", "--delete", source.as_str(), bundle.as_str()],
                                );
                                assert(command@.args =~= sync_command(new@, bundle@).args);
                                self.stage = InstallStage::Syncing;
                                InstallAction::Sync(command)
                            },
                            Err(error) => InstallAction::Finish(Err(to_bundle_error(error))),
                        }
                    },
                }
            },
            (InstallStage::Syncing, InstallEvent::Synced { success, stderr }) => {
                let text: String = from_utf8_lossy(stderr.as_slice());
                InstallAction::Finish(sync_result(success, text))
            },
            (InstallStage::Replacing, InstallEvent::Replaced) => InstallAction::Finish(Ok(())),
            _ => unreached(),
        }
    }
}

/// Whatever happens, an installation touches what is installed only when the extracted archive
/// holds a single payload of the right kind, and with that payload.
pub proof fn only_a_single_payload_is_installed<E>(
    stage: InstallStage,
    event: InstallEvent,
    next: InstallStage,
    action: InstallAction<E>,
)
    requires
        install_goes(stage, event, next, action),
    ensures
        action matches InstallAction::ReplaceExecutable(at) ==> {
            &&& event matches InstallEvent::Listed { dir, entries }
            &&& payload_at(entries@, "exe"@, at as int)
            &&& at_most_one(entries@, "exe"@, entries@.len() as int)
        },
        action matches InstallAction::Sync(command) ==> {
            &&& event matches InstallEvent::Listed { dir, entries }
            &&& single_payload(entries@, "app"@) matches Ok(at)
            &&& payload_at(entries@, "app"@, at as int)
            &&& at_most_one(entries@, "app"@, entries@.len() as int)
        },
{
    if let InstallEvent::Listed { dir, entries } = event {
        assert(entries.len() <= usize::MAX);
        a_payload_is_selected_only_where_it_is_the_only_one(entries@, "exe"@);
        a_payload_is_selected_only_where_it_is_the_only_one(entries@, "app"@);
    }
}

/// How many more events the stage can wait for.
pub open spec fn install_events_left(stage: InstallStage) -> nat {
    match stage {
        InstallStage::Locating => 4,
        InstallStage::Unpacking { .. } => 3,
        InstallStage::Listing { .. } => 2,
        InstallStage::Syncing => 1,
        InstallStage::Replacing => 1,
        InstallStage::Finished => 0,
    }
}

/// Every event brings an installation closer to its end, and it is at its end when it has a
/// result.
pub proof fn an_installation_comes_to_its_end<E>(
    stage: InstallStage,
    event: InstallEvent,
    next: InstallStage,
    action: InstallAction<E>,
)
    requires
        install_goes(stage, event, next, action),
    ensures
        install_events_left(next) < install_events_left(stage),
        action is Finish <==> next is Finished,
{
}

} // verus!
