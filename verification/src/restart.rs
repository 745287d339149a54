//! Starting the application again.
use vstd::prelude::*;

use crate::command::{plain_command, Command, CommandView};
use crate::error::RestartError;
use crate::payload::{bundle_above, restart_app_bundle};
use crate::text::text_eq;

verus! {

/// How long to wait for the new instance to come up, in milliseconds.
pub const RESTART_PAUSE_MILLIS: u64 = 100;

/// One thing to do to start the application again.
#[derive(Debug)]
pub enum RestartStep {
    /// Start the executable that is running.
    SpawnSelf,
    /// Start the command.
    Spawn(Command),
    /// Wait so many milliseconds.
    Pause(u64),
    /// End this process with the exit code.
    Exit(i32),
}

/// The command that opens another instance of a bundle.
pub open spec fn open_command(bundle: Seq<char>) -> CommandView {
    plain_command("open"@, seq!["-n"@, bundle])
}

/// The steps that start the application again on the system `os`, or why there are none.
pub open spec fn restart_plan(
    os: Seq<char>,
    current_exe: Result<String, std::io::Error>,
    plan: Result<Vec<RestartStep>, RestartError>,
) -> bool {
    if os != "windows"@ && os != "macos"@ {
        plan matches Err(RestartError::UnsupportedOs(name)) && name@ == os
    } else {
        match current_exe {
            Err(error) => plan == Err::<Vec<RestartStep>, RestartError>(RestartError::Io(error)),
            Ok(exe_path) => if os == "windows"@ {
                plan matches Ok(steps) && steps@ == seq![
                    RestartStep::SpawnSelf,
                    RestartStep::Exit(0),
                ]
            } else {
                match bundle_above(exe_path@, 3) {
                    None => plan == Err::<Vec<RestartStep>, RestartError>(
                        RestartError::MissingAppBundle,
                    ),
                    Some(bundle) => {
                        &&& plan matches Ok(steps)
                        &&& steps.len() == 3
                        &&& steps[0] matches RestartStep::Spawn(command)
                        &&& command@ == open_command(bundle)
                        &&& steps[1] == RestartStep::Pause(RESTART_PAUSE_MILLIS)
                        &&& steps[2] == RestartStep::Exit(0)
                    },
                }
            },
        }
    }
}

/// How to start the application again on the system that the standard library calls `os`.
/// `current_exe` says where the running executable is.
pub fn restart_application(
    os: &'static str,
    current_exe: Result<String, std::io::Error>,
) -> (plan: Result<Vec<RestartStep>, RestartError>)
    ensures
        restart_plan(os@, current_exe, plan),
{
    let windows = text_eq(os, "windows");
    if !windows && !text_eq(os, "macos") {
        return Err(RestartError::UnsupportedOs(os));
    }
    let exe_path: String = match current_exe {
        Ok(exe_path) => exe_path,
        Err(error) => {
            return Err(RestartError::Io(error));
        },
    };
    let mut steps: Vec<RestartStep> = Vec::new();
    if windows {
        steps.push(RestartStep::SpawnSelf);
    } else {
        let bundle: String = match restart_app_bundle(exe_path.as_str()) {
            Ok(bundle) => bundle,
            Err(error) => {
                return Err(error);
            },
        };
        let command = Command::new("open", vec!["-n", bundle.as_str()]);
        assert(command@.args =~= open_command(bundle@).args);
        steps.push(RestartStep::Spawn(command));
        steps.push(RestartStep::Pause(RESTART_PAUSE_MILLIS));
    }
    steps.push(RestartStep::Exit(0));
    assert(windows ==> steps@ =~= seq![RestartStep::SpawnSelf, RestartStep::Exit(0)]);
    Ok(steps)
}

} // verus!
