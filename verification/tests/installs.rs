use app_update::command::Command;
use app_update::error::RestartError;
use app_update::install::{install, sync_result, InstallAction, InstallEvent, InstallRun};
use app_update::payload::{
    app_bundle_path, find_app_bundle, find_single_payload, restart_app_bundle, PayloadEntry,
    PayloadSelectionError,
};
use app_update::restart::RestartStep;
use app_update::{restart_application, UpdateError};
use std::io::{Error, ErrorKind};

type Listing = Vec<Result<PayloadEntry, Error>>;

fn dir(name: &str) -> Result<PayloadEntry, Error> {
    Ok(PayloadEntry { name: name.to_string(), is_dir: true, is_file: false })
}

fn file(name: &str) -> Result<PayloadEntry, Error> {
    Ok(PayloadEntry { name: name.to_string(), is_dir: false, is_file: true })
}

fn broken() -> Result<PayloadEntry, Error> {
    Err(Error::new(ErrorKind::Other, "broken"))
}

fn listed(entries: Listing) -> InstallEvent {
    InstallEvent::Listed { dir: "/tmp/unpacked".to_string(), entries }
}

#[test]
fn selects_macos_payload_without_installed_bundle_name() {
    let extracted_archive = vec![dir("Release.app")];

    let selected = find_single_payload(extracted_archive, "app").unwrap();

    assert_eq!(selected, 0);
}

#[test]
fn selects_windows_payload_without_installed_executable_name() {
    let extracted_archive = vec![file("release.exe")];

    let selected = find_single_payload(extracted_archive, "exe").unwrap();

    assert_eq!(selected, 0);
}

#[test]
fn a_payload_has_the_right_extension_and_kind() {
    let entries = vec![
        file("readme.txt"),
        dir("old.exe"),
        file("App.app"),
        file(".exe"),
        file("exe"),
        file("Setup.EXE"),
    ];
    assert_eq!(find_single_payload(entries, "exe").unwrap(), 5);
    let entries = vec![file("x.app"), dir("y.APP"), dir(".app")];
    assert_eq!(find_single_payload(entries, "app").unwrap(), 1);
}

#[test]
fn no_other_kind_of_payload_is_known() {
    let entries = vec![file("a.dmg"), dir("b.dmg")];
    assert!(matches!(
        find_single_payload(entries, "dmg"),
        Err(PayloadSelectionError::Missing)
    ));
}

#[test]
fn two_payloads_are_too_many() {
    let entries = vec![file("a.exe"), file("b.exe"), broken()];
    assert!(matches!(
        find_single_payload(entries, "exe"),
        Err(PayloadSelectionError::Multiple)
    ));
}

#[test]
fn an_unreadable_entry_ends_the_search() {
    let entries = vec![file("a.exe"), broken(), file("b.exe")];
    match find_single_payload(entries, "exe") {
        Err(PayloadSelectionError::Io(error)) => assert_eq!(error.to_string(), "broken"),
        _ => panic!("not an I/O error"),
    }
}

#[test]
fn an_empty_directory_has_no_payload() {
    assert!(matches!(
        find_single_payload(Vec::new(), "app"),
        Err(PayloadSelectionError::Missing)
    ));
}

#[test]
fn the_bundle_is_at_most_three_levels_up() {
    assert_eq!(
        app_bundle_path("/Applications/My.app/Contents/MacOS/my").as_deref(),
        Some("/Applications/My.app")
    );
    assert_eq!(app_bundle_path("/My.app/my").as_deref(), Some("/My.app"));
    assert_eq!(app_bundle_path("/My.app/a/b/c/my"), None);
    assert_eq!(app_bundle_path("/Outer.app/Inner.app/my").as_deref(), Some("/Outer.app/Inner.app"));
    assert_eq!(app_bundle_path("/My.APP/my"), None);
    assert_eq!(app_bundle_path("/usr/bin/my"), None);
    assert_eq!(app_bundle_path("my"), None);
}

#[test]
fn a_missing_bundle_is_an_error() {
    assert!(matches!(
        find_app_bundle::<String>("/usr/bin/my"),
        Err(UpdateError::MissingAppBundle)
    ));
    assert!(matches!(
        restart_app_bundle("/usr/bin/my"),
        Err(RestartError::MissingAppBundle)
    ));
    assert_eq!(find_app_bundle::<String>("/A.app/x").unwrap(), "/A.app");
    assert_eq!(restart_app_bundle("/A.app/x").unwrap(), "/A.app");
}

fn on_macos() -> InstallRun {
    let (mut run, first): (InstallRun, InstallAction<String>) = install("macos");
    assert!(matches!(first, InstallAction::LocateExecutable));
    let exe_path = "/Applications/My.app/Contents/MacOS/my".to_string();
    let next: InstallAction<String> = run.advance(InstallEvent::Located { exe_path });
    assert!(matches!(next, InstallAction::Unpack));
    let next: InstallAction<String> = run.advance(InstallEvent::Unpacked);
    assert!(matches!(next, InstallAction::ListUnpacked));
    run
}

fn on_windows() -> InstallRun {
    let (mut run, first): (InstallRun, InstallAction<String>) = install("windows");
    assert!(matches!(first, InstallAction::Unpack));
    let next: InstallAction<String> = run.advance(InstallEvent::Unpacked);
    assert!(matches!(next, InstallAction::ListUnpacked));
    run
}

#[test]
fn on_macos_the_new_bundle_is_brought_over_the_old_one() {
    let mut run = on_macos();
    let next: InstallAction<String> = run.advance(listed(vec![file("notes"), dir("New.app")]));
    match next {
        InstallAction::Sync(command) => assert_eq!(
            command,
            Command {
                program: "rsync".to_string(),
                args: vec![
                    "-a".to_string(),
                    "--delete".to_string(),
                    "/tmp/unpacked/New.app/.".to_string(),
                    "/Applications/My.app".to_string(),
                ],
                dir: None,
                env: None,
            }
        ),
        _ => panic!("no command"),
    }
    let end: InstallAction<String> =
        run.advance(InstallEvent::Synced { success: true, stderr: b"ignored".to_vec() });
    assert!(matches!(end, InstallAction::Finish(Ok(()))));
}

#[test]
fn a_failed_command_says_why() {
    let mut run = on_macos();
    let _: InstallAction<String> = run.advance(listed(vec![dir("New.app")]));
    let stderr = b"no space \xff left".to_vec();
    let end: InstallAction<String> = run.advance(InstallEvent::Synced { success: false, stderr });
    match end {
        InstallAction::Finish(Err(UpdateError::InstallCommandFailed(output))) => {
            assert_eq!(output, "no space \u{fffd} left");
        }
        _ => panic!("not failed"),
    }
    assert!(sync_result::<String>(true, String::new()).is_ok());
    assert!(matches!(
        sync_result::<String>(false, "x".to_string()),
        Err(UpdateError::InstallCommandFailed(output)) if output == "x"
    ));
}

#[test]
fn on_windows_the_executable_is_replaced() {
    let mut run = on_windows();
    let next: InstallAction<String> = run.advance(listed(vec![dir("x.app"), file("new.exe")]));
    assert!(matches!(next, InstallAction::ReplaceExecutable(1)));
    let end: InstallAction<String> = run.advance(InstallEvent::Replaced);
    assert!(matches!(end, InstallAction::Finish(Ok(()))));
}

#[test]
fn archives_without_a_single_payload_are_not_installed() {
    let end: InstallAction<String> = on_windows().advance(listed(vec![]));
    assert!(matches!(end, InstallAction::Finish(Err(UpdateError::MissingExecutable))));
    let end: InstallAction<String> =
        on_windows().advance(listed(vec![file("a.exe"), file("b.exe")]));
    assert!(matches!(end, InstallAction::Finish(Err(UpdateError::MultipleExecutables))));
    let end: InstallAction<String> = on_windows().advance(listed(vec![broken()]));
    assert!(matches!(end, InstallAction::Finish(Err(UpdateError::Io(_)))));
    let end: InstallAction<String> = on_macos().advance(listed(vec![file("a.exe")]));
    assert!(matches!(end, InstallAction::Finish(Err(UpdateError::MissingMacosBundle))));
    let end: InstallAction<String> = on_macos().advance(listed(vec![dir("a.app"), dir("b.app")]));
    assert!(matches!(end, InstallAction::Finish(Err(UpdateError::MultipleMacosBundles))));
    let end: InstallAction<String> = on_macos().advance(listed(vec![broken()]));
    assert!(matches!(end, InstallAction::Finish(Err(UpdateError::Io(_)))));
}

#[test]
fn an_installation_outside_a_bundle_fails() {
    let (mut run, _): (InstallRun, InstallAction<String>) = install("macos");
    let exe_path = "/usr/local/bin/my".to_string();
    let end: InstallAction<String> = run.advance(InstallEvent::Located { exe_path });
    assert!(matches!(end, InstallAction::Finish(Err(UpdateError::MissingAppBundle))));
}

#[test]
fn other_systems_are_not_supported() {
    let (_, end): (InstallRun, InstallAction<String>) = install("linux");
    assert!(matches!(end, InstallAction::Finish(Err(UpdateError::UnsupportedOs("linux")))));
}

#[test]
fn restarting_on_windows_starts_the_executable() {
    let steps = restart_application("windows", Ok("C:/my.exe".to_string())).unwrap();
    assert!(matches!(steps[..], [RestartStep::SpawnSelf, RestartStep::Exit(0)]));
}

#[test]
fn restarting_on_macos_opens_the_bundle() {
    let exe_path = "/Applications/My.app/Contents/MacOS/my".to_string();
    let steps = restart_application("macos", Ok(exe_path)).unwrap();
    assert_eq!(steps.len(), 3);
    match &steps[0] {
        RestartStep::Spawn(command) => {
            assert_eq!(command.program, "open");
            assert_eq!(command.args, ["-n", "/Applications/My.app"]);
        }
        _ => panic!("no command"),
    }
    assert!(matches!(steps[1], RestartStep::Pause(100)));
    assert!(matches!(steps[2], RestartStep::Exit(0)));
}

#[test]
fn a_restart_can_fail() {
    assert!(matches!(
        restart_application("linux", Ok("/bin/my".to_string())),
        Err(RestartError::UnsupportedOs("linux"))
    ));
    assert!(matches!(
        restart_application("macos", Ok("/bin/my".to_string())),
        Err(RestartError::MissingAppBundle)
    ));
    let gone = Error::new(ErrorKind::NotFound, "gone");
    assert!(matches!(
        restart_application("windows", Err(gone)),
        Err(RestartError::Io(error)) if error.to_string() == "gone"
    ));
}
