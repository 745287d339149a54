use app_update::build_run::BuildRequest;
use app_update::command::Command;
use app_update::path::PathStyle;
use app_update::release::{
    apple_credentials_present, app_version, metadata_command, should_sign, should_upload,
    wanted_platforms, Package, ReleaseOptions, Variables,
};
use app_update::release_run::{
    plan_release, start_release, ReleaseProgress, ReleaseRequest, ReleaseRun,
};
use app_update::script::{Action, Answer, Progress, Script, Step};
use app_update::sign::{
    choose_identity, identity_in, sign_and_notarize, sign_macos_archives, SignProgress, SignRun,
};
use app_update::upload::upload;

const ALL_SET: Variables = Variables {
    apple_team_id: true,
    apple_id: true,
    apple_app_specific_password: true,
    version_server_api_key: true,
};

fn list(items: &[&str]) -> Vec<String> {
    items.iter().map(|item| item.to_string()).collect()
}

fn pairs(items: &[(&str, &str)]) -> Vec<(String, String)> {
    items.iter().map(|item| (item.0.to_string(), item.1.to_string())).collect()
}

fn run_line(command: &Command) -> String {
    let dir = command.dir.as_deref().unwrap_or("-");
    format!("[{dir}] {} {}", command.program, command.args.join(" "))
}

fn line(action: &Action) -> String {
    match action {
        Action::Run(command) => run_line(command),
        Action::Probe(path) => format!("probe {path}"),
        Action::Remove(path) => format!("remove {path}"),
        Action::CreateDir(path) => format!("mkdir {path}"),
        Action::Write { path, .. } => format!("write {path}"),
        Action::Rename { from, to } => format!("rename {from} {to}"),
    }
}

fn answer(action: &Action, yes: bool) -> Answer {
    match action {
        Action::Run(_) => Answer::Exited(yes),
        Action::Probe(_) => Answer::Present(yes),
        _ => Answer::Done,
    }
}

fn play(steps: Vec<Step>, world: impl Fn(&str) -> bool) -> (Vec<String>, Option<String>) {
    let mut script = Script::new(steps);
    let mut lines = Vec::new();
    loop {
        match script.progress() {
            Progress::Act(action) => {
                let done = line(&action);
                script.advance(answer(&action, world(&done)));
                lines.push(done);
            }
            Progress::Failed(message) => return (lines, Some(message)),
            Progress::Finished => return (lines, None),
        }
    }
}

#[test]
fn the_identity_is_quoted_on_its_line() {
    let text = "  1) AAAA \"Apple Development: x\"\r\n  \
                2) BBBB \"Developer ID Application: Me (TEAM)\"\r\n  \
                3) CCCC \"Developer ID Application: Other\"\n     3 valid identities found\n";
    assert_eq!(identity_in(text).as_deref(), Some("Developer ID Application: Me (TEAM)"));
    assert_eq!(identity_in("\"a \"Developer ID Application\" b\"").as_deref(), Some(
        "a \"Developer ID Application\" b"
    ));
    assert_eq!(identity_in("Developer ID Application"), None);
    assert_eq!(identity_in("\"Developer ID Application"), None);
    assert_eq!(identity_in("Developer ID Application\n\"Developer ID Application\""), None);
    assert_eq!(identity_in(""), None);
}

#[test]
fn an_identity_is_needed() {
    assert_eq!(choose_identity(true, "\"Developer ID Application: Me\"").unwrap(),
        "Developer ID Application: Me");
    assert_eq!(
        choose_identity(true, "0 valid identities found").unwrap_err(),
        "no Developer ID Application certificate found"
    );
    assert_eq!(
        choose_identity(false, "\"Developer ID Application: Me\"").unwrap_err(),
        "failed to find code signing identities"
    );
}

const SIGN: &str = "[-] codesign --timestamp --options runtime --sign id /b/My.app";
const PACK: &str = "[/b] zip -r /b/My.temp.zip My.app";
const SUBMIT: &str = "[-] xcrun notarytool submit --wait --no-progress -f json --team-id team \
                      --apple-id apple --password word /b/My.temp.zip";
const STAPLE: &str = "[-] xcrun stapler staple /b/My.app";

fn signing_steps(bundle: &str) -> Vec<Step> {
    sign_and_notarize(PathStyle::Unix, bundle, "id", "team", "apple", "word")
}

#[test]
fn a_bundle_is_signed_and_notarized() {
    let (lines, end) = play(signing_steps("/b/My.app"), |_| true);
    assert_eq!(lines, [SIGN, PACK, SUBMIT, "remove /b/My.temp.zip", STAPLE]);
    assert_eq!(end, None);
}

#[test]
fn the_submitted_archive_is_removed_also_where_notarization_fails() {
    let (lines, end) = play(signing_steps("/b/My.app"), |line| line != SUBMIT);
    assert_eq!(lines, [SIGN, PACK, SUBMIT, "remove /b/My.temp.zip"]);
    assert_eq!(end.as_deref(), Some("notarization failed"));
}

#[test]
fn signing_can_fail_at_each_step() {
    let (lines, end) = play(signing_steps("/b/My.app"), |line| line != SIGN);
    assert_eq!(lines, [SIGN]);
    assert_eq!(end.as_deref(), Some("failed to code sign /b/My.app"));
    let (_, end) = play(signing_steps("/b/My.app"), |line| line != PACK);
    assert_eq!(end.as_deref(), Some("failed to create notarization archive"));
    let (_, end) = play(signing_steps("/b/My.app"), |line| line != STAPLE);
    assert_eq!(end.as_deref(), Some("stapling notarization failed"));
    let (lines, end) = play(signing_steps("/b/.."), |_| true);
    assert_eq!(lines.len(), 1);
    assert_eq!(end.as_deref(), Some("invalid bundle path"));
}

/// Drives a signing to its end.
fn sign(
    mut run: SignRun,
    listed: bool,
    stdout: &[u8],
    world: impl Fn(&str) -> bool,
) -> (Vec<String>, Result<Vec<(String, String)>, String>) {
    let mut lines = Vec::new();
    loop {
        run = match run.progress() {
            SignProgress::Capture(command) => {
                lines.push(run_line(&command));
                run.identified(listed, &stdout.to_vec())
            }
            SignProgress::ReadVariable(name) => {
                let value = format!("<{name}>");
                lines.push(name);
                run.told(value)
            }
            SignProgress::Act(action) => {
                let done = line(&action);
                let next = run.advance(answer(&action, world(&done)));
                lines.push(done);
                next
            }
            SignProgress::Failed(message) => return (lines, Err(message)),
            SignProgress::Finished(archives) => return (lines, Ok(archives)),
        };
    }
}

const LISTING: &str = "[-] security find-identity -v -p codesigning";

#[test]
fn a_release_is_signed_platform_by_platform() {
    let archives = pairs(&[("windows-x86_64-gnu", "w.zip"), ("macos-intel", "elsewhere.zip")]);
    let run = sign_macos_archives(
        PathStyle::Unix,
        "/p",
        "My",
        list(&["windows-x86_64-gnu", "macos-intel", "macos-arm"]),
        archives,
    );
    let stdout = b"1) X \"Developer ID Application: M\xff\"\n";
    let (lines, end) = sign(run, true, stdout, |line| !line.starts_with("probe"));
    let arm = "/p/target/aarch64-apple-darwin/release/bundle/osx";
    let intel = "/p/target/x86_64-apple-darwin/release/bundle/osx";
    let mut expected = list(&[
        LISTING,
        "APPLE_TEAM_ID",
        "APPLE_ID",
        "APPLE_APP_SPECIFIC_PASSWORD",
    ]);
    for (dir, platform) in [(arm, "macos-arm"), (intel, "macos-intel")] {
        expected.extend([
            format!(
                "[-] codesign --timestamp --options runtime --sign Developer ID Application: \
                 M\u{fffd} {dir}/My.app"
            ),
            format!("[{dir}] zip -r {dir}/My.temp.zip My.app"),
            format!(
                "[-] xcrun notarytool submit --wait --no-progress -f json --team-id \
                 <APPLE_TEAM_ID> --apple-id <APPLE_ID> --password <APPLE_APP_SPECIFIC_PASSWORD> \
                 {dir}/My.temp.zip"
            ),
            format!("remove {dir}/My.temp.zip"),
            format!("[-] xcrun stapler staple {dir}/My.app"),
            format!("probe /p/target/My-{platform}.zip"),
            format!("[{dir}] zip -r My-{platform}.zip My.app"),
            format!("rename {dir}/My-{platform}.zip /p/target/My-{platform}.zip"),
        ]);
    }
    assert_eq!(lines, expected);
    assert_eq!(
        end.unwrap(),
        pairs(&[("windows-x86_64-gnu", "w.zip"), ("macos-intel", "/p/target/My-macos-intel.zip")])
    );
}

#[test]
fn a_signing_can_fail() {
    let run = || sign_macos_archives(PathStyle::Unix, "/p", "My", list(&["macos-arm"]), pairs(&[]));
    let (lines, end) = sign(run(), false, b"", |_| true);
    assert_eq!(lines, [LISTING]);
    assert_eq!(end.unwrap_err(), "failed to find code signing identities");
    let (_, end) = sign(run(), true, b"none", |_| true);
    assert_eq!(end.unwrap_err(), "no Developer ID Application certificate found");
    let (_, end) = sign(run(), true, b"\"Developer ID Application\"", |_| false);
    assert_eq!(
        end.unwrap_err(),
        "failed to code sign /p/target/aarch64-apple-darwin/release/bundle/osx/My.app"
    );
}

#[test]
fn a_signing_without_macos_platforms_signs_nothing() {
    let archives = pairs(&[("macos-arm", "a.zip")]);
    let run = sign_macos_archives(PathStyle::Unix, "/p", "My", list(&["macos-"]), archives.clone());
    let (lines, end) = sign(run, true, b"\"Developer ID Application\"", |_| true);
    assert_eq!(lines.len(), 4);
    assert_eq!(end.unwrap(), archives);
}

#[test]
fn archives_are_uploaded() {
    let archives = pairs(&[("macos-arm", "/p/a.zip"), ("windows-x86_64-gnu", "/p/w.zip")]);
    let (lines, end) = play(
        upload(PathStyle::Unix, "1.2.3", "My", &archives, true, "/s/cli"),
        |_| true,
    );
    assert_eq!(
        lines,
        [
            "[/s] cargo build --release --package app-update-cli",
            "[/s] /s/target/release/app-update-cli --prod upload My 1.2.3 macos-arm=/p/a.zip \
             windows-x86_64-gnu=/p/w.zip",
        ]
    );
    assert_eq!(end, None);
    let (lines, end) = play(upload(
        PathStyle::Unix,
        "1.2.3",
        "My",
        &pairs(&[]),
        false,
        "/s/cli",
    ), |line| {
        line.contains("cargo")
    });
    assert_eq!(lines[1], "[/s] /s/target/release/app-update-cli upload My 1.2.3");
    assert_eq!(end.as_deref(), Some("app-update-cli upload failed"));
    let (lines, end) = play(
        upload(PathStyle::Unix, "1.2.3", "My", &archives, true, "/s/cli"),
        |_| false,
    );
    assert_eq!(lines.len(), 1);
    assert_eq!(end.as_deref(), Some("failed to build app-update-cli"));
    let (lines, end) = play(upload(PathStyle::Unix, "1.2.3", "My", &archives, true, "/"), |_| true);
    assert!(lines.is_empty());
    assert_eq!(end.as_deref(), Some("missing app-update root"));
}

fn packages() -> Vec<Package> {
    let package = |name: &str, version: &str| Package {
        name: name.to_string(),
        version: version.to_string(),
    };
    vec![package("a", "0.1.0"), package("b", "2.0.0"), package("b", "3.0.0")]
}

#[test]
fn the_version_is_that_of_the_package() {
    assert_eq!(app_version(Some(&packages()), "b").unwrap(), "2.0.0");
    assert_eq!(
        app_version(Some(&packages()), "c").unwrap_err(),
        "package not found: c"
    );
    assert_eq!(app_version(None, "b").unwrap_err(), "cargo metadata failed");
    assert_eq!(
        run_line(&metadata_command(PathStyle::Unix, "/p")),
        "[-] cargo metadata --no-deps --format-version 1 --manifest-path /p/Cargo.toml"
    );
}

#[test]
fn all_platforms_are_wanted_unless_some_are_named() {
    assert_eq!(wanted_platforms(None), ["macos-arm", "macos-intel", "windows-x86_64-gnu"]);
    assert_eq!(wanted_platforms(Some(list(&["x"]))), ["x"]);
    assert!(wanted_platforms(Some(vec![])).is_empty());
}

#[test]
fn only_macos_releases_with_an_account_are_signed() {
    let macos = list(&["windows-x86_64-gnu", "macos-other"]);
    assert!(should_sign(false, &macos, &ALL_SET));
    assert!(!should_sign(true, &macos, &ALL_SET));
    assert!(!should_sign(false, &list(&["windows-x86_64-gnu", "macos"]), &ALL_SET));
    for variables in [
        Variables { apple_team_id: false, ..ALL_SET },
        Variables { apple_id: false, ..ALL_SET },
        Variables { apple_app_specific_password: false, ..ALL_SET },
    ] {
        assert!(!apple_credentials_present(&variables));
        assert!(!should_sign(false, &macos, &variables));
    }
    assert!(apple_credentials_present(&Variables { version_server_api_key: false, ..ALL_SET }));
}

#[test]
fn only_releases_with_a_key_are_uploaded() {
    assert!(should_upload(false, &ALL_SET));
    assert!(!should_upload(true, &ALL_SET));
    assert!(!should_upload(false, &Variables { version_server_api_key: false, ..ALL_SET }));
}

fn options() -> ReleaseOptions {
    ReleaseOptions {
        style: PathStyle::Unix,
        project_root: "/p".to_string(),
        package: "b".to_string(),
        binary: "my".to_string(),
        app_name: "My".to_string(),
        windows_icon: None,
        upload_prod: false,
        skip_upload: false,
        skip_codesign: false,
        skip_build: false,
        platforms: Some(list(&["macos-arm"])),
    }
}

fn request(options: ReleaseOptions, variables: Variables) -> ReleaseRequest {
    plan_release(options, &variables, "/s/cli".to_string())
}

/// Drives a release to its end.
fn release(
    request: ReleaseRequest,
    described: bool,
    world: impl Fn(&str) -> bool,
) -> (Vec<String>, Option<String>) {
    let mut run: ReleaseRun = start_release(request);
    let mut lines = Vec::new();
    loop {
        run = match run.progress() {
            ReleaseProgress::Describe(command) => {
                lines.push(run_line(&command));
                if described {
                    run.described(Some(&packages()))
                } else {
                    run.described(None)
                }
            }
            ReleaseProgress::Act(action) => {
                let done = line(&action);
                let next = run.advance(answer(&action, world(&done)));
                lines.push(done);
                next
            }
            ReleaseProgress::List(dir) => {
                lines.push(format!("list {dir}"));
                run.listed(&vec![Some("My.app".to_string())])
            }
            ReleaseProgress::Capture(command) => {
                lines.push(run_line(&command));
                run.identified(true, &b"\"Developer ID Application\"".to_vec())
            }
            ReleaseProgress::ReadVariable(name) => {
                lines.push(name);
                run.told("value".to_string())
            }
            ReleaseProgress::Failed(message) => return (lines, Some(message)),
            ReleaseProgress::Finished => return (lines, None),
        };
    }
}

const METADATA: &str =
    "[-] cargo metadata --no-deps --format-version 1 --manifest-path /p/Cargo.toml";
const UPLOAD: &str =
    "[/s] /s/target/release/app-update-cli upload My 2.0.0 macos-arm=/p/target/My-macos-arm.zip";

#[test]
fn a_release_is_built_signed_and_uploaded_in_that_order() {
    let (lines, end) = release(request(options(), ALL_SET), true, |_| true);
    assert_eq!(end, None);
    let at = |sought: &str| lines.iter().position(|line| line.starts_with(sought)).unwrap();
    assert_eq!(lines[0], METADATA);
    assert!(at("[/p] cargo bundle") < at(LISTING));
    assert!(at(LISTING) < at("APPLE_TEAM_ID"));
    assert!(at("APPLE_APP_SPECIFIC_PASSWORD") < at("[-] codesign"));
    assert!(at("[-] codesign") < at("[/s] cargo build"));
    assert_eq!(lines.last().unwrap(), UPLOAD);
}

#[test]
fn stages_can_be_left_out() {
    let options = ReleaseOptions { skip_build: true, skip_codesign: true, ..options() };
    let (lines, end) = release(request(options, ALL_SET), true, |_| true);
    assert_eq!(end, None);
    assert_eq!(
        lines,
        [
            METADATA,
            "probe /p/target/My-macos-arm.zip",
            "[/s] cargo build --release --package app-update-cli",
            UPLOAD,
        ]
    );
}

#[test]
fn archives_that_are_not_there_are_not_uploaded() {
    let options = ReleaseOptions { skip_build: true, platforms: None, ..options() };
    let variables = Variables { apple_id: false, ..ALL_SET };
    let (lines, end) = release(request(options, variables), true, |line| {
        !line.ends_with("My-macos-intel.zip")
    });
    assert_eq!(end, None);
    assert_eq!(
        lines.last().unwrap(),
        "[/s] /s/target/release/app-update-cli upload My 2.0.0 \
         macos-arm=/p/target/My-macos-arm.zip \
         windows-x86_64-gnu=/p/target/My-windows-x86_64-gnu.zip"
    );
}

#[test]
fn a_release_stops_at_the_first_failure() {
    let (lines, end) = release(request(options(), ALL_SET), false, |_| true);
    assert_eq!(lines, [METADATA]);
    assert_eq!(end.as_deref(), Some("cargo metadata failed"));
    let missing = ReleaseOptions { package: "z".to_string(), ..options() };
    let (_, end) = release(request(missing, ALL_SET), true, |_| true);
    assert_eq!(end.as_deref(), Some("package not found: z"));
    let (lines, end) = release(request(options(), ALL_SET), true, |_| false);
    assert_eq!(lines.len(), 2);
    assert_eq!(end.as_deref(), Some("cargo bundle failed for aarch64-apple-darwin"));
    let (lines, end) = release(request(options(), ALL_SET), true, |line| {
        !line.starts_with("[-] codesign")
    });
    assert!(lines.iter().all(|line| !line.starts_with("[/s]")));
    assert!(end.unwrap().starts_with("failed to code sign"));
    let (_, end) = release(request(options(), ALL_SET), true, |line| line != UPLOAD);
    assert_eq!(end.as_deref(), Some("app-update-cli upload failed"));
    let lost = plan_release(options(), &ALL_SET, "/".to_string());
    let (_, end) = release(lost, true, |_| true);
    assert_eq!(end.as_deref(), Some("missing app-update root"));
}

#[test]
fn a_plan_says_what_is_to_be_done() {
    let plan = request(ReleaseOptions { upload_prod: true, ..options() }, ALL_SET);
    let BuildRequest { style, root, package, binary, app_name, windows_icon, platforms, prod } =
        plan.build;
    assert_eq!(style, PathStyle::Unix);
    assert_eq!((root.as_str(), package.as_str()), ("/p", "b"));
    assert_eq!((binary.as_str(), app_name.as_str()), ("my", "My"));
    assert_eq!((windows_icon, platforms, prod), (None, list(&["macos-arm"]), true));
    assert_eq!(plan.manifest_dir, "/s/cli");
    assert!(plan.does_build && plan.does_sign && plan.does_upload);
    let skipped = ReleaseOptions { skip_build: true, skip_upload: true, ..options() };
    let plan = request(skipped, Variables { apple_id: false, ..ALL_SET });
    assert!(!plan.does_build && !plan.does_sign && !plan.does_upload);
}
