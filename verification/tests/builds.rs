use app_update::build_run::{build_archives, BuildProgress, BuildRequest, BuildRun};
use app_update::bundle::{
    archive_path, cargo_bundle, cargo_windows, escape_rc_path, existing_archives, find_bundle,
    prepare_windows_icon_resource, zip_bundle, zip_executable,
};
use app_update::command::Command;
use app_update::path::PathStyle;
use app_update::script::{Action, Answer, Progress, Script, Step};

fn list(items: &[&str]) -> Vec<String> {
    items.iter().map(|item| item.to_string()).collect()
}

/// One line for an action.
fn line(action: &Action) -> String {
    match action {
        Action::Run(command) => run_line(command),
        Action::Probe(path) => format!("probe {path}"),
        Action::Remove(path) => format!("remove {path}"),
        Action::CreateDir(path) => format!("mkdir {path}"),
        Action::Write { path, contents } => format!("write {path} {contents:?}"),
        Action::Rename { from, to } => format!("rename {from} {to}"),
    }
}

fn run_line(command: &Command) -> String {
    let dir = command.dir.as_deref().unwrap_or("-");
    let env = match &command.env {
        Some((name, value)) => format!("{name}={value} "),
        None => String::new(),
    };
    format!("[{dir}] {env}{} {}", command.program, command.args.join(" "))
}

/// What the steps do where the answers to what they ask for come from `answer`.
fn play(steps: Vec<Step>, answer: impl Fn(&str) -> bool) -> (Vec<String>, Option<String>) {
    let mut script = Script::new(steps);
    let mut lines = Vec::new();
    loop {
        match script.progress() {
            Progress::Act(action) => {
                let done = line(&action);
                let yes = answer(&done);
                lines.push(done);
                script.advance(match action {
                    Action::Run(_) => Answer::Exited(yes),
                    Action::Probe(_) => Answer::Present(yes),
                    _ => Answer::Done,
                });
            }
            Progress::Failed(message) => return (lines, Some(message)),
            Progress::Finished => return (lines, None),
        }
    }
}

#[test]
fn a_script_goes_to_its_end() {
    let steps = vec![
        Step::CreateDir { path: "d".to_string() },
        Step::Clear { path: "old".to_string() },
        Step::Run {
            command: Command::new("true", vec!["x"]),
            cleanup: Some("tmp".to_string()),
            failure: "no".to_string(),
        },
        Step::Rename { from: "a".to_string(), to: "b".to_string() },
    ];
    let (lines, end) = play(steps, |_| true);
    assert_eq!(
        lines,
        ["mkdir d", "probe old", "remove old", "[-] true x", "remove tmp", "rename a b"]
    );
    assert_eq!(end, None);
}

#[test]
fn a_script_stops_where_it_fails() {
    let steps = || {
        vec![
            Step::Clear { path: "old".to_string() },
            Step::Run {
                command: Command::new("false", vec![]),
                cleanup: Some("tmp".to_string()),
                failure: "false failed".to_string(),
            },
            Step::CreateDir { path: "d".to_string() },
        ]
    };
    let (lines, end) = play(steps(), |_| false);
    assert_eq!(lines, ["probe old", "[-] false ", "remove tmp"]);
    assert_eq!(end.as_deref(), Some("false failed"));
    let (lines, end) = play(vec![Step::Fail { message: "never".to_string() }], |_| true);
    assert!(lines.is_empty());
    assert_eq!(end.as_deref(), Some("never"));
    let require = Step::Require { path: "p".to_string(), failure: "no p".to_string() };
    let (lines, end) = play(vec![require], |_| false);
    assert_eq!(lines, ["probe p"]);
    assert_eq!(end.as_deref(), Some("no p"));
}

#[test]
fn a_bundle_is_built_for_its_target() {
    let (lines, end) = play(vec![cargo_bundle("/p", "pkg", "bin", "t", false)], |_| true);
    assert_eq!(
        lines,
        ["[/p] cargo bundle --release --target t --package pkg --bin bin"]
    );
    assert_eq!(end, None);
    let (lines, end) = play(vec![cargo_bundle("/p", "pkg", "bin", "t", true)], |_| false);
    assert_eq!(
        lines,
        ["[/p] cargo bundle --release --target t --package pkg --bin bin --features prod"]
    );
    assert_eq!(end.as_deref(), Some("cargo bundle failed for t"));
}

#[test]
fn an_executable_is_built_for_windows() {
    let (lines, _) = play(vec![cargo_windows("/p", "pkg", "bin", None, true)], |_| true);
    assert_eq!(
        lines,
        ["[/p] cargo build --target x86_64-pc-windows-gnu --release --package pkg --bin bin \
          --features prod"]
    );
    let step = cargo_windows("/p", "pkg", "bin", Some("/p/icon.o"), false);
    let (lines, end) = play(vec![step], |_| false);
    assert_eq!(
        lines,
        ["[/p] CARGO_TARGET_X86_64_PC_WINDOWS_GNU_RUSTFLAGS=-C link-arg=/p/icon.o cargo build \
          --target x86_64-pc-windows-gnu --release --package pkg --bin bin"]
    );
    assert_eq!(end.as_deref(), Some("cargo build failed for x86_64-pc-windows-gnu"));
}

#[test]
fn paths_are_escaped_in_resource_scripts() {
    assert_eq!(escape_rc_path("/a/b.ico"), "/a/b.ico");
    assert_eq!(escape_rc_path("C:\\a\"b"), "C:\\\\a\\\"b");
    assert_eq!(escape_rc_path("\\\""), "\\\\\\\"");
}

#[test]
fn an_icon_is_compiled() {
    let (steps, object) = prepare_windows_icon_resource(PathStyle::Unix, "/p", "res/\"x\".ico");
    assert_eq!(object, "/p/target/windows-resource/app-icon.o");
    let (lines, end) = play(steps, |_| true);
    assert_eq!(
        lines,
        [
            "probe /p/res/\"x\".ico",
            "mkdir /p/target/windows-resource",
            "write /p/target/windows-resource/app.rc \
             \"1 ICON \\\"/p/res/\\\\\\\"x\\\\\\\".ico\\\"\\n\"",
            "[/p] x86_64-w64-mingw32-windres -O coff -o /p/target/windows-resource/app-icon.o \
             /p/target/windows-resource/app.rc",
        ]
    );
    assert_eq!(end, None);
    let (steps, _) = prepare_windows_icon_resource(PathStyle::Unix, "/p", "/abs.ico");
    let (lines, end) = play(steps, |_| false);
    assert_eq!(lines, ["probe /abs.ico"]);
    assert_eq!(end.as_deref(), Some("Windows icon not found: /abs.ico"));
    let (steps, _) = prepare_windows_icon_resource(PathStyle::Unix, "/p", "i.ico");
    let (_, end) = play(steps, |line| line.starts_with("probe"));
    assert_eq!(end.as_deref(), Some("failed to compile Windows icon resource"));
}

#[test]
fn a_bundle_is_packed() {
    let (steps, archive) = zip_bundle(PathStyle::Unix, "/p/osx/My.app", "/p/target", "my.zip");
    assert_eq!(archive, "/p/target/my.zip");
    let (lines, end) = play(steps, |_| true);
    assert_eq!(
        lines,
        [
            "probe /p/target/my.zip",
            "remove /p/target/my.zip",
            "[/p/osx] zip -r my.zip My.app",
            "rename /p/osx/my.zip /p/target/my.zip",
        ]
    );
    assert_eq!(end, None);
    let (steps, _) = zip_bundle(PathStyle::Unix, "/p/osx/My.app", "/p/target", "my.zip");
    let (lines, end) = play(steps, |_| false);
    assert_eq!(lines, ["probe /p/target/my.zip", "[/p/osx] zip -r my.zip My.app"]);
    assert_eq!(end.as_deref(), Some("failed to archive /p/osx/My.app"));
    let (steps, _) = zip_bundle(PathStyle::Unix, "/", "/p/target", "my.zip");
    assert_eq!(play(steps, |_| true).1.as_deref(), Some("invalid bundle path"));
}

#[test]
fn an_executable_is_packed() {
    let (steps, archive) = zip_executable(PathStyle::Unix, "/p/my.exe", "/p/target", "my.zip");
    assert_eq!(archive, "/p/target/my.zip");
    let (lines, _) = play(steps, |line| !line.starts_with("probe"));
    assert_eq!(
        lines,
        [
            "probe /p/target/my.zip",
            "[/p] zip -j my.zip my.exe",
            "rename /p/my.zip /p/target/my.zip",
        ]
    );
    let (steps, _) = zip_executable(PathStyle::Unix, "..", "/p/target", "my.zip");
    assert_eq!(play(steps, |_| true).1.as_deref(), Some("invalid executable path"));
}

#[test]
fn the_only_bundle_is_found() {
    let entries = vec![Some("x.dmg".to_string()), None, Some("My.app".to_string())];
    assert_eq!(
        find_bundle(PathStyle::Unix, "/p", "t", &entries).unwrap(),
        "/p/target/t/release/bundle/osx/My.app"
    );
    let none = vec![None, Some(".app".to_string()), Some("My.APP".to_string())];
    assert_eq!(
        find_bundle(PathStyle::Unix, "/p", "t", &none).unwrap_err(),
        "no app bundle in /p/target/t/release/bundle/osx"
    );
    let two = vec![Some("a.app".to_string()), Some("b.app".to_string())];
    assert_eq!(
        find_bundle(PathStyle::Unix, "/p", "t", &two).unwrap_err(),
        "multiple app bundles in /p/target/t/release/bundle/osx"
    );
}

#[test]
fn archives_of_an_earlier_build_are_taken() {
    let platforms = list(&["macos-arm", "other", "windows-x86_64-gnu"]);
    let archives = existing_archives(
        PathStyle::Unix,
        "/p",
        "My",
        &platforms,
        &vec![true, false, true],
    );
    assert_eq!(
        archives,
        [
            ("macos-arm".to_string(), "/p/target/My-macos-arm.zip".to_string()),
            (
                "windows-x86_64-gnu".to_string(),
                "/p/target/My-windows-x86_64-gnu.zip".to_string()
            ),
        ]
    );
    assert_eq!(archive_path(PathStyle::Unix, "/p", "My", "other"), "/p/target/My-other.zip");
}

fn request(platforms: &[&str], icon: Option<&str>) -> BuildRequest {
    BuildRequest {
        style: PathStyle::Unix,
        root: "/p".to_string(),
        package: "pkg".to_string(),
        binary: "my".to_string(),
        app_name: "My".to_string(),
        windows_icon: icon.map(|icon| icon.to_string()),
        platforms: list(platforms),
        prod: false,
    }
}

/// Drives a build to its end.
fn build(
    request: BuildRequest,
    entries: Vec<Option<String>>,
    answer: impl Fn(&str) -> bool,
) -> (Vec<String>, Result<Vec<(String, String)>, String>) {
    let mut run: BuildRun = build_archives(request);
    let mut lines = Vec::new();
    loop {
        match run.progress() {
            BuildProgress::Act(action) => {
                let done = line(&action);
                let yes = answer(&done);
                lines.push(done);
                run = run.advance(match action {
                    Action::Run(_) => Answer::Exited(yes),
                    Action::Probe(_) => Answer::Present(yes),
                    _ => Answer::Done,
                });
            }
            BuildProgress::List(dir) => {
                lines.push(format!("list {dir}"));
                run = run.listed(&entries);
            }
            BuildProgress::Failed(message) => return (lines, Err(message)),
            BuildProgress::Finished(archives) => return (lines, Ok(archives)),
        }
    }
}

#[test]
fn a_build_goes_from_platform_to_platform() {
    let entries = vec![Some("My.app".to_string())];
    let request = request(&["macos-intel", "windows-x86_64-gnu", "macos-arm"], Some("i.ico"));
    let (lines, end) = build(request, entries, |line| !line.ends_with(".zip"));
    let osx = "/p/target/x86_64-apple-darwin/release/bundle/osx";
    let arm = "/p/target/aarch64-apple-darwin/release/bundle/osx";
    let exe = "/p/target/x86_64-pc-windows-gnu/release";
    assert_eq!(
        lines,
        [
            "[/p] cargo bundle --release --target x86_64-apple-darwin --package pkg --bin my"
                .to_string(),
            format!("list {osx}"),
            "probe /p/target/My-macos-intel.zip".to_string(),
            format!("[{osx}] zip -r My-macos-intel.zip My.app"),
            format!("rename {osx}/My-macos-intel.zip /p/target/My-macos-intel.zip"),
            "probe /p/i.ico".to_string(),
            "mkdir /p/target/windows-resource".to_string(),
            "write /p/target/windows-resource/app.rc \"1 ICON \\\"/p/i.ico\\\"\\n\"".to_string(),
            "[/p] x86_64-w64-mingw32-windres -O coff -o /p/target/windows-resource/app-icon.o \
             /p/target/windows-resource/app.rc"
                .to_string(),
            "[/p] CARGO_TARGET_X86_64_PC_WINDOWS_GNU_RUSTFLAGS=-C \
             link-arg=/p/target/windows-resource/app-icon.o cargo build --target \
             x86_64-pc-windows-gnu --release --package pkg --bin my"
                .to_string(),
            format!("probe {exe}/my.exe"),
            "probe /p/target/My-windows-x86_64-gnu.zip".to_string(),
            format!("[{exe}] zip -j My-windows-x86_64-gnu.zip my.exe"),
            format!(
                "rename {exe}/My-windows-x86_64-gnu.zip /p/target/My-windows-x86_64-gnu.zip"
            ),
            "[/p] cargo bundle --release --target aarch64-apple-darwin --package pkg --bin my"
                .to_string(),
            format!("list {arm}"),
            "probe /p/target/My-macos-arm.zip".to_string(),
            format!("[{arm}] zip -r My-macos-arm.zip My.app"),
            format!("rename {arm}/My-macos-arm.zip /p/target/My-macos-arm.zip"),
        ]
    );
    let names: Vec<String> = end.unwrap().into_iter().map(|archive| archive.1).collect();
    assert_eq!(
        names,
        [
            "/p/target/My-macos-intel.zip",
            "/p/target/My-windows-x86_64-gnu.zip",
            "/p/target/My-macos-arm.zip",
        ]
    );
}

#[test]
fn a_build_can_fail() {
    let (lines, end) = build(request(&["amiga"], None), vec![], |_| true);
    assert!(lines.is_empty());
    assert_eq!(end.unwrap_err(), "unsupported platform: amiga");
    let (_, end) = build(request(&["macos-arm"], None), vec![], |_| false);
    assert_eq!(end.unwrap_err(), "cargo bundle failed for aarch64-apple-darwin");
    let (lines, end) = build(request(&["macos-arm", "amiga"], None), vec![], |_| true);
    assert_eq!(lines.len(), 2);
    assert_eq!(
        end.unwrap_err(),
        "no app bundle in /p/target/aarch64-apple-darwin/release/bundle/osx"
    );
    let request = request(&["windows-x86_64-gnu"], None);
    let (_, end) = build(request, vec![], |line| !line.starts_with("probe"));
    assert_eq!(
        end.unwrap_err(),
        "Windows executable not found: /p/target/x86_64-pc-windows-gnu/release/my.exe"
    );
}

#[test]
fn a_build_for_no_platform_has_no_archives() {
    let (lines, end) = build(request(&[], None), vec![], |_| true);
    assert!(lines.is_empty());
    assert!(end.unwrap().is_empty());
}

#[test]
fn an_icon_with_a_drive_is_taken_as_it_is_on_windows() {
    let root = "\\\\?\\C:\\p";
    let icon = "C:\\icons\\a.ico";
    let (steps, object) = prepare_windows_icon_resource(PathStyle::Windows, root, icon);
    assert_eq!(object, "\\\\?\\C:\\p\\target\\windows-resource\\app-icon.o");
    let (lines, _) = play(steps, |_| true);
    assert_eq!(lines[0], "probe C:\\icons\\a.ico");
    let (steps, _) = prepare_windows_icon_resource(PathStyle::Windows, root, "a.ico");
    let (lines, end) = play(steps, |_| false);
    assert_eq!(lines, ["probe \\\\?\\C:\\p\\a.ico"]);
    assert_eq!(end.as_deref(), Some("Windows icon not found: \\\\?\\C:\\p\\a.ico"));
}
