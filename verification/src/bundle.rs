//! Building the archives of a release: what is run, checked and written for each platform.
use vstd::prelude::*;

use crate::command::{command_in, optional_text, Command, CommandView};
use crate::path::{
    extension_in_name, file_name, file_name_of, join, joined, name_extension, parent, parent_of,
    PathStyle,
};
use crate::script::{steps_view, Step, StepView};
use crate::text::{chars_of, text_eq, texts};

verus! {

/// The target of the Windows build.
pub open spec fn windows_target() -> Seq<char> {
    "x86_64-pc-windows-gnu"@
}

/// The build target of a macOS platform.
pub open spec fn apple_target(platform: Seq<char>) -> Option<Seq<char>> {
    if platform == "macos-arm"@ {
        Some("aarch64-apple-darwin"@)
    } else if platform == "macos-intel"@ {
        Some("x86_64-apple-darwin"@)
    } else {
        None
    }
}

/// The directory of build products.
pub open spec fn products(style: PathStyle, root: Seq<char>) -> Seq<char> {
    joined(style, root, "target"@)
}

/// The file name of the archive for a platform.
pub open spec fn archive_name_of(app_name: Seq<char>, platform: Seq<char>) -> Seq<char> {
    app_name + "-"@ + platform + ".zip"@
}

/// Where the archive for a platform is.
pub open spec fn archive_path_of(
    style: PathStyle,
    root: Seq<char>,
    app_name: Seq<char>,
    platform: Seq<char>,
) -> Seq<char> {
    joined(style, products(style, root), archive_name_of(app_name, platform))
}

/// Where the bundles built for a target are.
pub open spec fn bundle_dir_of(style: PathStyle, root: Seq<char>, target: Seq<char>) -> Seq<char> {
    joined(style, joined(style, products(style, root), target), "release/bundle/osx"@)
}

/// The arguments that select the production features, where they are wanted.
pub open spec fn feature_args(prod: bool) -> Seq<Seq<char>> {
    if prod {
        seq!["--features"@, "prod"@]
    } else {
        Seq::empty()
    }
}

/// The step that builds the macOS bundle for a target.
pub open spec fn cargo_bundle_step(
    root: Seq<char>,
    package: Seq<char>,
    binary: Seq<char>,
    target: Seq<char>,
    prod: bool,
) -> StepView {
    StepView::Run {
        command: command_in(
            root,
            "cargo"@,
            seq![
                "bundle"@,
                "--release"@,
                "--target"@,
                target,
                "--package"@,
                package,
                "--bin"@,
                binary,
            ] + feature_args(prod),
        ),
        cleanup: None,
        failure: "cargo bundle failed for "@ + target,
    }
}

/// The step that builds the Windows executable, with the compiled icon where there is one.
pub open spec fn cargo_windows_step(
    root: Seq<char>,
    package: Seq<char>,
    binary: Seq<char>,
    resource: Option<Seq<char>>,
    prod: bool,
) -> StepView {
    StepView::Run {
        command: CommandView {
            env: match resource {
                Some(resource) => Some(
                    (
                        "CARGO_TARGET_X86_64_PC_WINDOWS_GNU_RUSTFLAGS"@,
                        "-C link-arg="@ + resource,
                    ),
                ),
                None => None,
            },
            ..command_in(
                root,
                "cargo"@,
                seq![
                    "build"@,
                    "--target"@,
                    windows_target(),
                    "--release"@,
                    "--package"@,
                    package,
                    "--bin"@,
                    binary,
                ] + feature_args(prod),
            )
        },
        cleanup: None,
        failure: "cargo build failed for x86_64-pc-windows-gnu"@,
    }
}

/// A character as it is written in a resource script.
pub open spec fn escaped_char(c: char) -> Seq<char> {
    if c == '\\' || c == '"' {
        seq!['\\', c]
    } else {
        seq![c]
    }
}

/// A text as it is written in a resource script.
pub open spec fn escaped(text: Seq<char>) -> Seq<char>
    decreases text.len(),
{
    if text.len() == 0 {
        Seq::empty()
    } else {
        escaped_char(text[0]) + escaped(text.drop_first())
    }
}

/// What a text in a resource script stands for: a backslash is there for what follows it.
pub open spec fn unescaped(text: Seq<char>) -> Seq<char>
    decreases text.len(),
{
    if text.len() == 0 {
        Seq::empty()
    } else if text[0] == '\\' && text.len() > 1 {
        seq![text[1]] + unescaped(text.skip(2))
    } else {
        seq![text[0]] + unescaped(text.drop_first())
    }
}

/// The directory of the compiled icon.
pub open spec fn resource_dir(style: PathStyle, root: Seq<char>) -> Seq<char> {
    joined(style, root, "target/windows-resource"@)
}

/// Where the compiled icon is.
pub open spec fn resource_object(style: PathStyle, root: Seq<char>) -> Seq<char> {
    joined(style, resource_dir(style, root), "app-icon.o"@)
}

/// The steps that compile the icon.
pub open spec fn icon_steps(style: PathStyle, root: Seq<char>, icon: Seq<char>) -> Seq<StepView> {
    let icon = joined(style, root, icon);
    let script = joined(style, resource_dir(style, root), "app.rc"@);
    seq![
        StepView::Require { path: icon, failure: "Windows icon not found: "@ + icon },
        StepView::CreateDir { path: resource_dir(style, root) },
        StepView::Write { path: script, contents: "1 ICON \""@ + escaped(icon) + "\"\n"@ },
        StepView::Run {
            command: command_in(
                root,
                "x86_64-w64-mingw32-windres"@,
                seq!["-O"@, "coff"@, "-o"@, resource_object(style, root), script],
            ),
            cleanup: None,
            failure: "failed to compile Windows icon resource"@,
        },
    ]
}

/// The steps that pack the file or directory at `path` into the archive `name` in
/// `output_dir`. `kind` is what it is called when that fails.
pub open spec fn zip_steps(
    style: PathStyle,
    flag: Seq<char>,
    kind: Seq<char>,
    path: Seq<char>,
    output_dir: Seq<char>,
    name: Seq<char>,
) -> Seq<StepView> {
    let output = joined(style, output_dir, name);
    let clear = StepView::Clear { path: output };
    match (file_name_of(style, path), parent_of(style, path)) {
        (None, _) => seq![clear, StepView::Fail { message: "invalid "@ + kind + " path"@ }],
        (Some(_), None) => seq![clear, StepView::Fail { message: kind + " has no parent"@ }],
        (Some(file), Some(dir)) => seq![
            clear,
            StepView::Run {
                command: command_in(dir, "zip"@, seq![flag, name, file]),
                cleanup: None,
                failure: "failed to archive "@ + path,
            },
            StepView::Rename { from: joined(style, dir, name), to: output },
        ],
    }
}

/// The step that builds the macOS bundle for a target.
pub fn cargo_bundle(root: &str, package: &str, binary: &str, target: &str, prod: bool) -> (step:
    Step)
    ensures
        step@ == cargo_bundle_step(root@, package@, binary@, target@, prod),
{
    let mut args: Vec<&str> = vec![
        "bundle",
        "--release",
        "--target",
        target,
        "--package",
        package,
        "--bin",
        binary,
    ];
    if prod {
        args.push("--features");
        args.push("prod");
    }
    let command = Command::new("cargo", args).in_dir(root);
    let step = Step::Run {
        command,
        cleanup: None,
        failure: "cargo bundle failed for ".to_owned().concat(target),
    };
    assert(step@->command.args =~= cargo_bundle_step(
        root@,
        package@,
        binary@,
        target@,
        prod,
    )->command.args);
    step
}

/// The step that builds the Windows executable, with the compiled icon `resource` where there
/// is one.
pub fn cargo_windows(
    root: &str,
    package: &str,
    binary: &str,
    resource: Option<&str>,
    prod: bool,
) -> (step: Step)
    ensures
        step@ == cargo_windows_step(
            root@,
            package@,
            binary@,
            match resource {
                Some(resource) => Some(resource@),
                None => None,
            },
            prod,
        ),
{
    let mut args: Vec<&str> = vec![
        "build",
        "--target",
        "x86_64-pc-windows-gnu",
        "--release",
        "--package",
        package,
        "--bin",
        binary,
    ];
    if prod {
        args.push("--features");
        args.push("prod");
    }
    let command = Command::new("cargo", args).in_dir(root);
    let command = match resource {
        Some(resource) => command.with_env(
            "CARGO_TARGET_X86_64_PC_WINDOWS_GNU_RUSTFLAGS",
            "-C link-arg=".to_owned().concat(resource).as_str(),
        ),
        None => command,
    };
    let step = Step::Run {
        command,
        cleanup: None,
        failure: "cargo build failed for x86_64-pc-windows-gnu".to_owned(),
    };
    assert(step@->command.args =~= cargo_windows_step(
        root@,
        package@,
        binary@,
        None,
        prod,
    )->command.args);
    step
}

/// The path as it is written in a resource script.
pub fn escape_rc_path(path: &str) -> (text: String)
    ensures
        text@ == escaped(path@),
{
    let chars: Vec<char> = chars_of(path);
    let mut text: String = String::new();
    assert(path@.skip(0) =~= path@);
    for i in 0..chars.len()
        invariant
            chars@ == path@,
            escaped(path@) == text@ + escaped(path@.skip(i as int)),
    {
        let ghost before = text@;
        let ghost rest = path@.skip(i as int);
        assert(rest[0] == chars@[i as int]);
        assert(rest.drop_first() =~= path@.skip(i + 1));
        if chars[i] == '\\' || chars[i] == '"' {
            text.push('\\');
        }
        text.push(chars[i]);
        assert(text@ =~= before + escaped_char(chars@[i as int]));
        assert(escaped(path@) =~= text@ + escaped(path@.skip(i + 1)));
    }
    assert(text@ + escaped(path@.skip(path@.len() as int)) =~= text@);
    text
}

/// The steps that compile the icon at `icon`, as seen from the project, and where the result
/// will be.
pub fn prepare_windows_icon_resource(
    style: PathStyle,
    root: &str,
    icon: &str,
) -> (plan: (Vec<Step>, String))
    ensures
        steps_view(plan.0@) == icon_steps(style, root@, icon@),
        plan.1@ == resource_object(style, root@),
{
    let icon: String = join(style, root, icon);
    let dir: String = join(style, root, "target/windows-resource");
    let script: String = join(style, dir.as_str(), "app.rc");
    let object: String = join(style, dir.as_str(), "app-icon.o");
    let mut steps: Vec<Step> = Vec::new();
    steps.push(
        Step::Require {
            path: icon.clone(),
            failure: "Windows icon not found: ".to_owned().concat(icon.as_str()),
        },
    );
    steps.push(Step::CreateDir { path: dir });
    let contents: String = "1 ICON \"".to_owned().concat(
        escape_rc_path(icon.as_str()).as_str(),
    ).concat("\"\n");
    steps.push(Step::Write { path: script.clone(), contents });
    let command = Command::new(
        "x86_64-w64-mingw32-windres",
        vec!["-O", "coff", "-o", object.as_str(), script.as_str()],
    ).in_dir(root);
    assert(command@.args =~= seq!["-O"@, "coff"@, "-o"@, object@, script@]);
    steps.push(
        Step::Run {
            command,
            cleanup: None,
            failure: "failed to compile Windows icon resource".to_owned(),
        },
    );
    (steps, object)
}

fn zip_plan(
    style: PathStyle,
    flag: &str,
    kind: &str,
    path: &str,
    output_dir: &str,
    name: &str,
) -> (plan: (
    Vec<Step>,
    String,
))
    ensures
        steps_view(plan.0@) == zip_steps(style, flag@, kind@, path@, output_dir@, name@),
        plan.1@ == joined(style, output_dir@, name@),
{
    let output: String = join(style, output_dir, name);
    let mut steps: Vec<Step> = Vec::new();
    steps.push(Step::Clear { path: output.clone() });
    match (file_name(style, path), parent(style, path)) {
        (None, _) => {
            steps.push(
                Step::Fail { message: "invalid ".to_owned().concat(kind).concat(" path") },
            );
        },
        (Some(_), None) => {
            steps.push(Step::Fail { message: kind.to_owned().concat(" has no parent") });
        },
        (Some(file), Some(dir)) => {
            let command = Command::new("zip", vec![flag, name, file.as_str()]).in_dir(
                dir.as_str(),
            );
            assert(command@.args =~= seq![flag@, name@, file@]);
            steps.push(
                Step::Run {
                    command,
                    cleanup: None,
                    failure: "failed to archive ".to_owned().concat(path),
                },
            );
            steps.push(Step::Rename { from: join(style, dir.as_str(), name), to: output.clone() });
        },
    }
    assert(steps_view(steps@) =~= zip_steps(style, flag@, kind@, path@, output_dir@, name@));
    (steps, output)
}

/// The steps that pack a bundle into the archive `name` in `output_dir`, and where it will be.
pub fn zip_bundle(
    style: PathStyle,
    bundle: &str,
    output_dir: &str,
    name: &str,
) -> (plan: (Vec<Step>, String))
    ensures
        steps_view(plan.0@) == zip_steps(style, "-r"@, "bundle"@, bundle@, output_dir@, name@),
        plan.1@ == joined(style, output_dir@, name@),
{
    zip_plan(style, "-r", "bundle", bundle, output_dir, name)
}

/// The steps that pack an executable into the archive `name` in `output_dir`, and where it
/// will be.
pub fn zip_executable(style: PathStyle, executable: &str, output_dir: &str, name: &str) -> (plan: (
    Vec<Step>,
    String,
))
    ensures
        steps_view(plan.0@) == zip_steps(
            style,
            "-j"@,
            "executable"@,
            executable@,
            output_dir@,
            name@,
        ),
        plan.1@ == joined(style, output_dir@, name@),
{
    zip_plan(style, "-j", "executable", executable, output_dir, name)
}

/// What the entries of a directory are called; nothing of one that cannot be read.
pub open spec fn entry_names(entries: Seq<Option<String>>) -> Seq<Option<Seq<char>>> {
    entries.map_values(|entry: Option<String>| optional_text(entry))
}

/// The names of the bundles among the entries of a directory.
pub open spec fn bundle_names(entries: Seq<Option<Seq<char>>>) -> Seq<Seq<char>>
    decreases entries.len(),
{
    if entries.len() == 0 {
        Seq::empty()
    } else {
        let before = bundle_names(entries.drop_last());
        match entries.last() {
            Some(name) => if name_extension(name) == Some("app"@) {
                before.push(name)
            } else {
                before
            },
            None => before,
        }
    }
}

/// The only bundle in the directory `dir` with these entries, or why there is none to take.
pub open spec fn found_bundle(
    style: PathStyle,
    dir: Seq<char>,
    entries: Seq<Option<Seq<char>>>,
) -> Result<
    Seq<char>,
    Seq<char>,
> {
    let names = bundle_names(entries);
    if names.len() == 0 {
        Err("no app bundle in "@ + dir)
    } else if names.len() == 1 {
        Ok(joined(style, dir, names[0]))
    } else {
        Err("multiple app bundles in "@ + dir)
    }
}

/// What a result that is a text or an error text says.
pub open spec fn result_text(result: Result<String, String>) -> Result<Seq<char>, Seq<char>> {
    match result {
        Ok(text) => Ok(text@),
        Err(text) => Err(text@),
    }
}

proof fn lemma_bundle_names_grow(entries: Seq<Option<Seq<char>>>, n: int)
    requires
        0 <= n <= entries.len(),
    ensures
        bundle_names(entries.take(n)).len() <= bundle_names(entries).len(),
    decreases entries.len(),
{
    if n < entries.len() {
        lemma_bundle_names_grow(entries.drop_last(), n);
        assert(entries.drop_last().take(n) =~= entries.take(n));
    } else {
        assert(entries.take(n) =~= entries);
    }
}

/// The directory of the bundles built for a target.
pub fn bundle_dir(style: PathStyle, root: &str, target: &str) -> (dir: String)
    ensures
        dir@ == bundle_dir_of(style, root@, target@),
{
    let products: String = join(style, root, "target");
    join(style, join(style, products.as_str(), target).as_str(), "release/bundle/osx")
}

/// The bundle built for a target, given the entries of the directory of such bundles. An entry
/// that cannot be read is passed over.
pub fn find_bundle(
    style: PathStyle,
    root: &str,
    target: &str,
    entries: &Vec<Option<String>>,
) -> (bundle: Result<
    String,
    String,
>)
    ensures
        result_text(bundle) == found_bundle(
            style,
            bundle_dir_of(style, root@, target@),
            entry_names(entries@),
        ),
{
    let dir: String = bundle_dir(style, root, target);
    let ghost all = entry_names(entries@);
    let mut found: Option<String> = None;
    for i in 0..entries.len()
        invariant
            all == entry_names(entries@),
            dir@ == bundle_dir_of(style, root@, target@),
            match found {
                Some(name) => bundle_names(all.take(i as int)) == seq![name@],
                None => bundle_names(all.take(i as int)) == Seq::<Seq<char>>::empty(),
            },
    {
        proof {
            assert(all.take(i + 1).drop_last() =~= all.take(i as int));
            assert(all.take(i + 1).last() == optional_text(entries@[i as int]));
            lemma_bundle_names_grow(all, i + 1);
        }
        match &entries[i] {
            Some(name) => {
                let is_bundle = match extension_in_name(name.as_str()) {
                    Some(extension) => text_eq(extension.as_str(), "app"),
                    None => false,
                };
                if is_bundle {
                    if found.is_some() {
                        return Err("multiple app bundles in ".to_owned().concat(dir.as_str()));
                    }
                    found = Some(name.clone());
                    assert(bundle_names(all.take(i + 1)) =~= seq![name@]);
                }
            },
            None => {},
        }
    }
    assert(all.take(entries.len() as int) =~= all);
    match found {
        Some(name) => Ok(join(style, dir.as_str(), name.as_str())),
        None => Err("no app bundle in ".to_owned().concat(dir.as_str())),
    }
}

/// What a list of platforms with their archives says.
pub open spec fn archives_view(archives: Seq<(String, String)>) -> Seq<(Seq<char>, Seq<char>)> {
    archives.map_values(|archive: (String, String)| (archive.0@, archive.1@))
}

/// The archives that there are, `present` saying of which platforms.
pub open spec fn archives_present(
    style: PathStyle,
    root: Seq<char>,
    app_name: Seq<char>,
    platforms: Seq<Seq<char>>,
    present: Seq<bool>,
) -> Seq<(Seq<char>, Seq<char>)>
    decreases platforms.len(),
{
    if platforms.len() == 0 {
        Seq::empty()
    } else {
        let before = archives_present(
            style,
            root,
            app_name,
            platforms.drop_last(),
            present.drop_last(),
        );
        let platform = platforms.last();
        if present.last() {
            before.push((platform, archive_path_of(style, root, app_name, platform)))
        } else {
            before
        }
    }
}

/// The file name of the archive for a platform.
pub fn archive_name(app_name: &str, platform: &str) -> (name: String)
    ensures
        name@ == archive_name_of(app_name@, platform@),
{
    app_name.to_owned().concat("-").concat(platform).concat(".zip")
}

/// Where the archive for a platform is.
pub fn archive_path(style: PathStyle, root: &str, app_name: &str, platform: &str) -> (path: String)
    ensures
        path@ == archive_path_of(style, root@, app_name@, platform@),
{
    join(style, join(style, root, "target").as_str(), archive_name(app_name, platform).as_str())
}

/// The archives that an earlier build has left, `present` saying for each platform whether its
/// archive is there.
pub fn existing_archives(
    style: PathStyle,
    root: &str,
    app_name: &str,
    platforms: &Vec<String>,
    present: &Vec<bool>,
) -> (archives: Vec<(String, String)>)
    requires
        present.len() == platforms.len(),
    ensures
        archives_view(archives@) == archives_present(
            style,
            root@,
            app_name@,
            texts(platforms@),
            present@,
        ),
{
    let mut archives: Vec<(String, String)> = Vec::new();
    let ghost names = texts(platforms@);
    for i in 0..platforms.len()
        invariant
            present.len() == platforms.len(),
            names == texts(platforms@),
            archives_view(archives@) == archives_present(
                style,
                root@,
                app_name@,
                names.take(i as int),
                present@.take(i as int),
            ),
    {
        let ghost before = archives_view(archives@);
        proof {
            assert(names.take(i + 1).drop_last() =~= names.take(i as int));
            assert(present@.take(i + 1).drop_last() =~= present@.take(i as int));
        }
        if present[i] {
            let platform: String = platforms[i].clone();
            let path: String = archive_path(style, root, app_name, platform.as_str());
            archives.push((platform, path));
            assert(archives_view(archives@) =~= before.push((platform@, path@)));
        }
    }
    assert(names.take(platforms.len() as int) =~= names);
    assert(present@.take(platforms.len() as int) =~= present@);
    archives
}

/// What a path is written as in a resource script stands for that path.
pub proof fn escaping_loses_nothing(path: Seq<char>)
    ensures
        unescaped(escaped(path)) == path,
    decreases path.len(),
{
    if path.len() > 0 {
        let rest = path.drop_first();
        escaping_loses_nothing(rest);
        let text = escaped(path);
        if path[0] == '\\' || path[0] == '"' {
            assert(text.skip(2) =~= escaped(rest));
            assert(text[0] == '\\' && text[1] == path[0]);
        } else {
            assert(text.drop_first() =~= escaped(rest));
            assert(text[0] == path[0]);
        }
        assert(seq![path[0]] + rest =~= path);
    } else {
        assert(path =~= Seq::empty());
    }
}

/// Where the string that `text` is the inside of ends: at its first quotation mark that no
/// backslash escapes.
pub open spec fn string_end(text: Seq<char>) -> int
    decreases text.len(),
{
    if text.len() == 0 || text[0] == '"' {
        0
    } else if text[0] == '\\' && text.len() > 1 {
        2 + string_end(text.skip(2))
    } else {
        1 + string_end(text.drop_first())
    }
}

/// Between quotation marks in a resource script, a path ends where its quotation mark does, not
/// earlier, whatever follows.
pub proof fn an_escaped_path_fills_its_string(path: Seq<char>, rest: Seq<char>)
    ensures
        string_end(escaped(path) + "\""@ + rest) == escaped(path).len(),
    decreases path.len(),
{
    reveal_strlit("\"");
    let text = escaped(path) + "\""@ + rest;
    if path.len() > 0 {
        let tail = path.drop_first();
        an_escaped_path_fills_its_string(tail, rest);
        if path[0] == '\\' || path[0] == '"' {
            assert(text.skip(2) =~= escaped(tail) + "\""@ + rest);
            assert(text[0] == '\\');
        } else {
            assert(text.drop_first() =~= escaped(tail) + "\""@ + rest);
            assert(text[0] == path[0]);
        }
    } else {
        assert(text[0] == '"');
    }
}

} // verus!
