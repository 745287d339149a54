//! What a build asks for, stated on the commands it runs and the files it looks at.
use vstd::prelude::*;

use crate::build_run::{
    archives_for, build_answers, build_at, build_listed, build_next, build_progress, build_sound,
    platform_stage, BuildProgress, BuildProgressView, BuildRequest, BuildView, RequestView,
    StageView,
};
use crate::bundle::{
    apple_target, cargo_bundle_step, cargo_windows_step, escaped, found_bundle, zip_steps,
};
use crate::bundle_laws::lemma_archive_name;
use crate::path::{file_name_of, joined, parent_of};
use crate::script::{
    script_next, script_progress, ActionView, Answer, ProgressView, ScriptView, StepView,
};

verus! {

/// The steps that a build takes for a platform that it knows, up to where it has to look around.
pub open spec fn steps_for(request: RequestView, platform: Seq<char>) -> Seq<StepView> {
    match platform_stage(request, platform) {
        StageView::Preparing { script, .. } => script.steps,
        StageView::Packing { script, .. } => script.steps,
        _ => Seq::empty(),
    }
}

/// The step runs `cargo` with the arguments.
pub open spec fn runs_cargo(step: StepView, args: Seq<Seq<char>>) -> bool {
    step matches StepView::Run { command, .. } && command.program == "cargo"@ && command.args
        == args
}

/// The last two arguments switch the production features on.
pub open spec fn asks_for_production(args: Seq<Seq<char>>) -> bool {
    args.len() >= 2 && args[args.len() - 2] == "--features"@ && args.last() == "prod"@
}

/// Of all that a build for a platform runs, `cargo` is what is told of production: by its last two
/// arguments, and exactly where the request asks for that.
pub proof fn production_is_asked_of_cargo(
    request: RequestView,
    platform: Seq<char>,
    i: int,
    args: Seq<Seq<char>>,
)
    requires
        0 <= i < steps_for(request, platform).len(),
        runs_cargo(steps_for(request, platform)[i], args),
    ensures
        asks_for_production(args) <==> request.prod,
        request.prod ==> !asks_for_production(args.drop_last().drop_last()),
{
    reveal_strlit("--features");
    reveal_strlit("--bin");
    assert("--features"@.len() != "--bin"@.len());
    lemma_only_cargo_builds(request, platform, i);
}

/// A build for Windows runs `cargo build` for the target, the package and the binary once.
pub proof fn a_windows_build_runs_cargo_once(request: RequestView)
    ensures
        exists|i: int|
            {
                &&& 0 <= i < steps_for(request, "windows-x86_64-gnu"@).len()
                &&& #[trigger] steps_for(request, "windows-x86_64-gnu"@)[i] matches StepView::Run {
                    command,
                    failure,
                    cleanup: None,
                }
                &&& failure == "cargo build failed for x86_64-pc-windows-gnu"@
                &&& command.program == "cargo"@
                &&& command.dir == Some(request.root)
                &&& command.args.len() == (if request.prod {
                    10int
                } else {
                    8int
                })
                &&& command.args.take(8) == seq![
                    "build"@,
                    "--target"@,
                    "x86_64-pc-windows-gnu"@,
                    "--release"@,
                    "--package"@,
                    request.package,
                    "--bin"@,
                    request.binary,
                ]
            },
        forall|i: int, j: int, a: Seq<Seq<char>>, b: Seq<Seq<char>>|
            {
                &&& 0 <= i < steps_for(request, "windows-x86_64-gnu"@).len()
                &&& 0 <= j < steps_for(request, "windows-x86_64-gnu"@).len()
                &&& #[trigger] runs_cargo(steps_for(request, "windows-x86_64-gnu"@)[i], a)
                &&& #[trigger] runs_cargo(steps_for(request, "windows-x86_64-gnu"@)[j], b)
            } ==> i == j,
{
    lemma_platforms_differ();
    let at: int = if request.windows_icon is Some {
        4
    } else {
        0
    };
    let steps = steps_for(request, "windows-x86_64-gnu"@);
    let command = steps[at]->command;
    assert(command.args.take(8) =~= seq![
        "build"@,
        "--target"@,
        "x86_64-pc-windows-gnu"@,
        "--release"@,
        "--package"@,
        request.package,
        "--bin"@,
        request.binary,
    ]);
    assert forall|i: int, a: Seq<Seq<char>>|
        0 <= i < steps.len() && #[trigger] runs_cargo(steps[i], a) implies i == at by {
        lemma_only_cargo_builds(request, "windows-x86_64-gnu"@, i);
    }
}

proof fn lemma_platforms_differ()
    ensures
        apple_target("windows-x86_64-gnu"@) is None,
        apple_target("macos-arm"@) == Some("aarch64-apple-darwin"@),
        apple_target("macos-intel"@) == Some("x86_64-apple-darwin"@),
{
    reveal_strlit("windows-x86_64-gnu");
    reveal_strlit("macos-arm");
    reveal_strlit("macos-intel");
    assert("windows-x86_64-gnu"@.len() == 18);
    assert("macos-arm"@.len() == 9);
    assert("macos-intel"@.len() == 11);
}

proof fn lemma_only_cargo_builds(request: RequestView, platform: Seq<char>, i: int)
    requires
        0 <= i < steps_for(request, platform).len(),
        steps_for(request, platform)[i] matches StepView::Run { command, .. } && command.program
            == "cargo"@,
    ensures
        platform == "windows-x86_64-gnu"@ ==> i == (if request.windows_icon is Some {
            4int
        } else {
            0int
        }),
        platform != "windows-x86_64-gnu"@ ==> i == 0,
        ({
            let args = steps_for(request, platform)[i]->command.args;
            let features = if request.prod {
                seq!["--features"@, "prod"@]
            } else {
                Seq::empty()
            };
            &&& args.len() == 8 + features.len()
            &&& args[6] == "--bin"@
            &&& args.skip(8) == features
        }),
{
    lemma_platforms_differ();
    reveal_strlit("cargo");
    reveal_strlit("zip");
    reveal_strlit("x86_64-w64-mingw32-windres");
    assert("cargo"@.len() == 5);
    assert("zip"@.len() == 3);
    assert("x86_64-w64-mingw32-windres"@.len() == 26);
    let args = steps_for(request, platform)[i]->command.args;
    let features = if request.prod {
        seq!["--features"@, "prod"@]
    } else {
        Seq::empty()
    };
    assert(args.skip(8) =~= features);
}

/// Where there is an icon, a Windows build makes sure that it is there, writes a resource script
/// with its path, and compiles that, before it runs `cargo`, which links what was compiled.
pub proof fn an_icon_is_compiled_before_the_executable_is_built(
    request: RequestView,
    icon: Seq<char>,
)
    requires
        request.windows_icon == Some(icon),
    ensures
        ({
            let steps = steps_for(request, "windows-x86_64-gnu"@);
            let root = request.root;
            let dir = joined(request.style, root, "target/windows-resource"@);
            let path = joined(request.style, root, icon);
            let script = joined(request.style, dir, "app.rc"@);
            let object = joined(request.style, dir, "app-icon.o"@);
            &&& steps.len() >= 6
            &&& steps[0] == StepView::Require { path, failure: "Windows icon not found: "@ + path }
            &&& steps[1] == StepView::CreateDir { path: dir }
            &&& steps[2] matches StepView::Write { path: written, contents }
            &&& written == script
            &&& contents == "1 ICON \""@ + escaped(path) + "\"\n"@
            &&& steps[3] matches StepView::Run { command: compile, cleanup: None, failure }
            &&& failure == "failed to compile Windows icon resource"@
            &&& compile.program == "x86_64-w64-mingw32-windres"@
            &&& compile.args == seq!["-O"@, "coff"@, "-o"@, object, script]
            &&& compile.dir == Some(root)
            &&& compile.env is None
            &&& steps[4] matches StepView::Run { command: build, .. }
            &&& build.program == "cargo"@
            &&& build.env == Some(
                ("CARGO_TARGET_X86_64_PC_WINDOWS_GNU_RUSTFLAGS"@, "-C link-arg="@ + object),
            )
        }),
{
    lemma_platforms_differ();
}

/// Without an icon, a Windows build begins with `cargo`, and tells it nothing of a resource.
pub proof fn without_an_icon_nothing_is_linked(request: RequestView)
    requires
        request.windows_icon is None,
    ensures
        ({
            let steps = steps_for(request, "windows-x86_64-gnu"@);
            &&& steps.len() >= 2
            &&& steps[0] matches StepView::Run { command, .. }
            &&& command.program == "cargo"@
            &&& command.env is None
        }),
{
    lemma_platforms_differ();
}

/// Once `cargo` is done, a Windows build makes sure that the executable is there, and archives
/// just that, in the place of any archive of that name.
pub proof fn a_windows_build_archives_the_executable(
    request: RequestView,
    file: Seq<char>,
    dir: Seq<char>,
    executable: Seq<char>,
)
    requires
        executable == joined(
            request.style,
            joined(request.style, request.root, "target/x86_64-pc-windows-gnu/release"@),
            request.binary + ".exe"@,
        ),
        file_name_of(request.style, executable) == Some(file),
        parent_of(request.style, executable) == Some(dir),
    ensures
        ({
            let steps = steps_for(request, "windows-x86_64-gnu"@);
            let name = request.app_name + "-windows-x86_64-gnu.zip"@;
            let output = joined(
                request.style,
                joined(request.style, request.root, "target"@),
                name,
            );
            let n = steps.len() as int;
            &&& n == (if request.windows_icon is Some {
                9int
            } else {
                5int
            })
            &&& steps[n - 4] == StepView::Require {
                path: executable,
                failure: "Windows executable not found: "@ + executable,
            }
            &&& steps[n - 3] == StepView::Clear { path: output }
            &&& steps[n - 2] matches StepView::Run { command, cleanup: None, failure }
            &&& failure == "failed to archive "@ + executable
            &&& command.program == "zip"@
            &&& command.args == seq!["-j"@, name, file]
            &&& command.dir == Some(dir)
            &&& command.env is None
            &&& steps[n - 1] == StepView::Rename {
                from: joined(request.style, dir, name),
                to: output,
            }
            &&& platform_stage(request, "windows-x86_64-gnu"@) == StageView::Packing {
                script: ScriptView { steps, taken: 0, half: None, failed: None },
                archive: output,
            }
        }),
{
    lemma_platforms_differ();
    lemma_archive_name(request.app_name);
}

/// A build for a Mac runs `cargo bundle` for the target of its processor first, and nothing else
/// before it has looked for what that made.
pub proof fn a_macos_build_bundles_first(request: RequestView, arm: bool)
    ensures
        ({
            let platform = if arm {
                "macos-arm"@
            } else {
                "macos-intel"@
            };
            let triple = if arm {
                "aarch64-apple-darwin"@
            } else {
                "x86_64-apple-darwin"@
            };
            &&& platform_stage(request, platform) matches StageView::Preparing { script, target }
            &&& target == triple
            &&& script.taken == 0 && script.half is None && script.failed is None
            &&& script.steps.len() == 1
            &&& script.steps[0] matches StepView::Run { command, cleanup: None, failure }
            &&& failure == "cargo bundle failed for "@ + triple
            &&& command.program == "cargo"@
            &&& command.dir == Some(request.root)
            &&& command.env is None
            &&& command.args.take(8) == seq![
                "bundle"@,
                "--release"@,
                "--target"@,
                triple,
                "--package"@,
                request.package,
                "--bin"@,
                request.binary,
            ]
            &&& command.args.len() == (if request.prod {
                10int
            } else {
                8int
            })
        }),
{
    lemma_platforms_differ();
    reveal_strlit("macos-arm");
    reveal_strlit("macos-intel");
    let platform = if arm {
        "macos-arm"@
    } else {
        "macos-intel"@
    };
    let steps = steps_for(request, platform);
    let args = steps[0]->command.args;
    assert(args.take(8) =~= seq![
        "bundle"@,
        "--release"@,
        "--target"@,
        apple_target(platform)->0,
        "--package"@,
        request.package,
        "--bin"@,
        request.binary,
    ]);
}

/// A platform of any other name cannot be built for.
pub proof fn other_platforms_are_refused(request: RequestView, platform: Seq<char>)
    requires
        platform != "macos-arm"@,
        platform != "macos-intel"@,
        platform != "windows-x86_64-gnu"@,
    ensures
        platform_stage(request, platform) == (StageView::Failed {
            message: "unsupported platform: "@ + platform,
        }),
{
}

/// A build is done exactly where every platform has been built for; else it goes on with the next
/// of them.
pub proof fn a_build_goes_on_with_the_next_platform(
    request: RequestView,
    built: int,
    archives: Seq<(Seq<char>, Seq<char>)>,
)
    requires
        0 <= built <= request.platforms.len(),
    ensures
        ({
            let b = build_at(request, built, archives);
            &&& b.request == request && b.built == built && b.archives == archives
            &&& built == request.platforms.len() ==> build_progress(b)
                == BuildProgressView::Finished(archives)
            &&& built < request.platforms.len() ==> b.stage == platform_stage(
                request,
                request.platforms[built],
            )
        }),
{
}

/// Once `cargo bundle` has succeeded, the directory of the bundles of its target is listed; where
/// it has failed, the build has.
pub proof fn a_bundled_build_is_listed(b: BuildView, script: ScriptView, target: Seq<char>)
    requires
        b.stage == (StageView::Preparing { script, target }),
        build_sound(b),
        script.taken + 1 == script.steps.len(),
        script.steps[script.taken] matches StepView::Run { cleanup: None, .. },
    ensures
        build_next(b, Answer::Exited(true)) == (BuildView {
            stage: StageView::Listing { target },
            ..b
        }),
        build_progress(build_next(b, Answer::Exited(true))) == BuildProgressView::List(
            joined(
                b.request.style,
                joined(
                    b.request.style,
                    joined(b.request.style, b.request.root, "target"@),
                    target,
                ),
                "release/bundle/osx"@,
            ),
        ),
        build_progress(build_next(b, Answer::Exited(false))) == BuildProgressView::Failed(
            script.steps[script.taken]->Run_failure,
        ),
{
}

/// Once the directory has been listed, the only bundle in it is archived with all that is in it;
/// where there is no such bundle, the build has failed.
pub proof fn a_listed_bundle_is_archived(
    b: BuildView,
    target: Seq<char>,
    entries: Seq<Option<Seq<char>>>,
)
    requires
        b.stage == (StageView::Listing { target }),
    ensures
        ({
            let style = b.request.style;
            let products = joined(style, b.request.root, "target"@);
            let dir = joined(style, joined(style, products, target), "release/bundle/osx"@);
            let name = b.request.app_name + "-"@ + b.request.platforms[b.built] + ".zip"@;
            let after = build_listed(b, entries);
            &&& after.request == b.request && after.built == b.built && after.archives
                == b.archives
            &&& match found_bundle(style, dir, entries) {
                Ok(bundle) => {
                    &&& after.stage matches StageView::Packing { script, archive }
                    &&& archive == joined(style, products, name)
                    &&& script.taken == 0 && script.half is None && script.failed is None
                    &&& script.steps == zip_steps(
                        style,
                        "-r"@,
                        "bundle"@,
                        bundle,
                        products,
                        name,
                    )
                },
                Err(message) => after.stage == (StageView::Failed { message }),
            }
        }),
{
}

/// Once an archive is in its place it is listed with its platform, and the build goes on with the
/// next platform.
pub proof fn a_packed_platform_is_listed(b: BuildView, script: ScriptView, archive: Seq<char>)
    requires
        b.stage == (StageView::Packing { script, archive }),
        build_sound(b),
        script.taken + 1 == script.steps.len(),
        script.steps[script.taken] is Rename,
    ensures
        build_next(b, Answer::Done) == build_at(
            b.request,
            b.built + 1,
            b.archives.push((b.request.platforms[b.built], archive)),
        ),
{
}

/// What a finished build lists is, for each platform in turn, the platform and the path of its
/// archive.
pub proof fn every_platform_has_its_archive(request: RequestView, n: int, i: int)
    requires
        0 <= i < n,
    ensures
        archives_for(request, n).len() == n,
        archives_for(request, n)[i] == (
            request.platforms[i],
            joined(
                request.style,
                joined(request.style, request.root, "target"@),
                request.app_name + "-"@ + request.platforms[i] + ".zip"@,
            ),
        ),
{
}

/// What is said of a request holds of its very fields.
pub proof fn a_request_is_what_its_fields_say(request: BuildRequest, i: int)
    ensures
        request@.style == request.style,
        request@.root == request.root@,
        request@.package == request.package@,
        request@.binary == request.binary@,
        request@.app_name == request.app_name@,
        request@.windows_icon is None <==> request.windows_icon is None,
        request.windows_icon matches Some(icon) ==> request@.windows_icon == Some(icon@),
        request@.platforms.len() == request.platforms@.len(),
        0 <= i < request.platforms@.len() ==> request@.platforms[i] == request.platforms@[i]@,
        request@.prod == request.prod,
{
}

/// Behind what builds the executable come the steps that archive it, without its directories, as
/// an executable and under the name of the platform.
pub proof fn a_windows_build_ends_with_its_archive(request: RequestView)
    ensures
        ({
            let steps = steps_for(request, "windows-x86_64-gnu"@);
            let executable = joined(
                request.style,
                joined(request.style, request.root, "target/x86_64-pc-windows-gnu/release"@),
                request.binary + ".exe"@,
            );
            let at: int = if request.windows_icon is Some {
                4
            } else {
                0
            };
            &&& steps.len() >= at + 2
            &&& steps[at + 1] == StepView::Require {
                path: executable,
                failure: "Windows executable not found: "@ + executable,
            }
            &&& steps.skip(at + 2) == zip_steps(
                request.style,
                "-j"@,
                "executable"@,
                executable,
                joined(request.style, request.root, "target"@),
                request.app_name + "-windows-x86_64-gnu.zip"@,
            )
        }),
{
    lemma_platforms_differ();
    lemma_archive_name(request.app_name);
    let steps = steps_for(request, "windows-x86_64-gnu"@);
    let at: int = if request.windows_icon is Some {
        4
    } else {
        0
    };
    assert(steps.skip(at + 2) =~= zip_steps(
        request.style,
        "-j"@,
        "executable"@,
        steps[at + 1]->Require_path,
        joined(request.style, request.root, "target"@),
        request.app_name + "-windows-x86_64-gnu.zip"@,
    ));
}

/// A build asks for what its script asks for, and goes with it while there is more to do; where
/// that fails, the build has failed with its message.
pub proof fn a_build_follows_its_script(b: BuildView, script: ScriptView, answer: Answer)
    requires
        build_sound(b),
        match b.stage {
            StageView::Preparing { script: s, .. } => s == script,
            StageView::Packing { script: s, .. } => s == script,
            _ => false,
        },
    ensures
        script_progress(script) matches ProgressView::Act(action) && build_progress(b)
            == BuildProgressView::Act(action),
        ({
            let after = build_next(b, answer);
            match script_progress(script_next(script, answer)) {
                ProgressView::Act(action) => {
                    &&& build_progress(after) == BuildProgressView::Act(action)
                    &&& after.request == b.request && after.built == b.built && after.archives
                        == b.archives
                    &&& match b.stage {
                        StageView::Preparing { target, .. } => after.stage
                            == (StageView::Preparing {
                            script: script_next(script, answer),
                            target,
                        }),
                        StageView::Packing { archive, .. } => after.stage == (StageView::Packing {
                            script: script_next(script, answer),
                            archive,
                        }),
                        _ => false,
                    }
                },
                ProgressView::Failed(message) => build_progress(after)
                    == BuildProgressView::Failed(message),
                ProgressView::Finished => match b.stage {
                    StageView::Preparing { target, .. } => after.stage == (StageView::Listing {
                        target,
                    }),
                    StageView::Packing { archive, .. } => after == build_at(
                        b.request,
                        b.built + 1,
                        b.archives.push((b.request.platforms[b.built], archive)),
                    ),
                    _ => false,
                },
            }
        }),
{
}

/// What is said of the progress of a build holds of its very fields.
pub proof fn build_progress_is_what_its_fields_say(progress: BuildProgress, i: int)
    ensures
        match progress {
            BuildProgress::Act(action) => progress@ == BuildProgressView::Act(action@),
            BuildProgress::List(dir) => progress@ == BuildProgressView::List(dir@),
            BuildProgress::Failed(message) => progress@ == BuildProgressView::Failed(message@),
            BuildProgress::Finished(archives) => {
                &&& progress@ matches BuildProgressView::Finished(list)
                &&& list.len() == archives@.len()
                &&& 0 <= i < list.len() ==> list[i] == (archives@[i].0@, archives@[i].1@)
            },
        },
{
}

/// `cargo bundle` is run in the project for the target, the package and the binary, and its
/// failure names the target.
pub proof fn a_bundle_command_names_its_target(
    root: Seq<char>,
    package: Seq<char>,
    binary: Seq<char>,
    target: Seq<char>,
    prod: bool,
)
    ensures
        cargo_bundle_step(root, package, binary, target, prod) matches StepView::Run {
            command,
            cleanup: None,
            failure,
        } && failure == "cargo bundle failed for "@ + target && command.program == "cargo"@
            && command.dir == Some(root) && command.env is None && command.args == seq![
            "bundle"@,
            "--release"@,
            "--target"@,
            target,
            "--package"@,
            package,
            "--bin"@,
            binary,
        ] + (if prod {
            seq!["--features"@, "prod"@]
        } else {
            Seq::empty()
        }),
{
}

/// `cargo build` is run in the project for Windows, the package and the binary, and links the
/// resource where there is one.
pub proof fn a_windows_command_links_its_resource(
    root: Seq<char>,
    package: Seq<char>,
    binary: Seq<char>,
    resource: Option<Seq<char>>,
    prod: bool,
)
    ensures
        ({
            let step = cargo_windows_step(root, package, binary, resource, prod);
            &&& step matches StepView::Run { command, cleanup: None, failure }
            &&& failure == "cargo build failed for x86_64-pc-windows-gnu"@
            &&& command.program == "cargo"@
            &&& command.dir == Some(root)
            &&& command.args == seq![
                "build"@,
                "--target"@,
                "x86_64-pc-windows-gnu"@,
                "--release"@,
                "--package"@,
                package,
                "--bin"@,
                binary,
            ] + (if prod {
                seq!["--features"@, "prod"@]
            } else {
                Seq::empty()
            })
            &&& resource is None ==> command.env is None
            &&& resource matches Some(object) ==> {
                &&& command.env matches Some((name, value))
                &&& name == "CARGO_TARGET_X86_64_PC_WINDOWS_GNU_RUSTFLAGS"@
                &&& value == "-C link-arg="@ + object
            }
        }),
{
}

/// A build waits for the answer to what it asks for, and for no other.
pub proof fn a_build_waits_for_what_it_asked(b: BuildView, answer: Answer)
    requires
        build_sound(b),
    ensures
        build_answers(b, answer) <==> match build_progress(b) {
            BuildProgressView::Act(ActionView::Run(_)) => answer is Exited,
            BuildProgressView::Act(ActionView::Probe(_)) => answer is Present,
            BuildProgressView::Act(_) => answer is Done,
            _ => false,
        },
        b.stage is Listing <==> build_progress(b) is List,
{
}

} // verus!
