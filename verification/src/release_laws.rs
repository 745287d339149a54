//! What a release comes to, stated on the options it is asked with and on what it finds.
use vstd::prelude::*;

use crate::build_laws::{
    an_icon_is_compiled_before_the_executable_is_built, asks_for_production,
    production_is_asked_of_cargo, runs_cargo, steps_for,
};
use crate::build_run::{
    build_listed, build_next, build_progress, platform_stage, BuildProgressView, BuildView,
    StageView,
};
use crate::bundle::{archives_present, escaped};
use crate::path::{joined, parent_of, PathStyle};
use crate::release::{
    is_macos, version_in, Package, ReleaseOptions, Variables,
};
use crate::release_run::{
    awaits_identities, awaits_listing, awaits_variable, planned, release_answers, release_begun,
    release_building, release_built, release_described, release_identified, release_listed,
    release_next, release_progress, release_signed, release_signing, release_sound, release_told,
    ReleaseProgress, ReleaseProgressView, ReleaseRequest, ReleaseRequestView, ReleaseStageView,
    ReleaseView,
};
use crate::script::{ActionView, Answer, ScriptView, StepView};
use crate::sign::{
    sign_identified, sign_next, sign_progress, sign_told, SignProgressView, SignStageView,
    SignView,
};
use crate::upload::{upload_args, upload_steps};

verus! {

/// A version that is found is that of a package with the very name, and no package before it has
/// that name; none is found exactly where no package has it.
pub proof fn a_version_is_that_of_the_first_package_of_the_name(
    packages: Seq<Package>,
    name: Seq<char>,
)
    ensures
        match version_in(packages, name) {
            Some(version) => exists|i: int|
                {
                    &&& 0 <= i < packages.len()
                    &&& (#[trigger] packages[i]).name@ == name
                    &&& packages[i].version@ == version
                    &&& forall|j: int| 0 <= j < i ==> (#[trigger] packages[j]).name@ != name
                },
            None => forall|j: int|
                0 <= j < packages.len() ==> (#[trigger] packages[j]).name@ != name,
        },
    decreases packages.len(),
{
    if packages.len() > 0 && packages[0].name@ != name {
        let rest = packages.drop_first();
        a_version_is_that_of_the_first_package_of_the_name(rest, name);
        assert forall|j: int| 0 < j < packages.len() implies #[trigger] packages[j] == rest[j
            - 1] by {}
        if version_in(rest, name) is Some {
            let version = version_in(rest, name)->0;
            let i = choose|i: int|
                {
                    &&& 0 <= i < rest.len()
                    &&& (#[trigger] rest[i]).name@ == name
                    &&& rest[i].version@ == version
                    &&& forall|j: int| 0 <= j < i ==> (#[trigger] rest[j]).name@ != name
                };
            assert(packages[i + 1].name@ == name);
            assert forall|j: int| 0 <= j < i + 1 implies (#[trigger] packages[j]).name@ != name by {
                if j > 0 {
                    assert(rest[j - 1].name@ != name);
                }
            }
        }
    } else if packages.len() > 0 {
        assert(packages[0].name@ == name);
    }
}

/// A release fails where nothing is known of the packages, and where none of them has the name;
/// else it has the version of the first that has it.
pub proof fn a_release_has_the_version_of_its_package(
    r: ReleaseView,
    packages: Seq<Package>,
    i: int,
)
    ensures
        release_described(r, None).stage == (ReleaseStageView::Failed {
            message: "cargo metadata failed"@,
        }),
        (forall|j: int|
            0 <= j < packages.len() ==> (#[trigger] packages[j]).name@ != r.request.build.package)
            ==> release_described(r, Some(packages)).stage == (ReleaseStageView::Failed {
            message: "package not found: "@ + r.request.build.package,
        }),
        0 <= i < packages.len() && packages[i].name@ == r.request.build.package && (forall|j: int|
            0 <= j < i ==> (#[trigger] packages[j]).name@ != r.request.build.package)
            ==> release_described(r, Some(packages)).version == packages[i].version@,
{
    a_version_is_that_of_the_first_package_of_the_name(packages, r.request.build.package);
}

/// What is planned is what the options ask for, field by field.
pub proof fn a_plan_keeps_to_its_options(
    options: ReleaseOptions,
    variables: Variables,
    manifest_dir: Seq<char>,
)
    ensures
        ({
            let plan = planned(options, variables, manifest_dir);
            &&& plan.build.style == options.style
            &&& plan.build.root == options.project_root@
            &&& plan.build.package == options.package@
            &&& plan.build.binary == options.binary@
            &&& plan.build.app_name == options.app_name@
            &&& options.windows_icon is None ==> plan.build.windows_icon is None
            &&& options.windows_icon matches Some(icon) ==> plan.build.windows_icon == Some(icon@)
            &&& plan.build.prod <==> options.upload_prod
            &&& plan.manifest_dir == manifest_dir
            &&& plan.does_build <==> !options.skip_build
            &&& plan.does_upload <==> !options.skip_upload && variables.version_server_api_key
        }),
{
}

/// The platforms of a plan are those that are named, in their order, or else all three.
pub proof fn a_plan_is_for_the_named_platforms(
    options: ReleaseOptions,
    variables: Variables,
    manifest_dir: Seq<char>,
    i: int,
)
    ensures
        ({
            let platforms = planned(options, variables, manifest_dir).build.platforms;
            &&& options.platforms is None ==> platforms == seq![
                "macos-arm"@,
                "macos-intel"@,
                "windows-x86_64-gnu"@,
            ]
            &&& options.platforms matches Some(named) ==> platforms.len() == named@.len() && (0 <= i
                < named@.len() ==> platforms[i] == named@[i]@)
        }),
{
}

/// Signing is planned exactly where it is not to be skipped, all three account variables are set,
/// and the name of some platform begins with "macos-".
pub proof fn a_plan_signs_what_is_for_a_mac(
    options: ReleaseOptions,
    variables: Variables,
    manifest_dir: Seq<char>,
)
    ensures
        ({
            let plan = planned(options, variables, manifest_dir);
            plan.does_sign <==> {
                &&& !options.skip_codesign
                &&& variables.apple_team_id
                &&& variables.apple_id
                &&& variables.apple_app_specific_password
                &&& exists|i: int|
                    {
                        &&& 0 <= i < plan.build.platforms.len()
                        &&& (#[trigger] plan.build.platforms[i]).len() >= 6
                        &&& plan.build.platforms[i].take(6) == "macos-"@
                    }
            }
        }),
{
    reveal_strlit("macos-");
    let platforms = planned(options, variables, manifest_dir).build.platforms;
    assert forall|i: int| 0 <= i < platforms.len() implies is_macos(
        #[trigger] platforms[i],
    ) == (platforms[i].len() >= 6 && platforms[i].take(6) == "macos-"@) by {
        if platforms[i].len() >= 6 {
            assert(platforms[i].take(6) =~= platforms[i].subrange(0, 6));
        }
    }
}

/// A release with an icon compiles just that icon before it builds the Windows executable.
pub proof fn a_release_builds_its_icon_in(
    options: ReleaseOptions,
    variables: Variables,
    manifest_dir: Seq<char>,
    icon: String,
)
    requires
        options.windows_icon == Some(icon),
    ensures
        ({
            let request = planned(options, variables, manifest_dir).build;
            let steps = steps_for(request, "windows-x86_64-gnu"@);
            let root = options.project_root@;
            let dir = joined(options.style, root, "target/windows-resource"@);
            let script = joined(options.style, dir, "app.rc"@);
            let object = joined(options.style, dir, "app-icon.o"@);
            exists|write: int, compile: int, build: int|
                {
                    &&& 0 <= write < compile < build < steps.len()
                    &&& #[trigger] steps[write] == StepView::Write {
                        path: script,
                        contents: "1 ICON \""@ + escaped(joined(options.style, root, icon@))
                            + "\"\n"@,
                    }
                    &&& #[trigger] steps[compile] matches StepView::Run { command, .. }
                    &&& command.program == "x86_64-w64-mingw32-windres"@
                    &&& command.args == seq!["-O"@, "coff"@, "-o"@, object, script]
                    &&& #[trigger] steps[build] matches StepView::Run { command, .. }
                    &&& command.program == "cargo"@
                    &&& command.env matches Some((_, flags))
                    &&& flags == "-C link-arg="@ + object
                }
        }),
{
    let request = planned(options, variables, manifest_dir).build;
    let steps = steps_for(request, "windows-x86_64-gnu"@);
    an_icon_is_compiled_before_the_executable_is_built(request, icon@);
    assert(steps[2] is Write && steps[3] is Run && steps[4] is Run);
}

/// A release for production builds for production, whatever the platform, and one that is not
/// does not.
pub proof fn a_release_builds_for_its_server(
    options: ReleaseOptions,
    variables: Variables,
    manifest_dir: Seq<char>,
    platform: Seq<char>,
    i: int,
    args: Seq<Seq<char>>,
)
    requires
        ({
            let steps = steps_for(planned(options, variables, manifest_dir).build, platform);
            0 <= i < steps.len() && runs_cargo(steps[i], args)
        }),
    ensures
        asks_for_production(args) <==> options.upload_prod,
{
    production_is_asked_of_cargo(
        planned(options, variables, manifest_dir).build,
        platform,
        i,
        args,
    );
}

/// A release asks first what its project is made of.
pub proof fn a_release_begins_with_the_metadata(request: ReleaseRequestView)
    ensures
        release_begun(request).request == request,
        release_begun(request).present.len() == 0,
        release_progress(release_begun(request)) matches ReleaseProgressView::Describe(command)
            && command.program == "cargo"@ && command.args == seq![
            "metadata"@,
            "--no-deps"@,
            "--format-version"@,
            "1"@,
            "--manifest-path"@,
            joined(request.build.style, request.build.root, "Cargo.toml"@),
        ] && command.dir is None && command.env is None,
{
}

/// With the version known, a release builds for its first platform, or looks for the archive of
/// it where building is to be skipped.
pub proof fn a_described_release_builds_or_looks(
    r: ReleaseView,
    packages: Seq<Package>,
    version: Seq<char>,
)
    requires
        version_in(packages, r.request.build.package) == Some(version),
        r.request.build.platforms.len() > 0,
    ensures
        ({
            let after = release_described(r, Some(packages));
            let build = r.request.build;
            let platform = build.platforms[0];
            &&& after.request == r.request
            &&& !r.request.does_build ==> release_progress(after) == ReleaseProgressView::Act(
                ActionView::Probe(
                    joined(
                        build.style,
                        joined(build.style, build.root, "target"@),
                        build.app_name + "-"@ + platform + ".zip"@,
                    ),
                ),
            )
            &&& r.request.does_build ==> match platform_stage(build, platform) {
                StageView::Failed { message } => after.stage == (ReleaseStageView::Failed {
                    message,
                }),
                stage => {
                    &&& after.stage matches ReleaseStageView::Building { build: run }
                    &&& run == BuildView {
                        request: build,
                        built: 0,
                        archives: Seq::empty(),
                        stage,
                    }
                },
            }
        }),
{
}

/// While a release looks for archives, each answer is kept in its order, and the next archive is
/// looked for until there is an answer for each platform.
pub proof fn a_release_looks_for_every_archive(r: ReleaseView, found: bool)
    requires
        r.stage is Looking,
    ensures
        ({
            let after = release_next(r, Answer::Present(found));
            let build = r.request.build;
            let present = r.present.push(found);
            &&& after.request == r.request && after.version == r.version
            &&& after.present == present
            &&& present.len() < build.platforms.len() ==> release_progress(after)
                == ReleaseProgressView::Act(
                ActionView::Probe(
                    joined(
                        build.style,
                        joined(build.style, build.root, "target"@),
                        build.app_name + "-"@ + build.platforms[present.len() as int] + ".zip"@,
                    ),
                ),
            )
            &&& present.len() >= build.platforms.len() && !r.request.does_build ==> after
                == release_built(
                ReleaseView { present, ..r },
                archives_present(
                    build.style,
                    build.root,
                    build.app_name,
                    build.platforms,
                    present,
                ),
            )
        }),
{
}

/// What has been built is signed where that is planned, with everything that the build had; else
/// it is uploaded at once, or the release is at its end.
pub proof fn a_built_release_is_signed_where_it_is_planned(
    r: ReleaseView,
    archives: Seq<(Seq<char>, Seq<char>)>,
)
    ensures
        r.request.does_sign ==> ({
            let after = release_built(r, archives);
            &&& after.stage matches ReleaseStageView::Signing { sign }
            &&& sign.style == r.request.build.style
            &&& sign.root == r.request.build.root
            &&& sign.app_name == r.request.build.app_name
            &&& sign.platforms == r.request.build.platforms
            &&& sign.archives == archives
            &&& sign.stage == SignStageView::Identifying
            &&& after.request == r.request && after.version == r.version && after.present
                == r.present
        }),
        !r.request.does_sign && !r.request.does_upload ==> release_progress(
            release_built(r, archives),
        ) == ReleaseProgressView::Finished,
        !r.request.does_sign ==> release_built(r, archives) == release_signed(r, archives),
{
}

/// What has been signed is uploaded where that is planned; else the release is at its end.
pub proof fn a_signed_release_is_uploaded_where_it_is_planned(
    r: ReleaseView,
    archives: Seq<(Seq<char>, Seq<char>)>,
)
    ensures
        ({
            let after = release_signed(r, archives);
            let root = parent_of(r.request.build.style, r.request.manifest_dir);
            &&& after.request == r.request && after.version == r.version && after.present
                == r.present
            &&& !r.request.does_upload ==> after.stage == ReleaseStageView::Finished
            &&& r.request.does_upload && root is None ==> after.stage
                == (ReleaseStageView::Failed { message: "missing app-update root"@ })
            &&& r.request.does_upload && root is Some ==> {
                &&& after.stage matches ReleaseStageView::Uploading { script }
                &&& script.taken == 0 && script.half is None && script.failed is None
                &&& script.steps.len() == 2
                &&& script.steps[1] matches StepView::Run { command, .. }
                &&& command.args == upload_args(
                    r.version,
                    r.request.build.app_name,
                    archives,
                    r.request.build.prod,
                )
            }
        }),
{
}

/// An upload builds the client in the directory above its manifest, and then runs it there.
pub proof fn an_upload_builds_the_client_and_runs_it(
    style: PathStyle,
    version: Seq<char>,
    app_name: Seq<char>,
    archives: Seq<(Seq<char>, Seq<char>)>,
    prod: bool,
    manifest_dir: Seq<char>,
)
    ensures
        ({
            let steps = upload_steps(style, version, app_name, archives, prod, manifest_dir);
            match parent_of(style, manifest_dir) {
                None => steps == seq![StepView::Fail { message: "missing app-update root"@ }],
                Some(root) => {
                    &&& steps.len() == 2
                    &&& steps[0] matches StepView::Run { command: build, cleanup: None, failure }
                    &&& failure == "failed to build app-update-cli"@
                    &&& build.program == "cargo"@
                    &&& build.args == seq![
                        "build"@,
                        "--release"@,
                        "--package"@,
                        "app-update-cli"@,
                    ]
                    &&& build.dir == Some(root)
                    &&& build.env is None
                    &&& steps[1] matches StepView::Run { command: upload, cleanup: None, failure }
                    &&& failure == "app-update-cli upload failed"@
                    &&& upload.program == joined(style, root, "target/release/app-update-cli"@)
                    &&& upload.dir == Some(root)
                    &&& upload.env is None
                    &&& upload.args == upload_args(version, app_name, archives, prod)
                },
            }
        }),
{
}

/// The client is told of production first, where the upload is for that, and of nothing else
/// before it is told to upload the application in the version with each archive in turn.
pub proof fn an_upload_names_application_version_and_archives(
    version: Seq<char>,
    app_name: Seq<char>,
    archives: Seq<(Seq<char>, Seq<char>)>,
    prod: bool,
    i: int,
)
    ensures
        ({
            let args = upload_args(version, app_name, archives, prod);
            let at: int = if prod {
                1
            } else {
                0
            };
            &&& args.len() == at + 3 + archives.len()
            &&& prod ==> args[0] == "--prod"@
            &&& args[at] == "upload"@
            &&& args[at + 1] == app_name
            &&& args[at + 2] == version
            &&& 0 <= i < archives.len() ==> args[at + 3 + i] == archives[i].0 + "="@
                + archives[i].1
        }),
{
}

/// A release that builds is where its build is: it asks for what that asks for, fails where that
/// fails, and is built where that is done.
pub proof fn a_release_follows_its_build(r: ReleaseView, build: BuildView)
    ensures
        ({
            let after = release_building(r, build);
            &&& after.request == r.request && after.version == r.version && after.present
                == r.present
            &&& match build_progress(build) {
                BuildProgressView::Act(action) => release_progress(after)
                    == ReleaseProgressView::Act(action),
                BuildProgressView::List(dir) => release_progress(after)
                    == ReleaseProgressView::List(dir),
                BuildProgressView::Failed(message) => release_progress(after)
                    == ReleaseProgressView::Failed(message),
                BuildProgressView::Finished(archives) => after == release_built(r, archives),
            }
            &&& build_progress(build) is Act || build_progress(build) is List ==> after.stage
                == (ReleaseStageView::Building { build })
        }),
{
}

/// A release that signs is where its signing is: it asks for what that asks for, fails where that
/// fails, and is signed where that is done.
pub proof fn a_release_follows_its_signing(r: ReleaseView, sign: SignView)
    ensures
        ({
            let after = release_signing(r, sign);
            &&& after.request == r.request && after.version == r.version && after.present
                == r.present
            &&& match sign_progress(sign) {
                SignProgressView::Capture(command) => release_progress(after)
                    == ReleaseProgressView::Capture(command),
                SignProgressView::ReadVariable(name) => release_progress(after)
                    == ReleaseProgressView::ReadVariable(name),
                SignProgressView::Act(action) => release_progress(after)
                    == ReleaseProgressView::Act(action),
                SignProgressView::Failed(message) => release_progress(after)
                    == ReleaseProgressView::Failed(message),
                SignProgressView::Finished(archives) => after == release_signed(r, archives),
            }
            &&& !(sign_progress(sign) is Failed) && !(sign_progress(sign) is Finished)
                ==> after.stage == (ReleaseStageView::Signing { sign })
        }),
{
}

/// An upload that has failed at a command fails the release with its message, and one that has run
/// its last command ends it.
pub proof fn a_release_ends_with_its_upload(r: ReleaseView, script: ScriptView, success: bool)
    requires
        r.stage == (ReleaseStageView::Uploading { script }),
        0 <= script.taken < script.steps.len(),
        script.half is None,
        script.failed is None,
        script.steps[script.taken] matches StepView::Run { cleanup: None, .. },
        script.taken + 1 < script.steps.len() ==> script.steps[script.taken
            + 1] matches StepView::Run { .. },
    ensures
        ({
            let after = release_next(r, Answer::Exited(success));
            &&& !success ==> release_progress(after) == ReleaseProgressView::Failed(
                script.steps[script.taken]->Run_failure,
            )
            &&& success && script.taken + 1 == script.steps.len() ==> release_progress(after)
                == ReleaseProgressView::Finished
            &&& success && script.taken + 1 < script.steps.len() ==> release_progress(after)
                == ReleaseProgressView::Act(
                ActionView::Run(script.steps[script.taken + 1]->command),
            )
        }),
{
}

/// What is said of a release request holds of its very fields.
pub proof fn a_release_request_is_what_its_fields_say(request: ReleaseRequest)
    ensures
        request@.build == request.build@,
        request@.manifest_dir == request.manifest_dir@,
        request@.does_build == request.does_build,
        request@.does_sign == request.does_sign,
        request@.does_upload == request.does_upload,
{
}

/// A release hands each answer on to what it is doing, and follows that.
pub proof fn a_release_hands_its_answers_on(
    r: ReleaseView,
    answer: Answer,
    entries: Seq<Option<Seq<char>>>,
    success: bool,
    text: Seq<char>,
)
    ensures
        r.stage matches ReleaseStageView::Building { build } ==> {
            &&& release_next(r, answer) == release_building(r, build_next(build, answer))
            &&& release_listed(r, entries) == release_building(r, build_listed(build, entries))
        },
        r.stage matches ReleaseStageView::Signing { sign } ==> {
            &&& release_next(r, answer) == release_signing(r, sign_next(sign, answer))
            &&& release_identified(r, success, text) == release_signing(
                r,
                sign_identified(sign, success, text),
            )
            &&& release_told(r, text) == release_signing(r, sign_told(sign, text))
        },
{
}

/// A release for no platform at all has nothing to build or to look for, and is built at once.
pub proof fn a_release_for_no_platform_is_built_at_once(
    r: ReleaseView,
    packages: Seq<Package>,
    version: Seq<char>,
)
    requires
        version_in(packages, r.request.build.package) == Some(version),
        r.request.build.platforms.len() == 0,
        r.present.len() == 0,
    ensures
        ({
            let after = release_described(r, Some(packages));
            let none = Seq::<(Seq<char>, Seq<char>)>::empty();
            &&& after.version == version
            &&& r.request.does_build ==> after == release_built(ReleaseView { version, ..r }, none)
            &&& !r.request.does_build && !r.request.does_sign ==> after.stage == release_signed(
                ReleaseView { version, ..r },
                none,
            ).stage
        }),
{
}

/// What is said of the progress of a release holds of its very fields.
pub proof fn release_progress_is_what_its_fields_say(progress: ReleaseProgress)
    ensures
        match progress {
            ReleaseProgress::Describe(command) => progress@ == ReleaseProgressView::Describe(
                command@,
            ),
            ReleaseProgress::Act(action) => progress@ == ReleaseProgressView::Act(action@),
            ReleaseProgress::List(dir) => progress@ == ReleaseProgressView::List(dir@),
            ReleaseProgress::Capture(command) => progress@ == ReleaseProgressView::Capture(
                command@,
            ),
            ReleaseProgress::ReadVariable(name) => progress@ == ReleaseProgressView::ReadVariable(
                name@,
            ),
            ReleaseProgress::Failed(message) => progress@ == ReleaseProgressView::Failed(message@),
            ReleaseProgress::Finished => progress@ == ReleaseProgressView::Finished,
        },
{
}

/// A release waits for the answer to what it asks for: for that of a command where it runs one, of
/// a look at a file where it takes one, and for the mere word that it is done of anything else
/// that it has done; for the entries, the identities or a variable exactly where it asks for them.
pub proof fn a_release_waits_for_what_it_asked(r: ReleaseView, answer: Answer)
    requires
        release_sound(r),
    ensures
        release_answers(r, answer) <==> match release_progress(r) {
            ReleaseProgressView::Act(ActionView::Run(_)) => answer is Exited,
            ReleaseProgressView::Act(ActionView::Probe(_)) => answer is Present,
            ReleaseProgressView::Act(_) => answer is Done,
            _ => false,
        },
        awaits_listing(r) <==> release_progress(r) is List,
        awaits_identities(r) <==> release_progress(r) is Capture,
        awaits_variable(r) <==> release_progress(r) is ReadVariable,
{
}

} // verus!
