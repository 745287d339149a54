//! What a release comes to, whatever the world outside is like.
use vstd::prelude::*;

use crate::build_run::{
    a_build_begins_sound, a_build_goes_platform_by_platform, build_after, build_at,
    build_course, build_driven, build_progress, build_sound, lemma_build_after_is_sound,
    packing_world, preparing_world, stage_actions_left, stage_rank, BuildProgressView, BuildView,
    BuildWorld, StageView,
};
use crate::bundle::{archive_path_of, archives_present};
use crate::release::{metadata_command_for, version_in, Package};
use crate::release_run::{
    a_release_stays_sound, gathered, lemma_signing_goes_on, lemma_telling_keeps_archives,
    release_begun, release_building, release_built,
    release_described, release_looking, release_next, release_progress, release_signed,
    release_signing, release_sound, stage_place, ReleaseProgressView, ReleaseRequestView,
    ReleaseStageView, ReleaseView,
};
use crate::script::{
    a_script_stops_at_the_first_failure, fresh, most_actions_left, script_driven, script_effects,
    script_failure, script_next, script_progress, script_sound, world_answer, ActionView, Answer,
    ProgressView,
};
use crate::sign::{
    a_signing_goes_platform_by_platform, lemma_sign_after_is_sound, sign_actions_left, sign_after,
    sign_course, sign_driven, sign_progress, sign_rank, SignProgressView,
    SignStageView, SignView, SignWorld,
};
use crate::upload::upload_steps;

verus! {

/// The world in which a release is made: the packages that are described, the archives that an
/// earlier build has left, what building and signing meet, and what the steps of the upload
/// learn.
pub ghost struct ReleaseWorld {
    pub packages: Option<Seq<Package>>,
    pub present: spec_fn(int) -> bool,
    pub build: BuildWorld,
    pub sign: SignWorld,
    pub upload: spec_fn(int) -> bool,
}

/// What a build asks for, as what its release asks for.
pub open spec fn for_build(asked: BuildProgressView) -> ReleaseProgressView {
    match asked {
        BuildProgressView::Act(action) => ReleaseProgressView::Act(action),
        BuildProgressView::List(dir) => ReleaseProgressView::List(dir),
        BuildProgressView::Failed(message) => ReleaseProgressView::Failed(message),
        BuildProgressView::Finished(_) => ReleaseProgressView::Finished,
    }
}

/// What a signing asks for, as what its release asks for.
pub open spec fn for_signing(asked: SignProgressView) -> ReleaseProgressView {
    match asked {
        SignProgressView::Capture(command) => ReleaseProgressView::Capture(command),
        SignProgressView::ReadVariable(name) => ReleaseProgressView::ReadVariable(name),
        SignProgressView::Act(action) => ReleaseProgressView::Act(action),
        SignProgressView::Failed(message) => ReleaseProgressView::Failed(message),
        SignProgressView::Finished(_) => ReleaseProgressView::Finished,
    }
}

/// What a list of things that a build asks for is to its release.
pub open spec fn all_for_build(asked: Seq<BuildProgressView>) -> Seq<ReleaseProgressView> {
    asked.map_values(|one: BuildProgressView| for_build(one))
}

/// What a list of things that a signing asks for is to its release.
pub open spec fn all_for_signing(asked: Seq<SignProgressView>) -> Seq<ReleaseProgressView> {
    asked.map_values(|one: SignProgressView| for_signing(one))
}

/// What the actions of the upload are to the release.
pub open spec fn all_for_upload(actions: Seq<ActionView>) -> Seq<ReleaseProgressView> {
    actions.map_values(|action: ActionView| ReleaseProgressView::Act(action))
}

/// Where the release stands after what there is to do has been done in that world.
pub open spec fn release_after(r: ReleaseView, world: ReleaseWorld) -> ReleaseView {
    match r.stage {
        ReleaseStageView::Describing => release_described(r, world.packages),
        ReleaseStageView::Looking => release_next(
            r,
            Answer::Present((world.present)(r.present.len() as int)),
        ),
        ReleaseStageView::Building { build } => release_building(
            r,
            build_after(build, world.build),
        ),
        ReleaseStageView::Signing { sign } => release_signing(r, sign_after(sign, world.sign)),
        ReleaseStageView::Uploading { script } => release_next(
            r,
            world_answer(script, world.upload),
        ),
        _ => r,
    }
}

/// How far a release is from the end of its stage: the largest part.
pub open spec fn parts_left(r: ReleaseView) -> int {
    match r.stage {
        ReleaseStageView::Looking => r.request.build.platforms.len() - r.present.len(),
        ReleaseStageView::Building { build } => build.request.platforms.len() - build.built,
        ReleaseStageView::Signing { sign } => sign_rank(sign.stage),
        ReleaseStageView::Uploading { script } => most_actions_left(script),
        _ => 0,
    }
}

/// How far a release is from the end of that part.
pub open spec fn stages_left(r: ReleaseView) -> int {
    match r.stage {
        ReleaseStageView::Building { build } => stage_rank(build.stage),
        ReleaseStageView::Signing { sign } => sign_actions_left(sign.stage),
        _ => 0,
    }
}

/// How far a release is from the end of that stage of a build.
pub open spec fn actions_left(r: ReleaseView) -> int {
    match r.stage {
        ReleaseStageView::Building { build } => stage_actions_left(build.stage),
        _ => 0,
    }
}

/// What a release asks for from where it stands, in that world, and why it fails, if it does.
#[verifier::opaque]
pub open spec fn release_driven(r: ReleaseView, world: ReleaseWorld) -> (
    Seq<ReleaseProgressView>,
    Option<Seq<char>>,
)
    decreases 4 - stage_place(r.stage), parts_left(r), stages_left(r), actions_left(r),
    when release_sound(r)
    via release_comes_to_an_end
{
    match r.stage {
        ReleaseStageView::Failed { message } => (Seq::empty(), Some(message)),
        ReleaseStageView::Finished => (Seq::empty(), None),
        _ => {
            let (rest, end) = release_driven(release_after(r, world), world);
            (seq![release_progress(r)] + rest, end)
        },
    }
}

#[via_fn]
proof fn release_comes_to_an_end(r: ReleaseView, world: ReleaseWorld) {
    lemma_release_after_is_sound(r, world);
    match r.stage {
        ReleaseStageView::Building { build } => {
            lemma_build_after_is_sound(build, world.build);
        },
        ReleaseStageView::Signing { sign } => {
            lemma_sign_after_is_sound(sign, world.sign);
        },
        _ => {},
    }
}

proof fn lemma_release_after_is_sound(r: ReleaseView, world: ReleaseWorld)
    requires
        release_sound(r),
    ensures
        release_sound(release_after(r, world)),
{
    let nothing: Seq<char> = Seq::empty();
    match r.stage {
        ReleaseStageView::Describing => {
            a_release_stays_sound(
                r,
                world.packages,
                Answer::Done,
                Seq::empty(),
                true,
                nothing,
            );
        },
        ReleaseStageView::Looking => {
            let answer = Answer::Present((world.present)(r.present.len() as int));
            a_release_stays_sound(r, None, answer, Seq::empty(), true, nothing);
        },
        ReleaseStageView::Building { build } => {
            let answer = match build.stage {
                StageView::Preparing { script, .. } => world_answer(
                    script,
                    preparing_world(world.build, build.built),
                ),
                StageView::Packing { script, .. } => world_answer(
                    script,
                    packing_world(world.build, build.built),
                ),
                _ => Answer::Done,
            };
            let entries = (world.build.entries)(build.built);
            a_release_stays_sound(r, None, answer, entries, true, nothing);
        },
        ReleaseStageView::Signing { sign } => match sign.stage {
            SignStageView::Identifying => {
                let (listed, list) = (world.sign.listed, world.sign.list);
                a_release_stays_sound(r, None, Answer::Done, Seq::empty(), listed, list);
            },
            SignStageView::Asking { values, .. } => {
                let value = (world.sign.variables)(values.len() as int);
                a_release_stays_sound(r, None, Answer::Done, Seq::empty(), true, value);
            },
            SignStageView::Signing { which, script, .. } => {
                let answer = world_answer(script, (world.sign.signing)(which));
                a_release_stays_sound(r, None, answer, Seq::empty(), true, nothing);
            },
            _ => {},
        },
        ReleaseStageView::Uploading { script } => {
            let answer = world_answer(script, world.upload);
            a_release_stays_sound(r, None, answer, Seq::empty(), true, nothing);
        },
        _ => {},
    }
}

/// The first `n` answers on the archives that an earlier build has left.
pub open spec fn looked(world: ReleaseWorld, n: nat) -> Seq<bool> {
    Seq::new(n, |i: int| (world.present)(i))
}

/// Getting the archives together: the build, or a look for each of those of an earlier build.
pub open spec fn gathering_course(request: ReleaseRequestView, world: ReleaseWorld) -> (
    Seq<ReleaseProgressView>,
    Result<Seq<(Seq<char>, Seq<char>)>, Seq<char>>,
) {
    let build = request.build;
    if request.does_build {
        let (asked, end) = build_course(build, world.build, 0);
        (all_for_build(asked), end)
    } else {
        let count = build.platforms.len();
        let asked = Seq::new(
            count,
            |i: int|
                ReleaseProgressView::Act(
                    ActionView::Probe(
                        archive_path_of(
                            build.style,
                            build.root,
                            build.app_name,
                            build.platforms[i],
                        ),
                    ),
                ),
        );
        let present = looked(world, count);
        (asked, Ok(
            archives_present(build.style, build.root, build.app_name, build.platforms, present),
        ))
    }
}

/// Signing the archives, where that is wanted.
pub open spec fn signing_stage_course(
    request: ReleaseRequestView,
    world: ReleaseWorld,
    archives: Seq<(Seq<char>, Seq<char>)>,
) -> (Seq<ReleaseProgressView>, Result<Seq<(Seq<char>, Seq<char>)>, Seq<char>>) {
    if request.does_sign {
        let sign = SignView {
            style: request.build.style,
            root: request.build.root,
            app_name: request.build.app_name,
            platforms: request.build.platforms,
            archives,
            stage: SignStageView::Identifying,
        };
        let (asked, end) = sign_course(sign, world.sign);
        (all_for_signing(asked), end)
    } else {
        (Seq::empty(), Ok(archives))
    }
}

/// Uploading the archives, where that is wanted.
pub open spec fn upload_course(
    request: ReleaseRequestView,
    world: ReleaseWorld,
    version: Seq<char>,
    archives: Seq<(Seq<char>, Seq<char>)>,
) -> (Seq<ReleaseProgressView>, Option<Seq<char>>) {
    if request.does_upload {
        let steps = upload_steps(
            request.build.style,
            version,
            request.build.app_name,
            archives,
            request.build.prod,
            request.manifest_dir,
        );
        (
            all_for_upload(script_effects(steps, world.upload, 0)),
            script_failure(steps, world.upload, 0),
        )
    } else {
        (Seq::empty(), None)
    }
}

/// The course of a release whose version is known: the archives, their signatures, the upload,
/// up to the first that fails.
pub open spec fn course_from_version(
    request: ReleaseRequestView,
    world: ReleaseWorld,
    version: Seq<char>,
) -> (Seq<ReleaseProgressView>, Option<Seq<char>>) {
    let (gathering, archives) = gathering_course(request, world);
    match archives {
        Err(message) => (gathering, Some(message)),
        Ok(archives) => {
            let (signing, signed) = signing_stage_course(request, world, archives);
            match signed {
                Err(message) => (gathering + signing, Some(message)),
                Ok(archives) => {
                    let (uploading, end) = upload_course(request, world, version, archives);
                    (gathering + signing + uploading, end)
                },
            }
        },
    }
}

/// The whole course of a release: the version, and then what follows it.
pub open spec fn release_course(request: ReleaseRequestView, world: ReleaseWorld) -> (
    Seq<ReleaseProgressView>,
    Option<Seq<char>>,
) {
    let described = seq![ReleaseProgressView::Describe(
        metadata_command_for(request.build.style, request.build.root),
    )];
    match world.packages {
        None => (described, Some("cargo metadata failed"@)),
        Some(packages) => match version_in(packages, request.build.package) {
            None => (described, Some("package not found: "@ + request.build.package)),
            Some(version) => {
                let (rest, end) = course_from_version(request, world, version);
                (described + rest, end)
            },
        },
    }
}

/// In every world a release finds out its version, then gets its archives together, then has
/// them signed, then uploads them, leaving out what is not wanted and ending at the first
/// failure.
pub proof fn a_release_takes_its_course(request: ReleaseRequestView, world: ReleaseWorld)
    ensures
        release_driven(release_begun(request), world) == release_course(request, world),
{
    reveal_with_fuel(release_driven, 2);
    let begun = release_begun(request);
    let described = seq![ReleaseProgressView::Describe(
        metadata_command_for(request.build.style, request.build.root),
    )];
    lemma_release_after_is_sound(begun, world);
    let next = release_after(begun, world);
    assert(release_driven(begun, world) == {
        let (rest, end) = release_driven(next, world);
        (described + rest, end)
    });
    if world.packages is Some && version_in(world.packages->0, request.build.package) is Some {
        let version = version_in(world.packages->0, request.build.package)->0;
        lemma_gathering_driven(ReleaseView { version, ..begun }, world);
    } else {
        assert(described + Seq::<ReleaseProgressView>::empty() =~= described);
    }
}

/// The upload does what its steps do.
proof fn lemma_uploading_driven(r: ReleaseView, world: ReleaseWorld)
    requires
        release_sound(r),
        r.stage is Uploading,
    ensures
        release_driven(r, world) == ({
            let (done, failure) = script_driven(r.stage->script, world.upload);
            (all_for_upload(done), failure)
        }),
    decreases most_actions_left(r.stage->script),
{
    reveal_with_fuel(release_driven, 2);
    let script = r.stage->script;
    let next = release_after(r, world);
    lemma_release_after_is_sound(r, world);
    let after = script_next(script, world_answer(script, world.upload));
    let action = script_progress(script)->Act_0;
    assert(script_sound(after));
    let (done, failure) = script_driven(after, world.upload);
    assert(script_driven(script, world.upload) == (seq![action] + done, failure));
    assert(all_for_upload(seq![action] + done) =~= seq![ReleaseProgressView::Act(action)]
        + all_for_upload(done));
    match script_progress(after) {
        ProgressView::Act(_) => {
            lemma_uploading_driven(next, world);
        },
        ProgressView::Failed(message) => {
            assert(all_for_upload(done) =~= Seq::empty());
            assert(release_driven(next, world) == (
                Seq::<ReleaseProgressView>::empty(),
                Some(message),
            ));
        },
        ProgressView::Finished => {
            assert(all_for_upload(done) =~= Seq::empty());
            assert(release_driven(next, world) == (
                Seq::<ReleaseProgressView>::empty(),
                None::<Seq<char>>,
            ));
        },
    }
}

/// What follows the signing.
proof fn lemma_signed_driven(
    r: ReleaseView,
    world: ReleaseWorld,
    archives: Seq<(Seq<char>, Seq<char>)>,
)
    requires
        archives == gathered(r),
    ensures
        release_sound(release_signed(r, archives)),
        release_driven(release_signed(r, archives), world) == upload_course(
            r.request,
            world,
            r.version,
            archives,
        ),
{
    reveal_with_fuel(release_driven, 1);
    let request = r.request;
    if request.does_upload {
        let steps = upload_steps(
            request.build.style,
            r.version,
            request.build.app_name,
            archives,
            request.build.prod,
            request.manifest_dir,
        );
        a_script_stops_at_the_first_failure(steps, world.upload);
        let next = release_signed(r, archives);
        if next.stage is Uploading {
            lemma_uploading_driven(next, world);
        } else {
            assert(script_driven(fresh(steps), world.upload).0 =~= Seq::empty());
            assert(all_for_upload(Seq::empty()) =~= Seq::empty());
        }
    }
}

/// The release does the next thing that its signing does.
proof fn lemma_signing_step(r: ReleaseView, world: ReleaseWorld) -> (after: SignView)
    requires
        release_sound(r),
        r.stage is Signing,
    ensures
        sign_driven(r.stage->sign, world.sign) == ({
            let (done, end) = sign_driven(after, world.sign);
            (seq![sign_progress(r.stage->sign)] + done, end)
        }),
        release_driven(r, world) == ({
            let (rest, end) = release_driven(release_signing(r, after), world);
            (seq![for_signing(sign_progress(r.stage->sign))] + rest, end)
        }),
        release_sound(release_signing(r, after)),
        after.archives == gathered(r),
        decreases_to!(
            sign_rank(r.stage->sign.stage), sign_actions_left(r.stage->sign.stage) =>
            sign_rank(after.stage), sign_actions_left(after.stage)
        ),
{
    reveal_with_fuel(sign_driven, 1);
    reveal_with_fuel(release_driven, 1);
    lemma_release_after_is_sound(r, world);
    lemma_sign_after_is_sound(r.stage->sign, world.sign);
    lemma_signing_keeps(r, world);
    sign_after(r.stage->sign, world.sign)
}

/// The release goes on where its signing has ended.
proof fn lemma_signing_ends(r: ReleaseView, world: ReleaseWorld, sign: SignView)
    requires
        sign.stage is Failed || sign.stage is Finished,
    ensures
        sign_driven(sign, world.sign) == (
            Seq::<SignProgressView>::empty(),
            match sign.stage {
                SignStageView::Failed { message } => Err(message),
                _ => Ok(sign.archives),
            },
        ),
        sign.stage matches SignStageView::Failed { message } ==> release_driven(
            release_signing(r, sign),
            world,
        ) == (Seq::<ReleaseProgressView>::empty(), Some(message)),
{
    reveal_with_fuel(sign_driven, 1);
    reveal_with_fuel(release_driven, 1);
}

/// The release does what its signing does, and then goes on to the upload.
proof fn lemma_signing_stage_driven(r: ReleaseView, world: ReleaseWorld)
    requires
        release_sound(r),
        r.stage is Signing,
    ensures
        ({
            let (done, end) = sign_driven(r.stage->sign, world.sign);
            &&& end matches Err(message) ==> release_driven(r, world) == (
                all_for_signing(done),
                Some(message),
            )
            &&& end matches Ok(archives) ==> archives == gathered(r) && release_driven(r, world)
                == ({
                let (rest, failure) = release_driven(release_signed(r, archives), world);
                (all_for_signing(done) + rest, failure)
            })
        }),
    decreases sign_rank(r.stage->sign.stage), sign_actions_left(r.stage->sign.stage),
{
    let asked = sign_progress(r.stage->sign);
    let after = lemma_signing_step(r, world);
    let next = release_signing(r, after);
    let (done, end) = sign_driven(after, world.sign);
    assert(all_for_signing(seq![asked] + done) =~= seq![for_signing(asked)] + all_for_signing(
        done,
    ));
    if after.stage is Failed || after.stage is Finished {
        lemma_signing_ends(r, world, after);
        assert(all_for_signing(done) =~= Seq::empty());
    } else {
        lemma_signing_stage_driven(next, world);
    }
    if let Ok(archives) = end {
        let (rest, failure) = release_driven(release_signed(r, archives), world);
        assert(seq![for_signing(asked)] + (all_for_signing(done) + rest) =~= all_for_signing(
            seq![asked] + done,
        ) + rest);
        assert(Seq::<ReleaseProgressView>::empty() + rest =~= rest);
    }
}

/// A signing keeps the archives that it was given.
proof fn lemma_signing_keeps(r: ReleaseView, world: ReleaseWorld)
    requires
        release_sound(r),
        r.stage is Signing,
    ensures
        sign_after(r.stage->sign, world.sign).archives == gathered(r),
{
    let sign = r.stage->sign;
    match sign.stage {
        SignStageView::Asking { values, .. } => {
            lemma_telling_keeps_archives(sign, (world.sign.variables)(values.len() as int));
        },
        SignStageView::Signing { which, script, .. } => {
            lemma_signing_goes_on(r, world_answer(script, (world.sign.signing)(which)));
        },
        _ => {},
    }
}

/// What follows the gathering of the archives.
proof fn lemma_built_driven(
    r: ReleaseView,
    world: ReleaseWorld,
    archives: Seq<(Seq<char>, Seq<char>)>,
)
    requires
        archives == gathered(r),
    ensures
        release_sound(release_built(r, archives)),
        ({
            let (signing, signed) = signing_stage_course(r.request, world, archives);
            release_driven(release_built(r, archives), world) == match signed {
                Err(message) => (signing, Some(message)),
                Ok(archives) => {
                    let (uploading, end) = upload_course(r.request, world, r.version, archives);
                    (signing + uploading, end)
                },
            }
        }),
{
    lemma_signed_driven(r, world, archives);
    let next = release_built(r, archives);
    if r.request.does_sign {
        a_signing_goes_platform_by_platform(next.stage->sign, world.sign);
        lemma_signing_stage_driven(next, world);
        let signed = sign_driven(next.stage->sign, world.sign).1;
        if let Ok(signed) = signed {
            lemma_signed_driven(next, world, signed);
        }
    } else {
        let (uploading, end) = upload_course(r.request, world, r.version, archives);
        assert(Seq::<ReleaseProgressView>::empty() + uploading =~= uploading);
    }
}

/// The release does the next thing that its build does.
proof fn lemma_building_step(r: ReleaseView, world: ReleaseWorld) -> (after: BuildView)
    requires
        release_sound(r),
        r.stage is Building,
    ensures
        build_driven(r.stage->build, world.build) == ({
            let (done, end) = build_driven(after, world.build);
            (seq![build_progress(r.stage->build)] + done, end)
        }),
        release_driven(r, world) == ({
            let (rest, end) = release_driven(release_building(r, after), world);
            (seq![for_build(build_progress(r.stage->build))] + rest, end)
        }),
        release_sound(release_building(r, after)),
        build_sound(after),
        after.request == r.request.build,
        after.stage is Failed || after.stage is Finished || decreases_to!(
            r.stage->build.request.platforms.len() - r.stage->build.built,
            stage_rank(r.stage->build.stage),
            stage_actions_left(r.stage->build.stage) =>
            after.request.platforms.len() - after.built,
            stage_rank(after.stage),
            stage_actions_left(after.stage)
        ),
{
    reveal_with_fuel(build_driven, 1);
    reveal_with_fuel(release_driven, 1);
    lemma_release_after_is_sound(r, world);
    lemma_build_after_is_sound(r.stage->build, world.build);
    build_after(r.stage->build, world.build)
}

/// The release goes on where its build has ended.
proof fn lemma_building_ends(r: ReleaseView, world: ReleaseWorld, build: BuildView)
    requires
        build_sound(build),
        build.request == r.request.build,
        r.request.does_build,
        build.stage is Failed || build.stage is Finished,
    ensures
        build_driven(build, world.build) == (
            Seq::<BuildProgressView>::empty(),
            match build.stage {
                StageView::Failed { message } => Err(message),
                _ => Ok(gathered(r)),
            },
        ),
        build.stage matches StageView::Failed { message } ==> release_driven(
            release_building(r, build),
            world,
        ) == (Seq::<ReleaseProgressView>::empty(), Some(message)),
        build.stage is Finished ==> release_building(r, build) == release_built(r, gathered(r)),
{
    reveal_with_fuel(build_driven, 1);
    reveal_with_fuel(release_driven, 1);
}

/// The release does what its build does, and then goes on with the archives.
proof fn lemma_building_driven(r: ReleaseView, world: ReleaseWorld)
    requires
        release_sound(r),
        r.stage is Building,
    ensures
        ({
            let (done, end) = build_driven(r.stage->build, world.build);
            &&& end matches Err(message) ==> release_driven(r, world) == (
                all_for_build(done),
                Some(message),
            )
            &&& end matches Ok(archives) ==> archives == gathered(r) && release_driven(r, world)
                == ({
                let (rest, failure) = release_driven(release_built(r, archives), world);
                (all_for_build(done) + rest, failure)
            })
        }),
    decreases
            r.stage->build.request.platforms.len() - r.stage->build.built,
            stage_rank(r.stage->build.stage),
            stage_actions_left(r.stage->build.stage),
{
    let asked = build_progress(r.stage->build);
    let after = lemma_building_step(r, world);
    let next = release_building(r, after);
    let (done, end) = build_driven(after, world.build);
    assert(all_for_build(seq![asked] + done) =~= seq![for_build(asked)] + all_for_build(done));
    if after.stage is Failed || after.stage is Finished {
        lemma_building_ends(r, world, after);
        assert(all_for_build(done) =~= Seq::empty());
    } else {
        lemma_building_driven(next, world);
    }
    if let Ok(archives) = end {
        let (rest, failure) = release_driven(release_built(r, archives), world);
        assert(seq![for_build(asked)] + (all_for_build(done) + rest) =~= all_for_build(
            seq![asked] + done,
        ) + rest);
        assert(Seq::<ReleaseProgressView>::empty() + rest =~= rest);
    }
}

/// The release looks for the next archive.
proof fn lemma_looking_step(r: ReleaseView, world: ReleaseWorld)
    requires
        release_sound(r),
        r.stage is Looking,
    ensures
        release_driven(r, world) == ({
            let present = r.present.push((world.present)(r.present.len() as int));
            let (rest, end) = release_driven(release_looking(r, present), world);
            (seq![release_progress(r)] + rest, end)
        }),
{
    reveal_with_fuel(release_driven, 1);
    lemma_release_after_is_sound(r, world);
}

/// The release looks for one archive after the other, and then goes on with those there are.
proof fn lemma_looking_driven(r: ReleaseView, world: ReleaseWorld, n: nat)
    requires
        !r.request.does_build,
        n <= r.request.build.platforms.len(),
        r.stage is Describing || r.stage is Looking,
    ensures
        ({
            let (asked, archives) = gathering_course(r.request, world);
            let all = ReleaseView { present: looked(world, r.request.build.platforms.len()), ..r };
            let (rest, failure) = release_driven(release_built(all, archives->Ok_0), world);
            release_driven(release_looking(r, looked(world, n)), world) == (
                asked.skip(n as int) + rest,
                failure,
            )
        }),
    decreases r.request.build.platforms.len() - n,
{
    let count = r.request.build.platforms.len();
    let (asked, archives) = gathering_course(r.request, world);
    let all = ReleaseView { present: looked(world, count), ..r };
    let (rest, failure) = release_driven(release_built(all, archives->Ok_0), world);
    let at = release_looking(r, looked(world, n));
    if n < count {
        lemma_looking_step(at, world);
        assert(looked(world, n).push((world.present)(n as int)) =~= looked(world, n + 1));
        lemma_looking_driven(r, world, n + 1);
        assert(release_looking(at, looked(world, n + 1)) == release_looking(
            r,
            looked(world, n + 1),
        ));
        let later = asked.skip((n + 1) as int);
        assert(seq![asked[n as int]] + (later + rest) =~= asked.skip(n as int) + rest);
    } else {
        assert(asked.skip(n as int) + rest =~= rest);
    }
}

/// What follows the version.
proof fn lemma_gathering_driven(r: ReleaseView, world: ReleaseWorld)
    requires
        r.stage is Describing,
        r.present == Seq::<bool>::empty(),
    ensures
        ({
            let next = if r.request.does_build {
                release_building(r, build_at(r.request.build, 0, Seq::empty()))
            } else {
                release_looking(r, Seq::empty())
            };
            release_driven(next, world) == course_from_version(r.request, world, r.version)
        }),
{
    let (gathering, archives) = gathering_course(r.request, world);
    if let Ok(archives) = archives {
        let (signing, signed) = signing_stage_course(r.request, world, archives);
        if let Ok(signed) = signed {
            let uploading = upload_course(r.request, world, r.version, signed).0;
            assert(gathering + (signing + uploading) =~= gathering + signing + uploading);
        }
    }
    if r.request.does_build {
        let build = build_at(r.request.build, 0, Seq::empty());
        let next = release_building(r, build);
        a_build_begins_sound(r.request.build);
        a_build_goes_platform_by_platform(r.request.build, world.build);
        lemma_built_driven(r, world, gathered(r));
        if build.stage is Failed || build.stage is Finished {
            lemma_building_ends(r, world, build);
            let rest = release_driven(release_built(r, gathered(r)), world).0;
            assert(gathering =~= Seq::empty());
            assert(gathering + rest =~= rest);
        } else {
            lemma_building_driven(next, world);
        }
    } else {
        let all = ReleaseView { present: looked(world, r.request.build.platforms.len()), ..r };
        assert(looked(world, 0) =~= Seq::empty());
        lemma_looking_driven(r, world, 0);
        lemma_built_driven(all, world, archives->Ok_0);
        assert(gathering.skip(0) =~= gathering);
    }
}

} // verus!
