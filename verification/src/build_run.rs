//! The course of a build over the platforms of a release.
use vstd::prelude::*;

use crate::bundle::{
    apple_target, archive_name, archive_name_of, archive_path_of, archives_view, bundle_dir,
    bundle_dir_of, cargo_bundle, cargo_bundle_step, cargo_windows, cargo_windows_step, entry_names,
    find_bundle, found_bundle, icon_steps, prepare_windows_icon_resource, products,
    resource_object, zip_bundle, zip_executable, zip_steps,
};
use crate::command::optional_text;
use crate::path::{join, joined, PathStyle};
use crate::script::{
    a_script_stops_at_the_first_failure, answers, fresh, most_actions_left, script_driven,
    script_effects, script_failure, script_next, script_progress, script_sound, steps_view,
    world_answer, Action, ActionView, Answer, Progress, ProgressView, Script, ScriptView, Step,
    StepView,
};
use crate::text::{copies, text_eq, texts};

verus! {

/// What a build request says.
pub ghost struct RequestView {
    pub style: PathStyle,
    pub root: Seq<char>,
    pub package: Seq<char>,
    pub binary: Seq<char>,
    pub app_name: Seq<char>,
    pub windows_icon: Option<Seq<char>>,
    pub platforms: Seq<Seq<char>>,
    pub prod: bool,
}

/// What is to be built: the binary of a package of the project at `root`, under the name
/// `app_name`, for each of the platforms.
#[derive(Debug)]
pub struct BuildRequest {
    /// How the system that builds reads paths.
    pub style: PathStyle,
    pub root: String,
    pub package: String,
    pub binary: String,
    pub app_name: String,
    pub windows_icon: Option<String>,
    pub platforms: Vec<String>,
    pub prod: bool,
}

impl View for BuildRequest {
    type V = RequestView;

    open spec fn view(&self) -> RequestView {
        RequestView {
            style: self.style,
            root: self.root@,
            package: self.package@,
            binary: self.binary@,
            app_name: self.app_name@,
            windows_icon: optional_text(self.windows_icon),
            platforms: texts(self.platforms@),
            prod: self.prod,
        }
    }
}

/// Where the Windows executable is.
pub open spec fn executable_path(request: RequestView) -> Seq<char> {
    joined(
        request.style,
        joined(request.style, request.root, "target/x86_64-pc-windows-gnu/release"@),
        request.binary + ".exe"@,
    )
}

/// The steps that build and pack for Windows.
pub open spec fn windows_steps(request: RequestView) -> Seq<StepView> {
    let executable = executable_path(request);
    let (icon, resource) = match request.windows_icon {
        Some(icon) => (
            icon_steps(request.style, request.root, icon),
            Some(resource_object(request.style, request.root)),
        ),
        None => (Seq::empty(), None),
    };
    icon + seq![
        cargo_windows_step(
            request.root,
            request.package,
            request.binary,
            resource,
            request.prod,
        ),
        StepView::Require {
            path: executable,
            failure: "Windows executable not found: "@ + executable,
        },
    ] + zip_steps(
        request.style,
        "-j"@,
        "executable"@,
        executable,
        products(request.style, request.root),
        archive_name_of(request.app_name, "windows-x86_64-gnu"@),
    )
}

/// What is done with the platform at hand.
pub ghost enum StageView {
    /// The bundle for the target is being built.
    Preparing { script: ScriptView, target: Seq<char> },
    /// The directory of the bundles for the target is being listed.
    Listing { target: Seq<char> },
    /// The archive is being built or packed.
    Packing { script: ScriptView, archive: Seq<char> },
    Failed { message: Seq<char> },
    Finished,
}

/// Where a build stands.
pub ghost struct BuildView {
    pub request: RequestView,
    /// How many platforms have been built for.
    pub built: int,
    /// The archives that have been made.
    pub archives: Seq<(Seq<char>, Seq<char>)>,
    pub stage: StageView,
}

/// What there is to do.
pub ghost enum BuildProgressView {
    Act(ActionView),
    List(Seq<char>),
    Failed(Seq<char>),
    Finished(Seq<(Seq<char>, Seq<char>)>),
}

/// How the work on a platform begins.
pub open spec fn platform_stage(request: RequestView, platform: Seq<char>) -> StageView {
    match apple_target(platform) {
        Some(target) => StageView::Preparing {
            script: fresh(
                seq![
                    cargo_bundle_step(
                        request.root,
                        request.package,
                        request.binary,
                        target,
                        request.prod,
                    ),
                ],
            ),
            target,
        },
        None => if platform == "windows-x86_64-gnu"@ {
            StageView::Packing {
                script: fresh(windows_steps(request)),
                archive: archive_path_of(request.style, request.root, request.app_name, platform),
            }
        } else {
            StageView::Failed { message: "unsupported platform: "@ + platform }
        },
    }
}

/// A build that has made `archives` for the first `built` platforms, and goes on to the next.
pub open spec fn build_at(
    request: RequestView,
    built: int,
    archives: Seq<(Seq<char>, Seq<char>)>,
) -> BuildView {
    BuildView {
        request,
        built,
        archives,
        stage: if built == request.platforms.len() {
            StageView::Finished
        } else {
            platform_stage(request, request.platforms[built])
        },
    }
}

/// What there is to do where the build stands.
pub open spec fn build_progress(b: BuildView) -> BuildProgressView {
    match b.stage {
        StageView::Preparing { script, .. } => BuildProgressView::Act(
            script_progress(script)->Act_0,
        ),
        StageView::Listing { target } => BuildProgressView::List(
            bundle_dir_of(b.request.style, b.request.root, target),
        ),
        StageView::Packing { script, .. } => BuildProgressView::Act(script_progress(script)->Act_0),
        StageView::Failed { message } => BuildProgressView::Failed(message),
        StageView::Finished => BuildProgressView::Finished(b.archives),
    }
}

/// The answer is one to what the build asks for.
pub open spec fn build_answers(b: BuildView, answer: Answer) -> bool {
    match b.stage {
        StageView::Preparing { script, .. } => answers(script, answer),
        StageView::Packing { script, .. } => answers(script, answer),
        _ => false,
    }
}

/// Where the build stands after the answer.
pub open spec fn build_next(b: BuildView, answer: Answer) -> BuildView {
    match b.stage {
        StageView::Preparing { script, target } => {
            let script = script_next(script, answer);
            match script_progress(script) {
                ProgressView::Act(_) => BuildView {
                    stage: StageView::Preparing { script, target },
                    ..b
                },
                ProgressView::Failed(message) => BuildView {
                    stage: StageView::Failed { message },
                    ..b
                },
                ProgressView::Finished => BuildView { stage: StageView::Listing { target }, ..b },
            }
        },
        StageView::Packing { script, archive } => {
            let script = script_next(script, answer);
            match script_progress(script) {
                ProgressView::Act(_) => BuildView {
                    stage: StageView::Packing { script, archive },
                    ..b
                },
                ProgressView::Failed(message) => BuildView {
                    stage: StageView::Failed { message },
                    ..b
                },
                ProgressView::Finished => build_at(
                    b.request,
                    b.built + 1,
                    b.archives.push((b.request.platforms[b.built], archive)),
                ),
            }
        },
        _ => b,
    }
}

/// Where the build stands after the directory of the bundles has been listed.
pub open spec fn build_listed(b: BuildView, entries: Seq<Option<Seq<char>>>) -> BuildView {
    let style = b.request.style;
    let root = b.request.root;
    let name = archive_name_of(b.request.app_name, b.request.platforms[b.built]);
    let stage = match found_bundle(
        style,
        bundle_dir_of(style, root, b.stage->Listing_target),
        entries,
    ) {
        Ok(bundle) => StageView::Packing {
            script: fresh(zip_steps(style, "-r"@, "bundle"@, bundle, products(style, root), name)),
            archive: joined(style, products(style, root), name),
        },
        Err(message) => StageView::Failed { message },
    };
    BuildView { stage, ..b }
}

/// The archives for the first `n` platforms, each behind its platform.
pub open spec fn archives_for(request: RequestView, n: int) -> Seq<(Seq<char>, Seq<char>)> {
    Seq::new(
        n as nat,
        |i: int|
            (
                request.platforms[i],
                archive_path_of(
                    request.style,
                    request.root,
                    request.app_name,
                    request.platforms[i],
                ),
            ),
    )
}

/// A build stands at one of its platforms, with something to do there, or has ended. It has
/// the archives of the platforms before, and makes that of the platform where it stands.
pub open spec fn build_sound(b: BuildView) -> bool {
    &&& 0 <= b.built <= b.request.platforms.len()
    &&& b.stage is Finished <==> b.built == b.request.platforms.len()
    &&& b.archives == archives_for(b.request, b.built)
    &&& match b.stage {
        StageView::Preparing { script, .. } => script_sound(script) && script_progress(
            script,
        ) is Act,
        StageView::Packing { script, archive } => {
            &&& script_sound(script)
            &&& script_progress(script) is Act
            &&& archive == archive_path_of(
                b.request.style,
                b.request.root,
                b.request.app_name,
                b.request.platforms[b.built],
            )
        },
        _ => true,
    }
}

#[derive(Debug)]
enum Stage {
    Preparing { script: Script, target: String },
    Listing { target: String },
    Packing { script: Script, archive: String },
    Failed { message: String },
    Finished,
}

impl View for Stage {
    type V = StageView;

    closed spec fn view(&self) -> StageView {
        match self {
            Stage::Preparing { script, target } => StageView::Preparing {
                script: script@,
                target: target@,
            },
            Stage::Listing { target } => StageView::Listing { target: target@ },
            Stage::Packing { script, archive } => StageView::Packing {
                script: script@,
                archive: archive@,
            },
            Stage::Failed { message } => StageView::Failed { message: message@ },
            Stage::Finished => StageView::Finished,
        }
    }
}

/// A build on its way.
#[derive(Debug)]
pub struct BuildRun {
    request: BuildRequest,
    built: usize,
    archives: Vec<(String, String)>,
    stage: Stage,
}

impl View for BuildRun {
    type V = BuildView;

    closed spec fn view(&self) -> BuildView {
        BuildView {
            request: self.request@,
            built: self.built as int,
            archives: archives_view(self.archives@),
            stage: self.stage@,
        }
    }
}

/// What there is to do.
#[derive(Debug)]
pub enum BuildProgress {
    /// Do this, and tell the build what came of it.
    Act(Action),
    /// List this directory, and tell the build the names of its entries.
    List(String),
    /// Nothing: the build has failed, and this is why.
    Failed(String),
    /// Nothing: these are the archives, each behind its platform.
    Finished(Vec<(String, String)>),
}

impl View for BuildProgress {
    type V = BuildProgressView;

    open spec fn view(&self) -> BuildProgressView {
        match self {
            BuildProgress::Act(action) => BuildProgressView::Act(action@),
            BuildProgress::List(dir) => BuildProgressView::List(dir@),
            BuildProgress::Failed(message) => BuildProgressView::Failed(message@),
            BuildProgress::Finished(archives) => BuildProgressView::Finished(
                archives_view(archives@),
            ),
        }
    }
}

impl BuildRequest {
    /// A copy of the request.
    pub fn duplicate(&self) -> (copy: Self)
        ensures
            copy@ == self@,
    {
        BuildRequest {
            style: self.style,
            root: self.root.clone(),
            package: self.package.clone(),
            binary: self.binary.clone(),
            app_name: self.app_name.clone(),
            windows_icon: match &self.windows_icon {
                Some(icon) => Some(icon.clone()),
                None => None,
            },
            platforms: copies(&self.platforms),
            prod: self.prod,
        }
    }
}

/// A copy of a list of platforms with their archives.
pub(crate) fn copy_archives(archives: &Vec<(String, String)>) -> (copy: Vec<(String, String)>)
    ensures
        archives_view(copy@) == archives_view(archives@),
{
    let mut copy: Vec<(String, String)> = Vec::new();
    for i in 0..archives.len()
        invariant
            copy.len() == i,
            forall|j: int| 0 <= j < i ==> copy@[j] == archives@[j],
    {
        copy.push((archives[i].0.clone(), archives[i].1.clone()));
    }
    assert(copy@ =~= archives@);
    copy
}

/// The build target of a macOS platform.
fn target_for(platform: &str) -> (target: Option<String>)
    ensures
        optional_text(target) == apple_target(platform@),
{
    if text_eq(platform, "macos-arm") {
        Some("aarch64-apple-darwin".to_owned())
    } else if text_eq(platform, "macos-intel") {
        Some("x86_64-apple-darwin".to_owned())
    } else {
        None
    }
}

/// The steps that build and pack for Windows, and where the archive will be.
fn windows_plan(request: &BuildRequest) -> (plan: (Vec<Step>, String))
    ensures
        steps_view(plan.0@) == windows_steps(request@),
        plan.1@ == archive_path_of(
            request@.style,
            request@.root,
            request@.app_name,
            "windows-x86_64-gnu"@,
        ),
{
    let style: PathStyle = request.style;
    let root: &str = request.root.as_str();
    let (mut steps, resource): (Vec<Step>, Option<String>) = match &request.windows_icon {
        Some(icon) => {
            let (steps, object) = prepare_windows_icon_resource(style, root, icon.as_str());
            (steps, Some(object))
        },
        None => (Vec::new(), None),
    };
    let ghost icon = steps_view(steps@);
    assert(request.windows_icon is None ==> icon =~= Seq::empty());
    let resource_path: Option<&str> = match &resource {
        Some(object) => Some(object.as_str()),
        None => None,
    };
    let build: Step = cargo_windows(
        root,
        request.package.as_str(),
        request.binary.as_str(),
        resource_path,
        request.prod,
    );
    let dir: String = join(style, root, "target/x86_64-pc-windows-gnu/release");
    let file: String = request.binary.clone().concat(".exe");
    let executable: String = join(style, dir.as_str(), file.as_str());
    let failure: String = "Windows executable not found: ".to_owned().concat(executable.as_str());
    let name: String = archive_name(request.app_name.as_str(), "windows-x86_64-gnu");
    let (mut pack, archive) = zip_executable(
        style,
        executable.as_str(),
        join(style, root, "target").as_str(),
        name.as_str(),
    );
    let ghost packing = steps_view(pack@);
    let ghost building = build@;
    steps.push(build);
    steps.push(Step::Require { path: executable, failure });
    steps.append(&mut pack);
    assert(steps_view(steps@) =~= windows_steps(request@));
    (steps, archive)
}

/// How the work on the platform begins.
fn begin(request: &BuildRequest, built: usize) -> (stage: Stage)
    requires
        built <= request.platforms.len(),
    ensures
        stage@ == build_at(request@, built as int, Seq::empty()).stage,
{
    if built == request.platforms.len() {
        return Stage::Finished;
    }
    let platform: &str = request.platforms[built].as_str();
    match target_for(platform) {
        Some(target) => {
            let step: Step = cargo_bundle(
                request.root.as_str(),
                request.package.as_str(),
                request.binary.as_str(),
                target.as_str(),
                request.prod,
            );
            let ghost seen = step@;
            let steps: Vec<Step> = vec![step];
            assert(steps_view(steps@) =~= seq![seen]);
            Stage::Preparing { script: Script::new(steps), target }
        },
        None => if text_eq(platform, "windows-x86_64-gnu") {
            let (steps, archive) = windows_plan(request);
            Stage::Packing { script: Script::new(steps), archive }
        } else {
            Stage::Failed { message: "unsupported platform: ".to_owned().concat(platform) }
        },
    }
}

/// Starts a build.
pub fn build_archives(request: BuildRequest) -> (run: BuildRun)
    ensures
        run@ == build_at(request@, 0, Seq::empty()),
{
    let stage: Stage = begin(&request, 0);
    let archives: Vec<(String, String)> = Vec::new();
    proof {
        assert(archives_view(archives@) =~= Seq::empty());
        lemma_a_platform_begins_with_work(request@, 0);
    }
    BuildRun { request, built: 0, archives, stage }
}

impl BuildRun {
    #[verifier::type_invariant]
    pub open spec fn sound(self) -> bool {
        build_sound(self@)
    }

    /// What there is to do.
    pub fn progress(&self) -> (progress: BuildProgress)
        ensures
            progress@ == build_progress(self@),
    {
        proof {
            use_type_invariant(self);
        }
        match &self.stage {
            Stage::Preparing { script, .. } => match script.progress() {
                Progress::Act(action) => BuildProgress::Act(action),
                _ => unreached(),
            },
            Stage::Listing { target } => {
                BuildProgress::List(
                    bundle_dir(self.request.style, self.request.root.as_str(), target.as_str()),
                )
            },
            Stage::Packing { script, .. } => match script.progress() {
                Progress::Act(action) => BuildProgress::Act(action),
                _ => unreached(),
            },
            Stage::Failed { message } => BuildProgress::Failed(message.clone()),
            Stage::Finished => BuildProgress::Finished(copy_archives(&self.archives)),
        }
    }

    /// Goes on, now that what was to be done has been done, with this answer.
    pub fn advance(self, answer: Answer) -> (run: Self)
        requires
            build_answers(self@, answer),
        ensures
            run@ == build_next(self@, answer),
    {
        proof {
            use_type_invariant(&self);
        }
        let BuildRun { request, built, archives, stage } = self;
        match stage {
            Stage::Preparing { script, target } => {
                let mut script = script;
                script.advance(answer);
                let stage: Stage = match script.progress() {
                    Progress::Act(_) => Stage::Preparing { script, target },
                    Progress::Failed(message) => Stage::Failed { message },
                    Progress::Finished => Stage::Listing { target },
                };
                BuildRun { request, built, archives, stage }
            },
            Stage::Packing { script, archive } => {
                let mut script = script;
                script.advance(answer);
                match script.progress() {
                    Progress::Act(_) => {
                        let stage = Stage::Packing { script, archive };
                        BuildRun { request, built, archives, stage }
                    },
                    Progress::Failed(message) => {
                        let stage = Stage::Failed { message };
                        BuildRun { request, built, archives, stage }
                    },
                    Progress::Finished => {
                        assert(built < request.platforms.len());
                        let ghost before = archives_view(archives@);
                        let mut archives = archives;
                        let platform: String = request.platforms[built].clone();
                        let ghost last = (platform@, archive@);
                        archives.push((platform, archive));
                        assert(archives_view(archives@) =~= before.push(last));
                        let stage: Stage = begin(&request, built + 1);
                        proof {
                            lemma_a_platform_begins_with_work(request@, built as int);
                            lemma_a_platform_begins_with_work(request@, built + 1);
                        }
                        BuildRun { request, built: built + 1, archives, stage }
                    },
                }
            },
            _ => unreached(),
        }
    }

    /// Goes on, now that the directory has been listed. An entry that could not be read is
    /// `None`.
    pub fn listed(self, entries: &Vec<Option<String>>) -> (run: Self)
        requires
            self@.stage is Listing,
        ensures
            run@ == build_listed(self@, entry_names(entries@)),
    {
        proof {
            use_type_invariant(&self);
        }
        let BuildRun { request, built, archives, stage } = self;
        let target: String = match stage {
            Stage::Listing { target } => target,
            _ => unreached(),
        };
        let stage: Stage = match find_bundle(
            request.style,
            request.root.as_str(),
            target.as_str(),
            entries,
        ) {
            Ok(bundle) => {
                let name: String = archive_name(
                    request.app_name.as_str(),
                    request.platforms[built].as_str(),
                );
                let (steps, archive) = zip_bundle(
                    request.style,
                    bundle.as_str(),
                    join(request.style, request.root.as_str(), "target").as_str(),
                    name.as_str(),
                );
                Stage::Packing { script: Script::new(steps), archive }
            },
            Err(message) => Stage::Failed { message },
        };
        BuildRun { request, built, archives, stage }
    }
}

/// The work on a platform begins with something to do.
proof fn lemma_a_platform_begins_with_work(request: RequestView, built: int)
    requires
        0 <= built <= request.platforms.len(),
    ensures
        build_sound(build_at(request, built, archives_for(request, built))),
        archives_for(request, 0) == Seq::<(Seq<char>, Seq<char>)>::empty(),
        built < request.platforms.len() ==> archives_for(request, built + 1) == archives_for(
            request,
            built,
        ).push(
            (
                request.platforms[built],
                archive_path_of(
                    request.style,
                    request.root,
                    request.app_name,
                    request.platforms[built],
                ),
            ),
        ),
{
    assert(archives_for(request, 0) =~= Seq::empty());
    if built < request.platforms.len() {
        let steps = windows_steps(request);
        assert(steps.len() >= 2);
        assert(steps[0] is Require || steps[0] is Run);
        assert(archives_for(request, built + 1) =~= archives_for(request, built).push(
            (
                request.platforms[built],
                archive_path_of(
                    request.style,
                    request.root,
                    request.app_name,
                    request.platforms[built],
                ),
            ),
        ));
    }
}

/// A world for builds: what the steps learn while a bundle is built and while an archive is
/// made for the platform `k`, and what is in the directory of bundles then.
pub ghost struct BuildWorld {
    pub preparing: spec_fn(int, int) -> bool,
    pub entries: spec_fn(int) -> Seq<Option<Seq<char>>>,
    pub packing: spec_fn(int, int) -> bool,
}

/// What the steps learn while the bundle for the platform `k` is built.
pub open spec fn preparing_world(world: BuildWorld, k: int) -> spec_fn(int) -> bool {
    |i: int| (world.preparing)(k, i)
}

/// What the steps learn while the archive for the platform `k` is made.
pub open spec fn packing_world(world: BuildWorld, k: int) -> spec_fn(int) -> bool {
    |i: int| (world.packing)(k, i)
}

/// The actions of a script as those of a build.
pub open spec fn acts(actions: Seq<ActionView>) -> Seq<BuildProgressView> {
    actions.map_values(|action: ActionView| BuildProgressView::Act(action))
}

/// How far from the end of the work on a platform the stage is.
pub open spec fn stage_rank(stage: StageView) -> int {
    match stage {
        StageView::Preparing { .. } => 3,
        StageView::Listing { .. } => 2,
        StageView::Packing { .. } => 1,
        _ => 0,
    }
}

/// A bound on the actions that are left in the stage.
pub open spec fn stage_actions_left(stage: StageView) -> int {
    match stage {
        StageView::Preparing { script, .. } => most_actions_left(script),
        StageView::Packing { script, .. } => most_actions_left(script),
        _ => 0,
    }
}

/// Where the build stands after what it asks for has been done in that world.
pub open spec fn build_after(b: BuildView, world: BuildWorld) -> BuildView {
    match b.stage {
        StageView::Preparing { script, .. } => build_next(
            b,
            world_answer(script, preparing_world(world, b.built)),
        ),
        StageView::Listing { .. } => build_listed(b, (world.entries)(b.built)),
        StageView::Packing { script, .. } => build_next(
            b,
            world_answer(script, packing_world(world, b.built)),
        ),
        _ => b,
    }
}

/// What the build asks for from where it stands, in that world, and how it ends: with the
/// archives or with the reason why not.
#[verifier::opaque]
pub open spec fn build_driven(b: BuildView, world: BuildWorld) -> (
    Seq<BuildProgressView>,
    Result<Seq<(Seq<char>, Seq<char>)>, Seq<char>>,
)
    decreases
            b.request.platforms.len() - b.built,
            stage_rank(b.stage),
            stage_actions_left(b.stage),
    when build_sound(b)
{
    match build_progress(b) {
        BuildProgressView::Finished(archives) => (Seq::empty(), Ok(archives)),
        BuildProgressView::Failed(message) => (Seq::empty(), Err(message)),
        asked => {
            let (rest, end) = build_driven(build_after(b, world), world);
            (seq![asked] + rest, end)
        },
    }
}

/// What is asked for to build for the platform `k`, and why that fails, if it does. For macOS
/// the bundle is built, looked for and packed; for Windows the executable is built, with its
/// icon, and packed.
pub open spec fn platform_course(request: RequestView, world: BuildWorld, k: int) -> (
    Seq<BuildProgressView>,
    Option<Seq<char>>,
) {
    let platform = request.platforms[k];
    let pack = packing_world(world, k);
    match apple_target(platform) {
        Some(target) => {
            let build = seq![
                cargo_bundle_step(
                    request.root,
                    request.package,
                    request.binary,
                    target,
                    request.prod,
                ),
            ];
            let dir = bundle_dir_of(request.style, request.root, target);
            let prepare = preparing_world(world, k);
            let built = acts(script_effects(build, prepare, 0));
            let looked = built.push(BuildProgressView::List(dir));
            let found = found_bundle(request.style, dir, (world.entries)(k));
            match (script_failure(build, prepare, 0), found) {
                (Some(failure), _) => (built, Some(failure)),
                (None, Err(message)) => (looked, Some(message)),
                (None, Ok(bundle)) => {
                    let steps = zip_steps(
                        request.style,
                        "-r"@,
                        "bundle"@,
                        bundle,
                        products(request.style, request.root),
                        archive_name_of(request.app_name, platform),
                    );
                    (
                        looked + acts(script_effects(steps, pack, 0)),
                        script_failure(steps, pack, 0),
                    )
                },
            }
        },
        None => if platform == "windows-x86_64-gnu"@ {
            let steps = windows_steps(request);
            (acts(script_effects(steps, pack, 0)), script_failure(steps, pack, 0))
        } else {
            (Seq::empty(), Some("unsupported platform: "@ + platform))
        },
    }
}

/// The course of a build from the platform `k` on: platform after platform, up to the first
/// that fails.
pub open spec fn build_course(request: RequestView, world: BuildWorld, k: int) -> (
    Seq<BuildProgressView>,
    Result<Seq<(Seq<char>, Seq<char>)>, Seq<char>>,
)
    decreases request.platforms.len() - k,
{
    if k >= request.platforms.len() {
        (Seq::empty(), Ok(archives_for(request, request.platforms.len() as int)))
    } else {
        match platform_course(request, world, k) {
            (asked, Some(failure)) => (asked, Err(failure)),
            (asked, None) => {
                let (rest, end) = build_course(request, world, k + 1);
                (asked + rest, end)
            },
        }
    }
}

/// In every world a build goes from platform to platform in the order in which they were
/// asked for, does for each what that platform takes, and ends at the first failure or with an
/// archive for every platform.
pub proof fn a_build_goes_platform_by_platform(request: RequestView, world: BuildWorld)
    ensures
        build_driven(build_at(request, 0, Seq::empty()), world) == build_course(
            request,
            world,
            0,
        ),
{
    lemma_a_platform_begins_with_work(request, 0);
    lemma_build_driven(request, world, 0);
}

/// A build that has come to its end has one archive for every platform that was asked for, in
/// their order, and each is where it is looked for.
pub proof fn a_finished_build_has_every_archive(b: BuildView)
    requires
        build_sound(b),
        b.stage is Finished,
    ensures
        build_progress(b) == BuildProgressView::Finished(
            archives_for(b.request, b.request.platforms.len() as int),
        ),
{
}

/// A build is sound from the start.
pub proof fn a_build_begins_sound(request: RequestView)
    ensures
        build_sound(build_at(request, 0, Seq::empty())),
{
    lemma_a_platform_begins_with_work(request, 0);
}

/// Whatever happens, a build stays sound.
pub proof fn a_build_stays_sound(b: BuildView, answer: Answer, entries: Seq<Option<Seq<char>>>)
    requires
        build_sound(b),
    ensures
        build_answers(b, answer) ==> build_sound(build_next(b, answer)),
        b.stage is Listing ==> build_sound(build_listed(b, entries)),
{
    if b.built < b.request.platforms.len() {
        lemma_a_platform_begins_with_work(b.request, b.built);
        lemma_a_platform_begins_with_work(b.request, b.built + 1);
    }
}

pub(crate) proof fn lemma_build_after_is_sound(b: BuildView, world: BuildWorld)
    requires
        build_sound(b),
        stage_rank(b.stage) > 0,
    ensures
        build_sound(build_after(b, world)),
{
    let answer = match b.stage {
        StageView::Preparing { script, .. } => world_answer(
            script,
            preparing_world(world, b.built),
        ),
        StageView::Packing { script, .. } => world_answer(script, packing_world(world, b.built)),
        _ => Answer::Done,
    };
    a_build_stays_sound(b, answer, (world.entries)(b.built));
}

/// A build that packs does what the script does, and then goes on to the next platform.
proof fn lemma_packing_driven(b: BuildView, world: BuildWorld)
    requires
        build_sound(b),
        b.stage is Packing,
    ensures
        ({
            let script = b.stage->Packing_script;
            let (done, failure) = script_driven(script, packing_world(world, b.built));
            let next = build_at(
                b.request,
                b.built + 1,
                archives_for(b.request, b.built + 1),
            );
            let (rest, end) = build_driven(next, world);
            build_driven(b, world) == match failure {
                Some(message) => (acts(done), Err(message)),
                None => (acts(done) + rest, end),
            }
        }),
    decreases stage_actions_left(b.stage),
{
    reveal_with_fuel(build_driven, 1);
    let script = b.stage->Packing_script;
    let w = packing_world(world, b.built);
    let next = build_after(b, world);
    lemma_build_after_is_sound(b, world);
    lemma_a_platform_begins_with_work(b.request, b.built);
    let after = script_next(script, world_answer(script, w));
    let action = script_progress(script)->Act_0;
    assert(script_sound(after));
    let (done, failure) = script_driven(after, w);
    assert(script_driven(script, w) == (seq![action] + done, failure));
    assert(acts(seq![action] + done) =~= seq![BuildProgressView::Act(action)] + acts(done));
    match script_progress(after) {
        ProgressView::Act(_) => {
            lemma_packing_driven(next, world);
            let (rest, end) = build_driven(
                build_at(b.request, b.built + 1, archives_for(b.request, b.built + 1)),
                world,
            );
            assert(seq![BuildProgressView::Act(action)] + (acts(done) + rest) =~= acts(
                seq![action] + done,
            ) + rest);
        },
        ProgressView::Failed(message) => {
            assert(acts(done) =~= Seq::empty());
            lemma_ended_driven(next, world);
        },
        ProgressView::Finished => {
            assert(acts(done) =~= Seq::empty());
            assert(next == build_at(
                b.request,
                b.built + 1,
                archives_for(b.request, b.built + 1),
            ));
        },
    }
}

/// A build that prepares does what the script does, and then looks for the bundle.
proof fn lemma_preparing_driven(b: BuildView, world: BuildWorld)
    requires
        build_sound(b),
        b.stage is Preparing,
    ensures
        ({
            let script = b.stage->Preparing_script;
            let (done, failure) = script_driven(script, preparing_world(world, b.built));
            let next = BuildView {
                stage: StageView::Listing { target: b.stage->Preparing_target },
                ..b
            };
            let (rest, end) = build_driven(next, world);
            build_driven(b, world) == match failure {
                Some(message) => (acts(done), Err(message)),
                None => (acts(done) + rest, end),
            }
        }),
    decreases stage_actions_left(b.stage),
{
    reveal_with_fuel(build_driven, 1);
    let script = b.stage->Preparing_script;
    let w = preparing_world(world, b.built);
    let next = build_after(b, world);
    lemma_build_after_is_sound(b, world);
    let after = script_next(script, world_answer(script, w));
    let action = script_progress(script)->Act_0;
    assert(script_sound(after));
    let (done, failure) = script_driven(after, w);
    assert(script_driven(script, w) == (seq![action] + done, failure));
    assert(acts(seq![action] + done) =~= seq![BuildProgressView::Act(action)] + acts(done));
    let listing = BuildView {
        stage: StageView::Listing { target: b.stage->Preparing_target },
        ..b
    };
    match script_progress(after) {
        ProgressView::Act(_) => {
            lemma_preparing_driven(next, world);
            let (rest, end) = build_driven(listing, world);
            assert(seq![BuildProgressView::Act(action)] + (acts(done) + rest) =~= acts(
                seq![action] + done,
            ) + rest);
        },
        ProgressView::Failed(message) => {
            assert(acts(done) =~= Seq::empty());
            lemma_ended_driven(next, world);
        },
        ProgressView::Finished => {
            assert(acts(done) =~= Seq::empty());
            assert(next == listing);
        },
    }
}

/// A build that has ended asks for nothing more.
proof fn lemma_ended_driven(b: BuildView, world: BuildWorld)
    requires
        build_sound(b),
        b.stage is Failed || b.stage is Finished,
    ensures
        build_driven(b, world) == (
            Seq::<BuildProgressView>::empty(),
            match b.stage {
                StageView::Failed { message } => Err(message),
                _ => Ok(b.archives),
            },
        ),
{
    reveal_with_fuel(build_driven, 1);
}

/// A build that looks for the bundle lists its directory, and then packs the bundle.
proof fn lemma_listing_driven(b: BuildView, world: BuildWorld)
    requires
        build_sound(b),
        b.stage is Listing,
    ensures
        build_sound(build_listed(b, (world.entries)(b.built))),
        build_driven(b, world) == ({
            let (rest, end) = build_driven(build_listed(b, (world.entries)(b.built)), world);
            let dir = bundle_dir_of(b.request.style, b.request.root, b.stage->Listing_target);
            (seq![BuildProgressView::List(dir)] + rest, end)
        }),
{
    reveal_with_fuel(build_driven, 1);
    lemma_build_after_is_sound(b, world);
}

/// A build takes the course of the macOS platform `k`, and then goes on to the next platform.
proof fn lemma_macos_driven(request: RequestView, world: BuildWorld, k: int)
    requires
        0 <= k < request.platforms.len(),
        apple_target(request.platforms[k]) is Some,
    ensures
        ({
            let b = build_at(request, k, archives_for(request, k));
            let next = build_at(request, k + 1, archives_for(request, k + 1));
            let (asked, failure) = platform_course(request, world, k);
            let (rest, end) = build_driven(next, world);
            build_driven(b, world) == match failure {
                Some(message) => (asked, Err(message)),
                None => (asked + rest, end),
            }
        }),
{
    let b = build_at(request, k, archives_for(request, k));
    let next = build_at(request, k + 1, archives_for(request, k + 1));
    let (rest, end) = build_driven(next, world);
    lemma_a_platform_begins_with_work(request, k);
    let target = apple_target(request.platforms[k])->0;
    let build = b.stage->Preparing_script.steps;
    let dir = bundle_dir_of(request.style, request.root, target);
    let listing = BuildView { stage: StageView::Listing { target }, ..b };
    lemma_preparing_driven(b, world);
    a_script_stops_at_the_first_failure(build, preparing_world(world, k));
    let built = acts(script_effects(build, preparing_world(world, k), 0));
    let list = seq![BuildProgressView::List(dir)];
    let after = build_listed(listing, (world.entries)(k));
    lemma_listing_driven(listing, world);
    match found_bundle(request.style, dir, (world.entries)(k)) {
        Ok(bundle) => {
            let steps = after.stage->Packing_script.steps;
            let pack = packing_world(world, k);
            lemma_packing_driven(after, world);
            a_script_stops_at_the_first_failure(steps, pack);
            let packed = acts(script_effects(steps, pack, 0));
            assert(built + (list + packed) =~= built.push(list[0]) + packed);
            assert(built + (list + (packed + rest)) =~= built.push(list[0]) + packed + rest);
        },
        Err(message) => {
            lemma_ended_driven(after, world);
            assert(built + (list + Seq::empty()) =~= built.push(list[0]));
        },
    }
}

proof fn lemma_build_driven(request: RequestView, world: BuildWorld, k: int)
    requires
        0 <= k <= request.platforms.len(),
    ensures
        build_driven(build_at(request, k, archives_for(request, k)), world) == build_course(
            request,
            world,
            k,
        ),
    decreases request.platforms.len() - k,
{
    let b = build_at(request, k, archives_for(request, k));
    lemma_a_platform_begins_with_work(request, k);
    if k < request.platforms.len() {
        lemma_build_driven(request, world, k + 1);
        let platform = request.platforms[k];
        if apple_target(platform) is Some {
            lemma_macos_driven(request, world, k);
        } else if platform == "windows-x86_64-gnu"@ {
            lemma_packing_driven(b, world);
            a_script_stops_at_the_first_failure(windows_steps(request), packing_world(world, k));
        } else {
            lemma_ended_driven(b, world);
        }
    } else {
        lemma_ended_driven(b, world);
    }
}

} // verus!
