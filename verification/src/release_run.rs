//! The course of a release: its version, its archives, their signatures, and their upload.
use vstd::prelude::*;

use crate::build_run::{
    a_build_begins_sound, a_build_stays_sound, a_finished_build_has_every_archive, archives_for,
    build_answers, build_archives, build_at, build_listed, build_next, build_progress, build_sound,
    BuildProgress, BuildProgressView, BuildRequest, BuildRun, BuildView, RequestView,
};
use crate::bundle::{
    archive_path, archive_path_of, archives_present, archives_view, entry_names, existing_archives,
};
use crate::command::{optional_text, Command, CommandView};
use crate::path::PathStyle;
use crate::release::{
    app_version, metadata_command, metadata_command_for, release_platforms, should_sign,
    should_upload, signing_wanted, version_in, wanted_platforms, Package, ReleaseOptions,
    Variables,
};
use crate::script::{
    answers, fresh, script_next, script_progress, script_sound, Action, ActionView, Answer,
    Progress, ProgressView, Script, ScriptView, Step,
};
use crate::sign::{
    a_signing_stays_sound, sign_answers, sign_at, sign_identified, sign_macos_archives, sign_next,
    sign_progress, sign_sound, sign_told, signing_leaves_archives_where_they_are, SignProgress,
    SignProgressView, SignRun, SignStageView, SignView,
};
use crate::text::{copies, lossy_text};
use crate::upload::{upload, upload_steps};

verus! {

/// What a release is to be.
pub ghost struct ReleaseRequestView {
    pub build: RequestView,
    pub manifest_dir: Seq<char>,
    pub does_build: bool,
    pub does_sign: bool,
    pub does_upload: bool,
}

/// What is to be released: which build, and which stages take place. The uploading program is
/// built from the sources in the directory above `manifest_dir`.
#[derive(Debug)]
pub struct ReleaseRequest {
    pub build: BuildRequest,
    pub manifest_dir: String,
    pub does_build: bool,
    pub does_sign: bool,
    pub does_upload: bool,
}

impl View for ReleaseRequest {
    type V = ReleaseRequestView;

    open spec fn view(&self) -> ReleaseRequestView {
        ReleaseRequestView {
            build: self.build@,
            manifest_dir: self.manifest_dir@,
            does_build: self.does_build,
            does_sign: self.does_sign,
            does_upload: self.does_upload,
        }
    }
}

/// What is to be released, given what was asked for and which variables are set.
pub open spec fn planned(
    options: ReleaseOptions,
    variables: Variables,
    manifest_dir: Seq<char>,
) -> ReleaseRequestView {
    let platforms = release_platforms(options.platforms);
    ReleaseRequestView {
        build: RequestView {
            style: options.style,
            root: options.project_root@,
            package: options.package@,
            binary: options.binary@,
            app_name: options.app_name@,
            windows_icon: optional_text(options.windows_icon),
            platforms,
            prod: options.upload_prod,
        },
        manifest_dir,
        does_build: !options.skip_build,
        does_sign: signing_wanted(options.skip_codesign, platforms, variables),
        does_upload: !options.skip_upload && variables.version_server_api_key,
    }
}

/// Decides what is to be released, given what was asked for and which variables are set.
pub fn plan_release(options: ReleaseOptions, variables: &Variables, manifest_dir: String) -> (
    request: ReleaseRequest)
    ensures
        request@ == planned(options, *variables, manifest_dir@),
{
    let platforms: Vec<String> = wanted_platforms(options.platforms);
    let does_sign = should_sign(options.skip_codesign, &platforms, variables);
    ReleaseRequest {
        build: BuildRequest {
            style: options.style,
            root: options.project_root,
            package: options.package,
            binary: options.binary,
            app_name: options.app_name,
            windows_icon: options.windows_icon,
            platforms,
            prod: options.upload_prod,
        },
        manifest_dir,
        does_build: !options.skip_build,
        does_sign,
        does_upload: should_upload(options.skip_upload, variables),
    }
}

/// What is done in a release.
pub ghost enum ReleaseStageView {
    /// The packages of the project are being described.
    Describing,
    /// The archives of an earlier build are being looked for.
    Looking,
    Building { build: BuildView },
    Signing { sign: SignView },
    Uploading { script: ScriptView },
    Failed { message: Seq<char> },
    Finished,
}

/// Where a release stands.
pub ghost struct ReleaseView {
    pub request: ReleaseRequestView,
    /// The version, once it is known.
    pub version: Seq<char>,
    /// Of which platforms an earlier build has left an archive, as far as has been looked.
    pub present: Seq<bool>,
    pub stage: ReleaseStageView,
}

/// What there is to do.
pub ghost enum ReleaseProgressView {
    Describe(CommandView),
    Act(ActionView),
    List(Seq<char>),
    Capture(CommandView),
    ReadVariable(Seq<char>),
    Failed(Seq<char>),
    Finished,
}

/// The archives of the release: those that were built, or those that an earlier build has left.
pub open spec fn gathered(r: ReleaseView) -> Seq<(Seq<char>, Seq<char>)> {
    let build = r.request.build;
    if r.request.does_build {
        archives_for(build, build.platforms.len() as int)
    } else {
        archives_present(build.style, build.root, build.app_name, build.platforms, r.present)
    }
}

/// A release whose archives are ready for the upload.
pub open spec fn release_signed(
    r: ReleaseView,
    archives: Seq<(Seq<char>, Seq<char>)>,
) -> ReleaseView {
    let stage = if !r.request.does_upload {
        ReleaseStageView::Finished
    } else {
        let script = fresh(
            upload_steps(
                r.request.build.style,
                r.version,
                r.request.build.app_name,
                archives,
                r.request.build.prod,
                r.request.manifest_dir,
            ),
        );
        match script_progress(script) {
            ProgressView::Failed(message) => ReleaseStageView::Failed { message },
            _ => ReleaseStageView::Uploading { script },
        }
    };
    ReleaseView { stage, ..r }
}

/// A release whose archives are there.
pub open spec fn release_built(
    r: ReleaseView,
    archives: Seq<(Seq<char>, Seq<char>)>,
) -> ReleaseView {
    if r.request.does_sign {
        let sign = SignView {
            style: r.request.build.style,
            root: r.request.build.root,
            app_name: r.request.build.app_name,
            platforms: r.request.build.platforms,
            archives,
            stage: SignStageView::Identifying,
        };
        ReleaseView { stage: ReleaseStageView::Signing { sign }, ..r }
    } else {
        release_signed(r, archives)
    }
}

/// A release whose build stands there.
pub open spec fn release_building(r: ReleaseView, build: BuildView) -> ReleaseView {
    match build_progress(build) {
        BuildProgressView::Failed(message) => ReleaseView {
            stage: ReleaseStageView::Failed { message },
            ..r
        },
        BuildProgressView::Finished(archives) => release_built(r, archives),
        _ => ReleaseView { stage: ReleaseStageView::Building { build }, ..r },
    }
}

/// A release whose signing stands there.
pub open spec fn release_signing(r: ReleaseView, sign: SignView) -> ReleaseView {
    match sign_progress(sign) {
        SignProgressView::Failed(message) => ReleaseView {
            stage: ReleaseStageView::Failed { message },
            ..r
        },
        SignProgressView::Finished(archives) => release_signed(r, archives),
        _ => ReleaseView { stage: ReleaseStageView::Signing { sign }, ..r },
    }
}

/// A release that has looked for the archives of an earlier build, with that result.
pub open spec fn release_looking(r: ReleaseView, present: Seq<bool>) -> ReleaseView {
    let looking = ReleaseView { present, stage: ReleaseStageView::Looking, ..r };
    if present.len() < r.request.build.platforms.len() {
        looking
    } else {
        release_built(looking, gathered(looking))
    }
}

/// A release at its beginning.
pub open spec fn release_begun(request: ReleaseRequestView) -> ReleaseView {
    ReleaseView {
        request,
        version: Seq::empty(),
        present: Seq::empty(),
        stage: ReleaseStageView::Describing,
    }
}

/// What there is to do where the release stands.
pub open spec fn release_progress(r: ReleaseView) -> ReleaseProgressView {
    let build = r.request.build;
    match r.stage {
        ReleaseStageView::Describing => ReleaseProgressView::Describe(
            metadata_command_for(build.style, build.root),
        ),
        ReleaseStageView::Looking => ReleaseProgressView::Act(
            ActionView::Probe(
                archive_path_of(
                    build.style,
                    build.root,
                    build.app_name,
                    build.platforms[r.present.len() as int],
                ),
            ),
        ),
        ReleaseStageView::Building { build } => match build_progress(build) {
            BuildProgressView::Act(action) => ReleaseProgressView::Act(action),
            BuildProgressView::List(dir) => ReleaseProgressView::List(dir),
            BuildProgressView::Failed(message) => ReleaseProgressView::Failed(message),
            BuildProgressView::Finished(_) => ReleaseProgressView::Finished,
        },
        ReleaseStageView::Signing { sign } => match sign_progress(sign) {
            SignProgressView::Capture(command) => ReleaseProgressView::Capture(command),
            SignProgressView::ReadVariable(name) => ReleaseProgressView::ReadVariable(name),
            SignProgressView::Act(action) => ReleaseProgressView::Act(action),
            SignProgressView::Failed(message) => ReleaseProgressView::Failed(message),
            SignProgressView::Finished(_) => ReleaseProgressView::Finished,
        },
        ReleaseStageView::Uploading { script } => match script_progress(script) {
            ProgressView::Act(action) => ReleaseProgressView::Act(action),
            ProgressView::Failed(message) => ReleaseProgressView::Failed(message),
            ProgressView::Finished => ReleaseProgressView::Finished,
        },
        ReleaseStageView::Failed { message } => ReleaseProgressView::Failed(message),
        ReleaseStageView::Finished => ReleaseProgressView::Finished,
    }
}

/// Where the release stands after the packages have been described, or that has failed.
pub open spec fn release_described(r: ReleaseView, packages: Option<Seq<Package>>) -> ReleaseView {
    let failed = |message: Seq<char>|
        ReleaseView { stage: ReleaseStageView::Failed { message }, ..r };
    match packages {
        None => failed("cargo metadata failed"@),
        Some(packages) => match version_in(packages, r.request.build.package) {
            None => failed("package not found: "@ + r.request.build.package),
            Some(version) => {
                let r = ReleaseView { version, ..r };
                if r.request.does_build {
                    release_building(r, build_at(r.request.build, 0, Seq::empty()))
                } else {
                    release_looking(r, Seq::empty())
                }
            },
        },
    }
}

/// The answer is one to what the release asks for.
pub open spec fn release_answers(r: ReleaseView, answer: Answer) -> bool {
    match r.stage {
        ReleaseStageView::Looking => answer is Present,
        ReleaseStageView::Building { build } => build_answers(build, answer),
        ReleaseStageView::Signing { sign } => sign_answers(sign, answer),
        ReleaseStageView::Uploading { script } => answers(script, answer),
        _ => false,
    }
}

/// Where the release stands after the answer.
pub open spec fn release_next(r: ReleaseView, answer: Answer) -> ReleaseView {
    match r.stage {
        ReleaseStageView::Looking => release_looking(r, r.present.push(answer->Present_0)),
        ReleaseStageView::Building { build } => release_building(r, build_next(build, answer)),
        ReleaseStageView::Signing { sign } => release_signing(r, sign_next(sign, answer)),
        ReleaseStageView::Uploading { script } => {
            let script = script_next(script, answer);
            let stage = match script_progress(script) {
                ProgressView::Act(_) => ReleaseStageView::Uploading { script },
                ProgressView::Failed(message) => ReleaseStageView::Failed { message },
                ProgressView::Finished => ReleaseStageView::Finished,
            };
            ReleaseView { stage, ..r }
        },
        _ => r,
    }
}

/// Where the release stands after the directory of the bundles has been listed.
pub open spec fn release_listed(r: ReleaseView, entries: Seq<Option<Seq<char>>>) -> ReleaseView {
    release_building(r, build_listed(r.stage->build, entries))
}

/// Where the release stands after the identities have been listed.
pub open spec fn release_identified(r: ReleaseView, success: bool, list: Seq<char>) -> ReleaseView {
    release_signing(r, sign_identified(r.stage->sign, success, list))
}

/// Where the release stands after a variable has been read.
pub open spec fn release_told(r: ReleaseView, value: Seq<char>) -> ReleaseView {
    release_signing(r, sign_told(r.stage->sign, value))
}

/// The release awaits the listing of a directory.
pub open spec fn awaits_listing(r: ReleaseView) -> bool {
    r.stage matches ReleaseStageView::Building { build } && build.stage is Listing
}

/// The release awaits the list of the identities.
pub open spec fn awaits_identities(r: ReleaseView) -> bool {
    r.stage matches ReleaseStageView::Signing { sign } && sign.stage is Identifying
}

/// The release awaits the value of a variable.
pub open spec fn awaits_variable(r: ReleaseView) -> bool {
    r.stage matches ReleaseStageView::Signing { sign } && sign.stage is Asking
}

/// A release has something to do, or has ended. It signs and uploads the archives that it has
/// gathered, and only those.
pub open spec fn release_sound(r: ReleaseView) -> bool {
    let request = r.request.build;
    match r.stage {
        ReleaseStageView::Describing => r.present.len() == 0,
        ReleaseStageView::Looking => !r.request.does_build && r.present.len()
            < request.platforms.len(),
        ReleaseStageView::Building { build } => {
            &&& r.request.does_build
            &&& build.request == request
            &&& build_sound(build)
            &&& build.stage !is Failed
            &&& build.stage !is Finished
        },
        ReleaseStageView::Signing { sign } => {
            &&& r.request.does_sign
            &&& sign_sound(sign)
            &&& sign.stage !is Failed
            &&& sign.stage !is Finished
            &&& sign.style == request.style
            &&& sign.root == request.root
            &&& sign.app_name == request.app_name
            &&& sign.platforms == request.platforms
            &&& sign.archives == gathered(r)
        },
        ReleaseStageView::Uploading { script } => {
            &&& r.request.does_upload
            &&& script_sound(script)
            &&& script_progress(script) is Act
            &&& script.steps == upload_steps(
                r.request.build.style,
                r.version,
                request.app_name,
                gathered(r),
                request.prod,
                r.request.manifest_dir,
            )
        },
        _ => true,
    }
}

#[derive(Debug)]
enum ReleaseStage {
    Describing,
    Looking,
    Building { run: BuildRun },
    Signing { run: SignRun },
    Uploading { script: Script },
    Failed { message: String },
    Finished,
}

impl View for ReleaseStage {
    type V = ReleaseStageView;

    closed spec fn view(&self) -> ReleaseStageView {
        match self {
            ReleaseStage::Describing => ReleaseStageView::Describing,
            ReleaseStage::Looking => ReleaseStageView::Looking,
            ReleaseStage::Building { run } => ReleaseStageView::Building { build: run@ },
            ReleaseStage::Signing { run } => ReleaseStageView::Signing { sign: run@ },
            ReleaseStage::Uploading { script } => ReleaseStageView::Uploading { script: script@ },
            ReleaseStage::Failed { message } => ReleaseStageView::Failed { message: message@ },
            ReleaseStage::Finished => ReleaseStageView::Finished,
        }
    }
}

/// A release on its way.
#[derive(Debug)]
pub struct ReleaseRun {
    request: ReleaseRequest,
    version: String,
    present: Vec<bool>,
    stage: ReleaseStage,
}

impl View for ReleaseRun {
    type V = ReleaseView;

    closed spec fn view(&self) -> ReleaseView {
        ReleaseView {
            request: self.request@,
            version: self.version@,
            present: self.present@,
            stage: self.stage@,
        }
    }
}

/// What there is to do.
#[derive(Debug)]
pub enum ReleaseProgress {
    /// Run the command, and tell the release the packages that it describes.
    Describe(Command),
    /// Do this, and tell the release what came of it.
    Act(Action),
    /// List this directory, and tell the release the names of its entries.
    List(String),
    /// Run the command, and tell how it ended and what it wrote to its standard output.
    Capture(Command),
    /// Read the variable of the environment, and tell its value.
    ReadVariable(String),
    /// Nothing: the release has failed, and this is why.
    Failed(String),
    /// Nothing: the release is done.
    Finished,
}

impl View for ReleaseProgress {
    type V = ReleaseProgressView;

    open spec fn view(&self) -> ReleaseProgressView {
        match self {
            ReleaseProgress::Describe(command) => ReleaseProgressView::Describe(command@),
            ReleaseProgress::Act(action) => ReleaseProgressView::Act(action@),
            ReleaseProgress::List(dir) => ReleaseProgressView::List(dir@),
            ReleaseProgress::Capture(command) => ReleaseProgressView::Capture(command@),
            ReleaseProgress::ReadVariable(name) => ReleaseProgressView::ReadVariable(name@),
            ReleaseProgress::Failed(message) => ReleaseProgressView::Failed(message@),
            ReleaseProgress::Finished => ReleaseProgressView::Finished,
        }
    }
}

/// What a release with these parts is about; what it does is left open.
spec fn release_with(request: ReleaseRequest, version: String, present: Vec<bool>) -> ReleaseView {
    ReleaseView {
        request: request@,
        version: version@,
        present: present@,
        stage: ReleaseStageView::Finished,
    }
}

/// Starts a release.
pub fn start_release(request: ReleaseRequest) -> (run: ReleaseRun)
    ensures
        run@ == release_begun(request@),
{
    let version: String = "".to_owned();
    let present: Vec<bool> = Vec::new();
    proof {
        reveal_strlit("");
        assert(version@ =~= Seq::empty());
    }
    ReleaseRun { request, version, present, stage: ReleaseStage::Describing }
}

impl ReleaseRun {
    #[verifier::type_invariant]
    spec fn sound(self) -> bool {
        release_sound(self@)
    }

    /// What there is to do.
    pub fn progress(&self) -> (progress: ReleaseProgress)
        ensures
            progress@ == release_progress(self@),
    {
        proof {
            use_type_invariant(self);
        }
        let build: &BuildRequest = &self.request.build;
        match &self.stage {
            ReleaseStage::Describing => ReleaseProgress::Describe(
                metadata_command(build.style, build.root.as_str()),
            ),
            ReleaseStage::Looking => ReleaseProgress::Act(
                Action::Probe(
                    archive_path(
                        build.style,
                        build.root.as_str(),
                        build.app_name.as_str(),
                        build.platforms[self.present.len()].as_str(),
                    ),
                ),
            ),
            ReleaseStage::Building { run } => match run.progress() {
                BuildProgress::Act(action) => ReleaseProgress::Act(action),
                BuildProgress::List(dir) => ReleaseProgress::List(dir),
                BuildProgress::Failed(message) => ReleaseProgress::Failed(message),
                BuildProgress::Finished(_) => ReleaseProgress::Finished,
            },
            ReleaseStage::Signing { run } => match run.progress() {
                SignProgress::Capture(command) => ReleaseProgress::Capture(command),
                SignProgress::ReadVariable(name) => ReleaseProgress::ReadVariable(name),
                SignProgress::Act(action) => ReleaseProgress::Act(action),
                SignProgress::Failed(message) => ReleaseProgress::Failed(message),
                SignProgress::Finished(_) => ReleaseProgress::Finished,
            },
            ReleaseStage::Uploading { script } => match script.progress() {
                Progress::Act(action) => ReleaseProgress::Act(action),
                Progress::Failed(message) => ReleaseProgress::Failed(message),
                Progress::Finished => ReleaseProgress::Finished,
            },
            ReleaseStage::Failed { message } => ReleaseProgress::Failed(message.clone()),
            ReleaseStage::Finished => ReleaseProgress::Finished,
        }
    }

    /// The release whose archives are ready for the upload.
    fn signed(
        request: ReleaseRequest,
        version: String,
        present: Vec<bool>,
        archives: Vec<(String, String)>,
    ) -> (run: Self)
        requires
            archives_view(archives@) == gathered(release_with(request, version, present)),
        ensures
            run@ == release_signed(
                release_with(request, version, present),
                archives_view(archives@),
            ),
    {
        let stage: ReleaseStage = if !request.does_upload {
            ReleaseStage::Finished
        } else {
            let steps: Vec<Step> = upload(
                request.build.style,
                version.as_str(),
                request.build.app_name.as_str(),
                &archives,
                request.build.prod,
                request.manifest_dir.as_str(),
            );
            let script = Script::new(steps);
            match script.progress() {
                Progress::Failed(message) => ReleaseStage::Failed { message },
                _ => ReleaseStage::Uploading { script },
            }
        };
        ReleaseRun { request, version, present, stage }
    }

    /// The release whose archives are there.
    fn built(
        request: ReleaseRequest,
        version: String,
        present: Vec<bool>,
        archives: Vec<(String, String)>,
    ) -> (run: Self)
        requires
            archives_view(archives@) == gathered(release_with(request, version, present)),
        ensures
            run@ == release_built(
                release_with(request, version, present),
                archives_view(archives@),
            ),
    {
        if !request.does_sign {
            return ReleaseRun::signed(request, version, present, archives);
        }
        let run: SignRun = sign_macos_archives(
            request.build.style,
            request.build.root.as_str(),
            request.build.app_name.as_str(),
            copies(&request.build.platforms),
            archives,
        );
        ReleaseRun { request, version, present, stage: ReleaseStage::Signing { run } }
    }

    /// The release whose build stands there.
    fn building(
        request: ReleaseRequest,
        version: String,
        present: Vec<bool>,
        build: BuildRun,
    ) -> (run: Self)
        requires
            request.does_build,
            build@.request == request@.build,
        ensures
            run@ == release_building(release_with(request, version, present), build@),
    {
        proof {
            use_type_invariant(&build);
        }
        match build.progress() {
            BuildProgress::Failed(message) => {
                ReleaseRun { request, version, present, stage: ReleaseStage::Failed { message } }
            },
            BuildProgress::Finished(archives) => {
                proof {
                    a_finished_build_has_every_archive(build@);
                }
                ReleaseRun::built(request, version, present, archives)
            },
            _ => {
                let stage = ReleaseStage::Building { run: build };
                ReleaseRun { request, version, present, stage }
            },
        }
    }

    /// The release that has looked for archives of an earlier build, as far as `present` says.
    fn looking(request: ReleaseRequest, version: String, present: Vec<bool>) -> (run: Self)
        requires
            !request.does_build,
            present.len() <= request.build.platforms.len(),
        ensures
            run@ == release_looking(release_with(request, version, present), present@),
    {
        if present.len() < request.build.platforms.len() {
            ReleaseRun { request, version, present, stage: ReleaseStage::Looking }
        } else {
            let archives: Vec<(String, String)> = existing_archives(
                request.build.style,
                request.build.root.as_str(),
                request.build.app_name.as_str(),
                &request.build.platforms,
                &present,
            );
            ReleaseRun::built(request, version, present, archives)
        }
    }

    /// The release whose signing stands there.
    fn signing(
        request: ReleaseRequest,
        version: String,
        present: Vec<bool>,
        sign: SignRun,
    ) -> (run: Self)
        requires
            request.does_sign,
            sign@.style == request@.build.style,
            sign@.root == request@.build.root,
            sign@.app_name == request@.build.app_name,
            sign@.platforms == request@.build.platforms,
            sign@.archives == gathered(release_with(request, version, present)),
        ensures
            run@ == release_signing(release_with(request, version, present), sign@),
    {
        proof {
            use_type_invariant(&sign);
        }
        match sign.progress() {
            SignProgress::Failed(message) => {
                ReleaseRun { request, version, present, stage: ReleaseStage::Failed { message } }
            },
            SignProgress::Finished(archives) => {
                ReleaseRun::signed(request, version, present, archives)
            },
            _ => {
                let stage = ReleaseStage::Signing { run: sign };
                ReleaseRun { request, version, present, stage }
            },
        }
    }

    /// Goes on, now that the packages of the project have been described, or that has failed.
    pub fn described(self, packages: Option<&Vec<Package>>) -> (run: Self)
        requires
            self@.stage is Describing,
        ensures
            run@ == release_described(
                self@,
                match packages {
                    Some(packages) => Some(packages@),
                    None => None,
                },
            ),
    {
        proof {
            use_type_invariant(&self);
        }
        let ReleaseRun { request, version, present, stage: _ } = self;
        match app_version(packages, request.build.package.as_str()) {
            Err(message) => {
                ReleaseRun { request, version, present, stage: ReleaseStage::Failed { message } }
            },
            Ok(found) => if request.does_build {
                let build: BuildRun = build_archives(request.build.duplicate());
                ReleaseRun::building(request, found, present, build)
            } else {
                assert(present@ =~= Seq::empty());
                ReleaseRun::looking(request, found, present)
            },
        }
    }

    /// Goes on, now that what was to be done has been done, with this answer.
    pub fn advance(self, answer: Answer) -> (run: Self)
        requires
            release_answers(self@, answer),
        ensures
            run@ == release_next(self@, answer),
    {
        proof {
            use_type_invariant(&self);
        }
        let ReleaseRun { request, version, present, stage } = self;
        match stage {
            ReleaseStage::Looking => {
                let mut present = present;
                match answer {
                    Answer::Present(there) => present.push(there),
                    _ => unreached(),
                }
                ReleaseRun::looking(request, version, present)
            },
            ReleaseStage::Building { run } => {
                ReleaseRun::building(request, version, present, run.advance(answer))
            },
            ReleaseStage::Signing { run } => {
                proof {
                    lemma_signing_goes_on(self@, answer);
                }
                ReleaseRun::signing(request, version, present, run.advance(answer))
            },
            ReleaseStage::Uploading { script } => {
                let mut script = script;
                script.advance(answer);
                proof {
                    use_type_invariant(&script);
                }
                let stage: ReleaseStage = match script.progress() {
                    Progress::Act(_) => ReleaseStage::Uploading { script },
                    Progress::Failed(message) => ReleaseStage::Failed { message },
                    Progress::Finished => ReleaseStage::Finished,
                };
                ReleaseRun { request, version, present, stage }
            },
            _ => unreached(),
        }
    }

    /// Goes on, now that the directory has been listed. An entry that could not be read is
    /// `None`.
    pub fn listed(self, entries: &Vec<Option<String>>) -> (run: Self)
        requires
            awaits_listing(self@),
        ensures
            run@ == release_listed(self@, entry_names(entries@)),
    {
        proof {
            use_type_invariant(&self);
        }
        let ReleaseRun { request, version, present, stage } = self;
        match stage {
            ReleaseStage::Building { run } => {
                ReleaseRun::building(request, version, present, run.listed(entries))
            },
            _ => unreached(),
        }
    }

    /// Goes on, now that the command that lists the identities has ended, having written
    /// `stdout`.
    pub fn identified(self, success: bool, stdout: &Vec<u8>) -> (run: Self)
        requires
            awaits_identities(self@),
        ensures
            run@ == release_identified(self@, success, lossy_text(stdout@)),
    {
        proof {
            use_type_invariant(&self);
        }
        let ReleaseRun { request, version, present, stage } = self;
        match stage {
            ReleaseStage::Signing { run } => {
                ReleaseRun::signing(request, version, present, run.identified(success, stdout))
            },
            _ => unreached(),
        }
    }

    /// Goes on, now that the variable has been read.
    pub fn told(self, value: String) -> (run: Self)
        requires
            awaits_variable(self@),
        ensures
            run@ == release_told(self@, value@),
    {
        proof {
            use_type_invariant(&self);
            lemma_telling_keeps_archives(self@.stage->sign, value@);
        }
        let ReleaseRun { request, version, present, stage } = self;
        match stage {
            ReleaseStage::Signing { run } => {
                ReleaseRun::signing(request, version, present, run.told(value))
            },
            _ => unreached(),
        }
    }
}

/// The archives that an earlier build has left are where they are looked for.
proof fn lemma_present_archives_are_in_place(
    style: PathStyle,
    root: Seq<char>,
    app_name: Seq<char>,
    platforms: Seq<Seq<char>>,
    present: Seq<bool>,
)
    ensures
        forall|i: int|
            0 <= i < archives_present(style, root, app_name, platforms, present).len() ==> {
                let archive = #[trigger] archives_present(
                    style,
                    root,
                    app_name,
                    platforms,
                    present,
                )[i];
                archive.1 == archive_path_of(style, root, app_name, archive.0)
            },
    decreases platforms.len(),
{
    if platforms.len() > 0 {
        lemma_present_archives_are_in_place(
            style,
            root,
            app_name,
            platforms.drop_last(),
            present.drop_last(),
        );
        let all = archives_present(style, root, app_name, platforms, present);
        let before = archives_present(
            style,
            root,
            app_name,
            platforms.drop_last(),
            present.drop_last(),
        );
        assert forall|i: int| 0 <= i < all.len() implies ({
            let archive = #[trigger] all[i];
            archive.1 == archive_path_of(style, root, app_name, archive.0)
        }) by {
            if i < before.len() {
                assert(all[i] == before[i]);
            }
        }
    }
}

/// A signing that goes on keeps what the release is about, and its archives.
pub(crate) proof fn lemma_signing_goes_on(r: ReleaseView, answer: Answer)
    requires
        release_sound(r),
        r.stage is Signing,
        sign_answers(r.stage->sign, answer),
    ensures
        ({
            let next = sign_next(r.stage->sign, answer);
            &&& next.style == r.stage->sign.style
            &&& next.root == r.stage->sign.root
            &&& next.app_name == r.stage->sign.app_name
            &&& next.platforms == r.stage->sign.platforms
            &&& next.archives == r.stage->sign.archives
        }),
{
    let build = r.request.build;
    reveal_with_fuel(sign_at, 3);
    lemma_present_archives_are_in_place(
        build.style,
        build.root,
        build.app_name,
        build.platforms,
        r.present,
    );
    signing_leaves_archives_where_they_are(r.stage->sign, answer);
}

/// Reading a variable keeps what a signing is about, and its archives.
pub(crate) proof fn lemma_telling_keeps_archives(s: SignView, value: Seq<char>)
    ensures
        sign_told(s, value).style == s.style,
        sign_told(s, value).root == s.root,
        sign_told(s, value).app_name == s.app_name,
        sign_told(s, value).platforms == s.platforms,
        sign_told(s, value).archives == s.archives,
{
    reveal_with_fuel(sign_at, 3);
}

/// A release is sound whose archives are there.
proof fn lemma_built_is_sound(r: ReleaseView)
    ensures
        release_sound(release_signed(r, gathered(r))),
        release_sound(release_built(r, gathered(r))),
{
}

/// A release is sound that looks for archives of an earlier build.
proof fn lemma_looking_is_sound(r: ReleaseView, present: Seq<bool>)
    requires
        !r.request.does_build,
    ensures
        release_sound(release_looking(r, present)),
{
    lemma_built_is_sound(ReleaseView { present, stage: ReleaseStageView::Looking, ..r });
}

/// A release is sound whose build is.
proof fn lemma_building_is_sound(r: ReleaseView, build: BuildView)
    requires
        r.request.does_build,
        build_sound(build),
        build.request == r.request.build,
    ensures
        release_sound(release_building(r, build)),
{
    lemma_built_is_sound(r);
    if build.stage is Finished {
        a_finished_build_has_every_archive(build);
    }
}

/// A release is sound whose signing is, if it is about the archives of the release.
proof fn lemma_signing_is_sound(r: ReleaseView, sign: SignView)
    requires
        r.request.does_sign,
        sign_sound(sign),
        sign.style == r.request.build.style,
        sign.root == r.request.build.root,
        sign.app_name == r.request.build.app_name,
        sign.platforms == r.request.build.platforms,
        sign.archives == gathered(r),
    ensures
        release_sound(release_signing(r, sign)),
{
    lemma_built_is_sound(r);
}

/// Whatever happens, a release stays sound: it signs and uploads what it has gathered and
/// nothing else, and uploads only once the build and the signing that were wanted are done.
pub proof fn a_release_stays_sound(
    r: ReleaseView,
    packages: Option<Seq<Package>>,
    answer: Answer,
    entries: Seq<Option<Seq<char>>>,
    success: bool,
    text: Seq<char>,
)
    requires
        release_sound(r),
    ensures
        r.stage is Describing ==> release_sound(release_described(r, packages)),
        release_answers(r, answer) ==> release_sound(release_next(r, answer)),
        awaits_listing(r) ==> release_sound(release_listed(r, entries)),
        awaits_identities(r) ==> release_sound(release_identified(r, success, text)),
        awaits_variable(r) ==> release_sound(release_told(r, text)),
{
    match r.stage {
        ReleaseStageView::Describing => {
            if let Some(packages) = packages {
                if let Some(version) = version_in(packages, r.request.build.package) {
                    let known = ReleaseView { version, ..r };
                    a_build_begins_sound(r.request.build);
                    if r.request.does_build {
                        let build = build_at(r.request.build, 0, Seq::empty());
                        lemma_building_is_sound(known, build);
                    } else {
                        lemma_looking_is_sound(known, Seq::empty());
                    }
                }
            }
        },
        ReleaseStageView::Looking => {
            lemma_looking_is_sound(r, r.present.push(answer->Present_0));
        },
        ReleaseStageView::Building { build } => {
            a_build_stays_sound(build, answer, entries);
            if build_answers(build, answer) {
                lemma_building_is_sound(r, build_next(build, answer));
            }
            if build.stage is Listing {
                lemma_building_is_sound(r, build_listed(build, entries));
            }
        },
        ReleaseStageView::Signing { sign } => {
            a_signing_stays_sound(sign, success, text, text, answer);
            lemma_telling_keeps_archives(sign, text);
            if sign.stage is Identifying {
                lemma_signing_is_sound(r, sign_identified(sign, success, text));
            }
            if sign.stage is Asking {
                lemma_signing_is_sound(r, sign_told(sign, text));
            }
            if sign_answers(sign, answer) {
                lemma_signing_goes_on(r, answer);
                lemma_signing_is_sound(r, sign_next(sign, answer));
            }
        },
        _ => {},
    }
}

/// The place of a stage in the course of a release.
pub open spec fn stage_place(stage: ReleaseStageView) -> int {
    match stage {
        ReleaseStageView::Describing => 0,
        ReleaseStageView::Looking => 1,
        ReleaseStageView::Building { .. } => 1,
        ReleaseStageView::Signing { .. } => 2,
        ReleaseStageView::Uploading { .. } => 3,
        ReleaseStageView::Failed { .. } => 4,
        ReleaseStageView::Finished => 4,
    }
}

/// A release never goes back: the archives are gathered once the version is known, signed once
/// they are gathered, and uploaded after that; and what has ended stays so. The version and
/// what the release is about change no more once the archives are being gathered.
pub proof fn a_release_goes_forward(
    r: ReleaseView,
    packages: Option<Seq<Package>>,
    answer: Answer,
    entries: Seq<Option<Seq<char>>>,
    success: bool,
    text: Seq<char>,
)
    requires
        release_sound(r),
    ensures
        r.stage is Describing ==> {
            let next = release_described(r, packages);
            stage_place(next.stage) > 0 && next.request == r.request
        },
        forall|next: ReleaseView|
            {
                ||| next == release_next(r, answer) && release_answers(r, answer)
                ||| next == release_listed(r, entries) && awaits_listing(r)
                ||| next == release_identified(r, success, text) && awaits_identities(r)
                ||| next == release_told(r, text) && awaits_variable(r)
            } ==> stage_place(#[trigger] next.stage) >= stage_place(r.stage) && next.request
                == r.request && next.version == r.version,
{
}

} // verus!
