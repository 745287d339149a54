//! Signing and notarizing the macOS bundles of a release.
use vstd::prelude::*;

use crate::build_run::copy_archives;
use crate::bundle::{
    apple_target, archive_name, archive_name_of, archive_path_of, archives_view, bundle_dir,
    bundle_dir_of, products, zip_bundle, zip_steps,
};
use crate::command::{command_in, plain_command, Command, CommandView};
use crate::path::{
    extension_replaced, file_name, file_name_of, join, joined, parent, parent_of, with_extension,
    PathStyle,
};
use crate::script::{
    a_script_stops_at_the_first_failure, answers, fresh, most_actions_left, script_driven,
    script_effects, script_failure, script_next, script_progress, script_sound, step_effects,
    steps_view, world_answer, Action, ActionView, Answer, Progress, ProgressView, Script,
    ScriptView, Step, StepView,
};
use crate::text::{
    after_last, chars_of, contains, find_char, first_index, from_utf8_lossy, has_text, last_index,
    lossy_text, pieces, split, string_of, text_eq, texts,
};

verus! {

/// The first of the lines that has `pattern` in it.
pub open spec fn first_line_with(lines: Seq<Seq<char>>, pattern: Seq<char>) -> Option<Seq<char>>
    decreases lines.len(),
{
    if lines.len() == 0 {
        None
    } else if has_text(lines[0], pattern) {
        Some(lines[0])
    } else {
        first_line_with(lines.drop_first(), pattern)
    }
}

/// What stands between the first and the last quotation mark.
pub open spec fn quoted(line: Seq<char>) -> Option<Seq<char>> {
    let start = first_index(line, '"');
    let end = last_index(line, '"');
    if 0 <= start < end {
        Some(line.subrange(start + 1, end))
    } else {
        None
    }
}

/// The signing identity in a list of identities: the quoted name on the first line that speaks
/// of a Developer ID for applications.
pub open spec fn signing_identity(list: Seq<char>) -> Option<Seq<char>> {
    match first_line_with(pieces(list, '\n'), "Developer ID Application"@) {
        Some(line) => quoted(line),
        None => None,
    }
}

/// What it takes to sign and notarize.
pub ghost struct CredentialsView {
    pub identity: Seq<char>,
    pub team_id: Seq<char>,
    pub apple_id: Seq<char>,
    pub password: Seq<char>,
}

/// The command that lists the signing identities.
pub open spec fn identities_command() -> CommandView {
    plain_command("security"@, seq!["find-identity"@, "-v"@, "-p"@, "codesigning"@])
}

/// The steps that sign a bundle and have it notarized: sign it, pack it, submit that archive,
/// remove it whatever came of it, and staple the ticket to the bundle.
pub open spec fn notarization_steps(
    style: PathStyle,
    bundle: Seq<char>,
    c: CredentialsView,
) -> Seq<StepView> {
    let temp = extension_replaced(style, bundle, "temp.zip"@);
    let sign = StepView::Run {
        command: plain_command(
            "codesign"@,
            seq!["--timestamp"@, "--options"@, "runtime"@, "--sign"@, c.identity, bundle],
        ),
        cleanup: None,
        failure: "failed to code sign "@ + bundle,
    };
    match (file_name_of(style, bundle), parent_of(style, bundle)) {
        (None, _) => seq![sign, StepView::Fail { message: "invalid bundle path"@ }],
        (Some(_), None) => seq![sign, StepView::Fail { message: "bundle has no parent"@ }],
        (Some(file), Some(dir)) => seq![
            sign,
            StepView::Run {
                command: command_in(dir, "zip"@, seq!["-r"@, temp, file]),
                cleanup: None,
                failure: "failed to create notarization archive"@,
            },
            StepView::Run {
                command: plain_command(
                    "xcrun"@,
                    seq![
                        "notarytool"@,
                        "submit"@,
                        "--wait"@,
                        "--no-progress"@,
                        "-f"@,
                        "json"@,
                        "--team-id"@,
                        c.team_id,
                        "--apple-id"@,
                        c.apple_id,
                        "--password"@,
                        c.password,
                        temp,
                    ],
                ),
                cleanup: Some(temp),
                failure: "notarization failed"@,
            },
            StepView::Run {
                command: plain_command("xcrun"@, seq!["stapler"@, "staple"@, bundle]),
                cleanup: None,
                failure: "stapling notarization failed"@,
            },
        ],
    }
}

/// The macOS platforms, in the order in which their bundles are signed.
pub open spec fn signed_platform(which: int) -> Seq<char> {
    if which == 0 {
        "macos-arm"@
    } else {
        "macos-intel"@
    }
}

/// The bundle that is signed for a macOS platform.
pub open spec fn signed_bundle(
    style: PathStyle,
    root: Seq<char>,
    app_name: Seq<char>,
    platform: Seq<char>,
) -> Seq<
    char,
> {
    joined(style, bundle_dir_of(style, root, apple_target(platform)->0), app_name + ".app"@)
}

/// The steps that sign, notarize and pack the bundle for a macOS platform.
pub open spec fn signing_steps(
    style: PathStyle,
    root: Seq<char>,
    app_name: Seq<char>,
    c: CredentialsView,
    platform: Seq<char>,
) -> Seq<StepView> {
    let bundle = signed_bundle(style, root, app_name, platform);
    notarization_steps(style, bundle, c) + zip_steps(
        style,
        "-r"@,
        "bundle"@,
        bundle,
        products(style, root),
        archive_name_of(app_name, platform),
    )
}

/// Where the archive for a platform first occurs in the list, or -1.
pub open spec fn entry_for(archives: Seq<(Seq<char>, Seq<char>)>, platform: Seq<char>) -> int
    decreases archives.len(),
{
    if archives.len() == 0 {
        -1
    } else if archives[0].0 == platform {
        0
    } else {
        let after = entry_for(archives.drop_first(), platform);
        if after < 0 {
            -1
        } else {
            after + 1
        }
    }
}

/// The list with another archive for the platform, where it has one for it.
pub open spec fn archive_replaced(
    archives: Seq<(Seq<char>, Seq<char>)>,
    platform: Seq<char>,
    archive: Seq<char>,
) -> Seq<(Seq<char>, Seq<char>)> {
    let at = entry_for(archives, platform);
    if at < 0 {
        archives
    } else {
        archives.update(at, (platform, archive))
    }
}

/// The identity in a list of identities.
pub fn identity_in(list: &str) -> (identity: Option<String>)
    ensures
        match identity {
            Some(identity) => signing_identity(list@) == Some(identity@),
            None => signing_identity(list@) is None,
        },
{
    let lines: Vec<String> = split(list, '\n');
    let ghost all = texts(lines@);
    assert(all.skip(0) =~= all);
    for i in 0..lines.len()
        invariant
            all == texts(lines@),
            all == pieces(list@, '\n'),
            first_line_with(all, "Developer ID Application"@) == first_line_with(
                all.skip(i as int),
                "Developer ID Application"@,
            ),
    {
        assert(all.skip(i as int)[0] == lines@[i as int]@);
        assert(all.skip(i as int).drop_first() =~= all.skip(i + 1));
        if contains(lines[i].as_str(), "Developer ID Application") {
            let chars: Vec<char> = chars_of(lines[i].as_str());
            let end: usize = after_last(&chars, '"');
            return match find_char(&chars, '"') {
                Some(start) => if start + 1 < end {
                    Some(string_of(&chars, start + 1, end - 1))
                } else {
                    None
                },
                None => None,
            };
        }
    }
    None
}

/// The identity to sign with, given how the command that lists the identities ended and what
/// that list says.
pub fn choose_identity(success: bool, list: &str) -> (identity: Result<String, String>)
    ensures
        match identity {
            Ok(identity) => success && signing_identity(list@) == Some(identity@),
            Err(message) => if success {
                signing_identity(list@) is None && message@
                    == "no Developer ID Application certificate found"@
            } else {
                message@ == "failed to find code signing identities"@
            },
        },
{
    if !success {
        return Err("failed to find code signing identities".to_owned());
    }
    match identity_in(list) {
        Some(identity) => Ok(identity),
        None => Err("no Developer ID Application certificate found".to_owned()),
    }
}

/// The steps that sign a bundle and have it notarized.
pub fn sign_and_notarize(
    style: PathStyle,
    bundle: &str,
    identity: &str,
    team_id: &str,
    apple_id: &str,
    app_password: &str,
) -> (steps: Vec<Step>)
    ensures
        steps_view(steps@) == notarization_steps(
            style,
            bundle@,
            CredentialsView {
                identity: identity@,
                team_id: team_id@,
                apple_id: apple_id@,
                password: app_password@,
            },
        ),
{
    let ghost c = CredentialsView {
        identity: identity@,
        team_id: team_id@,
        apple_id: apple_id@,
        password: app_password@,
    };
    let ghost expected = notarization_steps(style, bundle@, c);
    let mut steps: Vec<Step> = Vec::new();
    let sign = Command::new(
        "codesign",
        vec!["--timestamp", "--options", "runtime", "--sign", identity, bundle],
    );
    assert(sign@.args =~= expected[0]->command.args);
    steps.push(
        Step::Run {
            command: sign,
            cleanup: None,
            failure: "failed to code sign ".to_owned().concat(bundle),
        },
    );
    match (file_name(style, bundle), parent(style, bundle)) {
        (None, _) => {
            steps.push(Step::Fail { message: "invalid bundle path".to_owned() });
        },
        (Some(_), None) => {
            steps.push(Step::Fail { message: "bundle has no parent".to_owned() });
        },
        (Some(file), Some(dir)) => {
            let temp: String = with_extension(style, bundle, "temp.zip");
            let pack = Command::new("zip", vec!["-r", temp.as_str(), file.as_str()]).in_dir(
                dir.as_str(),
            );
            assert(pack@.args =~= expected[1]->command.args);
            steps.push(
                Step::Run {
                    command: pack,
                    cleanup: None,
                    failure: "failed to create notarization archive".to_owned(),
                },
            );
            let submit = Command::new(
                "xcrun",
                vec![
                    "notarytool",
                    "submit",
                    "--wait",
                    "--no-progress",
                    "-f",
                    "json",
                    "--team-id",
                    team_id,
                    "--apple-id",
                    apple_id,
                    "--password",
                    app_password,
                    temp.as_str(),
                ],
            );
            assert(submit@.args =~= expected[2]->command.args);
            steps.push(
                Step::Run {
                    command: submit,
                    cleanup: Some(temp),
                    failure: "notarization failed".to_owned(),
                },
            );
            let staple = Command::new("xcrun", vec!["stapler", "staple", bundle]);
            assert(staple@.args =~= expected[3]->command.args);
            steps.push(
                Step::Run {
                    command: staple,
                    cleanup: None,
                    failure: "stapling notarization failed".to_owned(),
                },
            );
        },
    }
    assert(steps_view(steps@) =~= expected);
    steps
}

/// What is done to sign a release.
pub ghost enum SignStageView {
    /// The signing identities are being listed.
    Identifying,
    /// The variables of the notarization account are being read, these so far.
    Asking { identity: Seq<char>, values: Seq<Seq<char>> },
    /// The bundle for the platform is being signed, notarized and packed.
    Signing { credentials: CredentialsView, which: int, script: ScriptView },
    Failed { message: Seq<char> },
    Finished,
}

/// Where a signing stands.
pub ghost struct SignView {
    pub style: PathStyle,
    pub root: Seq<char>,
    pub app_name: Seq<char>,
    pub platforms: Seq<Seq<char>>,
    pub archives: Seq<(Seq<char>, Seq<char>)>,
    pub stage: SignStageView,
}

/// What there is to do.
pub ghost enum SignProgressView {
    Capture(CommandView),
    ReadVariable(Seq<char>),
    Act(ActionView),
    Failed(Seq<char>),
    Finished(Seq<(Seq<char>, Seq<char>)>),
}

/// The variables of the notarization account, in the order in which they are read.
pub open spec fn account_variables() -> Seq<Seq<char>> {
    seq!["APPLE_TEAM_ID"@, "APPLE_ID"@, "APPLE_APP_SPECIFIC_PASSWORD"@]
}

/// A signing that goes on to the next platform from `which` on that has been asked for.
pub open spec fn sign_at(s: SignView, credentials: CredentialsView, which: int) -> SignView
    decreases 2 - which,
{
    if which >= 2 {
        SignView { stage: SignStageView::Finished, ..s }
    } else if s.platforms.contains(signed_platform(which)) {
        let steps = signing_steps(s.style, s.root, s.app_name, credentials, signed_platform(which));
        SignView {
            stage: SignStageView::Signing { credentials, which, script: fresh(steps) },
            ..s
        }
    } else {
        sign_at(s, credentials, which + 1)
    }
}

/// What there is to do where the signing stands.
pub open spec fn sign_progress(s: SignView) -> SignProgressView {
    match s.stage {
        SignStageView::Identifying => SignProgressView::Capture(identities_command()),
        SignStageView::Asking { values, .. } => SignProgressView::ReadVariable(
            account_variables()[values.len() as int],
        ),
        SignStageView::Signing { script, .. } => SignProgressView::Act(
            script_progress(script)->Act_0,
        ),
        SignStageView::Failed { message } => SignProgressView::Failed(message),
        SignStageView::Finished => SignProgressView::Finished(s.archives),
    }
}

/// Where the signing stands after the identities have been listed.
pub open spec fn sign_identified(s: SignView, success: bool, list: Seq<char>) -> SignView {
    let stage = if !success {
        SignStageView::Failed { message: "failed to find code signing identities"@ }
    } else {
        match signing_identity(list) {
            Some(identity) => SignStageView::Asking { identity, values: Seq::empty() },
            None => SignStageView::Failed {
                message: "no Developer ID Application certificate found"@,
            },
        }
    };
    SignView { stage, ..s }
}

/// Where the signing stands after a variable has been read.
pub open spec fn sign_told(s: SignView, value: Seq<char>) -> SignView {
    let identity = s.stage->Asking_identity;
    let values = s.stage->Asking_values.push(value);
    if values.len() < 3 {
        SignView { stage: SignStageView::Asking { identity, values }, ..s }
    } else {
        let credentials = CredentialsView {
            identity,
            team_id: values[0],
            apple_id: values[1],
            password: values[2],
        };
        sign_at(s, credentials, 0)
    }
}

/// The answer is one to what the signing asks for.
pub open spec fn sign_answers(s: SignView, answer: Answer) -> bool {
    s.stage matches SignStageView::Signing { script, .. } && answers(script, answer)
}

/// Where the signing stands after the answer.
pub open spec fn sign_next(s: SignView, answer: Answer) -> SignView {
    match s.stage {
        SignStageView::Signing { credentials, which, script } => {
            let script = script_next(script, answer);
            match script_progress(script) {
                ProgressView::Act(_) => SignView {
                    stage: SignStageView::Signing { credentials, which, script },
                    ..s
                },
                ProgressView::Failed(message) => SignView {
                    stage: SignStageView::Failed { message },
                    ..s
                },
                ProgressView::Finished => {
                    let platform = signed_platform(which);
                    let archive = archive_path_of(s.style, s.root, s.app_name, platform);
                    sign_at(
                        SignView {
                            archives: archive_replaced(s.archives, platform, archive),
                            ..s
                        },
                        credentials,
                        which + 1,
                    )
                },
            }
        },
        _ => s,
    }
}

/// A signing has something to do, or has ended.
pub open spec fn sign_sound(s: SignView) -> bool {
    match s.stage {
        SignStageView::Asking { values, .. } => values.len() < 3,
        SignStageView::Signing { which, script, .. } => 0 <= which < 2 && script_sound(script)
            && script_progress(script) is Act,
        _ => true,
    }
}

#[derive(Debug)]
struct Credentials {
    identity: String,
    team_id: String,
    apple_id: String,
    password: String,
}

impl View for Credentials {
    type V = CredentialsView;

    closed spec fn view(&self) -> CredentialsView {
        CredentialsView {
            identity: self.identity@,
            team_id: self.team_id@,
            apple_id: self.apple_id@,
            password: self.password@,
        }
    }
}

#[derive(Debug)]
enum SignStage {
    Identifying,
    Asking { identity: String, values: Vec<String> },
    Signing { credentials: Credentials, which: usize, script: Script },
    Failed { message: String },
    Finished,
}

impl View for SignStage {
    type V = SignStageView;

    closed spec fn view(&self) -> SignStageView {
        match self {
            SignStage::Identifying => SignStageView::Identifying,
            SignStage::Asking { identity, values } => SignStageView::Asking {
                identity: identity@,
                values: texts(values@),
            },
            SignStage::Signing { credentials, which, script } => SignStageView::Signing {
                credentials: credentials@,
                which: *which as int,
                script: script@,
            },
            SignStage::Failed { message } => SignStageView::Failed { message: message@ },
            SignStage::Finished => SignStageView::Finished,
        }
    }
}

/// A signing on its way.
#[derive(Debug)]
pub struct SignRun {
    style: PathStyle,
    root: String,
    app_name: String,
    platforms: Vec<String>,
    archives: Vec<(String, String)>,
    stage: SignStage,
}

impl View for SignRun {
    type V = SignView;

    closed spec fn view(&self) -> SignView {
        SignView {
            style: self.style,
            root: self.root@,
            app_name: self.app_name@,
            platforms: texts(self.platforms@),
            archives: archives_view(self.archives@),
            stage: self.stage@,
        }
    }
}

/// What there is to do.
#[derive(Debug)]
pub enum SignProgress {
    /// Run the command, and tell how it ended and what it wrote to its standard output.
    Capture(Command),
    /// Read the variable of the environment, and tell its value.
    ReadVariable(String),
    /// Do this, and tell what came of it.
    Act(Action),
    /// Nothing: the signing has failed, and this is why.
    Failed(String),
    /// Nothing: these are the archives, each behind its platform.
    Finished(Vec<(String, String)>),
}

impl View for SignProgress {
    type V = SignProgressView;

    open spec fn view(&self) -> SignProgressView {
        match self {
            SignProgress::Capture(command) => SignProgressView::Capture(command@),
            SignProgress::ReadVariable(name) => SignProgressView::ReadVariable(name@),
            SignProgress::Act(action) => SignProgressView::Act(action@),
            SignProgress::Failed(message) => SignProgressView::Failed(message@),
            SignProgress::Finished(archives) => SignProgressView::Finished(
                archives_view(archives@),
            ),
        }
    }
}

/// Whether the platform is among the platforms.
fn is_among(platforms: &Vec<String>, platform: &str) -> (yes: bool)
    ensures
        yes == texts(platforms@).contains(platform@),
{
    for i in 0..platforms.len()
        invariant
            forall|j: int| 0 <= j < i ==> (#[trigger] platforms@[j])@ != platform@,
    {
        if text_eq(platforms[i].as_str(), platform) {
            assert(texts(platforms@)[i as int] == platform@);
            return true;
        }
    }
    assert forall|j: int| 0 <= j < texts(platforms@).len() implies texts(platforms@)[j]
        != platform@ by {
        assert(platforms@[j]@ != platform@);
    }
    false
}

proof fn lemma_entry_for(archives: Seq<(Seq<char>, Seq<char>)>, platform: Seq<char>, at: int)
    requires
        0 <= at <= archives.len(),
        at < archives.len() ==> archives[at].0 == platform,
        forall|j: int| 0 <= j < at ==> (#[trigger] archives[j]).0 != platform,
    ensures
        entry_for(archives, platform) == if at < archives.len() {
            at
        } else {
            -1
        },
    decreases archives.len(),
{
    if archives.len() > 0 && at > 0 {
        let rest = archives.drop_first();
        assert(archives[0].0 != platform);
        assert forall|j: int| 0 <= j < at - 1 implies (#[trigger] rest[j]).0 != platform by {
            assert(archives[j + 1].0 != platform);
        }
        lemma_entry_for(rest, platform, at - 1);
    }
}

/// Puts another archive for the platform into the list, where it has one for it.
fn replace_archive(archives: &mut Vec<(String, String)>, platform: &str, archive: String)
    ensures
        archives_view(final(archives)@) == archive_replaced(
            archives_view(old(archives)@),
            platform@,
            archive@,
        ),
{
    let ghost before = archives_view(archives@);
    let count: usize = archives.len();
    for i in 0..count
        invariant
            count == archives.len(),
            before == archives_view(archives@),
            before == archives_view(old(archives)@),
            forall|j: int| 0 <= j < i ==> (#[trigger] before[j]).0 != platform@,
    {
        assert(before[i as int] == (archives@[i as int].0@, archives@[i as int].1@));
        if text_eq(archives[i].0.as_str(), platform) {
            proof {
                lemma_entry_for(before, platform@, i as int);
            }
            let ghost new = archive@;
            archives.set(i, (platform.to_owned(), archive));
            assert(archives_view(archives@) =~= before.update(i as int, (platform@, new)));
            return;
        }
    }
    proof {
        lemma_entry_for(before, platform@, before.len() as int);
    }
}

/// Starts to sign the macOS bundles of a release whose archives are `archives`.
pub fn sign_macos_archives(
    style: PathStyle,
    root: &str,
    app_name: &str,
    platforms: Vec<String>,
    archives: Vec<(String, String)>,
) -> (run: SignRun)
    ensures
        run@ == (SignView {
            style,
            root: root@,
            app_name: app_name@,
            platforms: texts(platforms@),
            archives: archives_view(archives@),
            stage: SignStageView::Identifying,
        }),
{
    SignRun {
        style,
        root: root.to_owned(),
        app_name: app_name.to_owned(),
        platforms,
        archives,
        stage: SignStage::Identifying,
    }
}

impl SignRun {
    #[verifier::type_invariant]
    pub open spec fn sound(self) -> bool {
        sign_sound(self@)
    }

    /// What there is to do.
    pub fn progress(&self) -> (progress: SignProgress)
        ensures
            progress@ == sign_progress(self@),
    {
        proof {
            use_type_invariant(self);
        }
        match &self.stage {
            SignStage::Identifying => {
                let command = Command::new(
                    "security",
                    vec!["find-identity", "-v", "-p", "codesigning"],
                );
                assert(command@.args =~= identities_command().args);
                SignProgress::Capture(command)
            },
            SignStage::Asking { values, .. } => {
                let name: &str = if values.len() == 0 {
                    "APPLE_TEAM_ID"
                } else if values.len() == 1 {
                    "APPLE_ID"
                } else {
                    "APPLE_APP_SPECIFIC_PASSWORD"
                };
                SignProgress::ReadVariable(name.to_owned())
            },
            SignStage::Signing { script, .. } => match script.progress() {
                Progress::Act(action) => SignProgress::Act(action),
                _ => unreached(),
            },
            SignStage::Failed { message } => SignProgress::Failed(message.clone()),
            SignStage::Finished => SignProgress::Finished(copy_archives(&self.archives)),
        }
    }

    /// Goes on, now that the identities have been listed, with this text.
    pub fn identified_by(self, success: bool, list: &str) -> (run: Self)
        requires
            self@.stage is Identifying,
        ensures
            run@ == sign_identified(self@, success, list@),
    {
        let SignRun { style, root, app_name, platforms, archives, stage: _ } = self;
        let stage: SignStage = match choose_identity(success, list) {
            Ok(identity) => {
                let values: Vec<String> = Vec::new();
                assert(texts(values@) =~= Seq::empty());
                SignStage::Asking { identity, values }
            },
            Err(message) => SignStage::Failed { message },
        };
        SignRun { style, root, app_name, platforms, archives, stage }
    }

    /// Goes on, now that the command that lists the identities has ended, having written
    /// `stdout`.
    pub fn identified(self, success: bool, stdout: &Vec<u8>) -> (run: Self)
        requires
            self@.stage is Identifying,
        ensures
            run@ == sign_identified(self@, success, lossy_text(stdout@)),
    {
        let list: String = from_utf8_lossy(stdout.as_slice());
        self.identified_by(success, list.as_str())
    }

    /// Goes on, now that the variable has been read.
    pub fn told(self, value: String) -> (run: Self)
        requires
            self@.stage is Asking,
        ensures
            run@ == sign_told(self@, value@),
    {
        proof {
            use_type_invariant(&self);
        }
        let SignRun { style, root, app_name, platforms, archives, stage } = self;
        let (identity, values) = match stage {
            SignStage::Asking { identity, values } => (identity, values),
            _ => unreached(),
        };
        let mut values: Vec<String> = values;
        let ghost before = texts(values@);
        let ghost last = value@;
        values.push(value);
        assert(texts(values@) =~= before.push(last));
        if values.len() < 3 {
            let stage = SignStage::Asking { identity, values };
            SignRun { style, root, app_name, platforms, archives, stage }
        } else {
            let credentials = Credentials {
                identity,
                team_id: values[0].clone(),
                apple_id: values[1].clone(),
                password: values[2].clone(),
            };
            proof {
                lemma_stage_is_forgotten(self@, credentials@, 0);
            }
            SignRun::at(style, root, app_name, platforms, archives, credentials, 0)
        }
    }

    /// Goes on, now that what was to be done has been done, with this answer.
    pub fn advance(self, answer: Answer) -> (run: Self)
        requires
            sign_answers(self@, answer),
        ensures
            run@ == sign_next(self@, answer),
    {
        proof {
            use_type_invariant(&self);
        }
        let SignRun { style, root, app_name, platforms, archives, stage } = self;
        match stage {
            SignStage::Signing { credentials, which, script } => {
                let mut script = script;
                script.advance(answer);
                match script.progress() {
                    Progress::Act(_) => {
                        let stage = SignStage::Signing { credentials, which, script };
                        SignRun { style, root, app_name, platforms, archives, stage }
                    },
                    Progress::Failed(message) => {
                        let stage = SignStage::Failed { message };
                        SignRun { style, root, app_name, platforms, archives, stage }
                    },
                    Progress::Finished => {
                        let platform: &str = if which == 0 {
                            "macos-arm"
                        } else {
                            "macos-intel"
                        };
                        let products: String = join(style, root.as_str(), "target");
                        let name: String = archive_name(app_name.as_str(), platform);
                        let mut archives = archives;
                        let archive: String = join(style, products.as_str(), name.as_str());
                        replace_archive(&mut archives, platform, archive);
                        proof {
                            lemma_stage_is_forgotten(
                                SignView { archives: archives_view(archives@), ..self@ },
                                credentials@,
                                which + 1,
                            );
                        }
                        SignRun::at(
                            style,
                            root,
                            app_name,
                            platforms,
                            archives,
                            credentials,
                            which + 1,
                        )
                    },
                }
            },
            _ => unreached(),
        }
    }

    /// The signing that goes on to the next platform from `which` on that has been asked for.
    fn at(
        style: PathStyle,
        root: String,
        app_name: String,
        platforms: Vec<String>,
        archives: Vec<(String, String)>,
        credentials: Credentials,
        which: usize,
    ) -> (run: Self)
        requires
            which <= 2,
        ensures
            run@ == sign_at(
                SignView {
                    style,
                    root: root@,
                    app_name: app_name@,
                    platforms: texts(platforms@),
                    archives: archives_view(archives@),
                    stage: SignStageView::Finished,
                },
                credentials@,
                which as int,
            ),
        decreases 2 - which,
    {
        if which >= 2 {
            let stage = SignStage::Finished;
            return SignRun { style, root, app_name, platforms, archives, stage };
        }
        let platform: &str = if which == 0 {
            "macos-arm"
        } else {
            "macos-intel"
        };
        if !is_among(&platforms, platform) {
            return SignRun::at(style, root, app_name, platforms, archives, credentials, which + 1);
        }
        let target: &str = if which == 0 {
            "aarch64-apple-darwin"
        } else {
            "x86_64-apple-darwin"
        };
        proof {
            lemma_signed_target(which as int);
        }
        let dir: String = bundle_dir(style, root.as_str(), target);
        let bundle: String = join(style, dir.as_str(), app_name.clone().concat(".app").as_str());
        let mut steps: Vec<Step> = sign_and_notarize(
            style,
            bundle.as_str(),
            credentials.identity.as_str(),
            credentials.team_id.as_str(),
            credentials.apple_id.as_str(),
            credentials.password.as_str(),
        );
        let ghost notarizing = steps_view(steps@);
        let name: String = archive_name(app_name.as_str(), platform);
        let (mut pack, _) = zip_bundle(
            style,
            bundle.as_str(),
            join(style, root.as_str(), "target").as_str(),
            name.as_str(),
        );
        let ghost packing = steps_view(pack@);
        steps.append(&mut pack);
        assert(steps_view(steps@) =~= notarizing + packing);
        let script = Script::new(steps);
        assert(script@.steps == signing_steps(
            style,
            root@,
            app_name@,
            credentials@,
            signed_platform(which as int),
        ));
        assert(script@.steps[0] == notarizing[0]);
        SignRun {
            style,
            root,
            app_name,
            platforms,
            archives,
            stage: SignStage::Signing { credentials, which, script },
        }
    }
}

/// Where a signing goes on does not depend on where it stood.
proof fn lemma_stage_is_forgotten(s: SignView, credentials: CredentialsView, which: int)
    requires
        0 <= which <= 2,
    ensures
        sign_at(s, credentials, which) == sign_at(
            SignView { stage: SignStageView::Finished, ..s },
            credentials,
            which,
        ),
{
    reveal_with_fuel(sign_at, 3);
}

/// The targets of the two macOS platforms.
proof fn lemma_signed_target(which: int)
    ensures
        apple_target(signed_platform(which)) == Some(
            if which == 0 {
                "aarch64-apple-darwin"@
            } else {
                "x86_64-apple-darwin"@
            },
        ),
{
    reveal_strlit("macos-arm");
    reveal_strlit("macos-intel");
    assert("macos-arm"@.len() == 9);
    assert("macos-intel"@.len() == 11);
}

/// The world in which a release is signed: how the listing of the identities ends and what it
/// says, what the variables hold, and what the steps for the platform learn.
pub ghost struct SignWorld {
    pub listed: bool,
    pub list: Seq<char>,
    pub variables: spec_fn(int) -> Seq<char>,
    pub signing: spec_fn(int) -> spec_fn(int) -> bool,
}

/// The actions as things to do.
pub open spec fn sign_acts(actions: Seq<ActionView>) -> Seq<SignProgressView> {
    actions.map_values(|action: ActionView| SignProgressView::Act(action))
}

/// How far a signing is from its end.
pub open spec fn sign_rank(stage: SignStageView) -> int {
    match stage {
        SignStageView::Identifying => 6,
        SignStageView::Asking { values, .. } => 5 - values.len(),
        SignStageView::Signing { which, .. } => 2 - which,
        _ => 0,
    }
}

/// A bound on the actions that are left for the platform.
pub open spec fn sign_actions_left(stage: SignStageView) -> int {
    match stage {
        SignStageView::Signing { script, .. } => most_actions_left(script),
        _ => 0,
    }
}

/// Where the signing stands after what there is to do has been done in that world.
pub open spec fn sign_after(s: SignView, world: SignWorld) -> SignView {
    match s.stage {
        SignStageView::Identifying => sign_identified(s, world.listed, world.list),
        SignStageView::Asking { values, .. } => sign_told(
            s,
            (world.variables)(values.len() as int),
        ),
        SignStageView::Signing { which, script, .. } => sign_next(
            s,
            world_answer(script, (world.signing)(which)),
        ),
        _ => s,
    }
}

/// What a signing does from where it stands, in that world, and how it ends.
#[verifier::opaque]
pub open spec fn sign_driven(s: SignView, world: SignWorld) -> (
    Seq<SignProgressView>,
    Result<Seq<(Seq<char>, Seq<char>)>, Seq<char>>,
)
    decreases sign_rank(s.stage), sign_actions_left(s.stage),
    when sign_sound(s)
    via sign_comes_to_an_end
{
    match s.stage {
        SignStageView::Failed { message } => (Seq::empty(), Err(message)),
        SignStageView::Finished => (Seq::empty(), Ok(s.archives)),
        _ => {
            let (rest, end) = sign_driven(sign_after(s, world), world);
            (seq![sign_progress(s)] + rest, end)
        },
    }
}

#[via_fn]
proof fn sign_comes_to_an_end(s: SignView, world: SignWorld) {
    lemma_sign_after_is_sound(s, world);
}

/// What signing the bundles for the platforms from `which` on takes in that world: for each that
/// has been asked for what its steps do, up to the first that fails.
pub open spec fn signing_course(
    s: SignView,
    credentials: CredentialsView,
    world: SignWorld,
    which: int,
) -> (Seq<SignProgressView>, Result<Seq<(Seq<char>, Seq<char>)>, Seq<char>>)
    decreases 2 - which,
{
    let platform = signed_platform(which);
    if which >= 2 {
        (Seq::empty(), Ok(s.archives))
    } else if !s.platforms.contains(platform) {
        signing_course(s, credentials, world, which + 1)
    } else {
        let steps = signing_steps(s.style, s.root, s.app_name, credentials, platform);
        let learnt = (world.signing)(which);
        let done = sign_acts(script_effects(steps, learnt, 0));
        match script_failure(steps, learnt, 0) {
            Some(message) => (done, Err(message)),
            None => {
                let archive = archive_path_of(s.style, s.root, s.app_name, platform);
                let archives = archive_replaced(s.archives, platform, archive);
                let (rest, end) = signing_course(
                    SignView { archives, ..s },
                    credentials,
                    world,
                    which + 1,
                );
                (done + rest, end)
            },
        }
    }
}

/// What signing a release takes in that world: the identities are listed, then the variables
/// are read, then the bundles are signed.
pub open spec fn sign_course(s: SignView, world: SignWorld) -> (
    Seq<SignProgressView>,
    Result<Seq<(Seq<char>, Seq<char>)>, Seq<char>>,
) {
    let listing = seq![SignProgressView::Capture(identities_command())];
    if !world.listed {
        (listing, Err("failed to find code signing identities"@))
    } else {
        match signing_identity(world.list) {
            None => (listing, Err("no Developer ID Application certificate found"@)),
            Some(identity) => {
                let reading = account_variables().map_values(
                    |name: Seq<char>| SignProgressView::ReadVariable(name),
                );
                let credentials = CredentialsView {
                    identity,
                    team_id: (world.variables)(0),
                    apple_id: (world.variables)(1),
                    password: (world.variables)(2),
                };
                let (rest, end) = signing_course(s, credentials, world, 0);
                (listing + reading + rest, end)
            },
        }
    }
}

/// In every world a signing lists the identities, reads the variables of the account, and then
/// signs, notarizes and packs the bundle for one macOS platform after the other, up to the first
/// failure.
pub proof fn a_signing_goes_platform_by_platform(s: SignView, world: SignWorld)
    requires
        s.stage is Identifying,
    ensures
        sign_driven(s, world) == sign_course(s, world),
{
    let listing = seq![SignProgressView::Capture(identities_command())];
    let next = sign_identified(s, world.listed, world.list);
    lemma_sign_step(s, world);
    if world.listed && signing_identity(world.list) is Some {
        let identity = signing_identity(world.list)->0;
        lemma_reading_driven(next, world, identity);
        let credentials = told_credentials(world, identity);
        lemma_stage_is_forgotten(s, credentials, 0);
        lemma_stage_is_forgotten(next, credentials, 0);
        lemma_signing_driven(s, credentials, world, 0);
        let (rest, end) = signing_course(s, credentials, world, 0);
        let names = account_variables();
        let reading = names.map_values(|name: Seq<char>| SignProgressView::ReadVariable(name));
        assert(listing + (reading + rest) =~= listing + reading + rest);
    } else {
        lemma_sign_ended(next, world);
        assert(listing + Seq::<SignProgressView>::empty() =~= listing);
    }
}

/// The credentials that the identity and the variables make.
spec fn told_credentials(world: SignWorld, identity: Seq<char>) -> CredentialsView {
    CredentialsView {
        identity,
        team_id: (world.variables)(0),
        apple_id: (world.variables)(1),
        password: (world.variables)(2),
    }
}

/// A signing that has not ended does the next thing.
proof fn lemma_sign_step(s: SignView, world: SignWorld)
    requires
        sign_sound(s),
        s.stage !is Failed,
        s.stage !is Finished,
    ensures
        sign_sound(sign_after(s, world)),
        sign_driven(s, world) == ({
            let (rest, end) = sign_driven(sign_after(s, world), world);
            (seq![sign_progress(s)] + rest, end)
        }),
{
    reveal_with_fuel(sign_driven, 1);
    lemma_sign_after_is_sound(s, world);
}

/// A signing that has ended does nothing more.
proof fn lemma_sign_ended(s: SignView, world: SignWorld)
    requires
        s.stage is Failed || s.stage is Finished,
    ensures
        sign_driven(s, world) == (
            Seq::<SignProgressView>::empty(),
            match s.stage {
                SignStageView::Failed { message } => Err(message),
                _ => Ok(s.archives),
            },
        ),
{
    reveal_with_fuel(sign_driven, 1);
}

/// The signing that is told its next variable.
proof fn lemma_told(s: SignView, world: SignWorld, identity: Seq<char>, values: Seq<Seq<char>>)
    requires
        s.stage == (SignStageView::Asking { identity, values }),
        values.len() < 3,
        forall|i: int| 0 <= i < values.len() ==> values[i] == (world.variables)(i),
    ensures
        ({
            let next = sign_after(s, world);
            let told = values.push((world.variables)(values.len() as int));
            next == if values.len() < 2 {
                SignView { stage: SignStageView::Asking { identity, values: told }, ..s }
            } else {
                sign_at(s, told_credentials(world, identity), 0)
            }
        }),
{
    let told = values.push((world.variables)(values.len() as int));
    if values.len() == 2 {
        assert(told[0] == (world.variables)(0));
        assert(told[1] == (world.variables)(1));
        assert(told[2] == (world.variables)(2));
    }
}

/// A signing reads the variables of the account, and then signs.
proof fn lemma_reading_driven(s: SignView, world: SignWorld, identity: Seq<char>)
    requires
        s.stage == (SignStageView::Asking { identity, values: Seq::empty() }),
    ensures
        sign_driven(s, world) == ({
            let signing = sign_at(s, told_credentials(world, identity), 0);
            let (rest, end) = sign_driven(signing, world);
            let reading = account_variables().map_values(
                |name: Seq<char>| SignProgressView::ReadVariable(name),
            );
            (reading + rest, end)
        }),
{
    let none: Seq<Seq<char>> = Seq::empty();
    let one = none.push((world.variables)(0));
    let two = one.push((world.variables)(1));
    let second = SignView { stage: SignStageView::Asking { identity, values: one }, ..s };
    let third = SignView { stage: SignStageView::Asking { identity, values: two }, ..s };
    lemma_told(s, world, identity, none);
    lemma_told(second, world, identity, one);
    lemma_told(third, world, identity, two);
    lemma_sign_step(s, world);
    lemma_sign_step(second, world);
    lemma_sign_step(third, world);
    let credentials = told_credentials(world, identity);
    lemma_stage_is_forgotten(s, credentials, 0);
    lemma_stage_is_forgotten(third, credentials, 0);
    let rest = sign_driven(sign_at(s, credentials, 0), world).0;
    let names = account_variables();
    let reading = names.map_values(|name: Seq<char>| SignProgressView::ReadVariable(name));
    assert(seq![sign_progress(s)] + (seq![sign_progress(second)] + (seq![sign_progress(third)]
        + rest)) =~= reading + rest);
}

/// Whatever happens, a signing stays sound.
pub proof fn a_signing_stays_sound(
    s: SignView,
    success: bool,
    list: Seq<char>,
    value: Seq<char>,
    answer: Answer,
)
    requires
        sign_sound(s),
    ensures
        s.stage is Identifying ==> sign_sound(sign_identified(s, success, list)),
        s.stage is Asking ==> sign_sound(sign_told(s, value)),
        sign_answers(s, answer) ==> sign_sound(sign_next(s, answer)),
{
    match s.stage {
        SignStageView::Asking { identity, values } => {
            let values = values.push(value);
            let credentials = CredentialsView {
                identity,
                team_id: values[0],
                apple_id: values[1],
                password: values[2],
            };
            lemma_at_is_sound(s, credentials, 0);
        },
        SignStageView::Signing { credentials, which, .. } => {
            let platform = signed_platform(which);
            let archive = archive_path_of(s.style, s.root, s.app_name, platform);
            lemma_at_is_sound(
                SignView { archives: archive_replaced(s.archives, platform, archive), ..s },
                credentials,
                which + 1,
            );
        },
        _ => {},
    }
}

proof fn lemma_at_is_sound(s: SignView, credentials: CredentialsView, which: int)
    requires
        0 <= which <= 2,
    ensures
        sign_sound(sign_at(s, credentials, which)),
        sign_rank(sign_at(s, credentials, which).stage) <= 2 - which,
{
    reveal_with_fuel(sign_at, 3);
    let first = signing_steps(s.style, s.root, s.app_name, credentials, signed_platform(0));
    let second = signing_steps(s.style, s.root, s.app_name, credentials, signed_platform(1));
    assert(first[0] is Run);
    assert(second[0] is Run);
}

pub(crate) proof fn lemma_sign_after_is_sound(s: SignView, world: SignWorld)
    requires
        sign_sound(s),
    ensures
        sign_sound(sign_after(s, world)),
        s.stage !is Failed && s.stage !is Finished ==> {
            let next = sign_after(s, world).stage;
            ||| sign_rank(next) < sign_rank(s.stage)
            ||| sign_rank(next) == sign_rank(s.stage) && 0 <= sign_actions_left(next)
                < sign_actions_left(s.stage)
        },
        0 <= sign_rank(sign_after(s, world).stage),
{
    match s.stage {
        SignStageView::Identifying => a_signing_stays_sound(
            s,
            world.listed,
            world.list,
            Seq::empty(),
            Answer::Done,
        ),
        SignStageView::Asking { identity, values } => {
            let value = (world.variables)(values.len() as int);
            a_signing_stays_sound(s, true, Seq::empty(), value, Answer::Done);
            let values = values.push(value);
            let credentials = CredentialsView {
                identity,
                team_id: values[0],
                apple_id: values[1],
                password: values[2],
            };
            lemma_at_is_sound(s, credentials, 0);
        },
        SignStageView::Signing { credentials, which, script } => {
            let answer = world_answer(script, (world.signing)(which));
            a_signing_stays_sound(s, true, Seq::empty(), Seq::empty(), answer);
            let platform = signed_platform(which);
            let archive = archive_path_of(s.style, s.root, s.app_name, platform);
            lemma_at_is_sound(
                SignView { archives: archive_replaced(s.archives, platform, archive), ..s },
                credentials,
                which + 1,
            );
        },
        _ => {},
    }
}

/// A signing does what the script for the platform does, and then goes on to the next platform.
proof fn lemma_script_driven(s: SignView, world: SignWorld)
    requires
        sign_sound(s),
        s.stage is Signing,
    ensures
        ({
            let credentials = s.stage->credentials;
            let which = s.stage->which;
            let script = s.stage->script;
            let (done, failure) = script_driven(script, (world.signing)(which));
            let platform = signed_platform(which);
            let archive = archive_path_of(s.style, s.root, s.app_name, platform);
            let next = sign_at(
                SignView { archives: archive_replaced(s.archives, platform, archive), ..s },
                credentials,
                which + 1,
            );
            let (rest, end) = sign_driven(next, world);
            sign_driven(s, world) == match failure {
                Some(message) => (sign_acts(done), Err(message)),
                None => (sign_acts(done) + rest, end),
            }
        }),
    decreases sign_actions_left(s.stage),
{
    let script = s.stage->script;
    let which = s.stage->which;
    let w = (world.signing)(which);
    let next = sign_after(s, world);
    lemma_sign_after_is_sound(s, world);
    lemma_sign_step(s, world);
    let after = script_next(script, world_answer(script, w));
    let action = script_progress(script)->Act_0;
    assert(script_sound(after));
    let (done, failure) = script_driven(after, w);
    assert(script_driven(script, w) == (seq![action] + done, failure));
    assert(sign_acts(seq![action] + done) =~= seq![SignProgressView::Act(action)] + sign_acts(
        done,
    ));
    match script_progress(after) {
        ProgressView::Act(_) => {
            lemma_script_driven(next, world);
            let platform = signed_platform(which);
            let archive = archive_path_of(s.style, s.root, s.app_name, platform);
            let moved = SignView {
                archives: archive_replaced(s.archives, platform, archive),
                ..s
            };
            lemma_stage_is_forgotten(moved, s.stage->credentials, which + 1);
            lemma_stage_is_forgotten(
                SignView { stage: next.stage, ..moved },
                s.stage->credentials,
                which + 1,
            );
            let (rest, end) = sign_driven(
                sign_at(moved, s.stage->credentials, which + 1),
                world,
            );
            assert(seq![SignProgressView::Act(action)] + (sign_acts(done) + rest) =~= sign_acts(
                seq![action] + done,
            ) + rest);
        },
        ProgressView::Failed(message) => {
            assert(sign_acts(done) =~= Seq::empty());
            lemma_sign_ended(next, world);
        },
        ProgressView::Finished => {
            assert(sign_acts(done) =~= Seq::empty());
        },
    }
}

proof fn lemma_signing_driven(
    s: SignView,
    credentials: CredentialsView,
    world: SignWorld,
    which: int,
)
    requires
        0 <= which <= 2,
    ensures
        sign_driven(sign_at(s, credentials, which), world) == signing_course(
            s,
            credentials,
            world,
            which,
        ),
    decreases 2 - which,
{
    lemma_at_is_sound(s, credentials, which);
    if which >= 2 {
        lemma_sign_ended(sign_at(s, credentials, which), world);
    } else {
        let platform = signed_platform(which);
        if s.platforms.contains(platform) {
            let at = sign_at(s, credentials, which);
            let archive = archive_path_of(s.style, s.root, s.app_name, platform);
            let moved = SignView {
                archives: archive_replaced(s.archives, platform, archive),
                ..s
            };
            lemma_signing_driven(moved, credentials, world, which + 1);
            lemma_stage_is_forgotten(moved, credentials, which + 1);
            lemma_stage_is_forgotten(
                SignView { stage: at.stage, ..moved },
                credentials,
                which + 1,
            );
            lemma_script_driven(at, world);
            a_script_stops_at_the_first_failure(
                signing_steps(s.style, s.root, s.app_name, credentials, platform),
                (world.signing)(which),
            );
        } else {
            lemma_signing_driven(s, credentials, world, which + 1);
        }
    }
}

proof fn lemma_entry_is_for_the_platform(
    archives: Seq<(Seq<char>, Seq<char>)>,
    platform: Seq<char>,
)
    ensures
        -1 <= entry_for(archives, platform) < archives.len(),
        entry_for(archives, platform) >= 0 ==> archives[entry_for(archives, platform)].0
            == platform,
    decreases archives.len(),
{
    if archives.len() > 0 && archives[0].0 != platform {
        lemma_entry_is_for_the_platform(archives.drop_first(), platform);
    }
}

/// Signing neither adds nor drops an archive, nor gives it to another platform, and it changes
/// only archives for macOS: at each step the list keeps its platforms and their order.
pub proof fn signing_keeps_the_platforms(s: SignView, answer: Answer)
    requires
        sign_sound(s),
        sign_answers(s, answer),
    ensures
        sign_next(s, answer).archives.len() == s.archives.len(),
        forall|i: int|
            0 <= i < s.archives.len() ==> {
                let (platform, archive) = #[trigger] sign_next(s, answer).archives[i];
                &&& platform == s.archives[i].0
                &&& archive != s.archives[i].1 ==> platform == "macos-arm"@ || platform
                    == "macos-intel"@
            },
{
    reveal_with_fuel(sign_at, 3);
    lemma_entry_is_for_the_platform(s.archives, signed_platform(s.stage->which));
}

/// Archives that are where they are looked for are there after the signing too: the list stays
/// as it is.
pub proof fn signing_leaves_archives_where_they_are(s: SignView, answer: Answer)
    requires
        sign_sound(s),
        sign_answers(s, answer),
        forall|i: int|
            0 <= i < s.archives.len() ==> (#[trigger] s.archives[i]).1 == archive_path_of(
                s.style,
                s.root,
                s.app_name,
                s.archives[i].0,
            ),
    ensures
        sign_next(s, answer).archives == s.archives,
{
    reveal_with_fuel(sign_at, 3);
    let platform = signed_platform(s.stage->which);
    lemma_entry_is_for_the_platform(s.archives, platform);
    let archive = archive_path_of(s.style, s.root, s.app_name, platform);
    assert(archive_replaced(s.archives, platform, archive) =~= s.archives);
}

/// In every world the archive that is submitted for notarization is removed right after that,
/// whatever came of it.
pub proof fn a_notarization_leaves_no_archive(
    style: PathStyle,
    bundle: Seq<char>,
    credentials: CredentialsView,
    world: spec_fn(int) -> bool,
    at: int,
)
    requires
        file_name_of(style, bundle) is Some,
        parent_of(style, bundle) is Some,
        0 <= at < script_driven(
            fresh(notarization_steps(style, bundle, credentials)),
            world,
        ).0.len(),
        script_driven(fresh(notarization_steps(style, bundle, credentials)), world).0[at]
            == ActionView::Run(notarization_steps(style, bundle, credentials)[2]->command),
    ensures
        at + 1 < script_driven(
            fresh(notarization_steps(style, bundle, credentials)),
            world,
        ).0.len(),
        script_driven(fresh(notarization_steps(style, bundle, credentials)), world).0[at + 1]
            == ActionView::Remove(extension_replaced(style, bundle, "temp.zip"@)),
{
    let steps = notarization_steps(style, bundle, credentials);
    a_script_stops_at_the_first_failure(steps, world);
    reveal_with_fuel(script_effects, 5);
    reveal_strlit("codesign");
    reveal_strlit("zip");
    reveal_strlit("xcrun");
    assert(steps[0]->command.program.len() == 8);
    assert(steps[1]->command.program.len() == 3);
    assert(steps[2]->command.program.len() == 5);
    assert(steps[2]->command.args.len() == 13);
    assert(steps[3]->command.args.len() == 3);
    let submitting = step_effects(steps[2], world(2));
    assert(submitting[1] == ActionView::Remove(extension_replaced(style, bundle, "temp.zip"@)));
}

} // verus!
