//! What is signed, with what, and what is asked for on the way, stated on texts and commands.
use vstd::prelude::*;

use crate::bundle::{archive_path_of, zip_steps};
use crate::path::{extension_replaced, file_name_of, joined, parent_of, PathStyle};
use crate::script::{
    script_next, script_progress, ActionView, Answer, ProgressView, ScriptView, StepView,
};
use crate::sign::{
    archive_replaced, entry_for, first_line_with, notarization_steps, quoted, sign_answers,
    sign_at, sign_identified, sign_next, sign_progress, sign_sound, sign_told, signing_identity,
    signing_steps, CredentialsView, SignProgress, SignProgressView, SignStageView, SignView,
};
use crate::text::{first_index, has_text, last_index, lemma_pieces_nonempty, pieces, stands_at};
use crate::text_laws::{
    every_place_lies_in_a_part, pieces_lie_side_by_side, start_of, the_first_place_is_the_first,
    the_last_place_is_the_last,
};

verus! {

/// A line of the text lies from `a` up to `b`.
pub open spec fn line_between(text: Seq<char>, a: int, b: int) -> bool {
    &&& 0 <= a <= b <= text.len()
    &&& a == 0 || text[a - 1] == '\n'
    &&& b == text.len() || text[b] == '\n'
    &&& forall|i: int| a <= i < b ==> text[i] != '\n'
}

/// The text names a Developer ID certificate at `p`.
pub open spec fn certificate_at(text: Seq<char>, p: int) -> bool {
    0 <= p <= text.len() - 24 && text.subrange(p, p + 24) == "Developer ID Application"@
}

/// The line from `a` up to `b` is the first that names a Developer ID certificate.
pub open spec fn first_certificate_line(text: Seq<char>, a: int, b: int) -> bool {
    &&& line_between(text, a, b)
    &&& exists|p: int| a <= p <= b - 24 && certificate_at(text, p)
    &&& forall|p: int| p < a ==> !certificate_at(text, p)
}

proof fn lemma_first_line(lines: Seq<Seq<char>>, pattern: Seq<char>) -> (k: int)
    ensures
        match first_line_with(lines, pattern) {
            Some(line) => {
                &&& 0 <= k < lines.len()
                &&& lines[k] == line
                &&& has_text(line, pattern)
                &&& forall|j: int| 0 <= j < k ==> !has_text(#[trigger] lines[j], pattern)
            },
            None => forall|j: int| 0 <= j < lines.len() ==> !has_text(#[trigger] lines[j], pattern),
        },
    decreases lines.len(),
{
    if lines.len() == 0 || has_text(lines[0], pattern) {
        0
    } else {
        let rest = lines.drop_first();
        let k = lemma_first_line(rest, pattern);
        assert forall|j: int| 0 < j < lines.len() implies #[trigger] lines[j] == rest[j - 1] by {}
        k + 1
    }
}

proof fn lemma_no_certificate_before(list: Seq<char>, k: int, p: int)
    requires
        0 <= k <= pieces(list, '\n').len(),
        forall|j: int|
            0 <= j < k ==> !has_text(
                #[trigger] pieces(list, '\n')[j],
                "Developer ID Application"@,
            ),
        p < start_of(pieces(list, '\n'), k),
    ensures
        !certificate_at(list, p),
{
    let lines = pieces(list, '\n');
    let pattern = "Developer ID Application"@;
    reveal_strlit("Developer ID Application");
    if certificate_at(list, p) {
        let j = every_place_lies_in_a_part(lines, k, p);
        pieces_lie_side_by_side(list, '\n', j);
        let start = start_of(lines, j);
        let end = start + lines[j].len();
        if p + 24 <= end {
            assert(lines[j].subrange(p - start, p - start + 24) =~= list.subrange(p, p + 24));
            assert(stands_at(lines[j], pattern, p - start));
        } else {
            assert(list[end] == '\n');
            assert(list.subrange(p, p + 24)[end - p] == '\n');
            assert(pattern[end - p] == '\n');
            assert(forall|i: int| 0 <= i < 24 ==> pattern[i] != '\n');
        }
    }
}

/// An identity that is found is what stands between the first and the last quotation mark of the
/// first line that has the words "Developer ID Application". None is found where no line has
/// them, or where the first that does has fewer than two quotation marks.
pub proof fn an_identity_is_quoted_in_the_first_certificate_line(list: Seq<char>)
    ensures
        match signing_identity(list) {
            Some(identity) => exists|a: int, b: int, first: int, last: int|
                {
                    &&& #[trigger] first_certificate_line(list, a, b)
                    &&& a <= first < last < b
                    &&& list[first] == '"' && list[last] == '"'
                    &&& forall|i: int| a <= i < first ==> list[i] != '"'
                    &&& forall|i: int| last < i < b ==> list[i] != '"'
                    &&& identity == #[trigger] list.subrange(first + 1, last)
                },
            None => {
                ||| forall|p: int| !certificate_at(list, p)
                ||| exists|a: int, b: int|
                    {
                        &&& #[trigger] first_certificate_line(list, a, b)
                        &&& forall|i: int, j: int|
                            a <= i < j < b ==> !(list[i] == '"' && list[j] == '"')
                    }
            },
        },
{
    let lines = pieces(list, '\n');
    let pattern = "Developer ID Application"@;
    reveal_strlit("Developer ID Application");
    let k = lemma_first_line(lines, pattern);
    match first_line_with(lines, pattern) {
        None => {
            let n = lines.len() as int;
            lemma_pieces_nonempty(list, '\n');
            pieces_lie_side_by_side(list, '\n', n - 1);
            assert(start_of(lines, n) == list.len() + 1);
            assert forall|p: int| !certificate_at(list, p) by {
                if p <= list.len() {
                    lemma_no_certificate_before(list, n, p);
                }
            }
        },
        Some(line) => {
            let a = start_of(lines, k);
            let b = a + line.len();
            pieces_lie_side_by_side(list, '\n', k);
            let p = choose|at: int| stands_at(line, pattern, at);
            assert(list.subrange(a + p, a + p + 24) =~= line.subrange(p, p + 24));
            assert(certificate_at(list, a + p));
            assert forall|p: int| p < a implies !certificate_at(list, p) by {
                lemma_no_certificate_before(list, k, p);
            }
            assert(first_certificate_line(list, a, b));
            the_first_place_is_the_first(line, '"');
            the_last_place_is_the_last(line, '"');
            assert forall|i: int| a <= i < b implies list[i] == line[i - a] by {}
            match quoted(line) {
                Some(identity) => {
                    let first = a + first_index(line, '"');
                    let last = a + last_index(line, '"');
                    assert(identity =~= list.subrange(first + 1, last));
                },
                None => {},
            }
        },
    }
}

/// Signing begins with the list of the identities that can sign code.
pub proof fn signing_asks_for_the_identities_first(s: SignView)
    requires
        s.stage is Identifying,
    ensures
        sign_progress(s) matches SignProgressView::Capture(command) && command.program
            == "security"@ && command.args == seq![
            "find-identity"@,
            "-v"@,
            "-p"@,
            "codesigning"@,
        ] && command.dir is None && command.env is None,
{
}

/// Signing fails where the identities cannot be listed, and where none of them is found; else it
/// asks for the account, with that identity.
pub proof fn signing_goes_on_with_the_identity(s: SignView, success: bool, list: Seq<char>)
    ensures
        ({
            let after = sign_identified(s, success, list);
            &&& after.style == s.style && after.root == s.root && after.app_name == s.app_name
            &&& after.platforms == s.platforms && after.archives == s.archives
            &&& !success ==> sign_progress(after) == SignProgressView::Failed(
                "failed to find code signing identities"@,
            )
            &&& success && signing_identity(list) is None ==> sign_progress(after)
                == SignProgressView::Failed("no Developer ID Application certificate found"@)
            &&& signing_identity(list) matches Some(identity) ==> success ==> {
                &&& after.stage == SignStageView::Asking { identity, values: Seq::empty() }
                &&& sign_progress(after) == SignProgressView::ReadVariable("APPLE_TEAM_ID"@)
            }
        }),
{
}

/// The account is asked for in three variables, one after the other, and each of them gets to be
/// what it is named after.
pub proof fn the_account_is_read_from_three_variables(
    s: SignView,
    identity: Seq<char>,
    team_id: Seq<char>,
    apple_id: Seq<char>,
    password: Seq<char>,
)
    requires
        s.stage == (SignStageView::Asking { identity, values: Seq::empty() }),
    ensures
        ({
            let one = sign_told(s, team_id);
            let two = sign_told(one, apple_id);
            &&& sign_progress(s) == SignProgressView::ReadVariable("APPLE_TEAM_ID"@)
            &&& sign_progress(one) == SignProgressView::ReadVariable("APPLE_ID"@)
            &&& sign_progress(two) == SignProgressView::ReadVariable(
                "APPLE_APP_SPECIFIC_PASSWORD"@,
            )
            &&& sign_told(two, password) == sign_at(
                two,
                CredentialsView { identity, team_id, apple_id, password },
                0,
            )
        }),
{
    let one = sign_told(s, team_id);
    let two = sign_told(one, apple_id);
    assert(one.stage == SignStageView::Asking { identity, values: seq![team_id] }) by {
        assert(Seq::<Seq<char>>::empty().push(team_id) =~= seq![team_id]);
    }
    assert(two.stage == SignStageView::Asking { identity, values: seq![team_id, apple_id] }) by {
        assert(seq![team_id].push(apple_id) =~= seq![team_id, apple_id]);
    }
}

/// The ARM bundle is signed where that platform is asked for, then the Intel one where that is,
/// and nothing else is.
pub proof fn only_asked_for_macs_are_signed(s: SignView, c: CredentialsView)
    ensures
        ({
            let arm = s.platforms.contains("macos-arm"@);
            let intel = s.platforms.contains("macos-intel"@);
            let first = sign_at(s, c, 0);
            let second = sign_at(s, c, 1);
            let third = sign_at(s, c, 2);
            let signs = |after: SignView, which: int, platform: Seq<char>|
                after == (SignView {
                    stage: SignStageView::Signing {
                        credentials: c,
                        which,
                        script: ScriptView {
                            steps: signing_steps(s.style, s.root, s.app_name, c, platform),
                            taken: 0,
                            half: None,
                            failed: None,
                        },
                    },
                    ..s
                });
            &&& arm ==> signs(first, 0, "macos-arm"@)
            &&& !arm && intel ==> signs(first, 1, "macos-intel"@)
            &&& intel ==> signs(second, 1, "macos-intel"@)
            &&& !arm && !intel ==> sign_progress(first) == SignProgressView::Finished(s.archives)
            &&& !intel ==> sign_progress(second) == SignProgressView::Finished(s.archives)
            &&& sign_progress(third) == SignProgressView::Finished(s.archives)
        }),
{
    reveal_with_fuel(sign_at, 3);
}

/// A bundle is signed with the identity, put into a temporary archive, notarized under the account
/// with that archive, which is removed whatever comes of it, and stapled.
pub proof fn a_bundle_is_signed_notarized_and_stapled(
    style: PathStyle,
    bundle: Seq<char>,
    c: CredentialsView,
)
    ensures
        ({
            let steps = notarization_steps(style, bundle, c);
            let temp = extension_replaced(style, bundle, "temp.zip"@);
            &&& steps.len() >= 2
            &&& steps[0] matches StepView::Run { command: sign, cleanup: None, failure: unsigned }
            &&& unsigned == "failed to code sign "@ + bundle
            &&& sign.program == "codesign"@
            &&& sign.args == seq![
                "--timestamp"@,
                "--options"@,
                "runtime"@,
                "--sign"@,
                c.identity,
                bundle,
            ]
            &&& sign.dir is None && sign.env is None
            &&& file_name_of(style, bundle) is None ==> steps.len() == 2 && steps[1]
                == StepView::Fail { message: "invalid bundle path"@ }
            &&& file_name_of(style, bundle) is Some && parent_of(style, bundle) is None
                ==> steps.len() == 2 && steps[1] == StepView::Fail {
                message: "bundle has no parent"@,
            }
            &&& file_name_of(style, bundle) matches Some(file) ==> parent_of(
                style,
                bundle,
            ) matches Some(dir) ==> {
                &&& steps.len() == 4
                &&& steps[1] matches StepView::Run {
                    command: zip,
                    cleanup: None,
                    failure: unzipped,
                }
                &&& unzipped == "failed to create notarization archive"@
                &&& zip.program == "zip"@
                &&& zip.args == seq!["-r"@, temp, file]
                &&& zip.dir == Some(dir)
                &&& zip.env is None
                &&& steps[2] matches StepView::Run { command: submit, cleanup, failure: refused }
                &&& cleanup == Some(temp)
                &&& refused == "notarization failed"@
                &&& submit.program == "xcrun"@
                &&& submit.args == seq![
                    "notarytool"@,
                    "submit"@,
                    "--wait"@,
                    "--no-progress"@,
                    "-f"@,
                    "json"@,
                    "--team-id"@,
                    c.team_id,
                    "--apple-id"@,
                    c.apple_id,
                    "--password"@,
                    c.password,
                    temp,
                ]
                &&& submit.dir is None && submit.env is None
                &&& steps[3] matches StepView::Run {
                    command: staple,
                    cleanup: None,
                    failure: unstapled,
                }
                &&& unstapled == "stapling notarization failed"@
                &&& staple.program == "xcrun"@
                &&& staple.args == seq!["stapler"@, "staple"@, bundle]
                &&& staple.dir is None && staple.env is None
            }
        }),
{
}

/// What is signed is the bundle of the application for the target of the platform, and once it is,
/// it is archived anew under the name of that platform.
pub proof fn a_signed_bundle_is_archived_anew(
    style: PathStyle,
    root: Seq<char>,
    app_name: Seq<char>,
    c: CredentialsView,
    arm: bool,
)
    ensures
        ({
            let platform = if arm {
                "macos-arm"@
            } else {
                "macos-intel"@
            };
            let triple = if arm {
                "aarch64-apple-darwin"@
            } else {
                "x86_64-apple-darwin"@
            };
            let target = joined(style, root, "target"@);
            let bundle = joined(
                style,
                joined(style, joined(style, target, triple), "release/bundle/osx"@),
                app_name + ".app"@,
            );
            signing_steps(style, root, app_name, c, platform) == notarization_steps(
                style,
                bundle,
                c,
            ) + zip_steps(
                style,
                "-r"@,
                "bundle"@,
                bundle,
                target,
                app_name + "-"@ + platform + ".zip"@,
            )
        }),
{
    reveal_strlit("macos-arm");
    reveal_strlit("macos-intel");
    assert("macos-arm"@.len() != "macos-intel"@.len());
}

/// With its last step taken, a signing puts the archive of the platform in the place of the one
/// that was listed, and goes on with the next platform.
pub proof fn a_signed_archive_takes_its_place(
    s: SignView,
    credentials: CredentialsView,
    which: int,
    script: ScriptView,
)
    requires
        s.stage == (SignStageView::Signing { credentials, which, script }),
        which == 0 || which == 1,
        0 <= script.taken,
        script.taken + 1 == script.steps.len(),
        script.failed is None,
        script.steps[script.taken] is Rename,
    ensures
        ({
            let platform = if which == 0 {
                "macos-arm"@
            } else {
                "macos-intel"@
            };
            let archive = archive_path_of(s.style, s.root, s.app_name, platform);
            let archives = archive_replaced(s.archives, platform, archive);
            sign_next(s, Answer::Done) == sign_at(
                SignView { archives, ..s },
                credentials,
                which + 1,
            )
        }),
{
}

/// A step of the signing that fails is the end of it, with the message of that step.
pub proof fn a_signing_fails_with_its_step(
    s: SignView,
    credentials: CredentialsView,
    which: int,
    script: ScriptView,
    answer: Answer,
)
    requires
        s.stage == (SignStageView::Signing { credentials, which, script }),
    ensures
        match script_progress(script_next(script, answer)) {
            ProgressView::Failed(message) => sign_progress(sign_next(s, answer))
                == SignProgressView::Failed(message),
            ProgressView::Act(action) => {
                &&& sign_progress(sign_next(s, answer)) == SignProgressView::Act(action)
                &&& sign_next(s, answer).archives == s.archives
            },
            ProgressView::Finished => true,
        },
{
}

proof fn lemma_first_entry(archives: Seq<(Seq<char>, Seq<char>)>, platform: Seq<char>)
    ensures
        ({
            let at = entry_for(archives, platform);
            &&& -1 <= at < archives.len()
            &&& at >= 0 ==> archives[at].0 == platform
            &&& at >= 0 ==> forall|j: int| 0 <= j < at ==> (#[trigger] archives[j]).0 != platform
            &&& at < 0 ==> forall|j: int|
                0 <= j < archives.len() ==> (#[trigger] archives[j]).0 != platform
        }),
    decreases archives.len(),
{
    if archives.len() > 0 && archives[0].0 != platform {
        let rest = archives.drop_first();
        lemma_first_entry(rest, platform);
        assert forall|j: int| 0 < j < archives.len() implies #[trigger] archives[j] == rest[j
            - 1] by {}
    }
}

/// An archive is put in the place of the first that is listed for its platform; every other one
/// stays, and none is added where the platform is not listed.
pub proof fn an_archive_takes_the_place_of_its_platform(
    archives: Seq<(Seq<char>, Seq<char>)>,
    platform: Seq<char>,
    archive: Seq<char>,
    i: int,
)
    requires
        0 <= i < archives.len(),
    ensures
        ({
            let after = archive_replaced(archives, platform, archive);
            let first = archives[i].0 == platform && forall|j: int|
                0 <= j < i ==> (#[trigger] archives[j]).0 != platform;
            &&& after.len() == archives.len()
            &&& first ==> after[i] == (platform, archive)
            &&& !first ==> after[i] == archives[i]
        }),
{
    lemma_first_entry(archives, platform);
    let at = entry_for(archives, platform);
    if 0 <= at < i {
        assert(archives[at].0 == platform);
    }
    if i < at {
        assert(archives[i].0 != platform);
    }
}

/// While the account is read, nothing but what has been read changes.
pub proof fn reading_the_account_changes_nothing_else(s: SignView, value: Seq<char>)
    requires
        s.stage matches SignStageView::Asking { values, .. } && values.len() < 2,
    ensures
        ({
            let after = sign_told(s, value);
            &&& after.style == s.style && after.root == s.root && after.app_name == s.app_name
            &&& after.platforms == s.platforms && after.archives == s.archives
            &&& after.stage == (SignStageView::Asking {
                identity: s.stage->Asking_identity,
                values: s.stage->Asking_values.push(value),
            })
        }),
{
}

/// What is said of the progress of a signing holds of its very fields.
pub proof fn sign_progress_is_what_its_fields_say(progress: SignProgress, i: int)
    ensures
        match progress {
            SignProgress::Capture(command) => progress@ == SignProgressView::Capture(command@),
            SignProgress::ReadVariable(name) => progress@ == SignProgressView::ReadVariable(name@),
            SignProgress::Act(action) => progress@ == SignProgressView::Act(action@),
            SignProgress::Failed(message) => progress@ == SignProgressView::Failed(message@),
            SignProgress::Finished(archives) => {
                &&& progress@ matches SignProgressView::Finished(list)
                &&& list.len() == archives@.len()
                &&& 0 <= i < list.len() ==> list[i] == (archives@[i].0@, archives@[i].1@)
            },
        },
{
}

/// A signing waits for the answer to what it asks for, and for no other.
pub proof fn a_signing_waits_for_what_it_asked(s: SignView, answer: Answer)
    requires
        sign_sound(s),
    ensures
        sign_answers(s, answer) <==> match sign_progress(s) {
            SignProgressView::Act(ActionView::Run(_)) => answer is Exited,
            SignProgressView::Act(ActionView::Probe(_)) => answer is Present,
            SignProgressView::Act(_) => answer is Done,
            _ => false,
        },
        s.stage is Identifying <==> sign_progress(s) is Capture,
        s.stage is Asking <==> sign_progress(s) is ReadVariable,
{
}

} // verus!
