//! What a script asks for at each kind of step, and where it goes from there.
use vstd::prelude::*;

use crate::command::CommandView;
use crate::script::{
    answers, fresh, script_next, script_progress, step_effects, step_failure, Action, ActionView,
    Answer, Progress, ProgressView, ScriptView, Step, StepView,
};

verus! {

/// The script is about to take a step, and has not failed.
pub open spec fn is_at(s: ScriptView, step: StepView) -> bool {
    0 <= s.taken < s.steps.len() && s.steps[s.taken] == step && s.failed is None
}

/// The script is one step further, with nothing done of the next.
pub open spec fn has_moved_on(before: ScriptView, after: ScriptView) -> bool {
    &&& after.steps == before.steps
    &&& after.taken == before.taken + 1
    &&& after.half is None
    &&& after.failed is None
}

/// The script has failed with the message, for good.
pub open spec fn has_failed(before: ScriptView, after: ScriptView, message: Seq<char>) -> bool {
    &&& after.steps == before.steps
    &&& after.taken == before.taken
    &&& script_progress(after) == ProgressView::Failed(message)
}

/// A script begins with its first step, and one without steps is done.
pub proof fn a_script_begins_at_its_first_step(steps: Seq<StepView>)
    ensures
        steps.len() == 0 ==> script_progress(fresh(steps)) == ProgressView::Finished,
        steps.len() > 0 ==> is_at(fresh(steps), steps[0]) && fresh(steps).half is None,
        fresh(steps).steps == steps,
{
}

/// A script is done exactly where all of its steps have been taken.
pub proof fn a_script_is_done_after_its_last_step(s: ScriptView)
    requires
        s.failed is None,
        0 <= s.taken <= s.steps.len(),
    ensures
        script_progress(s) is Finished <==> s.taken == s.steps.len(),
        script_progress(s) is Failed <==> s.taken < s.steps.len() && s.steps[s.taken] is Fail,
{
}

/// A command is run; it is the end of the script where it fails, and its cleanup, where it has one,
/// comes before either.
pub proof fn a_command_is_run_and_cleaned_up_after(
    s: ScriptView,
    command: CommandView,
    cleanup: Option<Seq<char>>,
    failure: Seq<char>,
    success: bool,
)
    requires
        is_at(s, StepView::Run { command, cleanup, failure }),
        s.half is None,
    ensures
        script_progress(s) == ProgressView::Act(ActionView::Run(command)),
        answers(s, Answer::Exited(success)),
        ({
            let after = script_next(s, Answer::Exited(success));
            match cleanup {
                None => {
                    &&& success ==> has_moved_on(s, after)
                    &&& !success ==> has_failed(s, after, failure)
                },
                Some(path) => {
                    let cleaned = script_next(after, Answer::Done);
                    &&& script_progress(after) == ProgressView::Act(ActionView::Remove(path))
                    &&& answers(after, Answer::Done)
                    &&& success ==> has_moved_on(s, cleaned)
                    &&& !success ==> has_failed(s, cleaned, failure)
                },
            }
        }),
{
}

/// A file that has to be there is looked for; where it is missing, that is the end of the script.
pub proof fn a_file_has_to_be_there(
    s: ScriptView,
    path: Seq<char>,
    failure: Seq<char>,
    found: bool,
)
    requires
        is_at(s, StepView::Require { path, failure }),
        s.half is None,
    ensures
        script_progress(s) == ProgressView::Act(ActionView::Probe(path)),
        answers(s, Answer::Present(found)),
        found ==> has_moved_on(s, script_next(s, Answer::Present(found))),
        !found ==> has_failed(s, script_next(s, Answer::Present(found)), failure),
{
}

/// A file that is in the way is removed where it is there, and only there.
pub proof fn a_file_is_cleared_away_where_it_is_there(s: ScriptView, path: Seq<char>)
    requires
        is_at(s, StepView::Clear { path }),
        s.half is None,
    ensures
        script_progress(s) == ProgressView::Act(ActionView::Probe(path)),
        has_moved_on(s, script_next(s, Answer::Present(false))),
        ({
            let after = script_next(s, Answer::Present(true));
            &&& script_progress(after) == ProgressView::Act(ActionView::Remove(path))
            &&& answers(after, Answer::Done)
            &&& has_moved_on(s, script_next(after, Answer::Done))
        }),
{
}

/// The other steps ask for one thing each, and the script moves on when it is done.
pub proof fn a_plain_step_is_asked_for_once(s: ScriptView, step: StepView)
    requires
        is_at(s, step),
        s.half is None,
        step is CreateDir || step is Write || step is Rename,
    ensures
        script_progress(s) == ProgressView::Act(
            match step {
                StepView::CreateDir { path } => ActionView::CreateDir(path),
                StepView::Write { path, contents } => ActionView::Write { path, contents },
                StepView::Rename { from, to } => ActionView::Rename { from, to },
                _ => arbitrary(),
            },
        ),
        answers(s, Answer::Done),
        has_moved_on(s, script_next(s, Answer::Done)),
{
}

/// A step that cannot be taken is the end of the script, and asks for nothing.
pub proof fn a_failing_step_asks_for_nothing(s: ScriptView, message: Seq<char>)
    requires
        is_at(s, StepView::Fail { message }),
    ensures
        script_progress(s) == ProgressView::Failed(message),
{
}

/// What a step does when all goes well, and what when it does not.
pub proof fn a_step_does_what_it_says(step: StepView, learnt: bool)
    ensures
        match step {
            StepView::Run { command, cleanup, failure } => {
                &&& step_effects(step, learnt)[0] == ActionView::Run(command)
                &&& cleanup is None ==> step_effects(step, learnt).len() == 1
                &&& cleanup matches Some(path) ==> step_effects(step, learnt) == seq![
                    ActionView::Run(command),
                    ActionView::Remove(path),
                ]
                &&& step_failure(step, learnt) == (if learnt {
                    None
                } else {
                    Some(failure)
                })
            },
            StepView::Require { path, failure } => {
                &&& step_effects(step, learnt) == seq![ActionView::Probe(path)]
                &&& step_failure(step, learnt) == (if learnt {
                    None
                } else {
                    Some(failure)
                })
            },
            StepView::Clear { path } => {
                &&& learnt ==> step_effects(step, learnt) == seq![
                    ActionView::Probe(path),
                    ActionView::Remove(path),
                ]
                &&& !learnt ==> step_effects(step, learnt) == seq![ActionView::Probe(path)]
                &&& step_failure(step, learnt) is None
            },
            StepView::CreateDir { path } => step_effects(step, learnt) == seq![
                ActionView::CreateDir(path),
            ] && step_failure(step, learnt) is None,
            StepView::Write { path, contents } => step_effects(step, learnt) == seq![
                ActionView::Write { path, contents },
            ] && step_failure(step, learnt) is None,
            StepView::Rename { from, to } => step_effects(step, learnt) == seq![
                ActionView::Rename { from, to },
            ] && step_failure(step, learnt) is None,
            StepView::Fail { message } => step_effects(step, learnt).len() == 0 && step_failure(
                step,
                learnt,
            ) == Some(message),
        },
{
}

/// What is said of a step holds of its very fields.
pub proof fn a_step_is_what_its_fields_say(step: Step)
    ensures
        match step {
            Step::Run { command, cleanup, failure } => {
                &&& step@ matches StepView::Run { command: c, cleanup: path, failure: f }
                &&& c == command@
                &&& f == failure@
                &&& cleanup is None <==> path is None
                &&& cleanup matches Some(text) ==> path == Some(text@)
            },
            Step::Require { path, failure } => step@ == (StepView::Require {
                path: path@,
                failure: failure@,
            }),
            Step::Clear { path } => step@ == (StepView::Clear { path: path@ }),
            Step::CreateDir { path } => step@ == (StepView::CreateDir { path: path@ }),
            Step::Write { path, contents } => step@ == (StepView::Write {
                path: path@,
                contents: contents@,
            }),
            Step::Rename { from, to } => step@ == (StepView::Rename { from: from@, to: to@ }),
            Step::Fail { message } => step@ == (StepView::Fail { message: message@ }),
        },
{
}

/// What is said of an action holds of its very fields.
pub proof fn an_action_is_what_its_fields_say(action: Action)
    ensures
        match action {
            Action::Run(command) => action@ == ActionView::Run(command@),
            Action::Probe(path) => action@ == ActionView::Probe(path@),
            Action::Remove(path) => action@ == ActionView::Remove(path@),
            Action::CreateDir(path) => action@ == ActionView::CreateDir(path@),
            Action::Write { path, contents } => action@ == (ActionView::Write {
                path: path@,
                contents: contents@,
            }),
            Action::Rename { from, to } => action@ == (ActionView::Rename {
                from: from@,
                to: to@,
            }),
        },
{
}

/// What is said of the progress of a script holds of its very fields.
pub proof fn progress_is_what_its_fields_say(progress: Progress)
    ensures
        match progress {
            Progress::Act(action) => progress@ == ProgressView::Act(action@),
            Progress::Failed(failure) => progress@ == ProgressView::Failed(failure@),
            Progress::Finished => progress@ == ProgressView::Finished,
        },
{
}

/// A script that is done or has failed waits for no answer, and one that asks for something waits
/// for the answer to that alone.
pub proof fn only_what_was_asked_is_answered(s: ScriptView, answer: Answer)
    ensures
        script_progress(s) is Finished || script_progress(s) is Failed ==> !answers(s, answer),
        answers(s, answer) ==> match answer {
            Answer::Exited(_) => script_progress(s) matches ProgressView::Act(ActionView::Run(_)),
            Answer::Present(_) => script_progress(s) matches ProgressView::Act(
                ActionView::Probe(_),
            ),
            Answer::Done => script_progress(s) matches ProgressView::Act(action)
                && !(action is Run) && !(action is Probe),
        },
{
}

} // verus!
