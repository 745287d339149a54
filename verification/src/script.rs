//! Scripts: steps to be taken outside one after the other, up to the first that fails.
use vstd::prelude::*;

use crate::command::{optional_text, Command, CommandView};

verus! {

/// What a step says.
pub ghost enum StepView {
    Run { command: CommandView, cleanup: Option<Seq<char>>, failure: Seq<char> },
    Require { path: Seq<char>, failure: Seq<char> },
    Clear { path: Seq<char> },
    CreateDir { path: Seq<char> },
    Write { path: Seq<char>, contents: Seq<char> },
    Rename { from: Seq<char>, to: Seq<char> },
    Fail { message: Seq<char> },
}

/// One step of a script.
#[derive(Debug)]
pub enum Step {
    /// Run the command, then remove the file `cleanup` where there is one. The step fails
    /// where the command does.
    Run { command: Command, cleanup: Option<String>, failure: String },
    /// The step fails where nothing is at the path.
    Require { path: String, failure: String },
    /// Remove the file at the path, where there is one.
    Clear { path: String },
    /// Create the directory and those above it.
    CreateDir { path: String },
    /// Write the file.
    Write { path: String, contents: String },
    /// Rename the file.
    Rename { from: String, to: String },
    /// The step fails.
    Fail { message: String },
}

impl View for Step {
    type V = StepView;

    open spec fn view(&self) -> StepView {
        match self {
            Step::Run { command, cleanup, failure } => StepView::Run {
                command: command@,
                cleanup: optional_text(*cleanup),
                failure: failure@,
            },
            Step::Require { path, failure } => StepView::Require { path: path@, failure: failure@ },
            Step::Clear { path } => StepView::Clear { path: path@ },
            Step::CreateDir { path } => StepView::CreateDir { path: path@ },
            Step::Write { path, contents } => StepView::Write {
                path: path@,
                contents: contents@,
            },
            Step::Rename { from, to } => StepView::Rename { from: from@, to: to@ },
            Step::Fail { message } => StepView::Fail { message: message@ },
        }
    }
}

/// What a list of steps says.
pub open spec fn steps_view(steps: Seq<Step>) -> Seq<StepView> {
    steps.map_values(|step: Step| step@)
}

/// What an action says.
pub ghost enum ActionView {
    Run(CommandView),
    Probe(Seq<char>),
    Remove(Seq<char>),
    CreateDir(Seq<char>),
    Write { path: Seq<char>, contents: Seq<char> },
    Rename { from: Seq<char>, to: Seq<char> },
}

/// One thing to do outside.
#[derive(Debug)]
pub enum Action {
    /// Run the command. The answer is how it ended.
    Run(Command),
    /// See whether there is something at the path. The answer is what was seen.
    Probe(String),
    /// Remove the file.
    Remove(String),
    /// Create the directory and those above it.
    CreateDir(String),
    /// Write the file.
    Write { path: String, contents: String },
    /// Rename the file.
    Rename { from: String, to: String },
}

impl View for Action {
    type V = ActionView;

    open spec fn view(&self) -> ActionView {
        match self {
            Action::Run(command) => ActionView::Run(command@),
            Action::Probe(path) => ActionView::Probe(path@),
            Action::Remove(path) => ActionView::Remove(path@),
            Action::CreateDir(path) => ActionView::CreateDir(path@),
            Action::Write { path, contents } => ActionView::Write {
                path: path@,
                contents: contents@,
            },
            Action::Rename { from, to } => ActionView::Rename { from: from@, to: to@ },
        }
    }
}

/// What came of an action.
#[derive(Clone, Copy, Debug, PartialEq, Eq, Structural)]
pub enum Answer {
    /// The command has ended, with success or not.
    Exited(bool),
    /// There is something at the path, or not.
    Present(bool),
    /// It is done.
    Done,
}

/// Where a script stands.
pub ghost struct ScriptView {
    /// The steps.
    pub steps: Seq<StepView>,
    /// How many of them have been taken.
    pub taken: int,
    /// Whether the step is half taken, and then whether it will succeed.
    pub half: Option<bool>,
    /// Why the script has failed.
    pub failed: Option<Seq<char>>,
}

/// What there is to do.
pub ghost enum ProgressView {
    Act(ActionView),
    Failed(Seq<char>),
    Finished,
}

/// A script that has not begun.
pub open spec fn fresh(steps: Seq<StepView>) -> ScriptView {
    ScriptView { steps, taken: 0, half: None, failed: None }
}

/// What the step asks for; the second time, where it has begun with `half`.
pub open spec fn asked(step: StepView, half: bool) -> ActionView {
    match step {
        StepView::Run { command, cleanup, .. } => if half {
            ActionView::Remove(cleanup->0)
        } else {
            ActionView::Run(command)
        },
        StepView::Require { path, .. } => ActionView::Probe(path),
        StepView::Clear { path } => if half {
            ActionView::Remove(path)
        } else {
            ActionView::Probe(path)
        },
        StepView::CreateDir { path } => ActionView::CreateDir(path),
        StepView::Write { path, contents } => ActionView::Write { path, contents },
        StepView::Rename { from, to } => ActionView::Rename { from, to },
        StepView::Fail { .. } => arbitrary(),
    }
}

/// What there is to do where the script stands.
pub open spec fn script_progress(s: ScriptView) -> ProgressView {
    if s.failed is Some {
        ProgressView::Failed(s.failed->0)
    } else if s.taken == s.steps.len() {
        ProgressView::Finished
    } else if s.steps[s.taken] is Fail {
        ProgressView::Failed(s.steps[s.taken]->message)
    } else {
        ProgressView::Act(asked(s.steps[s.taken], s.half is Some))
    }
}

/// The answer is one to what the script asks for.
pub open spec fn answers(s: ScriptView, answer: Answer) -> bool {
    match script_progress(s) {
        ProgressView::Act(ActionView::Run(_)) => answer is Exited,
        ProgressView::Act(ActionView::Probe(_)) => answer is Present,
        ProgressView::Act(_) => answer is Done,
        _ => false,
    }
}

/// The script with its step taken.
pub open spec fn step_taken(s: ScriptView) -> ScriptView {
    ScriptView { taken: s.taken + 1, half: None, ..s }
}

/// The script with its step failed.
pub open spec fn step_failed(s: ScriptView, failure: Seq<char>) -> ScriptView {
    ScriptView { half: None, failed: Some(failure), ..s }
}

/// Where the script stands after the answer.
pub open spec fn script_next(s: ScriptView, answer: Answer) -> ScriptView {
    match s.steps[s.taken] {
        StepView::Run { cleanup, failure, .. } => {
            let success = match s.half {
                Some(success) => success,
                None => answer->Exited_0,
            };
            if s.half is None && cleanup is Some {
                ScriptView { half: Some(success), ..s }
            } else if success {
                step_taken(s)
            } else {
                step_failed(s, failure)
            }
        },
        StepView::Require { failure, .. } => if answer->Present_0 {
            step_taken(s)
        } else {
            step_failed(s, failure)
        },
        StepView::Clear { .. } => if s.half is None && answer->Present_0 {
            ScriptView { half: Some(true), ..s }
        } else {
            step_taken(s)
        },
        _ => step_taken(s),
    }
}

/// A script on its way.
#[derive(Debug)]
pub struct Script {
    steps: Vec<Step>,
    taken: usize,
    half: Option<bool>,
    failed: Option<String>,
}

/// What there is to do.
#[derive(Debug)]
pub enum Progress {
    /// Do this, and tell the script what came of it.
    Act(Action),
    /// Nothing: the script has failed, and this is why.
    Failed(String),
    /// Nothing: all steps have been taken.
    Finished,
}

impl View for Progress {
    type V = ProgressView;

    open spec fn view(&self) -> ProgressView {
        match self {
            Progress::Act(action) => ProgressView::Act(action@),
            Progress::Failed(failure) => ProgressView::Failed(failure@),
            Progress::Finished => ProgressView::Finished,
        }
    }
}

impl View for Script {
    type V = ScriptView;

    closed spec fn view(&self) -> ScriptView {
        ScriptView {
            steps: steps_view(self.steps@),
            taken: self.taken as int,
            half: self.half,
            failed: optional_text(self.failed),
        }
    }
}

/// A script stands somewhere among its steps, and is half through one only where that takes
/// two actions.
pub open spec fn script_sound(s: ScriptView) -> bool {
    &&& 0 <= s.taken <= s.steps.len()
    &&& s.half is Some ==> s.failed is None && s.taken < s.steps.len() && match s.steps[s.taken] {
        StepView::Run { cleanup, .. } => cleanup is Some,
        StepView::Clear { .. } => s.half == Some(true),
        _ => false,
    }
}

impl Script {
    #[verifier::type_invariant]
    pub open spec fn sound(self) -> bool {
        script_sound(self@)
    }

    /// The script with these steps.
    pub fn new(steps: Vec<Step>) -> (script: Self)
        ensures
            script@ == fresh(steps_view(steps@)),
    {
        Script { steps, taken: 0, half: None, failed: None }
    }

    /// What there is to do.
    pub fn progress(&self) -> (progress: Progress)
        ensures
            progress@ == script_progress(self@),
    {
        proof {
            use_type_invariant(self);
        }
        match &self.failed {
            Some(failure) => {
                return Progress::Failed(failure.clone());
            },
            None => {},
        }
        if self.taken == self.steps.len() {
            return Progress::Finished;
        }
        assert(self@.steps[self.taken as int] == self.steps@[self.taken as int]@);
        let half = self.half.is_some();
        match &self.steps[self.taken] {
            Step::Run { command, cleanup, .. } => match cleanup {
                Some(path) if half => Progress::Act(Action::Remove(path.clone())),
                _ => Progress::Act(Action::Run(command.duplicate())),
            },
            Step::Require { path, .. } => Progress::Act(Action::Probe(path.clone())),
            Step::Clear { path } => if half {
                Progress::Act(Action::Remove(path.clone()))
            } else {
                Progress::Act(Action::Probe(path.clone()))
            },
            Step::CreateDir { path } => Progress::Act(Action::CreateDir(path.clone())),
            Step::Write { path, contents } => Progress::Act(
                Action::Write { path: path.clone(), contents: contents.clone() },
            ),
            Step::Rename { from, to } => Progress::Act(
                Action::Rename { from: from.clone(), to: to.clone() },
            ),
            Step::Fail { message } => Progress::Failed(message.clone()),
        }
    }

    /// Takes the answer to what was to be done.
    pub fn advance(&mut self, answer: Answer)
        requires
            answers(old(self)@, answer),
        ensures
            final(self)@ == script_next(old(self)@, answer),
    {
        proof {
            use_type_invariant(&*self);
        }
        assert(self@.steps[self.taken as int] == self.steps@[self.taken as int]@);
        assert(self.taken < self.steps.len());
        let half: Option<bool> = self.half;
        // How the step goes on: taken, failed, or half taken.
        let mut failure: Option<String> = None;
        let mut more: Option<bool> = None;
        match &self.steps[self.taken] {
            Step::Run { cleanup, failure: message, .. } => {
                let success = match half {
                    Some(success) => success,
                    None => match answer {
                        Answer::Exited(success) => success,
                        _ => unreached(),
                    },
                };
                if half.is_none() && cleanup.is_some() {
                    more = Some(success);
                } else if !success {
                    failure = Some(message.clone());
                }
            },
            Step::Require { failure: message, .. } => {
                if answer == Answer::Present(false) {
                    failure = Some(message.clone());
                }
            },
            Step::Clear { .. } => {
                if half.is_none() && answer == Answer::Present(true) {
                    more = Some(true);
                }
            },
            _ => {},
        }
        self.half = more;
        if failure.is_some() {
            self.failed = failure;
        } else if more.is_none() {
            self.taken = self.taken + 1;
        }
    }
}

/// What a step does, `learnt` being how its command ends, or whether there is something at its
/// path.
pub open spec fn step_effects(step: StepView, learnt: bool) -> Seq<ActionView> {
    match step {
        StepView::Run { cleanup: Some(path), .. } => seq![
            asked(step, false),
            ActionView::Remove(path),
        ],
        StepView::Clear { path } => if learnt {
            seq![ActionView::Probe(path), ActionView::Remove(path)]
        } else {
            seq![ActionView::Probe(path)]
        },
        StepView::Fail { .. } => Seq::empty(),
        _ => seq![asked(step, false)],
    }
}

/// Why the step fails, if it does.
pub open spec fn step_failure(step: StepView, learnt: bool) -> Option<Seq<char>> {
    match step {
        StepView::Run { failure, .. } => if learnt {
            None
        } else {
            Some(failure)
        },
        StepView::Require { failure, .. } => if learnt {
            None
        } else {
            Some(failure)
        },
        StepView::Fail { message } => Some(message),
        _ => None,
    }
}

/// What the steps from `k` on do, in a world in which the step `i` learns `world(i)`: each what
/// it does, up to the first that fails.
pub open spec fn script_effects(steps: Seq<StepView>, world: spec_fn(int) -> bool, k: int) -> Seq<
    ActionView,
>
    decreases steps.len() - k,
{
    if k >= steps.len() {
        Seq::empty()
    } else if step_failure(steps[k], world(k)) is Some {
        step_effects(steps[k], world(k))
    } else {
        step_effects(steps[k], world(k)) + script_effects(steps, world, k + 1)
    }
}

/// How the steps from `k` on end in that world: as the first that fails does.
pub open spec fn script_failure(
    steps: Seq<StepView>,
    world: spec_fn(int) -> bool,
    k: int,
) -> Option<Seq<char>>
    decreases steps.len() - k,
{
    if k >= steps.len() {
        None
    } else if step_failure(steps[k], world(k)) is Some {
        step_failure(steps[k], world(k))
    } else {
        script_failure(steps, world, k + 1)
    }
}

/// The answer that the script gets in that world.
pub open spec fn world_answer(s: ScriptView, world: spec_fn(int) -> bool) -> Answer {
    match script_progress(s) {
        ProgressView::Act(ActionView::Run(_)) => Answer::Exited(world(s.taken)),
        ProgressView::Act(ActionView::Probe(_)) => Answer::Present(world(s.taken)),
        _ => Answer::Done,
    }
}

/// A bound on the actions that are left.
pub open spec fn most_actions_left(s: ScriptView) -> int {
    if s.failed is Some {
        0
    } else {
        1 + 2 * (s.steps.len() - s.taken) - (if s.half is Some {
            1int
        } else {
            0int
        })
    }
}

/// What the script does from where it stands, in that world, and how it ends.
pub open spec fn script_driven(s: ScriptView, world: spec_fn(int) -> bool) -> (
    Seq<ActionView>,
    Option<Seq<char>>,
)
    decreases most_actions_left(s),
    when script_sound(s)
{
    match script_progress(s) {
        ProgressView::Finished => (Seq::empty(), None),
        ProgressView::Failed(failure) => (Seq::empty(), Some(failure)),
        ProgressView::Act(action) => {
            let (rest, end) = script_driven(script_next(s, world_answer(s, world)), world);
            (seq![action] + rest, end)
        },
    }
}

/// In every world a script does what its steps do, each after the one before it and none after
/// one that fails, and ends as the first that fails does, or well.
pub proof fn a_script_stops_at_the_first_failure(
    steps: Seq<StepView>,
    world: spec_fn(int) -> bool,
)
    ensures
        script_driven(fresh(steps), world) == (
            script_effects(steps, world, 0),
            script_failure(steps, world, 0),
        ),
{
    lemma_driven(steps, world, 0);
}

proof fn lemma_driven(steps: Seq<StepView>, world: spec_fn(int) -> bool, k: int)
    requires
        0 <= k <= steps.len(),
    ensures
        script_driven(ScriptView { steps, taken: k, half: None, failed: None }, world) == (
            script_effects(steps, world, k),
            script_failure(steps, world, k),
        ),
    decreases steps.len() - k,
{
    let s = ScriptView { steps, taken: k, half: None, failed: None };
    reveal_with_fuel(script_driven, 3);
    if k < steps.len() {
        lemma_driven(steps, world, k + 1);
        let run = script_driven(s, world);
        assert(run.0 =~= script_effects(steps, world, k));
    }
}

} // verus!
