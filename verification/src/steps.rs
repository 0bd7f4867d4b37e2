//! Steps: what is to be done to the machine, in which order, and what a failure
//! on the way means.

use vstd::prelude::*;
use vstd::string::*;

use crate::lists::texts;
use crate::machine::HostError;
use crate::text::{trim, trimmed};

verus! {

/// One thing to do to the machine.
#[derive(Debug, PartialEq, Eq)]
pub enum Action {
    /// Make a directory, and those above it, where they are not there yet.
    CreateDirs(String),
    /// Start an empty file that no one but its owner can open.
    CreatePrivate(String),
    /// Let no one but its owner open a file.
    Secure(String),
    /// Write a text to a file.
    Write { path: String, text: String },
    /// Move a file, over the one that is there.
    Rename { from: String, to: String },
    /// Remove a file, if it is there.
    Remove(String),
    /// Run a program to its end.
    Run { program: String, args: Vec<String> },
}

/// What an action says to do.
pub enum ActionView {
    CreateDirs(Seq<char>),
    CreatePrivate(Seq<char>),
    Secure(Seq<char>),
    Write { path: Seq<char>, text: Seq<char> },
    Rename { from: Seq<char>, to: Seq<char> },
    Remove(Seq<char>),
    Run { program: Seq<char>, args: Seq<Seq<char>> },
}

impl View for Action {
    type V = ActionView;

    open spec fn view(&self) -> ActionView {
        match *self {
            Action::CreateDirs(path) => ActionView::CreateDirs(path@),
            Action::CreatePrivate(path) => ActionView::CreatePrivate(path@),
            Action::Secure(path) => ActionView::Secure(path@),
            Action::Write { path, text } => ActionView::Write { path: path@, text: text@ },
            Action::Rename { from, to } => ActionView::Rename { from: from@, to: to@ },
            Action::Remove(path) => ActionView::Remove(path@),
            Action::Run { program, args } => ActionView::Run {
                program: program@,
                args: texts(args@),
            },
        }
    }
}

/// What came of an action.
#[derive(Debug, PartialEq, Eq)]
pub enum Outcome {
    /// It is done.
    Done,
    /// It could not be done, for this reason.
    Failed(String),
    /// The program ran to its end.
    Ran { success: bool, stdout: String, stderr: String },
}

/// What a failure means.
#[derive(Debug, PartialEq, Eq)]
pub enum Failure {
    /// Nothing: the next step follows.
    Ignored,
    /// The end, with the reason under this heading, if it has one.
    Fatal { heading: String },
    /// The same, and the end too where the program ran without success: with
    /// what it complained of between these two.
    Refusal { heading: String, before: String, after: String },
}

/// What a failure means.
pub enum FailureView {
    Ignored,
    Fatal { heading: Seq<char> },
    Refusal { heading: Seq<char>, before: Seq<char>, after: Seq<char> },
}

impl View for Failure {
    type V = FailureView;

    open spec fn view(&self) -> FailureView {
        match *self {
            Failure::Ignored => FailureView::Ignored,
            Failure::Fatal { heading } => FailureView::Fatal { heading: heading@ },
            Failure::Refusal { heading, before, after } => FailureView::Refusal {
                heading: heading@,
                before: before@,
                after: after@,
            },
        }
    }
}

/// An action, and what its failure means.
#[derive(Debug, PartialEq, Eq)]
pub struct Step {
    pub action: Action,
    pub failure: Failure,
}

/// An action, and what its failure means.
pub struct StepView {
    pub action: ActionView,
    pub failure: FailureView,
}

impl View for Step {
    type V = StepView;

    open spec fn view(&self) -> StepView {
        StepView { action: self.action@, failure: self.failure@ }
    }
}

/// What the steps of a list say to do.
pub open spec fn script(steps: Seq<Step>) -> Seq<StepView> {
    steps.map_values(|step: Step| step@)
}

/// Steps to take, and what there is to say once all of them are taken.
#[derive(Debug, PartialEq, Eq)]
pub struct Plan<T> {
    pub steps: Vec<Step>,
    pub end: Result<T, HostError>,
}

impl<T> Plan<T> {
    /// Whether there is nothing to do, and only this to say.
    pub open spec fn only_says(self, e: HostError) -> bool {
        self.steps@.len() == 0 && self.end == Err::<T, HostError>(e)
    }

    /// A plan to do nothing, and to say why.
    pub(crate) fn refusal(e: HostError) -> (r: Self)
        ensures
            r.only_says(e),
    {
        Plan { steps: Vec::new(), end: Err(e) }
    }
}

/// A reason under a heading, if it has one.
pub open spec fn under(heading: Seq<char>, reason: Seq<char>) -> Seq<char> {
    if heading.len() == 0 {
        reason
    } else {
        heading + ": "@ + reason
    }
}

/// Why an outcome is the end, if it is.
pub open spec fn verdict_of(failure: FailureView, outcome: Outcome) -> Option<Seq<char>> {
    match failure {
        FailureView::Ignored => None,
        FailureView::Fatal { heading } => match outcome {
            Outcome::Failed(reason) => Some(under(heading, reason@)),
            _ => None,
        },
        FailureView::Refusal { heading, before, after } => match outcome {
            Outcome::Failed(reason) => Some(under(heading, reason@)),
            Outcome::Ran { success, stderr, .. } => if success {
                None
            } else {
                Some(before + trimmed(stderr@) + after)
            },
            Outcome::Done => None,
        },
    }
}

/// A reason under a heading, if it has one.
fn explain(heading: &str, reason: &str) -> (r: String)
    ensures
        r@ == under(heading@, reason@),
{
    if heading.is_empty() {
        return reason.to_owned();
    }
    let mut r = heading.to_owned();
    r.append(": ");
    r.append(reason);
    r
}

/// Judge what came of an action.
pub fn verdict(failure: &Failure, outcome: &Outcome) -> (r: Result<(), HostError>)
    ensures
        match r {
            Ok(()) => verdict_of(failure@, *outcome) is None,
            Err(HostError::Step(reason)) => verdict_of(failure@, *outcome) == Some(reason@),
            Err(_) => false,
        },
{
    match failure {
        Failure::Ignored => Ok(()),
        Failure::Fatal { heading } => match outcome {
            Outcome::Failed(reason) => Err(
                HostError::Step(explain(heading.as_str(), reason.as_str())),
            ),
            _ => Ok(()),
        },
        Failure::Refusal { heading, before, after } => match outcome {
            Outcome::Failed(reason) => Err(
                HostError::Step(explain(heading.as_str(), reason.as_str())),
            ),
            Outcome::Ran { success, stderr, .. } => {
                if *success {
                    return Ok(());
                }
                let mut reason = before.clone();
                reason.append(trim(stderr.as_str()).as_str());
                reason.append(after.as_str());
                Err(HostError::Step(reason))
            },
            Outcome::Done => Ok(()),
        },
    }
}

/// Steps on the way: those before `at` are taken, and the rest is to come. An
/// action is handed out only once all before it are taken, and none is handed out
/// after one whose outcome was the end.
#[derive(Debug, PartialEq, Eq)]
pub struct Course {
    pub steps: Vec<Step>,
    pub at: usize,
}

impl Course {
    /// What is to be done now; nothing where all steps are taken.
    pub open spec fn due(self) -> Option<ActionView> {
        if self.at < self.steps@.len() {
            Some(script(self.steps@)[self.at as int].action)
        } else {
            None
        }
    }

    /// Why this outcome of what is done now is the end, if it is.
    pub open spec fn judged(self, outcome: Outcome) -> Option<Seq<char>> {
        verdict_of(script(self.steps@)[self.at as int].failure, outcome)
    }

    /// Whether this outcome of what is done now leads on to another course: the
    /// same steps, with one more taken.
    pub open spec fn leads_to(self, outcome: Outcome, on: Course) -> bool {
        &&& self.at < self.steps@.len()
        &&& self.judged(outcome) is None
        &&& on.steps == self.steps
        &&& on.at == self.at + 1
    }

    /// The way through some steps, with none of them taken.
    pub fn through(steps: Vec<Step>) -> (r: Course)
        ensures
            r.steps == steps,
            r.at == 0,
    {
        Course { steps, at: 0 }
    }

    /// The one action to perform now; nothing where all steps are taken.
    pub fn next(&self) -> (r: Option<&Action>)
        ensures
            match r {
                Some(action) => self.due() == Some(action@),
                None => self.due() is None,
            },
    {
        if self.at < self.steps.len() {
            Some(&self.steps[self.at].action)
        } else {
            None
        }
    }

    /// The way on once that action is performed, or the reason why this is the
    /// end. Where there was nothing to perform, nothing changes.
    pub fn after(self, outcome: &Outcome) -> (r: Result<Course, HostError>)
        ensures
            match r {
                Ok(on) => self.leads_to(*outcome, on) || (self.due() is None && on == self),
                Err(HostError::Step(reason)) => self.due() is Some && self.judged(*outcome)
                    == Some(reason@),
                Err(_) => false,
            },
    {
        if self.at >= self.steps.len() {
            return Ok(self);
        }
        match verdict(&self.steps[self.at].failure, outcome) {
            Ok(()) => {
                let at: usize = self.at + 1;
                Ok(Course { steps: self.steps, at })
            },
            Err(e) => Err(e),
        }
    }
}

/// A course keeps to its steps: what was handed out on the way from its start are
/// the first of them, each once and in order, and none of their outcomes was the
/// end.
pub proof fn courses_keep_to_their_steps(
    courses: Seq<Course>,
    outcomes: Seq<Outcome>,
    n: int,
)
    requires
        courses.len() == outcomes.len() + 1,
        courses[0].at == 0,
        forall|i: int|
            0 <= i < outcomes.len() ==> courses[i].leads_to(#[trigger] outcomes[i], courses[i + 1]),
        0 <= n <= outcomes.len(),
    ensures
        courses[n].steps == courses[0].steps,
        courses[n].at == n,
        forall|i: int|
            0 <= i < n ==> {
                let step = script(courses[0].steps@)[i];
                &&& (#[trigger] courses[i]).due() == Some(step.action)
                &&& verdict_of(step.failure, outcomes[i]) is None
            },
    decreases n,
{
    if n > 0 {
        courses_keep_to_their_steps(courses, outcomes, n - 1);
        let last = n - 1;
        assert(courses[last].leads_to(outcomes[last], courses[last + 1]));
    }
}

/// Whether a text is told within another one.
pub open spec fn is_told(whole: Seq<char>, part: Seq<char>) -> bool {
    exists|before: Seq<char>, after: Seq<char>| #[trigger] (before + part + after) == whole
}

/// Where an outcome is the end, what is said of it tells the reason: why the action
/// could not be done, or what the program complained of.
pub proof fn reasons_are_told(failure: FailureView, outcome: Outcome)
    requires
        verdict_of(failure, outcome) is Some,
    ensures
        match outcome {
            Outcome::Failed(reason) => is_told(verdict_of(failure, outcome)->0, reason@),
            Outcome::Ran { success, stderr, .. } => !success && is_told(
                verdict_of(failure, outcome)->0,
                trimmed(stderr@),
            ),
            Outcome::Done => false,
        },
{
    let told = verdict_of(failure, outcome)->0;
    let none = Seq::<char>::empty();
    match outcome {
        Outcome::Failed(reason) => {
            let heading = match failure {
                FailureView::Fatal { heading } => heading,
                FailureView::Refusal { heading, .. } => heading,
                FailureView::Ignored => none,
            };
            if heading.len() == 0 {
                assert(none + reason@ + none =~= told);
            } else {
                assert(heading + ": "@ + reason@ + none =~= told);
            }
        },
        Outcome::Ran { stderr, .. } => {
            if let FailureView::Refusal { before, after, .. } = failure {
                assert(before + trimmed(stderr@) + after =~= told);
            }
        },
        Outcome::Done => {},
    }
}

} // verus!
