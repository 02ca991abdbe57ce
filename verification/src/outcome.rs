//! What one upload ends in, and the mathematical models the contracts of
//! this crate are stated over.

use vstd::prelude::*;

verus! {

/// The terminal classification of one upload task.
#[derive(Debug, Clone, PartialEq, Eq)]
pub enum TaskResult {
    /// The upload went through; the text is what is shown to the user.
    Success(String),
    /// The server answered, but not with what was expected.
    ApplicationError(String),
    /// The request never produced a complete answer.
    TransportError(String),
}

/// Model of a [`TaskResult`]: the same classification over sequences of
/// characters.
pub enum ResultModel {
    Success(Seq<char>),
    ApplicationError(Seq<char>),
    TransportError(Seq<char>),
}

impl View for TaskResult {
    type V = ResultModel;

    open spec fn view(&self) -> ResultModel {
        match self {
            TaskResult::Success(text) => ResultModel::Success(text@),
            TaskResult::ApplicationError(message) => ResultModel::ApplicationError(message@),
            TaskResult::TransportError(message) => ResultModel::TransportError(message@),
        }
    }
}

/// The outcome of the task that handled the file at `path`.
#[derive(Debug, Clone, PartialEq, Eq)]
pub struct TaskOutcome {
    pub path: String,
    pub result: TaskResult,
}

/// Model of a [`TaskOutcome`].
pub struct OutcomeModel {
    pub path: Seq<char>,
    pub result: ResultModel,
}

impl View for TaskOutcome {
    type V = OutcomeModel;

    open spec fn view(&self) -> OutcomeModel {
        OutcomeModel { path: self.path@, result: self.result@ }
    }
}

/// The models of a sequence of outcomes, in the same order.
pub open spec fn outcome_models(outcomes: Seq<TaskOutcome>) -> Seq<OutcomeModel> {
    Seq::new(outcomes.len(), |i: int| outcomes[i]@)
}

/// The character sequences of a sequence of strings, in the same order.
pub open spec fn texts(strings: Seq<String>) -> Seq<Seq<char>> {
    Seq::new(strings.len(), |i: int| strings[i]@)
}

} // verus!
