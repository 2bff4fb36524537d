use vstd::prelude::*;

use crate::runtime::Runtime;

verus! {

/// Why an operation on jails did not complete.
#[derive(Debug, PartialEq, Eq)]
pub enum JailError {
    /// The engine override names no known engine.
    InvalidRuntime(String),
    /// The engine that was asked for explicitly does not work.
    RuntimeUnavailable(Runtime),
    /// Neither engine works.
    NoRuntime,
    /// No jail exists at all.
    NoJails,
    /// No jail name matches the filter.
    NoMatch(String),
    /// The named jail does not exist.
    NotFound(String),
    /// A jail of that name exists already.
    AlreadyExists(String),
    /// An engine command that the container's reconciliation needed failed.
    Engine(EngineFailure),
    /// The workspace could not be cloned or copied.
    CloneFailed,
    /// The shell in the jail exited with an error.
    ShellFailed,
}

/// An engine command that failed while a container was being reconciled,
/// with the engine's diagnostic text.
#[derive(Debug, PartialEq, Eq)]
pub enum EngineFailure {
    /// Listing the containers failed.
    Inspect(String),
    /// Starting the stopped container failed.
    Start(String),
    /// Stopping the container before its commit failed; it is left intact.
    Stop(String),
    /// Committing the container failed; it is left stopped and intact.
    Commit(String),
    /// Removing the old container failed; the committed image is kept.
    Remove(String),
    /// Creating the container failed.
    Create(String),
    /// A reply came after the reconciliation had ended.
    AfterEnd,
}

/// An engine failure, with its diagnostic as a character sequence.
pub enum FailureModel {
    Inspect(Seq<char>),
    Start(Seq<char>),
    Stop(Seq<char>),
    Commit(Seq<char>),
    Remove(Seq<char>),
    Create(Seq<char>),
    AfterEnd,
}

impl View for EngineFailure {
    type V = FailureModel;

    open spec fn view(&self) -> FailureModel {
        match self {
            EngineFailure::Inspect(e) => FailureModel::Inspect(e@),
            EngineFailure::Start(e) => FailureModel::Start(e@),
            EngineFailure::Stop(e) => FailureModel::Stop(e@),
            EngineFailure::Commit(e) => FailureModel::Commit(e@),
            EngineFailure::Remove(e) => FailureModel::Remove(e@),
            EngineFailure::Create(e) => FailureModel::Create(e@),
            EngineFailure::AfterEnd => FailureModel::AfterEnd,
        }
    }
}

} // verus!
