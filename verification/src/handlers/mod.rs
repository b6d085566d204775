//! The workflows that react to commands and to due jobs.
use vstd::prelude::*;
use vstd::string::*;
use crate::db::issue_decision_state::DecisionStore;
use crate::db::jobs::{JobStore, StoreError};

pub mod decision;
pub mod jobs;

verus! {

/// The tables that the workflows read and write.
pub struct Context {
    pub decisions: DecisionStore,
    pub jobs: JobStore,
}

impl Context {
    /// Empty tables.
    pub fn new() -> (ctx: Context)
        ensures
            ctx.decisions@.dom() == Set::<u64>::empty(),
            ctx.jobs@.len() == 0,
    {
        Context { decisions: DecisionStore::new(), jobs: JobStore::new() }
    }
}

/// A failure that is handed to the caller, as opposed to a rejection that
/// is answered with a comment.
#[derive(Debug)]
pub enum WorkflowError {
    /// A participant has a current vote but no history.
    MissingHistory(String),
    /// The metadata of a job is not what its handler expects.
    InvalidMetadata,
    /// A table turned a request down.
    Store(StoreError),
    /// The end of the decision period cannot be represented.
    TimeOutOfRange,
}

/// What is known of the issue that a job is about.
#[derive(Clone, Copy, Debug, PartialEq, Eq, Structural)]
pub enum IssueAnswer {
    /// Nobody has fetched it yet.
    NotAsked,
    /// It could not be fetched.
    Failed,
    /// It was fetched and has this number.
    Found(u64),
}

/// What the caller is to do next for a job.
#[derive(Debug)]
pub enum JobAction {
    /// Run the documentation update.
    UpdateDocs,
    /// Synchronize the compiler's commits.
    SynchronizeCommits,
    /// Fetch the issue at this address, then come back.
    FetchIssue(String),
    /// Post `message` on the issue, addressed to `users`.
    Ping { issue_number: u64, users: Vec<String>, message: String },
    /// Nothing is left to do.
    Nothing,
}

/// What a failure says.
pub open spec fn error_text(error: WorkflowError) -> Seq<char> {
    match error {
        WorkflowError::MissingHistory(user) => "user "@ + user@
            + " not present in history statuses list"@,
        WorkflowError::InvalidMetadata => "job metadata does not match its handler"@,
        WorkflowError::Store(StoreError::CronMismatch) => "cron period and unit must come together"@,
        WorkflowError::Store(StoreError::DuplicateJobId) => "job identifier already in use"@,
        WorkflowError::Store(StoreError::DuplicateSlot) => "job slot already in use"@,
        WorkflowError::Store(StoreError::DecisionExists) => "issue already has a decision state"@,
        WorkflowError::Store(StoreError::NotFound) => "issue has no decision state"@,
        WorkflowError::TimeOutOfRange => "end of the decision period is out of range"@,
    }
}

impl WorkflowError {
    /// What the failure says.
    pub fn message(&self) -> (text: String)
        ensures
            text@ == error_text(*self),
    {
        match self {
            WorkflowError::MissingHistory(user) => {
                let mut text = String::from_str("user ");
                text.append(user.as_str());
                text.append(" not present in history statuses list");
                text
            },
            WorkflowError::InvalidMetadata => String::from_str(
                "job metadata does not match its handler",
            ),
            WorkflowError::Store(StoreError::CronMismatch) => String::from_str(
                "cron period and unit must come together",
            ),
            WorkflowError::Store(StoreError::DuplicateJobId) => String::from_str(
                "job identifier already in use",
            ),
            WorkflowError::Store(StoreError::DuplicateSlot) => String::from_str(
                "job slot already in use",
            ),
            WorkflowError::Store(StoreError::DecisionExists) => String::from_str(
                "issue already has a decision state",
            ),
            WorkflowError::Store(StoreError::NotFound) => String::from_str(
                "issue has no decision state",
            ),
            WorkflowError::TimeOutOfRange => String::from_str(
                "end of the decision period is out of range",
            ),
        }
    }
}

} // verus!
