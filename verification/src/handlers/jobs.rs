//! Matches a due job with its handler, by the job's name.
use vstd::prelude::*;
use vstd::string::*;
use crate::command::same_text;
use crate::handlers::decision::{decision_job_name, resolution_outcome, DecisionProcessJob};
use crate::handlers::{Context, IssueAnswer, JobAction, WorkflowError};

verus! {

/// The jobs that have a handler, and the rest.
#[derive(Clone, Copy, Debug, PartialEq, Eq, Structural)]
pub enum JobKind {
    DocsUpdate,
    RustcCommits,
    DecisionProcess,
    /// No handler goes by the job's name.
    Unknown,
}

/// The kind of the job that goes by `name`.
pub open spec fn job_kind_of(name: Seq<char>) -> JobKind {
    if name == "docs_update"@ {
        JobKind::DocsUpdate
    } else if name == "rustc_commits"@ {
        JobKind::RustcCommits
    } else if name == decision_job_name() {
        JobKind::DecisionProcess
    } else {
        JobKind::Unknown
    }
}

/// The kind of the job that goes by `name`.
pub fn job_kind(name: &str) -> (kind: JobKind)
    ensures
        kind == job_kind_of(name@),
{
    if same_text(name, "docs_update") {
        JobKind::DocsUpdate
    } else if same_text(name, "rustc_commits") {
        JobKind::RustcCommits
    } else if same_text(name, DecisionProcessJob.name()) {
        JobKind::DecisionProcess
    } else {
        JobKind::Unknown
    }
}

/// How one step of a job ends: a job with a plain handler is handed to it,
/// the resolution job goes its own way, and a job that nobody knows is
/// passed over without complaint.
pub open spec fn dispatch_outcome(
    ctx: Context,
    name: Seq<char>,
    metadata: serde_json::Value,
    fetched: IssueAnswer,
    r: Result<JobAction, WorkflowError>,
) -> bool {
    match job_kind_of(name) {
        JobKind::DocsUpdate => r matches Ok(JobAction::UpdateDocs),
        JobKind::RustcCommits => r matches Ok(JobAction::SynchronizeCommits),
        JobKind::DecisionProcess => resolution_outcome(ctx, metadata, fetched, r),
        JobKind::Unknown => r matches Ok(JobAction::Nothing),
    }
}

/// One step of a due job. The caller starts with the issue not asked for,
/// does what the returned action asks, and comes back only where the
/// action was to fetch the issue.
pub fn handle_job(
    ctx: &Context,
    name: &String,
    metadata: &serde_json::Value,
    fetched: &IssueAnswer,
) -> (r: Result<JobAction, WorkflowError>)
    ensures
        dispatch_outcome(*ctx, name@, *metadata, *fetched, r),
{
    match job_kind(name.as_str()) {
        JobKind::DocsUpdate => Ok(JobAction::UpdateDocs),
        JobKind::RustcCommits => Ok(JobAction::SynchronizeCommits),
        JobKind::DecisionProcess => decision_process_handler(ctx, metadata, fetched),
        JobKind::Unknown => default(name, metadata),
    }
}

/// The handler of the jobs that nobody knows: they are passed over.
fn default(name: &String, metadata: &serde_json::Value) -> (r: Result<JobAction, WorkflowError>)
    ensures
        r matches Ok(JobAction::Nothing),
{
    Ok(JobAction::Nothing)
}

/// The handler of the resolution job.
fn decision_process_handler(ctx: &Context, metadata: &serde_json::Value, fetched: &IssueAnswer) -> (r:
    Result<JobAction, WorkflowError>)
    ensures
        resolution_outcome(*ctx, *metadata, *fetched, r),
{
    DecisionProcessJob.run(ctx, metadata, fetched)
}

} // verus!
