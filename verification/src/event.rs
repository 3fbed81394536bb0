//! What goes into the download manager (commands, worker reports) and what
//! comes out of it (events, actions), with the states a job moves through.
use vstd::prelude::*;

use crate::plan::{DownloadJobId, DownloadJobSpec};

verus! {

/// A request from the user of the manager.
#[derive(Debug, Clone, PartialEq, Eq)]
pub enum DownloadCommand {
    PauseJob(DownloadJobId),
    ResumeJob(DownloadJobId),
    CancelJob(DownloadJobId),
    RetryJob(DownloadJobId),
    PauseAll,
    ResumeAll,
    CancelAll,
}

/// Something that happened to a job or to the plan.
#[derive(Debug, Clone, PartialEq, Eq)]
pub enum DownloadEvent {
    JobQueued { id: DownloadJobId },
    JobStarted { id: DownloadJobId, attempt: u8 },
    JobPauseRequested { id: DownloadJobId },
    JobPaused { id: DownloadJobId },
    JobResumed { id: DownloadJobId },
    JobCancelRequested { id: DownloadJobId },
    JobCancelled { id: DownloadJobId },
    JobRetryScheduled { id: DownloadJobId, attempt: u8 },
    JobProgress { id: DownloadJobId, downloaded: u64, total: Option<u64> },
    JobCompleted { id: DownloadJobId },
    JobFailed { id: DownloadJobId, error: String },
    PlanCompleted,
    PlanFailed,
}

/// How a plan ended.
#[derive(Debug, Clone, Copy, PartialEq, Eq, Structural)]
pub enum PlanTerminalState {
    Completed,
    Failed,
}

/// Where a job stands.
#[derive(Debug, Clone, PartialEq, Eq)]
pub enum DownloadJobState {
    Pending,
    Running { attempt: u8 },
    Pausing { attempt: u8 },
    Paused,
    Cancelling { attempt: u8 },
    Completed,
    Failed { attempts: u8, error: String },
    Cancelled,
}

/// A worker has a download in hand: the job runs, or is being paused or cancelled.
pub open spec fn is_active(s: DownloadJobState) -> bool {
    s is Running || s is Pausing || s is Cancelling
}

/// What a worker tells the manager.
#[derive(Debug, Clone, PartialEq, Eq)]
pub enum WorkerReport {
    /// `at_ms`: when the worker measured it, in milliseconds of the wall clock.
    Progress { id: DownloadJobId, downloaded: u64, total: Option<u64>, at_ms: u64 },
    Completed { id: DownloadJobId },
    Failed { id: DownloadJobId, error: String, retryable: bool },
    Stopped { id: DownloadJobId, reason: WorkerStopReason },
}

/// Why a worker was stopped.
#[derive(Debug, Clone, Copy, PartialEq, Eq, Structural)]
pub enum WorkerStopReason {
    Paused,
    Cancelled,
}

/// What the manager asks of the backend.
#[derive(Debug, Clone, PartialEq, Eq)]
pub enum DownloadManagerAction {
    StartJob(DownloadJobSpec),
    StopWorker { id: DownloadJobId, reason: WorkerStopReason },
}

} // verus!
