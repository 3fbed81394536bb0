//! The errors of the download library, each with the inputs that bring it.
use vstd::prelude::*;

use crate::plan::DownloadJobId;

verus! {

/// Why a plan, a job id or a URL was refused.
#[derive(Debug, Clone, PartialEq, Eq)]
pub enum DownloadPlanError {
    EmptyJobId,
    EmptyUrl,
    DuplicateJobId { id: DownloadJobId },
}

/// Why a manager configuration was refused.
#[derive(Debug, Clone, Copy, PartialEq, Eq, Structural)]
pub enum DownloadConfigError {
    ZeroGlobalConcurrency,
    ZeroPerHostConcurrency,
    PerHostExceedsGlobal,
    ZeroQueueCapacity,
    ZeroRetryAttempts,
    ZeroEventBuffer,
    EmptyTempSuffix,
    EmptyMetadataSuffix,
}

/// Why the manager refused to start or to act.
#[derive(Debug, Clone, PartialEq, Eq)]
pub enum DownloadManagerError {
    InvalidConfig(DownloadConfigError),
    UnknownJob { id: DownloadJobId },
}

/// Why a backend could not start or stop a worker.
#[derive(Debug, Clone, PartialEq, Eq)]
pub enum DownloadBackendError {
    StartJob { id: DownloadJobId, message: String },
    StopWorker { id: DownloadJobId, message: String },
    Setup { message: String },
}

/// Why the download service stopped.
#[derive(Debug, Clone, PartialEq, Eq)]
pub enum DownloadServiceError {
    Manager(DownloadManagerError),
    Backend(DownloadBackendError),
    EventStreamClosed,
}

} // verus!
