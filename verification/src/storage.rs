//! Where a download keeps its partial data, the versioned record beside it,
//! and the decisions built on them: whether a partial download may be resumed,
//! what is kept of it when a worker stops, and how HTTP answers are classified.
use std::path::PathBuf;

use vstd::prelude::*;

use crate::config::{
    is_default_integrity, is_default_resume, is_default_storage, is_default_timeouts,
    DownloadIntegrityConfig, DownloadResumeConfig, DownloadResumeMode, DownloadStorageConfig,
    DownloadTimeoutConfig, PartialRetentionPolicy, ResumeValidatorPolicy,
};
use crate::event::{WorkerReport, WorkerStopReason};
use crate::external::{path_with_suffix, paths_equal, same_path, suffixed_path};
use crate::plan::{copy_opt_string, Checksum, DownloadJobId, DownloadJobSpec, DownloadUrl};
use crate::text::str_eq;

verus! {

/// The schema version of the partial download record this library writes and reads.
pub const PARTIAL_DOWNLOAD_METADATA_SCHEMA_VERSION: u32 = 1;

/// The three paths of a download: the target, the partial file, and the
/// partial download record.
#[derive(Debug, Clone, PartialEq, Eq)]
pub struct DownloadStoragePaths {
    pub target_path: PathBuf,
    pub partial_path: PathBuf,
    pub partial_metadata_path: PathBuf,
}

impl DownloadStoragePaths {
    /// The paths of a job's target.
    pub fn for_job(job: &DownloadJobSpec, config: &DownloadStorageConfig) -> (r: Self)
        ensures
            r.target_path == job.target_path,
            r.partial_path == suffixed_path(job.target_path, config.temp_suffix@),
            r.partial_metadata_path == suffixed_path(job.target_path, config.metadata_suffix@),
    {
        Self::for_target(&job.target_path, config)
    }

    /// The paths for `target_path`: the partial file and the record are the
    /// target's path with the configured suffixes appended.
    pub fn for_target(target_path: &PathBuf, config: &DownloadStorageConfig) -> (r: Self)
        ensures
            r.target_path == *target_path,
            r.partial_path == suffixed_path(*target_path, config.temp_suffix@),
            r.partial_metadata_path == suffixed_path(*target_path, config.metadata_suffix@),
    {
        DownloadStoragePaths {
            target_path: target_path.clone(),
            partial_path: path_with_suffix(target_path, config.temp_suffix.as_str()),
            partial_metadata_path: path_with_suffix(target_path, config.metadata_suffix.as_str()),
        }
    }
}

/// The validators a server gave for the partial data, to resume only the same file.
#[derive(Debug, Clone, PartialEq, Eq)]
pub struct ResumeValidator {
    pub etag: Option<String>,
    pub last_modified: Option<String>,
}

impl ResumeValidator {
    /// The validators a response named in its `ETag` and `Last-Modified`
    /// headers; `None` when it named neither.
    pub fn from_headers(etag: Option<String>, last_modified: Option<String>) -> (r: Option<Self>)
        ensures
            (etag is None && last_modified is None) ==> r is None,
            !(etag is None && last_modified is None) ==> r == Some(
                ResumeValidator { etag, last_modified },
            ),
    {
        if etag.is_none() && last_modified.is_none() {
            return None;
        }
        Some(ResumeValidator { etag, last_modified })
    }

    /// An equal copy.
    pub fn duplicate(&self) -> (r: Self)
        ensures
            r == *self,
    {
        ResumeValidator {
            etag: copy_opt_string(&self.etag),
            last_modified: copy_opt_string(&self.last_modified),
        }
    }
}

/// The record kept beside a partial download.
#[derive(Debug, Clone, PartialEq, Eq)]
pub struct PartialDownloadMetadata {
    pub schema_version: u32,
    pub job_id: DownloadJobId,
    pub url: DownloadUrl,
    pub target_path: PathBuf,
    pub expected_size: Option<u64>,
    pub checksum: Option<Checksum>,
    pub downloaded: u64,
    pub validator: Option<ResumeValidator>,
}

impl PartialDownloadMetadata {
    /// The record for `job` after `downloaded` bytes, in the current schema.
    pub fn for_job(job: &DownloadJobSpec, downloaded: u64, validator: Option<ResumeValidator>) -> (r:
        Self)
        ensures
            r.schema_version == PARTIAL_DOWNLOAD_METADATA_SCHEMA_VERSION,
            r.job_id == job.id,
            r.url == job.url,
            r.target_path == job.target_path,
            r.expected_size == job.expected_size,
            r.checksum == job.checksum,
            r.downloaded == downloaded,
            r.validator == validator,
    {
        PartialDownloadMetadata {
            schema_version: PARTIAL_DOWNLOAD_METADATA_SCHEMA_VERSION,
            job_id: job.id.duplicate(),
            url: job.url.duplicate(),
            target_path: job.target_path.clone(),
            expected_size: job.expected_size,
            checksum: match &job.checksum {
                Some(c) => Some(c.duplicate()),
                None => None,
            },
            downloaded,
            validator,
        }
    }
}

/// Why a storage operation failed.
#[derive(Debug)]
pub enum DownloadStorageError {
    CreateParentDirectory { path: PathBuf, source: std::io::Error },
    WritePartial { path: PathBuf, source: std::io::Error },
    WritePartialMetadata { path: PathBuf, source: std::io::Error },
    ReadPartialMetadata { path: PathBuf, source: std::io::Error },
    ParsePartialMetadata { path: PathBuf, source: serde_json::Error },
    UnsupportedPartialMetadataVersion { path: PathBuf, version: u32 },
    RemovePartialMetadata { path: PathBuf, source: std::io::Error },
    PromotePartial { partial_path: PathBuf, target_path: PathBuf, source: std::io::Error },
    RemovePromotedPartial { path: PathBuf, source: std::io::Error },
    Fsync { path: PathBuf, source: std::io::Error },
}

/// Accepts a record read from `path` only in the current schema version; a
/// record in another version is never resumed blindly.
pub fn check_metadata_version(metadata: PartialDownloadMetadata, path: PathBuf) -> (r: Result<
    PartialDownloadMetadata,
    DownloadStorageError,
>)
    ensures
        metadata.schema_version == PARTIAL_DOWNLOAD_METADATA_SCHEMA_VERSION ==> r
            == Ok::<_, DownloadStorageError>(metadata),
        metadata.schema_version != PARTIAL_DOWNLOAD_METADATA_SCHEMA_VERSION ==> r == Err::<
            PartialDownloadMetadata,
            _,
        >(
            DownloadStorageError::UnsupportedPartialMetadataVersion {
                path,
                version: metadata.schema_version,
            },
        ),
{
    if metadata.schema_version != PARTIAL_DOWNLOAD_METADATA_SCHEMA_VERSION {
        let version = metadata.schema_version;
        return Err(DownloadStorageError::UnsupportedPartialMetadataVersion { path, version });
    }
    Ok(metadata)
}

/// Two optional checksums are the same: both absent, or the same algorithm and text.
pub open spec fn same_checksum(a: Option<Checksum>, b: Option<Checksum>) -> bool {
    match (a, b) {
        (None, None) => true,
        (Some(x), Some(y)) => x.algorithm == y.algorithm && x.value@ == y.value@,
        _ => false,
    }
}

/// A partial download record belongs to `job`: same id, URL, target, expected
/// size and checksum.
pub open spec fn metadata_matches(m: PartialDownloadMetadata, job: DownloadJobSpec) -> bool {
    &&& m.job_id@ == job.id@
    &&& m.url@ == job.url@
    &&& same_path(m.target_path, job.target_path)
    &&& m.expected_size == job.expected_size
    &&& same_checksum(m.checksum, job.checksum)
}

/// Whether the record belongs to `job` (see `metadata_matches`).
pub fn metadata_matches_job(metadata: &PartialDownloadMetadata, job: &DownloadJobSpec) -> (r: bool)
    ensures
        r == metadata_matches(*metadata, *job),
{
    let same_id = str_eq(metadata.job_id.as_str(), job.id.as_str());
    let same_url = str_eq(metadata.url.as_str(), job.url.as_str());
    let same_target = paths_equal(&metadata.target_path, &job.target_path);
    let same_size = metadata.expected_size == job.expected_size;
    let same_checksum = match (&metadata.checksum, &job.checksum) {
        (None, None) => true,
        (Some(x), Some(y)) => x.algorithm == y.algorithm && str_eq(x.value.as_str(), y.value.as_str()),
        _ => false,
    };
    same_id && same_url && same_target && same_size && same_checksum
}

/// Whether and from where a worker resumes a partial download.
#[derive(Debug, Clone, PartialEq, Eq)]
pub struct ResumeDecision {
    pub should_resume: bool,
    pub downloaded: u64,
    pub if_range: Option<String>,
}

impl ResumeDecision {
    /// Start over from the first byte.
    pub fn restart() -> (r: Self)
        ensures
            !r.should_resume && r.downloaded == 0 && r.if_range is None,
    {
        ResumeDecision { should_resume: false, downloaded: 0, if_range: None }
    }
}

/// The validator a resumed request names: the ETag if there is one, else the
/// modification date.
pub open spec fn if_range_of(validator: Option<ResumeValidator>) -> Option<Seq<char>> {
    match validator {
        None => None,
        Some(v) => match v.etag {
            Some(e) => Some(e@),
            None => match v.last_modified {
                Some(l) => Some(l@),
                None => None,
            },
        },
    }
}

/// A partial download is resumed only when resuming is on, its record was read
/// and belongs to the job, the partial file's length was read and equals the
/// bytes the record counts, that count reaches the minimum size, and a
/// validator is known unless the policy lets it be missing.
pub open spec fn may_resume(
    job: DownloadJobSpec,
    config: DownloadResumeConfig,
    metadata: Option<PartialDownloadMetadata>,
    partial_len: Option<u64>,
) -> bool {
    &&& config.mode == DownloadResumeMode::Enabled
    &&& metadata matches Some(m)
    &&& metadata_matches(m, job)
    &&& partial_len == Some(m.downloaded)
    &&& m.downloaded >= config.min_size
    &&& (if_range_of(m.validator) is Some || config.validator_policy
        == ResumeValidatorPolicy::AllowMissingValidator)
}

/// The resume decision for `job`, given the record read beside its partial
/// file (`None` when it could not be read or was refused) and the partial
/// file's length (`None` when it could not be read); see `may_resume`.
pub fn resume_decision_for_job(
    job: &DownloadJobSpec,
    config: &DownloadResumeConfig,
    metadata: Option<PartialDownloadMetadata>,
    partial_len: Option<u64>,
) -> (r: ResumeDecision)
    ensures
        r.should_resume == may_resume(*job, *config, metadata, partial_len),
        r.should_resume ==> ({
            let m = metadata->Some_0;
            &&& r.downloaded == m.downloaded
            &&& match r.if_range {
                Some(s) => if_range_of(m.validator) == Some(s@),
                None => if_range_of(m.validator) is None,
            }
        }),
        !r.should_resume ==> r.downloaded == 0 && r.if_range is None,
{
    if config.mode == DownloadResumeMode::Disabled {
        return ResumeDecision::restart();
    }
    let m = match metadata {
        Some(m) => m,
        None => {
            return ResumeDecision::restart();
        },
    };
    if !metadata_matches_job(&m, job) {
        return ResumeDecision::restart();
    }
    let len = match partial_len {
        Some(len) => len,
        None => {
            return ResumeDecision::restart();
        },
    };
    if len != m.downloaded {
        return ResumeDecision::restart();
    }
    if m.downloaded < config.min_size {
        return ResumeDecision::restart();
    }
    let if_range = match &m.validator {
        None => None,
        Some(v) => match &v.etag {
            Some(e) => Some(e.clone()),
            None => copy_opt_string(&v.last_modified),
        },
    };
    if if_range.is_none() && config.validator_policy == ResumeValidatorPolicy::RequireMatch {
        return ResumeDecision::restart();
    }
    ResumeDecision { should_resume: true, downloaded: m.downloaded, if_range }
}

/// What is done with a partial download when its worker stops: a pause
/// follows the pause policy, a cancellation the failure policy.
pub fn partial_retention_for_stop(reason: WorkerStopReason, config: &DownloadResumeConfig) -> (r:
    PartialRetentionPolicy)
    ensures
        r == match reason {
            WorkerStopReason::Paused => config.partial_on_pause,
            WorkerStopReason::Cancelled => config.partial_on_failure,
        },
{
    match reason {
        WorkerStopReason::Paused => config.partial_on_pause,
        WorkerStopReason::Cancelled => config.partial_on_failure,
    }
}

/// Whether the worker sends a `Range` request: only when resuming bytes already held.
pub fn sends_range(decision: &ResumeDecision) -> (r: bool)
    ensures
        r == (decision.should_resume && decision.downloaded > 0),
{
    decision.should_resume && decision.downloaded > 0
}

/// An HTTP status in the 2xx range.
pub open spec fn is_success_status(status: u16) -> bool {
    200 <= status <= 299
}

/// An HTTP status in the 5xx range.
pub open spec fn is_server_error_status(status: u16) -> bool {
    500 <= status <= 599
}

/// How a worker takes an HTTP status: success goes on, a server error may be
/// retried, any other failure is permanent.
#[derive(Debug, Clone, Copy, PartialEq, Eq, Structural)]
pub enum HttpStatusClass {
    Success,
    RetryableFailure,
    PermanentFailure,
}

pub fn classify_http_status(status: u16) -> (r: HttpStatusClass)
    ensures
        is_success_status(status) ==> r == HttpStatusClass::Success,
        !is_success_status(status) && is_server_error_status(status) ==> r
            == HttpStatusClass::RetryableFailure,
        !is_success_status(status) && !is_server_error_status(status) ==> r
            == HttpStatusClass::PermanentFailure,
{
    if 200 <= status && status <= 299 {
        HttpStatusClass::Success
    } else if 500 <= status && status <= 599 {
        HttpStatusClass::RetryableFailure
    } else {
        HttpStatusClass::PermanentFailure
    }
}

/// Whether the response continues the partial data: a resumed range request
/// answered with `206 Partial Content`.
pub fn response_resumes(decision: &ResumeDecision, status: u16) -> (r: bool)
    ensures
        r == (decision.should_resume && decision.downloaded > 0 && status == 206),
{
    decision.should_resume && decision.downloaded > 0 && status == 206
}

/// The total size a worker reports: the response length, plus the bytes
/// already held when the response continues them (saturating).
pub fn progress_total(content_length: Option<u64>, resumed: bool, downloaded: u64) -> (r: Option<
    u64,
>)
    ensures
        match content_length {
            None => r is None,
            Some(l) => r == Some(
                if resumed {
                    if l + downloaded > u64::MAX {
                        u64::MAX
                    } else {
                        (l + downloaded) as u64
                    }
                } else {
                    l
                },
            ),
        },
{
    match content_length {
        None => None,
        Some(l) => Some(
            if resumed {
                l.saturating_add(downloaded)
            } else {
                l
            },
        ),
    }
}

/// A worker's failure, and whether the manager may retry the job.
#[derive(Debug, Clone, PartialEq, Eq)]
pub struct NativeHttpWorkerError {
    pub message: String,
    pub retryable: bool,
}

impl NativeHttpWorkerError {
    pub fn retryable(message: String) -> (r: Self)
        ensures
            r.message == message && r.retryable,
    {
        NativeHttpWorkerError { message, retryable: true }
    }

    pub fn permanent(message: String) -> (r: Self)
        ensures
            r.message == message && !r.retryable,
    {
        NativeHttpWorkerError { message, retryable: false }
    }
}

/// How far a transfer has come: the bytes held and the total expected, as
/// progress reports give them.
#[derive(Debug, Clone, Copy, PartialEq, Eq, Structural)]
pub struct TransferProgress {
    pub downloaded: u64,
    pub total: Option<u64>,
}

impl TransferProgress {
    /// The progress at the first byte of a response: a continued partial
    /// download starts from the bytes already held, anything else from zero.
    pub fn start(decision: &ResumeDecision, status: u16, content_length: Option<u64>) -> (r: Self)
        ensures
            ({
                let resumed = decision.should_resume && decision.downloaded > 0 && status == 206;
                &&& r.downloaded == if resumed {
                    decision.downloaded
                } else {
                    0
                }
                &&& match content_length {
                    None => r.total is None,
                    Some(l) => r.total == Some(
                        if resumed {
                            if l + decision.downloaded > u64::MAX {
                                u64::MAX
                            } else {
                                (l + decision.downloaded) as u64
                            }
                        } else {
                            l
                        },
                    ),
                }
            }),
    {
        let resumed = response_resumes(decision, status);
        TransferProgress {
            downloaded: if resumed {
                decision.downloaded
            } else {
                0
            },
            total: progress_total(content_length, resumed, decision.downloaded),
        }
    }

    /// The progress after a chunk of `len` bytes was written (saturating).
    pub fn after_chunk(self, len: usize) -> (r: Self)
        ensures
            r.total == self.total,
            r.downloaded == if self.downloaded + len > u64::MAX {
                u64::MAX
            } else {
                (self.downloaded + len) as u64
            },
    {
        let len64: u64 = if len as u128 > u64::MAX as u128 {
            u64::MAX
        } else {
            len as u64
        };
        TransferProgress { downloaded: self.downloaded.saturating_add(len64), total: self.total }
    }

    /// The record to keep beside the partial file at this point.
    pub fn record(&self, job: &DownloadJobSpec, validator: Option<ResumeValidator>) -> (r:
        PartialDownloadMetadata)
        ensures
            r.schema_version == PARTIAL_DOWNLOAD_METADATA_SCHEMA_VERSION,
            r.job_id == job.id,
            r.url == job.url,
            r.target_path == job.target_path,
            r.expected_size == job.expected_size,
            r.checksum == job.checksum,
            r.downloaded == self.downloaded,
            r.validator == validator,
    {
        PartialDownloadMetadata::for_job(job, self.downloaded, validator)
    }

    /// The progress report for `job`, measured at `at_ms`.
    pub fn report(&self, job: &DownloadJobSpec, at_ms: u64) -> (r: WorkerReport)
        ensures
            r == (WorkerReport::Progress {
                id: job.id,
                downloaded: self.downloaded,
                total: self.total,
                at_ms,
            }),
    {
        WorkerReport::Progress {
            id: job.id.duplicate(),
            downloaded: self.downloaded,
            total: self.total,
            at_ms,
        }
    }
}

/// How a worker's download ended, short of a failure.
#[derive(Debug, Clone, Copy, PartialEq, Eq, Structural)]
pub enum WorkerOutcome {
    Completed,
    Stopped(WorkerStopReason),
}

/// What a worker does when its download ends: whether it deletes the partial
/// download (as the retention policy for a pause, a cancellation or a failure
/// says), and what it reports.
pub fn conclude_worker(
    job: &DownloadJobSpec,
    config: &DownloadResumeConfig,
    result: Result<WorkerOutcome, NativeHttpWorkerError>,
) -> (r: (bool, WorkerReport))
    ensures
        match result {
            Ok(WorkerOutcome::Completed) => r == (false, WorkerReport::Completed { id: job.id }),
            Ok(WorkerOutcome::Stopped(reason)) => r == (
                match reason {
                    WorkerStopReason::Paused => config.partial_on_pause,
                    WorkerStopReason::Cancelled => config.partial_on_failure,
                } == PartialRetentionPolicy::Delete,
                WorkerReport::Stopped { id: job.id, reason },
            ),
            Err(e) => r == (
                config.partial_on_failure == PartialRetentionPolicy::Delete,
                WorkerReport::Failed { id: job.id, error: e.message, retryable: e.retryable },
            ),
        },
{
    match result {
        Ok(WorkerOutcome::Completed) => (false, WorkerReport::Completed { id: job.id.duplicate() }),
        Ok(WorkerOutcome::Stopped(reason)) => {
            let policy = partial_retention_for_stop(reason, config);
            (
                policy == PartialRetentionPolicy::Delete,
                WorkerReport::Stopped { id: job.id.duplicate(), reason },
            )
        },
        Err(e) => (
            config.partial_on_failure == PartialRetentionPolicy::Delete,
            WorkerReport::Failed { id: job.id.duplicate(), error: e.message, retryable: e.retryable },
        ),
    }
}

/// What the native HTTP backend is configured with.
#[derive(Debug, Clone, PartialEq, Eq)]
pub struct NativeHttpBackendConfig {
    pub storage: DownloadStorageConfig,
    pub integrity: DownloadIntegrityConfig,
    pub resume: DownloadResumeConfig,
    pub timeouts: DownloadTimeoutConfig,
}

impl Default for NativeHttpBackendConfig {
    /// Every part at its own default.
    fn default() -> (r: Self)
        ensures
            is_default_storage(r.storage),
            is_default_integrity(r.integrity),
            is_default_resume(r.resume),
            is_default_timeouts(r.timeouts),
    {
        NativeHttpBackendConfig {
            storage: DownloadStorageConfig::default(),
            integrity: DownloadIntegrityConfig::default(),
            resume: DownloadResumeConfig::default(),
            timeouts: DownloadTimeoutConfig::default(),
        }
    }
}

/// A resume decision, as the fuzz target compares them.
#[derive(Debug, Clone, PartialEq, Eq)]
pub struct FuzzResumeDecision {
    pub should_resume: bool,
    pub downloaded: u64,
    pub if_range: Option<String>,
}

impl FuzzResumeDecision {
    /// The same decision.
    pub fn from_decision(d: ResumeDecision) -> (r: Self)
        ensures
            r.should_resume == d.should_resume,
            r.downloaded == d.downloaded,
            r.if_range == d.if_range,
    {
        FuzzResumeDecision {
            should_resume: d.should_resume,
            downloaded: d.downloaded,
            if_range: d.if_range,
        }
    }
}

/// A record made for a job belongs to that job.
pub proof fn law_metadata_for_job_matches(m: PartialDownloadMetadata, job: DownloadJobSpec)
    requires
        m.job_id == job.id,
        m.url == job.url,
        m.target_path == job.target_path,
        m.expected_size == job.expected_size,
        m.checksum == job.checksum,
    ensures
        metadata_matches(m, job),
{
}

/// A partial download is resumed only from a partial file whose length is
/// exactly the byte count its record holds, a count of at least `min_size`, for
/// a record of this very job, with resuming on; and, when the policy requires a
/// validator, only with one: the `ETag`, else the modification date.
pub proof fn law_resume_only_exact_partial(
    job: DownloadJobSpec,
    config: DownloadResumeConfig,
    metadata: Option<PartialDownloadMetadata>,
    partial_len: Option<u64>,
)
    ensures
        may_resume(job, config, metadata, partial_len) ==> {
            &&& config.mode == DownloadResumeMode::Enabled
            &&& metadata is Some
            &&& partial_len == Some(metadata->Some_0.downloaded)
            &&& metadata->Some_0.downloaded >= config.min_size
            &&& metadata->Some_0.job_id@ == job.id@
            &&& metadata->Some_0.url@ == job.url@
            &&& metadata->Some_0.expected_size == job.expected_size
            &&& config.validator_policy == ResumeValidatorPolicy::RequireMatch ==> (
            metadata->Some_0.validator matches Some(v) && (v.etag is Some || v.last_modified is Some))
        },
        metadata matches Some(m) && partial_len != Some(m.downloaded) ==> !may_resume(
            job,
            config,
            metadata,
            partial_len,
        ),
        metadata is None ==> !may_resume(job, config, metadata, partial_len),
        config.mode == DownloadResumeMode::Disabled ==> !may_resume(
            job,
            config,
            metadata,
            partial_len,
        ),
{
}

} // verus!
