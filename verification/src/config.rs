//! How the download manager, its workers and its storage are configured, with
//! the defaults and the check that a configuration is usable.
use std::time::Duration;

use vstd::prelude::*;

use crate::errors::DownloadConfigError;
use crate::external::{duration_from_millis, duration_from_secs, millis_duration, secs_duration};

verus! {

/// Everything the manager is configured with.
#[derive(Debug, Clone, PartialEq, Eq)]
pub struct DownloadManagerConfig {
    pub concurrency: DownloadConcurrencyConfig,
    pub retry: DownloadRetryConfig,
    pub resume: DownloadResumeConfig,
    pub integrity: DownloadIntegrityConfig,
    pub events: DownloadEventConfig,
    pub storage: DownloadStorageConfig,
    pub timeouts: DownloadTimeoutConfig,
}

/// The first rule that `config` breaks, in the order they are checked, or `Ok`.
pub open spec fn config_check(config: DownloadManagerConfig) -> Result<(), DownloadConfigError> {
    if config.concurrency.global_limit == 0 {
        Err(DownloadConfigError::ZeroGlobalConcurrency)
    } else if config.concurrency.per_host_limit == 0 {
        Err(DownloadConfigError::ZeroPerHostConcurrency)
    } else if config.concurrency.per_host_limit > config.concurrency.global_limit {
        Err(DownloadConfigError::PerHostExceedsGlobal)
    } else if config.concurrency.queue_capacity == 0 {
        Err(DownloadConfigError::ZeroQueueCapacity)
    } else if config.retry.max_attempts == 0 {
        Err(DownloadConfigError::ZeroRetryAttempts)
    } else if config.events.event_buffer == 0 {
        Err(DownloadConfigError::ZeroEventBuffer)
    } else if config.storage.temp_suffix@.len() == 0 {
        Err(DownloadConfigError::EmptyTempSuffix)
    } else if config.storage.metadata_suffix@.len() == 0 {
        Err(DownloadConfigError::EmptyMetadataSuffix)
    } else {
        Ok(())
    }
}

impl DownloadManagerConfig {
    /// Checks the configuration; the error names the first rule it breaks.
    pub fn validate(&self) -> (r: Result<(), DownloadConfigError>)
        ensures
            r == config_check(*self),
    {
        if self.concurrency.global_limit == 0 {
            return Err(DownloadConfigError::ZeroGlobalConcurrency);
        }
        if self.concurrency.per_host_limit == 0 {
            return Err(DownloadConfigError::ZeroPerHostConcurrency);
        }
        if self.concurrency.per_host_limit > self.concurrency.global_limit {
            return Err(DownloadConfigError::PerHostExceedsGlobal);
        }
        if self.concurrency.queue_capacity == 0 {
            return Err(DownloadConfigError::ZeroQueueCapacity);
        }
        if self.retry.max_attempts == 0 {
            return Err(DownloadConfigError::ZeroRetryAttempts);
        }
        if self.events.event_buffer == 0 {
            return Err(DownloadConfigError::ZeroEventBuffer);
        }
        if self.storage.temp_suffix.as_str().is_empty() {
            return Err(DownloadConfigError::EmptyTempSuffix);
        }
        if self.storage.metadata_suffix.as_str().is_empty() {
            return Err(DownloadConfigError::EmptyMetadataSuffix);
        }
        Ok(())
    }
}

impl Default for DownloadManagerConfig {
    /// Every part at its own default.
    fn default() -> (r: Self)
        ensures
            is_default_concurrency(r.concurrency),
            is_default_retry(r.retry),
            is_default_resume(r.resume),
            is_default_integrity(r.integrity),
            is_default_events(r.events),
            is_default_storage(r.storage),
            is_default_timeouts(r.timeouts),
    {
        DownloadManagerConfig {
            concurrency: DownloadConcurrencyConfig::default(),
            retry: DownloadRetryConfig::default(),
            resume: DownloadResumeConfig::default(),
            integrity: DownloadIntegrityConfig::default(),
            events: DownloadEventConfig::default(),
            storage: DownloadStorageConfig::default(),
            timeouts: DownloadTimeoutConfig::default(),
        }
    }
}

/// How many downloads may run at once, in all and per host.
#[derive(Debug, Clone, PartialEq, Eq)]
pub struct DownloadConcurrencyConfig {
    pub global_limit: usize,
    pub per_host_limit: usize,
    pub queue_capacity: usize,
}

pub open spec fn is_default_concurrency(c: DownloadConcurrencyConfig) -> bool {
    c.global_limit == 16 && c.per_host_limit == 6 && c.queue_capacity == 1024
}

impl Default for DownloadConcurrencyConfig {
    fn default() -> (r: Self)
        ensures
            is_default_concurrency(r),
    {
        DownloadConcurrencyConfig { global_limit: 16, per_host_limit: 6, queue_capacity: 1024 }
    }
}

/// How often and how patiently a failed job is tried again.
#[derive(Debug, Clone, PartialEq, Eq)]
pub struct DownloadRetryConfig {
    pub max_attempts: u8,
    pub initial_backoff: Duration,
    pub max_backoff: Duration,
    pub jitter: bool,
    pub retry_transient_http: bool,
}

pub open spec fn is_default_retry(c: DownloadRetryConfig) -> bool {
    &&& c.max_attempts == 3
    &&& c.initial_backoff == millis_duration(300)
    &&& c.max_backoff == secs_duration(5)
    &&& c.jitter
    &&& c.retry_transient_http
}

impl Default for DownloadRetryConfig {
    fn default() -> (r: Self)
        ensures
            is_default_retry(r),
    {
        DownloadRetryConfig {
            max_attempts: 3,
            initial_backoff: duration_from_millis(300),
            max_backoff: duration_from_secs(5),
            jitter: true,
            retry_transient_http: true,
        }
    }
}

/// When a partial download may be continued, and what is kept of it.
#[derive(Debug, Clone, PartialEq, Eq)]
pub struct DownloadResumeConfig {
    pub mode: DownloadResumeMode,
    pub min_size: u64,
    pub validator_policy: ResumeValidatorPolicy,
    pub partial_on_pause: PartialRetentionPolicy,
    pub partial_on_failure: PartialRetentionPolicy,
}

pub open spec fn is_default_resume(c: DownloadResumeConfig) -> bool {
    &&& c.mode == DownloadResumeMode::Enabled
    &&& c.min_size == 1024 * 1024
    &&& c.validator_policy == ResumeValidatorPolicy::RequireMatch
    &&& c.partial_on_pause == PartialRetentionPolicy::Keep
    &&& c.partial_on_failure == PartialRetentionPolicy::Keep
}

impl Default for DownloadResumeConfig {
    fn default() -> (r: Self)
        ensures
            is_default_resume(r),
    {
        DownloadResumeConfig {
            mode: DownloadResumeMode::Enabled,
            min_size: 1024 * 1024,
            validator_policy: ResumeValidatorPolicy::RequireMatch,
            partial_on_pause: PartialRetentionPolicy::Keep,
            partial_on_failure: PartialRetentionPolicy::Keep,
        }
    }
}

#[derive(Debug, Clone, Copy, PartialEq, Eq, Structural)]
pub enum DownloadResumeMode {
    Enabled,
    Disabled,
}

/// Whether resuming needs a validator (an ETag or a modification date).
#[derive(Debug, Clone, Copy, PartialEq, Eq, Structural)]
pub enum ResumeValidatorPolicy {
    RequireMatch,
    AllowMissingValidator,
}

/// Whether a partial download is kept or deleted.
#[derive(Debug, Clone, Copy, PartialEq, Eq, Structural)]
pub enum PartialRetentionPolicy {
    Keep,
    Delete,
}

/// Which checks a finished artifact must pass.
#[derive(Debug, Clone, PartialEq, Eq)]
pub struct DownloadIntegrityConfig {
    pub require_checksum_when_available: bool,
    pub require_size_when_available: bool,
    pub checksum_mismatch_redownload_once: bool,
}

pub open spec fn is_default_integrity(c: DownloadIntegrityConfig) -> bool {
    c.require_checksum_when_available && c.require_size_when_available
        && c.checksum_mismatch_redownload_once
}

impl Default for DownloadIntegrityConfig {
    fn default() -> (r: Self)
        ensures
            is_default_integrity(r),
    {
        DownloadIntegrityConfig {
            require_checksum_when_available: true,
            require_size_when_available: true,
            checksum_mismatch_redownload_once: true,
        }
    }
}

impl DownloadIntegrityConfig {
    /// An equal copy.
    pub fn duplicate(&self) -> (r: Self)
        ensures
            r == *self,
    {
        DownloadIntegrityConfig {
            require_checksum_when_available: self.require_checksum_when_available,
            require_size_when_available: self.require_size_when_available,
            checksum_mismatch_redownload_once: self.checksum_mismatch_redownload_once,
        }
    }
}

/// How progress is reported.
#[derive(Debug, Clone, PartialEq, Eq)]
pub struct DownloadEventConfig {
    pub progress_interval: Duration,
    pub min_progress_bytes: u64,
    pub event_buffer: usize,
}

pub open spec fn is_default_events(c: DownloadEventConfig) -> bool {
    c.progress_interval == millis_duration(100) && c.min_progress_bytes == 64 * 1024
        && c.event_buffer == 4096
}

impl Default for DownloadEventConfig {
    fn default() -> (r: Self)
        ensures
            is_default_events(r),
    {
        DownloadEventConfig {
            progress_interval: duration_from_millis(100),
            min_progress_bytes: 64 * 1024,
            event_buffer: 4096,
        }
    }
}

/// Where partial downloads are kept and how they become the target.
#[derive(Debug, Clone, PartialEq, Eq)]
pub struct DownloadStorageConfig {
    pub temp_suffix: String,
    pub metadata_suffix: String,
    pub fsync_on_complete: bool,
    pub atomic_rename: bool,
}

pub open spec fn is_default_storage(c: DownloadStorageConfig) -> bool {
    &&& c.temp_suffix@ == seq!['.', 'p', 'a', 'r', 't']
    &&& c.metadata_suffix@ == seq!['.', 'p', 'a', 'r', 't', '.', 'j', 's', 'o', 'n']
    &&& !c.fsync_on_complete
    &&& c.atomic_rename
}

impl Default for DownloadStorageConfig {
    fn default() -> (r: Self)
        ensures
            is_default_storage(r),
    {
        let temp_suffix = ".part".to_owned();
        let metadata_suffix = ".part.json".to_owned();
        proof {
            reveal_strlit(".part");
            reveal_strlit(".part.json");
            assert(temp_suffix@ =~= seq!['.', 'p', 'a', 'r', 't']);
            assert(metadata_suffix@ =~= seq!['.', 'p', 'a', 'r', 't', '.', 'j', 's', 'o', 'n']);
        }
        DownloadStorageConfig {
            temp_suffix,
            metadata_suffix,
            fsync_on_complete: false,
            atomic_rename: true,
        }
    }
}

/// How long a request may take.
#[derive(Debug, Clone, PartialEq, Eq)]
pub struct DownloadTimeoutConfig {
    pub connect_timeout: Duration,
    pub request_timeout: Duration,
    pub idle_timeout: Duration,
}

pub open spec fn is_default_timeouts(c: DownloadTimeoutConfig) -> bool {
    c.connect_timeout == secs_duration(10) && c.request_timeout == secs_duration(60)
        && c.idle_timeout == secs_duration(30)
}

impl Default for DownloadTimeoutConfig {
    fn default() -> (r: Self)
        ensures
            is_default_timeouts(r),
    {
        DownloadTimeoutConfig {
            connect_timeout: duration_from_secs(10),
            request_timeout: duration_from_secs(60),
            idle_timeout: duration_from_secs(30),
        }
    }
}

} // verus!
