//! Mado's core logic, verified: the download plan, manager state machine and
//! service; partial-download storage, resume and artifact checks; Java runtime
//! metadata; icon variant names; and the decisions of the maintenance tasks.
pub mod config;
pub mod errors;
pub mod event;
pub mod external;
pub mod hover;
pub mod icon_name;
pub mod java_metadata;
pub mod java_runtime;
pub mod keyed;
pub mod manager;
pub mod manager_laws;
pub mod plan;
pub mod service;
pub mod storage;
pub mod text;
pub mod verify;
pub mod xtask;

pub use errors::{
    DownloadBackendError, DownloadConfigError, DownloadManagerError, DownloadPlanError,
    DownloadServiceError,
};
pub use plan::{
    Checksum, ChecksumAlgorithm, DownloadArtifactKind, DownloadJobId, DownloadJobPolicy,
    DownloadJobSpec, DownloadPlan, DownloadUrl,
};
pub use config::{
    DownloadConcurrencyConfig, DownloadEventConfig, DownloadIntegrityConfig,
    DownloadManagerConfig, DownloadResumeConfig, DownloadResumeMode, DownloadRetryConfig,
    DownloadStorageConfig, DownloadTimeoutConfig, PartialRetentionPolicy, ResumeValidatorPolicy,
};
pub use event::{
    DownloadCommand, DownloadEvent, DownloadJobState, DownloadManagerAction, PlanTerminalState,
    WorkerReport, WorkerStopReason,
};
pub use manager::{DownloadManagerState, JobRuntimeState};
pub use service::{
    DownloadBackend, DownloadEventStream, DownloadService, DownloadServiceHandle,
    DownloadServiceInput, DownloadServiceLoop,
};
pub use java_metadata::{
    parse_key_value_lines, validate_metadata_value, JavaMetadata, JavaProbe, JavaProbeOutput,
    JavaRuntimeError, MAX_METADATA_VALUE_BYTES,
};
pub use java_runtime::{
    check_release_size, classify_architecture, classify_vendor, parse_java_version,
    parse_probe_metadata, parse_release_metadata, max_metadata_value_bytes, resolve_runtime, home_of_executable, max_release_file_bytes,
    JavaArchitecture, JavaArchitectureKind, ParsedJavaMetadata, JavaRuntimeInfo, JavaVendor, JavaVendorKind, JavaVersion,
    MAX_RELEASE_FILE_BYTES,
};
pub use hover::{HoverEvent, HoverPhase, HoverState, HoverTimer};
pub use icon_name::{unique_variant_name, variant_name};
pub use keyed::{StringMap, StringSet};
pub use xtask::{
    cargo_fuzz_command_args, exit_status_byte, fuzz_run_arguments, gate_exit_code, gate_outcome,
    max_total_time, missing_outcomes_status, mutants_status, FuzzTarget, GateOutcome,
    MutationSummary, DEFAULT_MUTANTS_DIR, DEFAULT_MUTATION_THRESHOLD, DEFAULT_NIGHTLY_FUZZ_SECONDS,
};
pub use storage::{
    check_metadata_version, classify_http_status, conclude_worker, metadata_matches_job,
    partial_retention_for_stop, progress_total, response_resumes, resume_decision_for_job,
    sends_range, DownloadStorageError, DownloadStoragePaths, FuzzResumeDecision, HttpStatusClass,
    NativeHttpBackendConfig, NativeHttpWorkerError, TransferProgress, WorkerOutcome, PartialDownloadMetadata, ResumeDecision, ResumeValidator,
    PARTIAL_DOWNLOAD_METADATA_SCHEMA_VERSION,
};
pub use verify::{
    checksum_hex, checksum_matches, ArtifactVerification, ArtifactVerifier, ArtifactVerifyError,
    ChecksumHasher, ExistingArtifactDecision,
};
