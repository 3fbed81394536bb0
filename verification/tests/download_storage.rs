use std::path::PathBuf;

use mado::{
    check_metadata_version, checksum_hex, checksum_matches, classify_http_status,
    metadata_matches_job, partial_retention_for_stop, progress_total, response_resumes,
    resume_decision_for_job, sends_range, ArtifactVerification, ArtifactVerifier,
    ArtifactVerifyError, Checksum, ChecksumAlgorithm, ChecksumHasher, DownloadArtifactKind,
    DownloadIntegrityConfig, DownloadJobId, DownloadJobPolicy, DownloadJobSpec,
    DownloadResumeConfig, DownloadResumeMode, DownloadStorageConfig, DownloadStorageError,
    DownloadStoragePaths, DownloadUrl, ExistingArtifactDecision, HttpStatusClass,
    NativeHttpBackendConfig, NativeHttpWorkerError, PartialDownloadMetadata,
    PartialRetentionPolicy, ResumeDecision, ResumeValidator, ResumeValidatorPolicy,
    WorkerStopReason,
};

fn sha1_hex(bytes: &[u8]) -> String {
    checksum_hex(ChecksumAlgorithm::Sha1, bytes)
}

fn test_job(target_path: impl Into<PathBuf>, body: &[u8]) -> DownloadJobSpec {
    DownloadJobSpec {
        id: DownloadJobId::new("artifact".to_string()).unwrap(),
        url: DownloadUrl::new("http://127.0.0.1/artifact".to_string()).unwrap(),
        host: Some("127.0.0.1".to_string()),
        target_path: target_path.into(),
        expected_size: Some(body.len() as u64),
        checksum: Some(Checksum {
            algorithm: ChecksumAlgorithm::Sha1,
            value: sha1_hex(body),
        }),
        kind: DownloadArtifactKind::Library,
        policy: DownloadJobPolicy::default(),
    }
}

fn resume_enabled_config() -> NativeHttpBackendConfig {
    NativeHttpBackendConfig {
        resume: DownloadResumeConfig {
            min_size: 1,
            validator_policy: ResumeValidatorPolicy::RequireMatch,
            ..DownloadResumeConfig::default()
        },
        ..NativeHttpBackendConfig::default()
    }
}

fn etag_validator() -> ResumeValidator {
    ResumeValidator {
        etag: Some("\"resume\"".to_string()),
        last_modified: None,
    }
}

/// The record a partial download of `partial` bytes for `job` leaves behind,
/// with the partial file's length.
fn written_partial(
    job: &DownloadJobSpec,
    partial: &[u8],
    validator: Option<ResumeValidator>,
) -> (Option<PartialDownloadMetadata>, Option<u64>) {
    (
        Some(PartialDownloadMetadata::for_job(job, partial.len() as u64, validator)),
        Some(partial.len() as u64),
    )
}

#[test]
fn resume_decision_restarts_when_resume_is_disabled() {
    let job = test_job("artifact.jar", b"complete");
    let (metadata, len) = written_partial(&job, b"part", Some(etag_validator()));
    let config = NativeHttpBackendConfig {
        resume: DownloadResumeConfig {
            mode: DownloadResumeMode::Disabled,
            min_size: 1,
            ..DownloadResumeConfig::default()
        },
        ..NativeHttpBackendConfig::default()
    };

    let decision = resume_decision_for_job(&job, &config.resume, metadata, len);

    assert_eq!(decision, ResumeDecision::restart());
}

#[test]
fn resume_decision_restarts_when_metadata_does_not_match_job() {
    let job = test_job("artifact.jar", b"complete");
    let mut mismatched_job = job.clone();
    mismatched_job.url = DownloadUrl::new("http://127.0.0.1/other".to_string()).unwrap();
    let (metadata, len) = written_partial(&mismatched_job, b"part", Some(etag_validator()));
    let config = resume_enabled_config();

    let decision = resume_decision_for_job(&job, &config.resume, metadata, len);

    assert_eq!(decision, ResumeDecision::restart());
}

#[test]
fn resume_decision_restarts_when_partial_length_does_not_match_metadata() {
    let job = test_job("artifact.jar", b"complete");
    let metadata = PartialDownloadMetadata::for_job(&job, 9, Some(etag_validator()));
    let config = resume_enabled_config();

    let decision = resume_decision_for_job(&job, &config.resume, Some(metadata), Some(4));

    assert_eq!(decision, ResumeDecision::restart());
}

#[test]
fn resume_decision_restarts_when_partial_is_below_min_size() {
    let job = test_job("artifact.jar", b"complete");
    let (metadata, len) = written_partial(&job, b"part", Some(etag_validator()));
    let config = NativeHttpBackendConfig {
        resume: DownloadResumeConfig {
            min_size: 5,
            ..DownloadResumeConfig::default()
        },
        ..NativeHttpBackendConfig::default()
    };

    let decision = resume_decision_for_job(&job, &config.resume, metadata, len);

    assert_eq!(decision, ResumeDecision::restart());
}

#[test]
fn resume_decision_restarts_when_validator_is_required_but_missing() {
    let job = test_job("artifact.jar", b"complete");
    let (metadata, len) = written_partial(&job, b"part", None);
    let config = resume_enabled_config();

    let decision = resume_decision_for_job(&job, &config.resume, metadata, len);

    assert_eq!(decision, ResumeDecision::restart());
}

#[test]
fn resume_decision_uses_etag_for_if_range_when_partial_matches() {
    let job = test_job("artifact.jar", b"complete");
    let (metadata, len) = written_partial(&job, b"part", Some(etag_validator()));
    let config = resume_enabled_config();

    let decision = resume_decision_for_job(&job, &config.resume, metadata, len);

    assert_eq!(
        decision,
        ResumeDecision {
            should_resume: true,
            downloaded: 4,
            if_range: Some("\"resume\"".to_string()),
        }
    );
}

#[test]
fn metadata_matches_job_rejects_changed_checksum() {
    let mut job = test_job(PathBuf::from("tmp").join("artifact.jar"), b"complete");
    let metadata = PartialDownloadMetadata::for_job(&job, 4, Some(etag_validator()));
    job.checksum = Some(Checksum {
        algorithm: ChecksumAlgorithm::Sha1,
        value: "different".to_string(),
    });

    assert!(!metadata_matches_job(&metadata, &job));
}

#[test]
fn record_made_for_a_job_matches_it() {
    let job = test_job("a/b.jar", b"x");
    let metadata = PartialDownloadMetadata::for_job(&job, 1, None);
    assert!(metadata_matches_job(&metadata, &job));
    assert_eq!(metadata.schema_version, 1);
}

#[test]
fn resume_falls_back_to_last_modified_and_may_skip_validators() {
    let job = test_job("artifact.jar", b"complete");
    let validator = ResumeValidator {
        etag: None,
        last_modified: Some("Tue, 01 Jan 2030 00:00:00 GMT".to_string()),
    };
    let (metadata, len) = written_partial(&job, b"part", Some(validator));
    let decision = resume_decision_for_job(&job, &resume_enabled_config().resume, metadata, len);
    assert_eq!(decision.if_range.as_deref(), Some("Tue, 01 Jan 2030 00:00:00 GMT"));
    assert!(sends_range(&decision));

    let relaxed = DownloadResumeConfig {
        min_size: 1,
        validator_policy: ResumeValidatorPolicy::AllowMissingValidator,
        ..DownloadResumeConfig::default()
    };
    let (metadata, len) = written_partial(&job, b"part", None);
    let decision = resume_decision_for_job(&job, &relaxed, metadata, len);
    assert!(decision.should_resume);
    assert_eq!(decision.if_range, None);

    assert_eq!(
        resume_decision_for_job(&job, &relaxed, None, Some(4)),
        ResumeDecision::restart()
    );
    let (metadata, _) = written_partial(&job, b"part", None);
    assert_eq!(
        resume_decision_for_job(&job, &relaxed, metadata, None),
        ResumeDecision::restart()
    );
}

#[test]
fn storage_paths_append_suffixes() {
    let config = DownloadStorageConfig::default();
    let paths = DownloadStoragePaths::for_target(&PathBuf::from("libs/a.jar"), &config);
    assert_eq!(paths.target_path, PathBuf::from("libs/a.jar"));
    assert_eq!(paths.partial_path, PathBuf::from("libs/a.jar.part"));
    assert_eq!(paths.partial_metadata_path, PathBuf::from("libs/a.jar.part.json"));
    let job = test_job("libs/a.jar", b"");
    assert_eq!(DownloadStoragePaths::for_job(&job, &config), paths);
}

#[test]
fn unknown_record_versions_are_refused() {
    let job = test_job("a.jar", b"x");
    let mut metadata = PartialDownloadMetadata::for_job(&job, 0, None);
    assert!(check_metadata_version(metadata.clone(), PathBuf::from("a.jar.part.json")).is_ok());
    metadata.schema_version = 2;
    assert!(matches!(
        check_metadata_version(metadata, PathBuf::from("a.jar.part.json")),
        Err(DownloadStorageError::UnsupportedPartialMetadataVersion { version: 2, .. })
    ));
}

#[test]
fn retention_and_http_classification() {
    let config = DownloadResumeConfig {
        partial_on_pause: PartialRetentionPolicy::Keep,
        partial_on_failure: PartialRetentionPolicy::Delete,
        ..DownloadResumeConfig::default()
    };
    assert_eq!(
        partial_retention_for_stop(WorkerStopReason::Paused, &config),
        PartialRetentionPolicy::Keep
    );
    assert_eq!(
        partial_retention_for_stop(WorkerStopReason::Cancelled, &config),
        PartialRetentionPolicy::Delete
    );
    assert_eq!(classify_http_status(200), HttpStatusClass::Success);
    assert_eq!(classify_http_status(206), HttpStatusClass::Success);
    assert_eq!(classify_http_status(404), HttpStatusClass::PermanentFailure);
    assert_eq!(classify_http_status(503), HttpStatusClass::RetryableFailure);
    let resumed = ResumeDecision {
        should_resume: true,
        downloaded: 4,
        if_range: None,
    };
    assert!(response_resumes(&resumed, 206));
    assert!(!response_resumes(&resumed, 200));
    assert_eq!(progress_total(Some(10), true, 4), Some(14));
    assert_eq!(progress_total(Some(10), false, 4), Some(10));
    assert_eq!(progress_total(Some(u64::MAX), true, 4), Some(u64::MAX));
    assert_eq!(progress_total(None, true, 4), None);
    assert!(NativeHttpWorkerError::retryable("x".to_string()).retryable);
    assert!(!NativeHttpWorkerError::permanent("x".to_string()).retryable);
}

#[test]
fn digests_are_lowercase_hex() {
    assert_eq!(
        checksum_hex(ChecksumAlgorithm::Sha1, b"abc"),
        "a9993e364706816aba3e25717850c26c9cd0d89d"
    );
    assert_eq!(
        checksum_hex(ChecksumAlgorithm::Sha256, b"abc"),
        "ba7816bf8f01cfea414140de5dae2223b00361a396177a9cb410ff61f20015ad"
    );
    let mut hasher = ChecksumHasher::new(ChecksumAlgorithm::Sha1);
    hasher.update(b"a");
    hasher.update(b"bc");
    assert_eq!(hasher.finish_hex(), "a9993e364706816aba3e25717850c26c9cd0d89d");
}

#[test]
fn checksum_comparison_ignores_case_and_published_space() {
    assert!(checksum_matches("abcdef", " ABCDEF \n"));
    assert!(!checksum_matches(" abcdef", "abcdef"));
    assert!(!checksum_matches("abcdef", "abcde"));
}

#[test]
fn verifier_checks_size_and_checksum() {
    let job = test_job("a.jar", b"complete");
    let verifier = ArtifactVerifier::new(DownloadIntegrityConfig::default());
    let path = PathBuf::from("a.jar");
    assert!(verifier.check_size(&job, &path, 8).is_ok());
    assert!(matches!(
        verifier.check_size(&job, &path, 7),
        Err(ArtifactVerifyError::SizeMismatch { expected: 8, actual: 7, .. })
    ));
    let checksum = verifier.checksum_to_check(&job).unwrap();
    assert!(verifier
        .check_checksum(checksum, &path, sha1_hex(b"complete"))
        .is_ok());
    assert!(matches!(
        verifier.check_checksum(checksum, &path, sha1_hex(b"other")),
        Err(ArtifactVerifyError::ChecksumMismatch { .. })
    ));
    let lax = ArtifactVerifier::new(DownloadIntegrityConfig {
        require_checksum_when_available: false,
        require_size_when_available: false,
        checksum_mismatch_redownload_once: false,
    });
    assert!(lax.check_size(&job, &path, 7).is_ok());
    assert!(lax.checksum_to_check(&job).is_none());
}

#[test]
fn existing_targets_are_classified() {
    let verifier = ArtifactVerifier::new(DownloadIntegrityConfig::default());
    let path = PathBuf::from("a.jar");
    assert!(matches!(
        verifier.classify_existing(
            Ok(ArtifactVerification {
                path: path.clone(),
                size: 1,
            }),
            false
        ),
        ExistingArtifactDecision::Ready(_)
    ));
    let missing = ArtifactVerifyError::ReadMetadata {
        path: path.clone(),
        source: std::io::Error::from(std::io::ErrorKind::NotFound),
    };
    assert!(matches!(
        verifier.classify_existing(Err(missing), true),
        ExistingArtifactDecision::Missing { .. }
    ));
    let mismatch = ArtifactVerifyError::ChecksumMismatch {
        path: path.clone(),
        algorithm: ChecksumAlgorithm::Sha1,
        expected: "a".to_string(),
        actual: "b".to_string(),
    };
    assert!(matches!(
        verifier.classify_existing(Err(mismatch), false),
        ExistingArtifactDecision::NeedsRedownload { .. }
    ));
    let strict = ArtifactVerifier::new(DownloadIntegrityConfig {
        checksum_mismatch_redownload_once: false,
        ..DownloadIntegrityConfig::default()
    });
    let mismatch = ArtifactVerifyError::ChecksumMismatch {
        path: path.clone(),
        algorithm: ChecksumAlgorithm::Sha1,
        expected: "a".to_string(),
        actual: "b".to_string(),
    };
    assert!(matches!(
        strict.classify_existing(Err(mismatch), false),
        ExistingArtifactDecision::Failed { .. }
    ));
    let short = ArtifactVerifyError::SizeMismatch {
        path,
        expected: 2,
        actual: 1,
    };
    assert!(matches!(
        strict.classify_existing(Err(short), false),
        ExistingArtifactDecision::NeedsRedownload { .. }
    ));
}

#[test]
fn validator_needs_at_least_one_header() {
    assert_eq!(ResumeValidator::from_headers(None, None), None);
    assert_eq!(
        ResumeValidator::from_headers(Some("\"v1\"".to_string()), None),
        Some(ResumeValidator {
            etag: Some("\"v1\"".to_string()),
            last_modified: None,
        })
    );
    assert_eq!(
        ResumeValidator::from_headers(None, Some("Tue, 01 Jan 2030 00:00:00 GMT".to_string())),
        Some(ResumeValidator {
            etag: None,
            last_modified: Some("Tue, 01 Jan 2030 00:00:00 GMT".to_string()),
        })
    );
}
