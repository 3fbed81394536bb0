//! Checking a downloaded artifact against what its job expects: its size, its
//! checksum (computed by streaming its bytes through SHA-1 or SHA-256), and
//! what to do with a target that is already on disk.
use std::path::PathBuf;

use vstd::prelude::*;

use crate::config::DownloadIntegrityConfig;
use crate::external::{
    hex_lower, lower_hex, sha1_digest, sha1_feed, sha1_fed, sha1_finish, sha1_start, sha256_digest,
    sha256_feed, sha256_fed, sha256_finish, sha256_start, Sha1Hasher, Sha256Hasher,
};
use crate::plan::{Checksum, ChecksumAlgorithm, DownloadJobSpec};
use crate::text::{ascii_lowercase, chars_eq, chars_of, to_ascii_lowercase_chars, trim, trimmed, TrimSet};

verus! {

/// Why an artifact failed its checks.
#[derive(Debug)]
pub enum ArtifactVerifyError {
    ReadMetadata { path: PathBuf, source: std::io::Error },
    Open { path: PathBuf, source: std::io::Error },
    Read { path: PathBuf, source: std::io::Error },
    ReadBufferOutOfBounds { path: PathBuf, read: usize, capacity: usize },
    SizeMismatch { path: PathBuf, expected: u64, actual: u64 },
    ChecksumMismatch {
        path: PathBuf,
        algorithm: ChecksumAlgorithm,
        expected: String,
        actual: String,
    },
}

/// An artifact that passed its checks.
#[derive(Debug, Clone, PartialEq, Eq)]
pub struct ArtifactVerification {
    pub path: PathBuf,
    pub size: u64,
}

/// The published checksum text and a computed one agree: the same, ignoring
/// ASCII case and the published text's surrounding white space.
pub open spec fn checksum_text_matches(actual: Seq<char>, expected: Seq<char>) -> bool {
    ascii_lowercase(actual) == ascii_lowercase(trim(expected))
}

/// Whether a computed checksum agrees with the published one (see `checksum_text_matches`).
pub fn checksum_matches(actual: &str, expected: &str) -> (r: bool)
    ensures
        r == checksum_text_matches(actual@, expected@),
{
    let a = chars_of(actual);
    let e = chars_of(expected);
    let e = trimmed(e.as_slice(), TrimSet::WhiteSpace);
    let a = to_ascii_lowercase_chars(a.as_slice());
    let e = to_ascii_lowercase_chars(e.as_slice());
    chars_eq(a.as_slice(), e.as_slice())
}

/// The digest of `bytes` under `algorithm`.
pub open spec fn digest_for(algorithm: ChecksumAlgorithm, bytes: Seq<u8>) -> Seq<u8> {
    match algorithm {
        ChecksumAlgorithm::Sha1 => sha1_digest(bytes),
        ChecksumAlgorithm::Sha256 => sha256_digest(bytes),
    }
}

/// A checksum computation fed in chunks.
pub enum ChecksumHasher {
    Sha1(Sha1Hasher),
    Sha256(Sha256Hasher),
}

impl ChecksumHasher {
    pub open spec fn algorithm(&self) -> ChecksumAlgorithm {
        match self {
            ChecksumHasher::Sha1(_) => ChecksumAlgorithm::Sha1,
            ChecksumHasher::Sha256(_) => ChecksumAlgorithm::Sha256,
        }
    }

    /// The bytes fed so far.
    pub open spec fn fed(&self) -> Seq<u8> {
        match self {
            ChecksumHasher::Sha1(h) => sha1_fed(*h),
            ChecksumHasher::Sha256(h) => sha256_fed(*h),
        }
    }

    /// A computation for `algorithm`, fed nothing yet.
    pub fn new(algorithm: ChecksumAlgorithm) -> (r: Self)
        ensures
            r.algorithm() == algorithm,
            r.fed() == Seq::<u8>::empty(),
    {
        match algorithm {
            ChecksumAlgorithm::Sha1 => ChecksumHasher::Sha1(sha1_start()),
            ChecksumAlgorithm::Sha256 => ChecksumHasher::Sha256(sha256_start()),
        }
    }

    /// Feeds `chunk` after what came before.
    pub fn update(&mut self, chunk: &[u8])
        ensures
            final(self).algorithm() == old(self).algorithm(),
            final(self).fed() == old(self).fed() + chunk@,
    {
        match self {
            ChecksumHasher::Sha1(h) => sha1_feed(h, chunk),
            ChecksumHasher::Sha256(h) => sha256_feed(h, chunk),
        }
    }

    /// The digest of everything fed, in lowercase hexadecimal.
    pub fn finish_hex(self) -> (r: String)
        ensures
            r@ == lower_hex(digest_for(self.algorithm(), self.fed())),
    {
        let digest = match self {
            ChecksumHasher::Sha1(h) => sha1_finish(h),
            ChecksumHasher::Sha256(h) => sha256_finish(h),
        };
        hex_lower(digest.as_slice())
    }
}

/// The checksum of `bytes` under `algorithm`, in lowercase hexadecimal.
pub fn checksum_hex(algorithm: ChecksumAlgorithm, bytes: &[u8]) -> (r: String)
    ensures
        r@ == lower_hex(digest_for(algorithm, bytes@)),
{
    let mut hasher = ChecksumHasher::new(algorithm);
    hasher.update(bytes);
    assert(Seq::<u8>::empty() + bytes@ =~= bytes@);
    hasher.finish_hex()
}

/// What an existing target is found to be before any download.
#[derive(Debug)]
pub enum ExistingArtifactDecision {
    /// It exists and passes its checks.
    Ready(ArtifactVerification),
    /// It does not exist.
    Missing { path: PathBuf },
    /// It exists but is incomplete or corrupt in a way the policy lets a download replace.
    NeedsRedownload { error: ArtifactVerifyError },
    /// Checking it failed in a way that must not be silently repaired.
    Failed { error: ArtifactVerifyError },
}

/// Checks artifacts against their jobs under an integrity policy.
#[derive(Debug, Clone, PartialEq, Eq)]
pub struct ArtifactVerifier {
    integrity: DownloadIntegrityConfig,
}

impl ArtifactVerifier {
    pub closed spec fn policy(&self) -> DownloadIntegrityConfig {
        self.integrity
    }

    pub fn new(integrity: DownloadIntegrityConfig) -> (r: Self)
        ensures
            r.policy() == integrity,
    {
        ArtifactVerifier { integrity }
    }

    /// The size check: when sizes are required and the job knows its size, an
    /// artifact of another size at `path` is refused.
    pub fn check_size(&self, job: &DownloadJobSpec, path: &PathBuf, size: u64) -> (r: Result<
        (),
        ArtifactVerifyError,
    >)
        ensures
            match job.expected_size {
                Some(expected) => if self.policy().require_size_when_available && size
                    != expected {
                    r == Err::<(), _>(
                        ArtifactVerifyError::SizeMismatch { path: *path, expected, actual: size },
                    )
                } else {
                    r is Ok
                },
                None => r is Ok,
            },
    {
        if self.integrity.require_size_when_available {
            if let Some(expected) = job.expected_size {
                if size != expected {
                    return Err(
                        ArtifactVerifyError::SizeMismatch {
                            path: path.clone(),
                            expected,
                            actual: size,
                        },
                    );
                }
            }
        }
        Ok(())
    }

    /// The checksum to compute for `job`: its checksum, when checksums are required.
    pub fn checksum_to_check<'a>(&self, job: &'a DownloadJobSpec) -> (r: Option<&'a Checksum>)
        ensures
            self.policy().require_checksum_when_available ==> match job.checksum {
                Some(c) => r == Some(&c),
                None => r is None,
            },
            !self.policy().require_checksum_when_available ==> r is None,
    {
        if self.integrity.require_checksum_when_available {
            match &job.checksum {
                Some(c) => Some(c),
                None => None,
            }
        } else {
            None
        }
    }

    /// The checksum check: a computed checksum `actual` of the artifact at
    /// `path` that does not agree with the published one is refused.
    pub fn check_checksum(&self, checksum: &Checksum, path: &PathBuf, actual: String) -> (r: Result<
        (),
        ArtifactVerifyError,
    >)
        ensures
            checksum_text_matches(actual@, checksum.value@) ==> r is Ok,
            !checksum_text_matches(actual@, checksum.value@) ==> r == Err::<(), _>(
                ArtifactVerifyError::ChecksumMismatch {
                    path: *path,
                    algorithm: checksum.algorithm,
                    expected: checksum.value,
                    actual,
                },
            ),
    {
        if !checksum_matches(actual.as_str(), checksum.value.as_str()) {
            return Err(
                ArtifactVerifyError::ChecksumMismatch {
                    path: path.clone(),
                    algorithm: checksum.algorithm,
                    expected: checksum.value.clone(),
                    actual,
                },
            );
        }
        Ok(())
    }

    /// What an existing target is, from the outcome of checking it; `missing`
    /// tells that reading its metadata failed because it does not exist (see
    /// `existing_decision`).
    pub fn classify_existing(
        &self,
        outcome: Result<ArtifactVerification, ArtifactVerifyError>,
        missing: bool,
    ) -> (r: ExistingArtifactDecision)
        ensures
            r == existing_decision(self.policy().checksum_mismatch_redownload_once, outcome, missing),
    {
        match outcome {
            Ok(v) => ExistingArtifactDecision::Ready(v),
            Err(ArtifactVerifyError::ReadMetadata { path, source }) => {
                if missing {
                    ExistingArtifactDecision::Missing { path }
                } else {
                    ExistingArtifactDecision::Failed {
                        error: ArtifactVerifyError::ReadMetadata { path, source },
                    }
                }
            },
            Err(ArtifactVerifyError::SizeMismatch { path, expected, actual }) => {
                ExistingArtifactDecision::NeedsRedownload {
                    error: ArtifactVerifyError::SizeMismatch { path, expected, actual },
                }
            },
            Err(e) => {
                let mismatch = matches!(e, ArtifactVerifyError::ChecksumMismatch { .. });
                if mismatch && self.integrity.checksum_mismatch_redownload_once {
                    ExistingArtifactDecision::NeedsRedownload { error: e }
                } else {
                    ExistingArtifactDecision::Failed { error: e }
                }
            },
        }
    }
}

/// What an existing target is: ready when its checks passed; missing when its
/// metadata could not be read because it does not exist; to be downloaded again
/// after a size mismatch, or after a checksum mismatch when `redownload_once`
/// allows it; otherwise failed.
pub open spec fn existing_decision(
    redownload_once: bool,
    outcome: Result<ArtifactVerification, ArtifactVerifyError>,
    missing: bool,
) -> ExistingArtifactDecision {
    match outcome {
        Ok(v) => ExistingArtifactDecision::Ready(v),
        Err(ArtifactVerifyError::ReadMetadata { path, source }) => if missing {
            ExistingArtifactDecision::Missing { path }
        } else {
            ExistingArtifactDecision::Failed {
                error: ArtifactVerifyError::ReadMetadata { path, source },
            }
        },
        Err(ArtifactVerifyError::SizeMismatch { path, expected, actual }) =>
            ExistingArtifactDecision::NeedsRedownload {
            error: ArtifactVerifyError::SizeMismatch { path, expected, actual },
        },
        Err(e) => if e is ChecksumMismatch && redownload_once {
            ExistingArtifactDecision::NeedsRedownload { error: e }
        } else {
            ExistingArtifactDecision::Failed { error: e }
        },
    }
}

/// A target whose check failed is never taken as ready; one whose checksum did
/// not match is downloaded again at most when the policy allows it, and
/// otherwise fails.
pub proof fn law_failed_check_is_never_ready(
    redownload_once: bool,
    error: ArtifactVerifyError,
    missing: bool,
)
    ensures
        !(existing_decision(redownload_once, Err(error), missing) is Ready),
        error is ChecksumMismatch ==> existing_decision(redownload_once, Err(error), missing) == (
        if redownload_once {
            ExistingArtifactDecision::NeedsRedownload { error }
        } else {
            ExistingArtifactDecision::Failed { error }
        }),
{
}

} // verus!
