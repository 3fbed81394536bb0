//! What a download plan is made of: job ids, URLs, job specifications and the
//! plan itself, which holds no job id twice.
use std::path::PathBuf;

use vstd::prelude::*;

use crate::errors::DownloadPlanError;
use crate::text::{chars_of, is_blank, is_blank_exec};

verus! {

/// The id of a download job: any string that is not blank.
#[derive(Debug, Clone, PartialEq, Eq, PartialOrd, Ord, Hash)]
pub struct DownloadJobId(String);

impl View for DownloadJobId {
    type V = Seq<char>;

    open spec fn view(&self) -> Seq<char> {
        self.text()@
    }
}

impl DownloadJobId {
    /// The string inside the id.
    pub closed spec fn text(&self) -> String {
        self.0
    }

    /// An id from its string; a blank string is refused.
    pub fn new(value: String) -> (r: Result<Self, DownloadPlanError>)
        ensures
            match r {
                Ok(id) => !is_blank(value@) && id.text() == value,
                Err(e) => is_blank(value@) && e == DownloadPlanError::EmptyJobId,
            },
    {
        let chars = chars_of(value.as_str());
        if is_blank_exec(chars.as_slice()) {
            return Err(DownloadPlanError::EmptyJobId);
        }
        Ok(DownloadJobId(value))
    }

    /// The id wrapping `value`, whatever it holds.
    pub closed spec fn with_text(value: String) -> DownloadJobId {
        DownloadJobId(value)
    }

    pub proof fn lemma_with_text(value: String)
        ensures
            #[trigger] DownloadJobId::with_text(value).text() == value,
    {
    }

    /// The id wrapping `value` exactly, whatever it holds, as a stored record
    /// gives it back (no blank check).
    pub fn from_text(value: String) -> (id: Self)
        ensures
            id == DownloadJobId::with_text(value),
            id.text() == value,
    {
        DownloadJobId(value)
    }

    pub fn as_str(&self) -> (s: &str)
        ensures
            s@ == self@,
    {
        self.0.as_str()
    }

    /// A copy of the string inside.
    pub(crate) fn text_owned(&self) -> (s: String)
        ensures
            s == self.text(),
    {
        self.0.clone()
    }

    /// An equal copy.
    pub fn duplicate(&self) -> (r: Self)
        ensures
            r == *self,
    {
        DownloadJobId(self.0.clone())
    }
}

/// The URL a job downloads from: any string that is not blank.
#[derive(Debug, Clone, PartialEq, Eq)]
pub struct DownloadUrl(String);

impl View for DownloadUrl {
    type V = Seq<char>;

    open spec fn view(&self) -> Seq<char> {
        self.text()@
    }
}

impl DownloadUrl {
    /// The string inside the URL.
    pub closed spec fn text(&self) -> String {
        self.0
    }

    /// A URL from its string; a blank string is refused.
    pub fn new(value: String) -> (r: Result<Self, DownloadPlanError>)
        ensures
            match r {
                Ok(url) => !is_blank(value@) && url.text() == value,
                Err(e) => is_blank(value@) && e == DownloadPlanError::EmptyUrl,
            },
    {
        let chars = chars_of(value.as_str());
        if is_blank_exec(chars.as_slice()) {
            return Err(DownloadPlanError::EmptyUrl);
        }
        Ok(DownloadUrl(value))
    }

    pub fn as_str(&self) -> (s: &str)
        ensures
            s@ == self@,
    {
        self.0.as_str()
    }

    /// The URL wrapping `value` exactly, whatever it holds, as a stored record
    /// gives it back (no blank check).
    pub fn from_text(value: String) -> (url: Self)
        ensures
            url.text() == value,
    {
        DownloadUrl(value)
    }

    /// An equal copy.
    pub fn duplicate(&self) -> (r: Self)
        ensures
            r == *self,
    {
        DownloadUrl(self.0.clone())
    }
}

/// No two jobs of `jobs` share an id.
pub open spec fn ids_distinct(jobs: Seq<DownloadJobSpec>) -> bool {
    forall|i: int, j: int|
        0 <= i < j < jobs.len() ==> #[trigger] jobs[i].id@ != #[trigger] jobs[j].id@
}

/// Job `j` repeats the id of an earlier job, and no job before it does.
pub open spec fn is_first_repeat(jobs: Seq<DownloadJobSpec>, j: int) -> bool {
    &&& 0 <= j < jobs.len()
    &&& exists|i: int| 0 <= i < j && #[trigger] jobs[i].id@ == jobs[j].id@
    &&& ids_distinct(jobs.subrange(0, j))
}

/// A set of jobs to download together.
#[derive(Debug, Clone, PartialEq, Eq)]
pub struct DownloadPlan {
    pub jobs: Vec<DownloadJobSpec>,
}

impl DownloadPlan {
    /// A plan of `jobs`; refused at the first job whose id an earlier job already has.
    pub fn new(jobs: Vec<DownloadJobSpec>) -> (r: Result<Self, DownloadPlanError>)
        ensures
            r is Ok <==> ids_distinct(jobs@),
            match r {
                Ok(plan) => plan.jobs@ == jobs@,
                Err(e) => exists|j: int|
                    is_first_repeat(jobs@, j) && e == (DownloadPlanError::DuplicateJobId {
                        id: #[trigger] jobs@[j].id,
                    }),
            },
    {
        let n = jobs.len();
        let mut j: usize = 0;
        while j < n
            invariant
                j <= n,
                n == jobs@.len(),
                ids_distinct(jobs@.subrange(0, j as int)),
            decreases n - j,
        {
            let mut i: usize = 0;
            while i < j
                invariant
                    i <= j < n,
                    n == jobs@.len(),
                    ids_distinct(jobs@.subrange(0, j as int)),
                    forall|k: int| 0 <= k < i ==> jobs@[k].id@ != jobs@[j as int].id@,
                decreases j - i,
            {
                if jobs[i].id.0 == jobs[j].id.0 {
                    let id = jobs[j].id.duplicate();
                    assert(jobs@[i as int].id@ == jobs@[j as int].id@);
                    assert(is_first_repeat(jobs@, j as int));
                    return Err(DownloadPlanError::DuplicateJobId { id });
                }
                i += 1;
            }
            assert forall|a: int, b: int| 0 <= a < b < j + 1 implies #[trigger] jobs@.subrange(
                0,
                j + 1,
            )[a].id@ != #[trigger] jobs@.subrange(0, j + 1)[b].id@ by {
                if b < j {
                    assert(jobs@.subrange(0, j as int)[a] == jobs@[a]);
                    assert(jobs@.subrange(0, j as int)[b] == jobs@[b]);
                }
            }
            j += 1;
        }
        assert(jobs@.subrange(0, n as int) =~= jobs@);
        Ok(DownloadPlan { jobs })
    }
}

/// What to download, from where, to where, and how to check it.
#[derive(Debug, Clone, PartialEq, Eq)]
pub struct DownloadJobSpec {
    pub id: DownloadJobId,
    pub url: DownloadUrl,
    pub host: Option<String>,
    pub target_path: PathBuf,
    pub expected_size: Option<u64>,
    pub checksum: Option<Checksum>,
    pub kind: DownloadArtifactKind,
    pub policy: DownloadJobPolicy,
}

impl DownloadJobSpec {
    /// An equal copy.
    pub fn duplicate(&self) -> (r: Self)
        ensures
            r == *self,
    {
        DownloadJobSpec {
            id: self.id.duplicate(),
            url: self.url.duplicate(),
            host: copy_opt_string(&self.host),
            target_path: self.target_path.clone(),
            expected_size: self.expected_size,
            checksum: match &self.checksum {
                Some(c) => Some(c.duplicate()),
                None => None,
            },
            kind: self.kind,
            policy: self.policy,
        }
    }
}

/// An equal copy of an optional string.
pub fn copy_opt_string(s: &Option<String>) -> (r: Option<String>)
    ensures
        r == *s,
{
    match s {
        Some(v) => Some(v.clone()),
        None => None,
    }
}

/// The digest an artifact must have, as the text the source publishes.
#[derive(Debug, Clone, PartialEq, Eq)]
pub struct Checksum {
    pub algorithm: ChecksumAlgorithm,
    pub value: String,
}

impl Checksum {
    /// An equal copy.
    pub fn duplicate(&self) -> (r: Self)
        ensures
            r == *self,
    {
        Checksum { algorithm: self.algorithm, value: self.value.clone() }
    }
}

#[derive(Debug, Clone, Copy, PartialEq, Eq, Structural)]
pub enum ChecksumAlgorithm {
    Sha1,
    Sha256,
}

#[derive(Debug, Clone, Copy, PartialEq, Eq, Structural)]
pub enum DownloadArtifactKind {
    VersionMetadata,
    ClientJar,
    Library,
    Asset,
    Native,
    JavaRuntime,
}

/// Whether a job may resume a partial download and be retried after a failure.
#[derive(Debug, Clone, Copy, PartialEq, Eq, Structural)]
pub struct DownloadJobPolicy {
    pub resumable: bool,
    pub retryable: bool,
}

impl Default for DownloadJobPolicy {
    /// Both resuming and retrying allowed.
    fn default() -> (r: Self)
        ensures
            r.resumable && r.retryable,
    {
        DownloadJobPolicy { resumable: true, retryable: true }
    }
}

} // verus!
