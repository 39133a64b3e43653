//! The data the engine consumes: deployments, commits, and comparison
//! pages, held as plain values. The boundary that talks to the hosting
//! platform converts its wire types into these.

use vstd::prelude::*;

verus! {

/// Why a commit signature was or was not verified.
#[derive(Clone, Copy, PartialEq, Eq, Structural, Debug)]
pub enum VerificationReason {
    ExpiredKey,
    NotSigningKey,
    GpgVerifyError,
    GpgVerifyUnavailable,
    Unsigned,
    UnknownSignatureType,
    NoUser,
    UnverifiedEmail,
    BadEmail,
    MalformedSignature,
    Invalid,
    Valid,
}

/// The signature-verification state of a commit.
#[derive(Debug)]
pub struct Verification {
    pub verified: bool,
    pub reason: VerificationReason,
    pub signature: Option<String>,
    pub payload: Option<String>,
}

/// The Git-level payload of a commit; the engine inspects only the
/// message.
#[derive(Debug)]
pub struct CommitData {
    pub message: String,
    pub comment_count: u64,
    pub verification: Option<Verification>,
}

/// One repository commit, as one comparison page lists it.
#[derive(Debug)]
pub struct Commit {
    pub sha: Option<String>,
    pub commit: CommitData,
}

/// One deployment event. A deployment history is ordered newest first by
/// the platform; this library relies on that order without re-sorting.
/// `created_at` and `updated_at` are seconds since the Unix epoch.
#[derive(Debug)]
pub struct Deployment {
    pub url: String,
    pub id: u64,
    pub node_id: String,
    pub sha: String,
    pub target_ref: String,
    pub task: String,
    pub original_environment: Option<String>,
    pub environment: String,
    pub description: Option<String>,
    pub created_at: i64,
    pub updated_at: i64,
    pub transient_environment: Option<bool>,
    pub production_environment: Option<bool>,
}

/// One page of a base...head comparison: the commits it lists and the
/// pointer to the next page, absent on the last page.
#[derive(Debug)]
pub struct ComparisonPage {
    pub commits: Vec<Commit>,
    pub next: Option<String>,
}

} // verus!
