//! Content-verification outcome and the redownload decision.
//!
//! Verification is advisory: when the trusted digest cannot be obtained the
//! result is a skip, never an error, and installation proceeds. Only a
//! local copy whose digest provably differs from the trusted one is thrown
//! away and fetched again.

use vstd::prelude::*;

verus! {

/// Why digest verification was skipped for this install attempt.
#[derive(PartialEq, Eq, Structural, Clone, Copy, Debug)]
pub enum SkipReason {
    /// The manifest was unreachable, unparsable, or held no usable digest.
    ManifestUnavailable,
    /// There is no local copy to verify; a download is needed regardless.
    NoLocalCopy,
    /// A local copy exists but its digest could not be computed.
    LocalUnreadable,
}

/// The outcome of digest verification for one asset and one install attempt.
pub enum VerificationResult {
    /// The local copy's digest equals the trusted one.
    Verified { digest: Vec<u8> },
    /// No comparison took place; the soft variant, distinct from a failure.
    Skipped { reason: SkipReason },
    /// The local copy's digest differs from the trusted one.
    Mismatch { local: Vec<u8>, remote: Vec<u8> },
}

/// What an install attempt must do about one asset.
pub struct RefreshPlan {
    /// The verification outcome, reported to the caller.
    pub outcome: VerificationResult,
    /// Whether the asset must be downloaded afresh.
    pub need_download: bool,
    /// Whether a stale local copy must be deleted first.
    pub delete_stale: bool,
}

/// Decides whether an asset needs a fresh download.
///
/// `remote_digest` is the trusted lowercase-hex digest from the manifest, if
/// one could be obtained; `local_present` says whether a local copy exists;
/// `local_digest` is that copy's computed digest, when it could be computed.
///
/// The decision, exactly:
/// - no trusted digest: the local copy, if any, is reused unconditionally
///   (`Skipped`), and downloaded only if absent;
/// - trusted digest known, no local copy: download (`Skipped`);
/// - digests equal: reuse, no download (`Verified`);
/// - digests differ: delete the stale copy and download (`Mismatch`);
/// - local digest uncomputable: download over it without deleting
///   (`Skipped`).
pub fn plan_asset_refresh(
    remote_digest: Option<Vec<u8>>,
    local_present: bool,
    local_digest: Option<Vec<u8>>,
) -> (r: RefreshPlan)
    requires
        local_digest is Some ==> local_present,
    ensures
        match remote_digest {
            Option::None => {
                &&& r.outcome matches VerificationResult::Skipped { reason }
                    && reason == SkipReason::ManifestUnavailable
                &&& r.need_download == !local_present
                &&& !r.delete_stale
            },
            Option::Some(remote) => {
                if !local_present {
                    &&& r.outcome matches VerificationResult::Skipped { reason }
                        && reason == SkipReason::NoLocalCopy
                    &&& r.need_download
                    &&& !r.delete_stale
                } else {
                    match local_digest {
                        Option::Some(local) => {
                            if local@ == remote@ {
                                &&& r.outcome matches VerificationResult::Verified { digest }
                                    && digest@ == remote@
                                &&& !r.need_download
                                &&& !r.delete_stale
                            } else {
                                &&& r.outcome matches VerificationResult::Mismatch {
                                    local: l,
                                    remote: m,
                                } && l@ == local@ && m@ == remote@
                                &&& r.need_download
                                &&& r.delete_stale
                            }
                        },
                        Option::None => {
                            &&& r.outcome matches VerificationResult::Skipped { reason }
                                && reason == SkipReason::LocalUnreadable
                            &&& r.need_download
                            &&& !r.delete_stale
                        },
                    }
                }
            },
        },
{
    match remote_digest {
        Option::None => RefreshPlan {
            outcome: VerificationResult::Skipped { reason: SkipReason::ManifestUnavailable },
            need_download: !local_present,
            delete_stale: false,
        },
        Option::Some(remote) => {
            if !local_present {
                RefreshPlan {
                    outcome: VerificationResult::Skipped { reason: SkipReason::NoLocalCopy },
                    need_download: true,
                    delete_stale: false,
                }
            } else {
                match local_digest {
                    Option::Some(local) => {
                        if crate::bytes::bytes_eq(&local, &remote) {
                            RefreshPlan {
                                outcome: VerificationResult::Verified { digest: remote },
                                need_download: false,
                                delete_stale: false,
                            }
                        } else {
                            RefreshPlan {
                                outcome: VerificationResult::Mismatch { local, remote },
                                need_download: true,
                                delete_stale: true,
                            }
                        }
                    },
                    Option::None => RefreshPlan {
                        outcome: VerificationResult::Skipped { reason: SkipReason::LocalUnreadable },
                        need_download: true,
                        delete_stale: false,
                    },
                }
            }
        },
    }
}

} // verus!
