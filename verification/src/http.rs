//! Interpretation of the remote endpoint's response protocol. The
//! transport itself (building a client, sending the request) is I/O and
//! lives outside this crate; what the status code means is fixed by the
//! protocol and decided here.

use vstd::prelude::*;

verus! {

/// What one submission response means.
#[derive(Debug, Clone, Copy, PartialEq, Eq, Structural)]
pub enum SubmitOutcome {
    /// The batch was accepted.
    Success,
    /// The payload format is invalid.
    InvalidFormat,
    /// The key is not valid: not found, or the file at the key location
    /// does not carry it.
    InvalidKey,
    /// The URLs do not belong to the host, or the key does not match the
    /// protocol's schema.
    UnprocessableUrls,
    /// Too many requests: rate-limited as potential spam.
    RateLimited,
    /// Any other status: a generic, unexpected failure.
    UnexpectedStatus,
}

/// The protocol's status table: 200 and 202 are success, 400 invalid
/// format, 403 an invalid key, 422 unprocessable URLs, 429 rate-limited,
/// anything else unexpected.
pub open spec fn status_outcome(status: u16) -> SubmitOutcome {
    if status == 200 || status == 202 {
        SubmitOutcome::Success
    } else if status == 400 {
        SubmitOutcome::InvalidFormat
    } else if status == 403 {
        SubmitOutcome::InvalidKey
    } else if status == 422 {
        SubmitOutcome::UnprocessableUrls
    } else if status == 429 {
        SubmitOutcome::RateLimited
    } else {
        SubmitOutcome::UnexpectedStatus
    }
}

/// Maps one HTTP status code from a submission response to its meaning
/// under the protocol.
pub fn classify_status(status: u16) -> (r: SubmitOutcome)
    ensures
        r == status_outcome(status),
{
    if status == 200 || status == 202 {
        SubmitOutcome::Success
    } else if status == 400 {
        SubmitOutcome::InvalidFormat
    } else if status == 403 {
        SubmitOutcome::InvalidKey
    } else if status == 422 {
        SubmitOutcome::UnprocessableUrls
    } else if status == 429 {
        SubmitOutcome::RateLimited
    } else {
        SubmitOutcome::UnexpectedStatus
    }
}

} // verus!
