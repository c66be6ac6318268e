//! Classification of one fetch attempt: success with a batch of items, or a
//! failure sorted into the taxonomy the poll loop reacts to.

use vstd::prelude::*;

use crate::notification::{Notification, PullRequest};

verus! {

/// Why a fetch attempt failed.
///
/// `Transient` covers network trouble, timeouts and non-auth HTTP errors:
/// the next cycle simply retries. `Protocol` marks a response body that did
/// not decode, kept distinct for diagnosis. `Auth` marks a rejected
/// credential, surfaced distinctly because retrying cannot help.
#[derive(Debug, Clone, Copy, PartialEq, Eq, Structural)]
pub enum FailureKind {
    Transient,
    Protocol,
    Auth,
}

/// What one fetch attempt produced.
#[derive(Debug, Clone, PartialEq, Eq)]
pub enum FetchOutcome {
    /// The feed answered; the batch is in response order and unfiltered.
    Success(Vec<Notification>),
    /// The attempt failed; the string carries the diagnostic detail.
    Failure(FailureKind, String),
}

/// HTTP statuses counted as success.
pub open spec fn is_success_status(status: u16) -> bool {
    200 <= status < 300
}

/// HTTP statuses that mean the credential was rejected.
pub open spec fn is_auth_status(status: u16) -> bool {
    status == 401 || status == 403
}

/// Sorts an HTTP status into the failure taxonomy: `None` for success,
/// `Auth` for a rejected credential, `Transient` for every other non-2xx.
pub fn classify_status(status: u16) -> (r: Option<FailureKind>)
    ensures
        is_success_status(status) ==> r is None,
        !is_success_status(status) && is_auth_status(status) ==> r == Some(FailureKind::Auth),
        !is_success_status(status) && !is_auth_status(status) ==> r == Some(
            FailureKind::Transient,
        ),
{
    if 200 <= status && status < 300 {
        None
    } else if status == 401 || status == 403 {
        Some(FailureKind::Auth)
    } else {
        Some(FailureKind::Transient)
    }
}

/// Builds the outcome of one fetch attempt from the response status, the
/// response body text, and the decode attempt made on a successful status:
/// a 2xx status with a decoded batch succeeds, a 2xx status whose body did
/// not decode is a `Protocol` failure carrying the decode error, and a
/// non-2xx status is an `Auth` or `Transient` failure carrying the body.
pub fn outcome_of_response(
    status: u16,
    body: String,
    decoded: Result<Vec<Notification>, String>,
) -> (o: FetchOutcome)
    ensures
        is_success_status(status) && decoded is Ok ==> o == FetchOutcome::Success(
            decoded->Ok_0,
        ),
        is_success_status(status) && decoded is Err ==> o == FetchOutcome::Failure(
            FailureKind::Protocol,
            decoded->Err_0,
        ),
        !is_success_status(status) && is_auth_status(status) ==> o == FetchOutcome::Failure(
            FailureKind::Auth,
            body,
        ),
        !is_success_status(status) && !is_auth_status(status) ==> o == FetchOutcome::Failure(
            FailureKind::Transient,
            body,
        ),
{
    if 200 <= status && status < 300 {
        match decoded {
            Ok(items) => FetchOutcome::Success(items),
            Err(e) => FetchOutcome::Failure(FailureKind::Protocol, e),
        }
    } else if status == 401 || status == 403 {
        FetchOutcome::Failure(FailureKind::Auth, body)
    } else {
        FetchOutcome::Failure(FailureKind::Transient, body)
    }
}

/// Gate on a pull-request listing response: the decoded batch stands on a
/// success status; any other status yields an empty batch rather than a
/// failure, since the listing is auxiliary to the notification flow.
pub fn pull_requests_of_response(status: u16, decoded: Vec<PullRequest>) -> (r: Vec<
    PullRequest,
>)
    ensures
        is_success_status(status) ==> r@ == decoded@,
        !is_success_status(status) ==> r@ == Seq::<PullRequest>::empty(),
{
    if 200 <= status && status < 300 {
        decoded
    } else {
        Vec::new()
    }
}

} // verus!
