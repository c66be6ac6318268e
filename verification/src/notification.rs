//! Plain data carried through the polling engine.
//!
//! Timestamps are held as seconds since the Unix epoch, so that recency
//! comparisons and cursor arithmetic are ordinary integer operations.

use vstd::prelude::*;

verus! {

/// The repository a notification points at.
#[derive(Debug, Clone, PartialEq, Eq)]
pub struct Repository {
    pub name: String,
    pub full_name: String,
    pub html_url: String,
}

/// The subject line of a notification.
#[derive(Debug, Clone, PartialEq, Eq)]
pub struct Subject {
    pub title: String,
    pub url: Option<String>,
}

/// One notification from the remote feed. `updated_at` is in seconds since
/// the Unix epoch; `id` is the identity key of the item.
#[derive(Debug, Clone, PartialEq, Eq)]
pub struct Notification {
    pub id: String,
    pub repository: Repository,
    pub subject: Subject,
    pub reason: String,
    pub unread: bool,
    pub updated_at: u64,
}

/// A pull request of a repository.
#[derive(Debug, Clone, PartialEq, Eq)]
pub struct PullRequest {
    pub number: u64,
    pub state: String,
    pub requested_reviewers: Vec<Reviewer>,
}

/// A user a review was requested from.
#[derive(Debug, Clone, PartialEq, Eq)]
pub struct Reviewer {
    pub login: String,
}

} // verus!
