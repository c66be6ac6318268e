use notipoll::engine::{CycleAction, Engine};
use notipoll::notification::{Notification, PullRequest, Repository, Reviewer, Subject};
use notipoll::outcome::{
    classify_status, outcome_of_response, pull_requests_of_response, FailureKind, FetchOutcome,
};

fn item(id: &str, reason: &str, updated_at: u64) -> Notification {
    Notification {
        id: id.to_owned(),
        repository: Repository {
            name: "core".to_owned(),
            full_name: "acme/core".to_owned(),
            html_url: "https://example.com/acme/core".to_owned(),
        },
        subject: Subject { title: id.to_owned(), url: Some("https://example.com".to_owned()) },
        reason: reason.to_owned(),
        unread: true,
        updated_at,
    }
}

#[test]
fn scenario_two_empty_polls_then_three_items() {
    let mut engine = Engine::new(60_000, 200_000);
    assert_eq!(engine.cursor, None);

    let action = engine.poll_cycle(FetchOutcome::Success(Vec::new()), 1_000);
    assert_eq!(action, CycleAction::Quiet);
    assert_eq!(engine.current_interval_ms(), 72_000);
    assert_eq!(engine.cursor, Some(1_000));

    let action = engine.poll_cycle(FetchOutcome::Success(Vec::new()), 2_000);
    assert_eq!(action, CycleAction::Quiet);
    assert_eq!(engine.current_interval_ms(), 86_400);
    assert_eq!(engine.cursor, Some(2_000));

    let batch = vec![
        item("n1", "review_requested", 10),
        item("n2", "mention", 30),
        item("n3", "assign", 20),
    ];
    let action = engine.poll_cycle(FetchOutcome::Success(batch), 3_000);
    match action {
        CycleAction::Deliver(delivered) => {
            assert_eq!(delivered.len(), 3);
            let ids: Vec<&str> = delivered.iter().map(|n| n.id.as_str()).collect();
            assert_eq!(ids, vec!["n2", "n3", "n1"]);
        }
        other => panic!("expected a delivery, got {:?}", other),
    }
    assert_eq!(engine.current_interval_ms(), 60_000);
    assert_eq!(engine.cursor, Some(3_000));
}

#[test]
fn cursor_advances_on_empty_success_but_not_on_failure() {
    let mut engine = Engine::new(60_000, 200_000);
    engine.poll_cycle(FetchOutcome::Success(Vec::new()), 500);
    assert_eq!(engine.cursor, Some(500));
    engine.poll_cycle(
        FetchOutcome::Failure(FailureKind::Transient, "timed out".to_owned()),
        900,
    );
    assert_eq!(engine.cursor, Some(500));
    engine.poll_cycle(FetchOutcome::Success(Vec::new()), 1_300);
    assert_eq!(engine.cursor, Some(1_300));
}

#[test]
fn transient_failure_leaves_cadence_untouched() {
    let mut engine = Engine::new(60_000, 200_000);
    engine.poll_cycle(FetchOutcome::Success(Vec::new()), 100);
    engine.poll_cycle(FetchOutcome::Success(Vec::new()), 200);
    let cadence_before = engine.cadence;
    let cursor_before = engine.cursor;

    let action = engine.poll_cycle(
        FetchOutcome::Failure(FailureKind::Transient, "503 upstream".to_owned()),
        300,
    );
    assert_eq!(
        action,
        CycleAction::Report(FailureKind::Transient, "503 upstream".to_owned())
    );
    assert_eq!(engine.cadence, cadence_before);
    assert_eq!(engine.cursor, cursor_before);
}

#[test]
fn delivery_happens_only_for_nonempty_filtered_batches() {
    let mut engine = Engine::new(60_000, 200_000);
    let only_own = vec![item("mine", "author", 40)];
    let action = engine.poll_cycle(FetchOutcome::Success(only_own), 100);
    assert_eq!(action, CycleAction::Quiet);
    assert_eq!(engine.current_interval_ms(), 72_000);
}

#[test]
fn status_classification() {
    assert_eq!(classify_status(200), None);
    assert_eq!(classify_status(204), None);
    assert_eq!(classify_status(299), None);
    assert_eq!(classify_status(300), Some(FailureKind::Transient));
    assert_eq!(classify_status(401), Some(FailureKind::Auth));
    assert_eq!(classify_status(403), Some(FailureKind::Auth));
    assert_eq!(classify_status(404), Some(FailureKind::Transient));
    assert_eq!(classify_status(500), Some(FailureKind::Transient));
    assert_eq!(classify_status(199), Some(FailureKind::Transient));
}

#[test]
fn outcome_success_carries_decoded_batch() {
    let batch = vec![item("n1", "mention", 7)];
    let o = outcome_of_response(200, String::new(), Ok(batch.clone()));
    assert_eq!(o, FetchOutcome::Success(batch));
}

#[test]
fn outcome_protocol_failure_on_bad_body() {
    let o = outcome_of_response(200, "ignored".to_owned(), Err("bad json".to_owned()));
    assert_eq!(o, FetchOutcome::Failure(FailureKind::Protocol, "bad json".to_owned()));
}

#[test]
fn outcome_auth_failure_on_rejected_credential() {
    let o = outcome_of_response(401, "unauthorized".to_owned(), Err(String::new()));
    assert_eq!(o, FetchOutcome::Failure(FailureKind::Auth, "unauthorized".to_owned()));
}

#[test]
fn outcome_transient_failure_on_server_error() {
    let o = outcome_of_response(502, "bad gateway".to_owned(), Err(String::new()));
    assert_eq!(o, FetchOutcome::Failure(FailureKind::Transient, "bad gateway".to_owned()));
}

#[test]
fn pull_requests_kept_on_success_and_dropped_on_failure_status() {
    let prs = vec![PullRequest {
        number: 7,
        state: "open".to_owned(),
        requested_reviewers: vec![Reviewer { login: "alice".to_owned() }],
    }];
    assert_eq!(pull_requests_of_response(200, prs.clone()), prs);
    assert_eq!(pull_requests_of_response(404, prs), Vec::<PullRequest>::new());
}
