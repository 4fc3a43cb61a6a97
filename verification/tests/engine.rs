use lemmy_know::cycle::{
    process_comment_reports, process_post_reports, run_cycle, select_new_post_reports, ClientFetch,
    ClientOutcome,
};
use lemmy_know::detector::ChangeDetector;
use lemmy_know::dispatch::{client_domains, login_flags, session_token, LoginOutcome};
use lemmy_know::domain::{CommentReport, Credential, FetchError, PostReport};
use lemmy_know::ledger::ReportLedger;

fn post_report(id: i32, resolved: bool) -> PostReport {
    PostReport {
        report_id: id,
        post_id: 100 + id,
        title: format!("post {id}"),
        body: None,
        reason: "spam".to_string(),
        author: "https://site1.example/u/someone".to_string(),
        resolved,
    }
}

fn comment_report(id: i32, resolved: bool) -> CommentReport {
    CommentReport {
        report_id: id,
        post_id: 100 + id,
        comment_id: 200 + id,
        content: format!("comment {id}"),
        reason: "abuse".to_string(),
        author: "https://site1.example/u/someone".to_string(),
        resolved,
    }
}

fn credential(domain: &str, user: &str, password: &str) -> Credential {
    Credential {
        domain: domain.to_string(),
        username: user.to_string(),
        password: password.to_string(),
    }
}

#[test]
fn idempotent_persistence() {
    let mut ledger = ReportLedger::new();
    let batch = vec![post_report(42, false)];
    ledger.insert_post_reports("site1.example", &batch);
    assert_eq!(1, ledger.post_count());
    ledger.insert_post_reports("site1.example", &batch);
    assert_eq!(1, ledger.post_count());
    let known = ledger.known_post_ids(&vec![42]);
    assert_eq!(vec![42], known);
}

#[test]
fn dedup_intersection() {
    let mut ledger = ReportLedger::new();
    ledger.insert_post_reports(
        "site1.example",
        &vec![post_report(1, false), post_report(3, false)],
    );
    let known = ledger.known_post_ids(&vec![1, 2, 3, 4]);
    assert_eq!(vec![1, 3], known);
    let new_reports = select_new_post_reports(
        &vec![post_report(1, false), post_report(2, false), post_report(4, false)],
        &known,
    );
    let new_ids: Vec<i32> = new_reports.iter().map(|r| r.report_id).collect();
    assert_eq!(vec![2, 4], new_ids);
}

#[test]
fn known_ids_are_domain_agnostic() {
    let mut ledger = ReportLedger::new();
    ledger.insert_post_reports("site1.example", &vec![post_report(5, false)]);
    // A second domain reusing the id still counts as known at lookup time,
    // though a row under the other domain's key could still be inserted.
    let known = ledger.known_post_ids(&vec![5]);
    assert_eq!(vec![5], known);
    assert!(ledger.has_post_id(5));
    assert!(!ledger.contains_post_key(&"site2.example".to_string(), 5));
}

#[test]
fn resolved_reports_are_never_new() {
    let mut ledger = ReportLedger::new();
    let fetched = vec![post_report(7, true), post_report(8, false)];
    let announced = process_post_reports(&mut ledger, "site1.example", &fetched);
    assert_eq!(1, announced.len());
    assert_eq!(8, announced[0].report_id);
    assert!(!ledger.has_post_id(7));
    assert!(ledger.has_post_id(8));
    assert_eq!(1, ledger.post_count());
}

#[test]
fn change_detector_gates_reauthentication() {
    let mut detector = ChangeDetector::new();
    let creds = vec![credential("site1.example", "bot", "pw")];
    // First observation always counts as a change.
    let first = detector.detect(creds);
    assert!(first.is_some());
    // An equal list is not a change.
    let again = detector.detect(vec![credential("site1.example", "bot", "pw")]);
    assert!(again.is_none());
    // Any value difference is a change.
    let changed = detector.detect(vec![credential("site1.example", "bot", "new-pw")]);
    assert!(changed.is_some());
}

#[test]
fn change_detector_is_order_sensitive() {
    let mut detector = ChangeDetector::new();
    let a = credential("site1.example", "bot", "pw");
    let b = credential("site2.example", "bot", "pw");
    let first = detector.detect(vec![a.clone(), b.clone()]);
    assert!(first.is_some());
    // The same credentials in the other order are a change: comparison is
    // full value equality of the list, order included.
    let permuted = detector.detect(vec![b, a]);
    assert!(permuted.is_some());
}

#[test]
fn cycle_scenario_one_new_post() {
    // One credentialed instance; the remote returns one unresolved post
    // report with id 42; the store starts empty.
    let mut ledger = ReportLedger::new();
    let fetch = ClientFetch {
        domain: "site1.example".to_string(),
        posts: Ok(vec![post_report(42, false)]),
        comments: Ok(vec![]),
    };
    let outcomes = run_cycle(&mut ledger, vec![fetch]);
    assert_eq!(1, outcomes.len());
    match &outcomes[0] {
        ClientOutcome::Complete { domain, new_posts, new_comments } => {
            assert_eq!("site1.example", domain.as_str());
            assert_eq!(1, new_posts.len());
            assert_eq!(42, new_posts[0].report_id);
            assert_eq!(0, new_comments.len());
        }
        _ => panic!("expected a complete outcome"),
    }
    assert_eq!(1, ledger.post_count());
    assert!(ledger.contains_post_key(&"site1.example".to_string(), 42));
}

#[test]
fn cycle_scenario_repeat_is_silent() {
    // Re-running a cycle with the same remote response inserts nothing and
    // announces nothing a second time.
    let mut ledger = ReportLedger::new();
    let fetch = |posts: Vec<PostReport>| ClientFetch {
        domain: "site1.example".to_string(),
        posts: Ok(posts),
        comments: Ok(vec![]),
    };
    let first = run_cycle(&mut ledger, vec![fetch(vec![post_report(42, false)])]);
    match &first[0] {
        ClientOutcome::Complete { new_posts, .. } => assert_eq!(1, new_posts.len()),
        _ => panic!("expected a complete outcome"),
    }
    let second = run_cycle(&mut ledger, vec![fetch(vec![post_report(42, false)])]);
    match &second[0] {
        ClientOutcome::Complete { new_posts, .. } => assert_eq!(0, new_posts.len()),
        _ => panic!("expected a complete outcome"),
    }
    assert_eq!(1, ledger.post_count());
}

#[test]
fn cycle_scenario_resolved_comment_filtered() {
    // The remote returns one resolved comment report (id 7) and one
    // unresolved one (id 8): only id 8 is persisted and announced.
    let mut ledger = ReportLedger::new();
    let fetch = ClientFetch {
        domain: "site1.example".to_string(),
        posts: Ok(vec![]),
        comments: Ok(vec![comment_report(7, true), comment_report(8, false)]),
    };
    let outcomes = run_cycle(&mut ledger, vec![fetch]);
    match &outcomes[0] {
        ClientOutcome::Complete { new_comments, .. } => {
            assert_eq!(1, new_comments.len());
            assert_eq!(8, new_comments[0].report_id);
        }
        _ => panic!("expected a complete outcome"),
    }
    assert!(!ledger.has_comment_id(7));
    assert!(ledger.has_comment_id(8));
    assert_eq!(1, ledger.comment_count());
}

#[test]
fn cycle_isolates_failing_client() {
    // Client X fails its fetch; client Y is still fully processed.
    let mut ledger = ReportLedger::new();
    let failing = ClientFetch {
        domain: "down.example".to_string(),
        posts: Err(FetchError { message: "connection refused".to_string() }),
        comments: Err(FetchError { message: "connection refused".to_string() }),
    };
    let healthy = ClientFetch {
        domain: "site1.example".to_string(),
        posts: Ok(vec![post_report(1, false)]),
        comments: Ok(vec![comment_report(2, false)]),
    };
    let outcomes = run_cycle(&mut ledger, vec![failing, healthy]);
    assert_eq!(2, outcomes.len());
    match &outcomes[0] {
        ClientOutcome::Failed { domain, error } => {
            assert_eq!("down.example", domain.as_str());
            assert_eq!("connection refused", error.message.as_str());
        }
        _ => panic!("expected a failed outcome"),
    }
    match &outcomes[1] {
        ClientOutcome::Complete { new_posts, new_comments, .. } => {
            assert_eq!(1, new_posts.len());
            assert_eq!(1, new_comments.len());
        }
        _ => panic!("expected a complete outcome"),
    }
    assert!(ledger.has_post_id(1));
    assert!(ledger.has_comment_id(2));
}

#[test]
fn cycle_keeps_posts_when_comment_fetch_fails() {
    // Post reports are fully processed before comment reports; a comment
    // fetch failure keeps the post work already done.
    let mut ledger = ReportLedger::new();
    let fetch = ClientFetch {
        domain: "site1.example".to_string(),
        posts: Ok(vec![post_report(9, false)]),
        comments: Err(FetchError { message: "timeout".to_string() }),
    };
    let outcomes = run_cycle(&mut ledger, vec![fetch]);
    match &outcomes[0] {
        ClientOutcome::PostsOnly { new_posts, error, .. } => {
            assert_eq!(1, new_posts.len());
            assert_eq!("timeout", error.message.as_str());
        }
        _ => panic!("expected a posts-only outcome"),
    }
    assert!(ledger.has_post_id(9));
}

#[test]
fn comment_processing_mirrors_posts() {
    let mut ledger = ReportLedger::new();
    let fetched = vec![comment_report(1, false), comment_report(1, false)];
    // An in-batch duplicate is announced twice (both were unknown at the
    // dedup check) but recorded once.
    let announced = process_comment_reports(&mut ledger, "site1.example", &fetched);
    assert_eq!(2, announced.len());
    assert_eq!(1, ledger.comment_count());
}

#[test]
fn credential_change_rebuilds_clients() {
    // Scenario: a credential is removed between cycles; the detector
    // reports the new set and the removed domain is no longer polled.
    let mut detector = ChangeDetector::new();
    let cycle_one = vec![
        credential("site1.example", "bot", "pw"),
        credential("site2.example", "bot", "pw"),
    ];
    let first = detector.detect(cycle_one);
    let first_creds = first.expect("first observation is a change");
    let first_domains = client_domains(&first_creds, &vec![true, true]);
    assert_eq!(2, first_domains.len());

    let cycle_two = vec![credential("site1.example", "bot", "pw")];
    let second = detector.detect(cycle_two);
    let second_creds = second.expect("a removed credential is a change");
    let second_domains = client_domains(&second_creds, &vec![true]);
    assert_eq!(1, second_domains.len());
    assert_eq!("site1.example", second_domains[0].as_str());

    // A third cycle with the unchanged set keeps the clients as they are.
    let third = detector.detect(vec![credential("site1.example", "bot", "pw")]);
    assert!(third.is_none());
}

#[test]
fn token_less_login_is_skipped() {
    let creds = vec![
        credential("site1.example", "bot", "pw"),
        credential("site2.example", "bot", "pw"),
        credential("site3.example", "bot", "pw"),
    ];
    // One token-bearing reply, one reply without a token, one failed call:
    // only the first credential becomes a live client, and neither of the
    // other two outcomes disturbs the collection.
    let outcomes = vec![
        LoginOutcome::Session { token: "jwt-a".to_string() },
        LoginOutcome::NoToken,
        LoginOutcome::Failed,
    ];
    let flags = login_flags(&outcomes);
    assert_eq!(vec![true, false, false], flags);
    let domains = client_domains(&creds, &flags);
    assert_eq!(1, domains.len());
    assert_eq!("site1.example", domains[0].as_str());
    assert_eq!(
        Some("jwt-a".to_string()),
        session_token(LoginOutcome::Session { token: "jwt-a".to_string() })
    );
    assert_eq!(None, session_token(LoginOutcome::NoToken));
    assert_eq!(None, session_token(LoginOutcome::Failed));
}

#[test]
fn failed_logins_are_skipped() {
    let creds = vec![
        credential("site1.example", "bot", "pw"),
        credential("bad.example", "bot", "wrong"),
        credential("site3.example", "bot", "pw"),
    ];
    let domains = client_domains(&creds, &vec![true, false, true]);
    assert_eq!(2, domains.len());
    assert_eq!("site1.example", domains[0].as_str());
    assert_eq!("site3.example", domains[1].as_str());
}
