use pgxn_bridge::dist::Release;
use pgxn_bridge::sync::{
    decide, find_entry, plan_batch, reconcile, Action, BatchItem, BatchRun, Decision, Outcome,
    Stage,
};
use pgxn_bridge::trunk::{ExtensionInfo, ReducedTrunkToml};

fn release(dist: &str, version: &str) -> Release {
    Release {
        dist: dist.to_string(),
        version: version.to_string(),
        description: String::new(),
        date: "2024-01-01".to_string(),
        user: "u".to_string(),
        user_name: "User".to_string(),
    }
}

fn entry(name: &str, alias: Option<&str>, version: &str) -> ReducedTrunkToml {
    ReducedTrunkToml {
        extension: ExtensionInfo {
            name: name.to_string(),
            extension_name: alias.map(|a| a.to_string()),
            version: version.to_string(),
        },
    }
}

#[test]
fn entry_matches_by_name() {
    let e = entry("timescaledb", None, "1.0");
    assert!(e.matches(&release("timescaledb", "2.0")));
}

#[test]
fn entry_matches_by_alias() {
    let e = entry("timescale", Some("timescaledb"), "1.0");
    assert!(e.matches(&release("timescaledb", "2.0")));
}

#[test]
fn matching_is_exact_and_case_sensitive() {
    let e = entry("timescale", Some("timescaledb"), "1.0");
    assert!(!e.matches(&release("TimescaleDB", "2.0")));
    assert!(!e.matches(&release("timescaled", "2.0")));
}

#[test]
fn find_entry_takes_first_match() {
    let entries = vec![
        entry("other", None, "1.0"),
        entry("pg_a", None, "1.0"),
        entry("pg_b", Some("pg_a"), "9.0"),
    ];
    let found = find_entry(&entries, &release("pg_a", "1.0")).unwrap();
    assert_eq!(found.extension.name, "pg_a");
    assert!(find_entry(&entries, &release("missing", "1.0")).is_none());
}

#[test]
fn reconcile_without_entry_is_new() {
    assert_eq!(reconcile(&"1.0.0".to_string(), None), Decision::New);
}

#[test]
fn reconcile_newer_release_is_update() {
    let e = entry("x", None, "1.4.0");
    assert_eq!(reconcile(&"1.5.0".to_string(), Some(&e)), Decision::Update);
}

#[test]
fn reconcile_same_version_is_skip() {
    let e = entry("x", None, "1.5.2");
    assert_eq!(reconcile(&"1.5.2".to_string(), Some(&e)), Decision::Skip);
}

#[test]
fn reconcile_older_release_is_skip() {
    let e = entry("x", None, "1.5.2");
    assert_eq!(reconcile(&"1.5".to_string(), Some(&e)), Decision::Skip);
}

#[test]
fn decide_uses_registry_entries() {
    let entries = vec![entry("pg_a", None, "1.4.0"), entry("pg_b", Some("pgb"), "1.5.2")];
    assert_eq!(decide(&entries, &release("pg_a", "1.5.0")), Decision::Update);
    assert_eq!(decide(&entries, &release("pgb", "1.5.2")), Decision::Skip);
    assert_eq!(decide(&entries, &release("pg_c", "0.1")), Decision::New);
}

#[test]
fn plan_lists_oldest_first() {
    let releases = vec![release("pg_a", "1.1"), release("pg_a", "1.0"), release("pg_b", "1.0")];
    let entries = vec![entry("pg_b", None, "1.0")];
    let plan = plan_batch(&releases, &entries);
    assert_eq!(
        plan,
        vec![
            BatchItem { index: 2, decision: Decision::Skip },
            BatchItem { index: 1, decision: Decision::New },
            BatchItem { index: 0, decision: Decision::New },
        ]
    );
}

fn item(index: usize, decision: Decision) -> BatchItem {
    BatchItem { index, decision }
}

#[test]
fn failed_metadata_does_not_stop_the_batch() {
    let plan = vec![item(2, Decision::New), item(1, Decision::New), item(0, Decision::Update)];
    let mut run = BatchRun::new(plan);
    let mut actions = Vec::new();
    loop {
        let action = run.next_action();
        actions.push(action);
        let ok = !matches!(action, Action::FetchMetadata(1));
        if action == Action::Done {
            break;
        }
        run.advance(ok);
    }
    assert_eq!(
        actions,
        vec![
            Action::FetchMetadata(2),
            Action::Publish(2),
            Action::ResetToBaseline(2),
            Action::OpenPullRequest(2),
            Action::FetchMetadata(1),
            Action::FetchMetadata(0),
            Action::Publish(0),
            Action::ResetToBaseline(0),
            Action::OpenPullRequest(0),
            Action::Done,
        ]
    );
    assert_eq!(
        run.outcomes,
        vec![Outcome::Published, Outcome::Failed(Stage::Metadata), Outcome::Published]
    );
}

#[test]
fn failed_push_is_followed_by_reset_and_next_release() {
    let plan = vec![item(1, Decision::New), item(0, Decision::New)];
    let mut run = BatchRun::new(plan);
    run.advance(true);
    assert_eq!(run.next_action(), Action::Publish(1));
    run.advance(false);
    assert_eq!(run.next_action(), Action::ResetToBaseline(1));
    run.advance(true);
    assert_eq!(run.next_action(), Action::FetchMetadata(0));
    assert_eq!(run.outcomes[0], Outcome::Failed(Stage::Publish));
    assert_eq!(run.outcomes[1], Outcome::Pending);
}

#[test]
fn failed_reset_skips_the_pull_request() {
    let plan = vec![item(0, Decision::New)];
    let mut run = BatchRun::new(plan);
    run.advance(true);
    run.advance(true);
    run.advance(false);
    assert_eq!(run.next_action(), Action::Done);
    assert_eq!(run.outcomes, vec![Outcome::Failed(Stage::Reset)]);
}

#[test]
fn skipped_releases_get_no_work() {
    let plan = vec![item(1, Decision::Skip), item(0, Decision::Skip)];
    let run = BatchRun::new(plan);
    assert_eq!(run.next_action(), Action::Done);
    assert_eq!(run.outcomes, vec![Outcome::Skipped, Outcome::Skipped]);
}

#[test]
fn failed_pull_request_is_recorded() {
    let plan = vec![item(0, Decision::Update)];
    let mut run = BatchRun::new(plan);
    run.advance(true);
    run.advance(true);
    run.advance(true);
    assert_eq!(run.next_action(), Action::OpenPullRequest(0));
    run.advance(false);
    assert_eq!(run.next_action(), Action::Done);
    assert_eq!(run.outcomes, vec![Outcome::Failed(Stage::PullRequest)]);
}
