use changelog::engine::{aggregate_fetched, aggregate_pages, is_deployment_event, select_baseline};
use changelog::error::ChangelogError;
use changelog::models::{Commit, CommitData, ComparisonPage, Deployment};

fn deployment(id: u64, sha: &str) -> Deployment {
    Deployment {
        url: format!("https://api.github.com/repos/acme/widget/deployments/{id}"),
        id,
        node_id: format!("node-{id}"),
        sha: String::from(sha),
        target_ref: String::from("main"),
        task: String::from("deploy"),
        original_environment: None,
        environment: String::from("production"),
        description: None,
        created_at: 1_700_000_000 + id as i64,
        updated_at: 1_700_000_000 + id as i64,
        transient_environment: None,
        production_environment: Some(true),
    }
}

fn commit(sha: &str, message: &str) -> Commit {
    Commit {
        sha: Some(String::from(sha)),
        commit: CommitData {
            message: String::from(message),
            comment_count: 0,
            verification: None,
        },
    }
}

#[test]
fn deployment_run_selects_second_most_recent() {
    let history = vec![deployment(3, "c3"), deployment(2, "c2"), deployment(1, "c1")];
    let baseline = select_baseline(history, true).expect("expected a baseline");
    assert_eq!(baseline.id, 2);
    assert_eq!(baseline.sha, "c2");
}

#[test]
fn ordinary_run_selects_most_recent() {
    let history = vec![deployment(3, "c3"), deployment(2, "c2"), deployment(1, "c1")];
    let baseline = select_baseline(history, false).expect("expected a baseline");
    assert_eq!(baseline.id, 3);
    assert_eq!(baseline.sha, "c3");
}

#[test]
fn deployment_run_with_single_entry_has_no_baseline() {
    let history = vec![deployment(1, "c1")];
    assert!(matches!(select_baseline(history, true), Err(ChangelogError::NoBaseline)));
}

#[test]
fn ordinary_run_with_empty_history_has_no_baseline() {
    assert!(matches!(select_baseline(Vec::new(), false), Err(ChangelogError::NoBaseline)));
}

#[test]
fn aggregation_concatenates_pages_in_order() {
    let pages = vec![
        ComparisonPage {
            commits: vec![commit("a", "one"), commit("b", "two")],
            next: Some(String::from("page-2")),
        },
        ComparisonPage {
            commits: vec![commit("c", "three")],
            next: Some(String::from("page-3")),
        },
        ComparisonPage { commits: vec![commit("d", "four")], next: None },
    ];
    let commits = aggregate_pages(pages);
    let shas: Vec<&str> = commits.iter().map(|c| c.sha.as_deref().unwrap()).collect();
    assert_eq!(shas, ["a", "b", "c", "d"]);
}

#[test]
fn aggregation_of_fetched_pages_succeeds_when_every_fetch_did() {
    let outcomes = vec![
        Some(ComparisonPage {
            commits: vec![commit("a", "one"), commit("b", "two")],
            next: Some(String::from("page-2")),
        }),
        Some(ComparisonPage {
            commits: vec![commit("c", "three")],
            next: Some(String::from("page-3")),
        }),
        Some(ComparisonPage { commits: vec![commit("d", "four")], next: None }),
    ];
    let commits = aggregate_fetched(outcomes).expect("expected the full range");
    let shas: Vec<&str> = commits.iter().map(|c| c.sha.as_deref().unwrap()).collect();
    assert_eq!(shas, ["a", "b", "c", "d"]);
}

#[test]
fn failed_page_fetch_aborts_the_whole_aggregation() {
    let outcomes = vec![
        Some(ComparisonPage {
            commits: vec![commit("a", "one"), commit("b", "two")],
            next: Some(String::from("page-2")),
        }),
        None,
        Some(ComparisonPage { commits: vec![commit("d", "four")], next: None }),
    ];
    assert!(matches!(aggregate_fetched(outcomes), Err(ChangelogError::RangeFetchFailed)));
}

#[test]
fn aggregation_of_no_pages_is_empty() {
    assert!(aggregate_pages(Vec::new()).is_empty());
}

#[test]
fn deployment_event_is_recognised() {
    assert!(is_deployment_event(&Some(String::from("deployment"))));
    assert!(!is_deployment_event(&Some(String::from("push"))));
    assert!(!is_deployment_event(&None));
}

#[test]
fn error_messages_name_each_failure() {
    assert_eq!(
        ChangelogError::NoBaseline.message(),
        "Previous deployment does not exist."
    );
    assert_eq!(
        ChangelogError::RangeFetchFailed.message(),
        "Cannot fetch commits since last deployment from GitHub API."
    );
    assert_eq!(
        ChangelogError::PatternInitFailed.message(),
        "Could not construct matcher from regular expression."
    );
}
