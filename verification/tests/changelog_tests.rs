use changelog::dto::Changelog;
use changelog::models::{Commit, CommitData};
use changelog::pattern::Matcher;

fn commit(message: &str) -> Commit {
    Commit {
        sha: None,
        commit: CommitData {
            message: String::from(message),
            comment_count: 0,
            verification: None,
        },
    }
}

fn scenario_commits() -> Vec<Commit> {
    vec![
        commit("fix typo"),
        commit("Merge pull request #42 from feature/foo Add foo support"),
        commit("Merge pull request #41 from feature/bar"),
    ]
}

#[test]
fn end_to_end_scenario() {
    let matcher = Matcher::new();
    let log = Changelog::new(
        &matcher,
        "acme/widget",
        String::from("production release"),
        scenario_commits(),
    );
    assert_eq!(log.pull_requests.len(), 2);

    let first = &log.pull_requests[0];
    assert_eq!(first.id, 42);
    assert_eq!(first.branch, "feature/foo");
    assert_eq!(first.title.as_deref(), Some("Add foo support"));
    assert_eq!(first.get_url(), "https://github.com/acme/widget/pull/42");

    let second = &log.pull_requests[1];
    assert_eq!(second.id, 41);
    assert_eq!(second.branch, "feature/bar");
    assert!(second.title.is_none());
    assert_eq!(second.get_url(), "https://github.com/acme/widget/pull/41");

    assert!(!log.is_empty());
    assert_eq!(log.info, "production release");
}

#[test]
fn empty_scenario() {
    let matcher = Matcher::new();
    let commits = vec![commit("fix typo"), commit(""), commit("Bump version")];
    let log = Changelog::new(&matcher, "acme/widget", String::from("info"), commits);
    assert_eq!(log.pull_requests.len(), 0);
    assert!(log.is_empty());
}

#[test]
fn assembly_is_idempotent() {
    let matcher = Matcher::new();
    let once = Changelog::new(&matcher, "acme/widget", String::from("info"), scenario_commits());
    let twice = Changelog::new(&matcher, "acme/widget", String::from("info"), scenario_commits());
    assert_eq!(once.pull_requests.len(), twice.pull_requests.len());
    for (a, b) in once.pull_requests.iter().zip(twice.pull_requests.iter()) {
        assert_eq!(a.repository, b.repository);
        assert_eq!(a.id, b.id);
        assert_eq!(a.branch, b.branch);
        assert_eq!(a.title, b.title);
        assert_eq!(a.get_url(), b.get_url());
    }
}

#[test]
fn repeated_merges_are_both_retained() {
    let matcher = Matcher::new();
    let commits = vec![
        commit("Merge pull request #5 from hotfix/a"),
        commit("chore: tidy"),
        commit("Merge pull request #5 from hotfix/a"),
    ];
    let log = Changelog::new(&matcher, "acme/widget", String::from("info"), commits);
    assert_eq!(log.pull_requests.len(), 2);
    assert_eq!(log.pull_requests[0].id, 5);
    assert_eq!(log.pull_requests[1].id, 5);
}

#[test]
fn records_keep_encounter_order() {
    let matcher = Matcher::new();
    let commits = vec![
        commit("Merge pull request #3 from c"),
        commit("Merge pull request #1 from a"),
        commit("Merge pull request #2 from b"),
    ];
    let log = Changelog::new(&matcher, "acme/widget", String::from("info"), commits);
    let ids: Vec<u32> = log.pull_requests.iter().map(|p| p.id).collect();
    assert_eq!(ids, [3, 1, 2]);
}
