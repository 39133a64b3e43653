use changelog::dto::PullRequestCommit;
use changelog::pattern::{Matcher, MatchResult};

fn extract(message: &str) -> MatchResult {
    Matcher::new().extract(message)
}

#[test]
fn plain_merge_message_matches() {
    match extract("Merge pull request #42 from feature/foo") {
        MatchResult::Match { id, branch, title } => {
            assert_eq!(id, 42);
            assert_eq!(branch, "feature/foo");
            assert!(title.is_none());
        },
        MatchResult::NoMatch => panic!("expected a match"),
    }
}

#[test]
fn merge_message_with_title_matches() {
    match extract("Merge pull request #42 from feature/foo Add foo support") {
        MatchResult::Match { id, branch, title } => {
            assert_eq!(id, 42);
            assert_eq!(branch, "feature/foo");
            assert_eq!(title.as_deref(), Some("Add foo support"));
        },
        MatchResult::NoMatch => panic!("expected a match"),
    }
}

#[test]
fn merge_message_with_title_on_next_line_matches() {
    match extract("Merge pull request #7 from fix/crash\n\nStop crashing") {
        MatchResult::Match { id, branch, title } => {
            assert_eq!(id, 7);
            assert_eq!(branch, "fix/crash");
            assert_eq!(title.as_deref(), Some("Stop crashing"));
        },
        MatchResult::NoMatch => panic!("expected a match"),
    }
}

#[test]
fn empty_message_does_not_match() {
    assert!(matches!(extract(""), MatchResult::NoMatch));
}

#[test]
fn ordinary_message_does_not_match() {
    assert!(matches!(extract("fix typo"), MatchResult::NoMatch));
}

#[test]
fn pattern_in_the_middle_of_other_text_does_not_match() {
    assert!(matches!(
        extract("Revert \"Merge pull request #42 from feature/foo\""),
        MatchResult::NoMatch
    ));
}

#[test]
fn missing_id_does_not_match() {
    assert!(matches!(
        extract("Merge pull request # from feature/foo"),
        MatchResult::NoMatch
    ));
}

#[test]
fn missing_branch_does_not_match() {
    assert!(matches!(extract("Merge pull request #42 from "), MatchResult::NoMatch));
}

#[test]
fn overflowing_id_does_not_match() {
    // One more than u32::MAX.
    assert!(matches!(
        extract("Merge pull request #4294967296 from feature/foo"),
        MatchResult::NoMatch
    ));
}

#[test]
fn largest_id_matches() {
    match extract("Merge pull request #4294967295 from b") {
        MatchResult::Match { id, branch, title } => {
            assert_eq!(id, u32::MAX);
            assert_eq!(branch, "b");
            assert!(title.is_none());
        },
        MatchResult::NoMatch => panic!("expected a match"),
    }
}

#[test]
fn trailing_whitespace_alone_yields_no_title() {
    match extract("Merge pull request #3 from dev  ") {
        MatchResult::Match { id, branch, title } => {
            assert_eq!(id, 3);
            assert_eq!(branch, "dev");
            assert!(title.is_none());
        },
        MatchResult::NoMatch => panic!("expected a match"),
    }
}

#[test]
fn record_built_from_commit_message() {
    let matcher = Matcher::new();
    let record = PullRequestCommit::from_commit_message(
        &matcher,
        "acme/widget",
        "Merge pull request #42 from feature/foo",
    )
    .expect("expected a record");
    assert_eq!(record.repository, "acme/widget");
    assert_eq!(record.id, 42);
    assert_eq!(record.branch, "feature/foo");
    assert!(record.title.is_none());
}

#[test]
fn record_not_built_from_ordinary_message() {
    let matcher = Matcher::new();
    assert!(PullRequestCommit::from_commit_message(&matcher, "acme/widget", "fix typo").is_err());
}

#[test]
fn derived_url_composes_repository_and_id() {
    let record = PullRequestCommit {
        repository: String::from("acme/widget"),
        id: 42,
        branch: String::from("feature/foo"),
        title: None,
    };
    assert_eq!(record.get_url(), "https://github.com/acme/widget/pull/42");
}

#[test]
fn derived_url_renders_every_digit() {
    let record = PullRequestCommit {
        repository: String::from("o/r"),
        id: 1053047860,
        branch: String::from("b"),
        title: None,
    };
    assert_eq!(record.get_url(), "https://github.com/o/r/pull/1053047860");
}

#[test]
fn derived_url_of_id_zero() {
    let record = PullRequestCommit {
        repository: String::from("o/r"),
        id: 0,
        branch: String::from("b"),
        title: None,
    };
    assert_eq!(record.get_url(), "https://github.com/o/r/pull/0");
}
