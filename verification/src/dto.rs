//! Pull-request records and the changelog they form.
//!
//! A [`PullRequestCommit`] is the canonical entry derived from one
//! matched commit message plus the repository identity in effect for the
//! whole run; a [`Changelog`] is the ordered list of such entries drawn
//! from an aggregated commit sequence, with free-text descriptive info.

use vstd::prelude::*;
use vstd::string::StringExecFns;
use crate::models::Commit;
use crate::pattern::{opt_str_view, parse_pr, Matcher, MatchResult, PrFields};

verus! {

/// The canonical decimal digit string of a non-negative number, most
/// significant digit first, without leading zeroes.
pub open spec fn dec_digits(n: int) -> Seq<char>
    decreases n,
{
    if n < 10 {
        seq![digit_char(n)]
    } else {
        dec_digits(n / 10).push(digit_char(n % 10))
    }
}

/// The character of one decimal digit.
pub open spec fn digit_char(d: int) -> char {
    if d == 0 {
        '0'
    } else if d == 1 {
        '1'
    } else if d == 2 {
        '2'
    } else if d == 3 {
        '3'
    } else if d == 4 {
        '4'
    } else if d == 5 {
        '5'
    } else if d == 6 {
        '6'
    } else if d == 7 {
        '7'
    } else if d == 8 {
        '8'
    } else {
        '9'
    }
}

/// The derived web URL of a pull request under the fixed hosting domain.
pub open spec fn pr_url(repository: Seq<char>, id: int) -> Seq<char> {
    "https://github.com/"@ + repository + "/pull/"@ + dec_digits(id)
}

/// The abstract value of one pull-request record.
pub ghost struct RecordView {
    pub repository: Seq<char>,
    pub id: int,
    pub branch: Seq<char>,
    pub title: Option<Seq<char>>,
}

/// The record a successful parse of `msg` yields for `repository`.
pub open spec fn record_of(repository: Seq<char>, f: PrFields) -> RecordView {
    RecordView { repository: repository, id: f.id, branch: f.branch, title: f.title }
}

/// One merged pull request observed in the commit range.
///
/// `id` and `branch` are always present; `title` is present only when
/// the commit message carried a non-empty trailing segment.
#[derive(Debug)]
pub struct PullRequestCommit {
    pub repository: String,
    pub id: u32,
    pub branch: String,
    pub title: Option<String>,
}

/// The abstract value of a record.
pub open spec fn record_view(p: PullRequestCommit) -> RecordView {
    RecordView {
        repository: p.repository@,
        id: p.id as int,
        branch: p.branch@,
        title: opt_str_view(p.title),
    }
}

/// The abstract values of a record sequence, in order.
pub open spec fn record_views(ps: Seq<PullRequestCommit>) -> Seq<RecordView> {
    ps.map_values(|p: PullRequestCommit| record_view(p))
}

/// One exec digit as a one-character string.
fn digit_str(d: u32) -> (s: &'static str)
    requires
        d < 10,
    ensures
        s@ == seq![digit_char(d as int)],
{
    proof {
        reveal_strlit("0");
        reveal_strlit("1");
        reveal_strlit("2");
        reveal_strlit("3");
        reveal_strlit("4");
        reveal_strlit("5");
        reveal_strlit("6");
        reveal_strlit("7");
        reveal_strlit("8");
        reveal_strlit("9");
    }
    let s = match d {
        0 => "0",
        1 => "1",
        2 => "2",
        3 => "3",
        4 => "4",
        5 => "5",
        6 => "6",
        7 => "7",
        8 => "8",
        _ => "9",
    };
    proof {
        assert(s@ =~= seq![digit_char(d as int)]);
    }
    s
}

/// Render a number as its canonical decimal digit string.
fn u32_to_string(n: u32) -> (s: String)
    ensures
        s@ == dec_digits(n as int),
    decreases n,
{
    let d = n % 10;
    let ds = digit_str(d);
    if n < 10 {
        ds.to_owned()
    } else {
        let mut s = u32_to_string(n / 10);
        s.append(ds);
        proof {
            assert(s@ =~= dec_digits((n / 10) as int).push(digit_char((n % 10) as int)));
        }
        s
    }
}

impl PullRequestCommit {
    /// Attempt to build a record from one raw commit message: extraction
    /// through the matcher, then the repository identity attached. Most
    /// messages are not merge commits, so `Err` is the expected, common
    /// outcome, never a crash.
    pub fn from_commit_message(matcher: &Matcher, repository: &str, commit_message: &str) -> (r:
        Result<Self, ()>)
        ensures
            (r is Ok) <==> (parse_pr(commit_message@) is Some),
            r matches Ok(p) ==> parse_pr(commit_message@) matches Some(f) && record_view(p)
                == record_of(repository@, f),
    {
        match matcher.extract(commit_message) {
            MatchResult::NoMatch => Err(()),
            MatchResult::Match { id, branch, title } => Ok(
                Self { repository: repository.to_owned(), id, branch, title },
            ),
        }
    }

    /// The record's web URL, built by string composition; no network
    /// access occurs here.
    pub fn get_url(&self) -> (r: String)
        ensures
            r@ == pr_url(self.repository@, self.id as int),
    {
        let mut url = String::from_str("https://github.com/");
        url.append(self.repository.as_str());
        url.append("/pull/");
        let id = u32_to_string(self.id);
        url.append(id.as_str());
        url
    }
}

/// The records drawn from `msgs` for `repository`, in encounter order:
/// messages that fail to parse are silently dropped, and no
/// deduplication by id is performed — repeated merges of one pull
/// request are distinct events and all retained.
pub open spec fn changelog_records(repository: Seq<char>, msgs: Seq<Seq<char>>) -> Seq<RecordView>
    decreases msgs.len(),
{
    if msgs.len() == 0 {
        Seq::empty()
    } else {
        let prev = changelog_records(repository, msgs.drop_last());
        match parse_pr(msgs.last()) {
            Option::None => prev,
            Option::Some(f) => prev.push(record_of(repository, f)),
        }
    }
}

/// Law: a message that does not match the merge-commit shape
/// contributes nothing — the records drawn from a commit sequence do
/// not change when such a message is appended.
pub proof fn lemma_nonmatching_contributes_nothing(
    repository: Seq<char>,
    msgs: Seq<Seq<char>>,
    msg: Seq<char>,
)
    requires
        parse_pr(msg) is None,
    ensures
        changelog_records(repository, msgs.push(msg)) == changelog_records(repository, msgs),
{
    assert(msgs.push(msg).drop_last() =~= msgs);
    assert(msgs.push(msg).last() == msg);
}

/// Law: when no message of the sequence matches the merge-commit
/// shape, the changelog holds zero records.
pub proof fn lemma_no_matches_no_records(repository: Seq<char>, msgs: Seq<Seq<char>>)
    requires
        forall|i: int| 0 <= i < msgs.len() ==> parse_pr(msgs[i]) is None,
    ensures
        changelog_records(repository, msgs) == Seq::<RecordView>::empty(),
    decreases msgs.len(),
{
    if msgs.len() > 0 {
        assert(forall|i: int| 0 <= i < msgs.drop_last().len() ==> parse_pr(
            msgs.drop_last()[i],
        ) is None);
        lemma_no_matches_no_records(repository, msgs.drop_last());
    }
}

/// Law: assembly is deterministic — any two changelogs drawn from the
/// same repository identity and the same message sequence hold
/// identical records, field for field, and identical derived URLs.
pub proof fn lemma_assembly_deterministic(
    a: Changelog,
    b: Changelog,
    repository: Seq<char>,
    msgs: Seq<Seq<char>>,
)
    requires
        record_views(a.pull_requests@) == changelog_records(repository, msgs),
        record_views(b.pull_requests@) == changelog_records(repository, msgs),
    ensures
        a.pull_requests@.len() == b.pull_requests@.len(),
        forall|i: int|
            0 <= i < a.pull_requests@.len() ==> record_view(a.pull_requests@[i]) == record_view(
                b.pull_requests@[i],
            ),
        forall|i: int|
            0 <= i < a.pull_requests@.len() ==> pr_url(
                a.pull_requests@[i].repository@,
                a.pull_requests@[i].id as int,
            ) == pr_url(b.pull_requests@[i].repository@, b.pull_requests@[i].id as int),
{
    assert(record_views(a.pull_requests@).len() == a.pull_requests@.len());
    assert(record_views(b.pull_requests@).len() == b.pull_requests@.len());
    assert forall|i: int| 0 <= i < a.pull_requests@.len() implies record_view(
        a.pull_requests@[i],
    ) == record_view(b.pull_requests@[i]) by {
        assert(record_views(a.pull_requests@)[i] == record_view(a.pull_requests@[i]));
        assert(record_views(b.pull_requests@)[i] == record_view(b.pull_requests@[i]));
    }
}

/// The messages of a commit sequence, in order.
pub open spec fn commit_messages(cs: Seq<Commit>) -> Seq<Seq<char>> {
    cs.map_values(|c: Commit| c.commit.message@)
}

/// The output aggregate: the ordered pull-request records plus free-text
/// descriptive info. Zero records is a defined observable state,
/// distinct from the changelog being absent.
#[derive(Debug)]
pub struct Changelog {
    pub pull_requests: Vec<PullRequestCommit>,
    pub info: String,
}

impl Changelog {
    /// Assemble the changelog: each commit's message runs through the
    /// matcher, and the matches become records in encounter order.
    pub fn new(matcher: &Matcher, repository: &str, info: String, commits: Vec<Commit>) -> (r:
        Changelog)
        ensures
            r.info@ == info@,
            record_views(r.pull_requests@) == changelog_records(
                repository@,
                commit_messages(commits@),
            ),
    {
        let ghost msgs = commit_messages(commits@);
        let mut pull_requests: Vec<PullRequestCommit> = Vec::new();
        let mut i: usize = 0;
        proof {
            assert(record_views(pull_requests@) =~= changelog_records(repository@, msgs.take(0)));
        }
        while i < commits.len()
            invariant
                0 <= i <= commits.len(),
                msgs == commit_messages(commits@),
                record_views(pull_requests@) == changelog_records(repository@, msgs.take(i as int)),
            decreases commits.len() - i,
        {
            proof {
                assert(msgs.take(i + 1).drop_last() =~= msgs.take(i as int));
                assert(msgs.take(i + 1).last() == msgs[i as int]);
                assert(msgs[i as int] == commits@[i as int].commit.message@);
            }
            match PullRequestCommit::from_commit_message(
                matcher,
                repository,
                commits[i].commit.message.as_str(),
            ) {
                Ok(p) => {
                    let ghost before = pull_requests@;
                    pull_requests.push(p);
                    proof {
                        assert(record_views(pull_requests@) =~= record_views(before).push(
                            record_view(p),
                        ));
                    }
                },
                Err(_) => {},
            }
            i += 1;
        }
        proof {
            assert(msgs.take(commits@.len() as int) =~= msgs);
        }
        Changelog { pull_requests, info }
    }

    /// Whether the changelog holds no records; the notifier uses this to
    /// decide whether to send anything at all.
    pub fn is_empty(&self) -> (r: bool)
        ensures
            r == (self.pull_requests@.len() == 0),
    {
        self.pull_requests.is_empty()
    }
}

} // verus!
