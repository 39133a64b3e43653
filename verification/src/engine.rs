//! Deployment-relative range resolution and paginated commit
//! aggregation: the decisions of one changelog run, stated over plain
//! values. The boundary that performs the fetches hands their outcomes
//! in; everything here is a function of those outcomes.

use vstd::prelude::*;
use vstd::string::StringExecFns;
use crate::error::ChangelogError;
use crate::models::{Commit, ComparisonPage, Deployment};

verus! {

/// Whether the execution-context event names a deployment-triggered run.
pub fn is_deployment_event(event: &Option<String>) -> (r: bool)
    ensures
        r <==> (event matches Some(e) && e@ == "deployment"@),
{
    match event {
        Option::None => false,
        Option::Some(e) => {
            let lit = String::from_str("deployment");
            e.eq(&lit)
        },
    }
}

/// Pick the baseline deployment out of the newest-first history.
///
/// A run that is itself a deployment step skips the newest entry — the
/// in-flight deployment that triggered it — and takes the second; any
/// other run takes the newest. When the required index does not exist
/// there is no meaningful baseline, a hard failure.
pub fn select_baseline(deployments: Vec<Deployment>, deployment_run: bool) -> (r: Result<
    Deployment,
    ChangelogError,
>)
    ensures
        deployment_run ==> ((r is Ok) <==> deployments@.len() >= 2),
        !deployment_run ==> ((r is Ok) <==> deployments@.len() >= 1),
        r matches Ok(d) ==> d == deployments@[if deployment_run { 1int } else { 0int }],
        r matches Err(e) ==> e == ChangelogError::NoBaseline,
{
    let index: usize = if deployment_run {
        1
    } else {
        0
    };
    let mut deployments = deployments;
    if index < deployments.len() {
        Ok(deployments.remove(index))
    } else {
        Err(ChangelogError::NoBaseline)
    }
}

/// All commits of a page sequence, page order and within-page order
/// kept.
pub open spec fn pages_commits(pages: Seq<ComparisonPage>) -> Seq<Commit>
    decreases pages.len(),
{
    if pages.len() == 0 {
        Seq::empty()
    } else {
        pages_commits(pages.drop_last()) + pages.last().commits@
    }
}

/// Combine the fetched comparison pages into the complete ordered commit
/// sequence: the concatenation of every page's commits, exactly as
/// returned upstream, with no reordering and no dedup.
pub fn aggregate_pages(pages: Vec<ComparisonPage>) -> (r: Vec<Commit>)
    ensures
        r@ == pages_commits(pages@),
{
    let ghost all = pages@;
    let mut pages = pages;
    let mut out: Vec<Commit> = Vec::new();
    let ghost k: int = 0;
    proof {
        assert(out@ =~= pages_commits(all.take(0)));
    }
    while pages.len() > 0
        invariant
            0 <= k <= all.len(),
            pages@ == all.skip(k),
            out@ == pages_commits(all.take(k)),
        decreases pages.len(),
    {
        let page = pages.remove(0);
        let mut commits = page.commits;
        out.append(&mut commits);
        proof {
            assert(page == all[k]);
            assert(all.take(k + 1).drop_last() =~= all.take(k));
            assert(all.take(k + 1).last() == all[k]);
            assert(all.skip(k).remove(0) =~= all.skip(k + 1));
        }
        proof {
            k = k + 1;
        }
    }
    proof {
        assert(all.take(all.len() as int) =~= all);
    }
    out
}

/// The pages of a sequence of successful fetch outcomes.
pub open spec fn fetched_pages(outcomes: Seq<Option<ComparisonPage>>) -> Seq<ComparisonPage> {
    outcomes.map_values(|o: Option<ComparisonPage>| o->Some_0)
}

/// Every page fetch of the walk succeeded.
pub open spec fn all_fetched(outcomes: Seq<Option<ComparisonPage>>) -> bool {
    forall|i: int| 0 <= i < outcomes.len() ==> outcomes[i] is Some
}

/// Aggregate a comparison walk from its page-fetch outcomes, one
/// outcome per page in walk order, `None` where a fetch failed.
///
/// Any failed fetch aborts the whole aggregation: pages already
/// accumulated are discarded rather than returned as a truncated
/// changelog, since a silently incomplete changelog is worse than an
/// explicit error.
#[verifier::loop_isolation(false)]
pub fn aggregate_fetched(outcomes: Vec<Option<ComparisonPage>>) -> (r: Result<
    Vec<Commit>,
    ChangelogError,
>)
    ensures
        (r is Ok) <==> all_fetched(outcomes@),
        r matches Ok(cs) ==> cs@ == pages_commits(fetched_pages(outcomes@)),
        r matches Err(e) ==> e == ChangelogError::RangeFetchFailed,
{
    let ghost all = outcomes@;
    let mut outcomes = outcomes;
    let mut pages: Vec<ComparisonPage> = Vec::new();
    let ghost k: int = 0;
    proof {
        assert(pages@ =~= fetched_pages(all.take(0)));
    }
    while outcomes.len() > 0
        invariant
            0 <= k <= all.len(),
            outcomes@ == all.skip(k),
            pages@ == fetched_pages(all.take(k)),
            forall|i: int| 0 <= i < k ==> all[i] is Some,
        decreases outcomes.len(),
    {
        let outcome = outcomes.remove(0);
        proof {
            assert(outcome == all[k]);
            assert(all.skip(k).remove(0) =~= all.skip(k + 1));
        }
        match outcome {
            Option::Some(page) => {
                pages.push(page);
                proof {
                    assert(pages@ =~= fetched_pages(all.take(k + 1)));
                }
            },
            Option::None => {
                proof {
                    assert(0 <= k < all.len() && !(all[k] is Some));
                    assert(!all_fetched(all));
                }
                return Err(ChangelogError::RangeFetchFailed);
            },
        }
        proof {
            k = k + 1;
        }
    }
    proof {
        assert(all.take(all.len() as int) =~= all);
    }
    Ok(aggregate_pages(pages))
}

} // verus!
