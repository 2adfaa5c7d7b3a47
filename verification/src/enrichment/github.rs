//! GitHub PR enrichment: the request path for a commit and how the
//! lookup results land on the commits.

use vstd::prelude::*;

use super::remote::GitHubRepo;
use super::{enrich_error_text, EnrichError, EnrichOutcome};
use crate::models::{EnrichedCommit, PrInfo};
use crate::text::push_str;

verus! {

/// `/repos/{owner}/{repo}/commits/{sha}/pulls`.
pub fn pulls_path(repo: &GitHubRepo, sha: &str) -> (r: String)
    ensures
        r@ == "/repos/"@ + repo.owner@ + "/"@ + repo.repo@ + "/commits/"@ + sha@ + "/pulls"@,
{
    let mut out = String::from_str("/repos/");
    push_str(&mut out, repo.owner.as_str());
    push_str(&mut out, "/");
    push_str(&mut out, repo.repo.as_str());
    push_str(&mut out, "/commits/");
    push_str(&mut out, sha);
    push_str(&mut out, "/pulls");
    out
}

/// One lookup: the commit's index, its short SHA, and what the lookup gave.
pub type Lookup = (usize, String, Result<Option<PrInfo>, EnrichError>);

/// Lookups that found a PR.
pub open spec fn found_count(outs: Seq<Lookup>) -> nat
    decreases outs.len(),
{
    if outs.len() == 0 {
        0
    } else {
        found_count(outs.drop_last()) + if outs.last().2 matches Ok(Some(_)) { 1nat } else { 0nat }
    }
}

/// Lookups that failed.
pub open spec fn failed_count(outs: Seq<Lookup>) -> nat
    decreases outs.len(),
{
    if outs.len() == 0 {
        0
    } else {
        failed_count(outs.drop_last()) + if outs.last().2 is Err { 1nat } else { 0nat }
    }
}

/// `"<short_sha>: <message>"` of the first failed lookup.
pub open spec fn first_failure(outs: Seq<Lookup>) -> Option<Seq<char>>
    decreases outs.len(),
{
    if outs.len() == 0 {
        None
    } else {
        let f = first_failure(outs.drop_last());
        if f is Some {
            f
        } else {
            match outs.last().2 {
                Err(e) => Some(outs.last().1@ + ": "@ + enrich_error_text(e)),
                _ => None,
            }
        }
    }
}

/// The PR commit `k` ends with: that of the last lookup for it that found
/// one, else `init`.
pub open spec fn pr_after(outs: Seq<Lookup>, k: int, init: Option<PrInfo>) -> Option<PrInfo>
    decreases outs.len(),
{
    if outs.len() == 0 {
        init
    } else {
        match outs.last() {
            (i, _, Ok(Some(p))) => if i == k {
                Some(p)
            } else {
                pr_after(outs.drop_last(), k, init)
            },
            _ => pr_after(outs.drop_last(), k, init),
        }
    }
}

pub proof fn lemma_counts_bound(outs: Seq<Lookup>)
    ensures
        found_count(outs) <= outs.len(),
        failed_count(outs) <= outs.len(),
    decreases outs.len(),
{
    if outs.len() > 0 {
        lemma_counts_bound(outs.drop_last());
    }
}

/// Apply lookup results in order: a found PR is attached to its commit
/// (a later one replacing an earlier one), found and failed lookups are
/// counted, and the first failure is reported.
pub fn apply_lookups(commits: &mut Vec<EnrichedCommit>, outcomes: Vec<Lookup>) -> (r: EnrichOutcome)
    requires
        forall|j: int| 0 <= j < outcomes@.len() ==> (#[trigger] outcomes@[j]).0 < old(commits)@.len(),
    ensures
        final(commits)@.len() == old(commits)@.len(),
        forall|k: int|
            0 <= k < final(commits)@.len() ==> (#[trigger] final(commits)@[k]).commit == old(
                commits,
            )@[k].commit && final(commits)@[k].pr == pr_after(outcomes@, k, old(commits)@[k].pr),
        r.enriched == found_count(outcomes@),
        r.failed == failed_count(outcomes@),
        match (r.first_error, first_failure(outcomes@)) {
            (Some(m), Some(f)) => m@ == f,
            (None, None) => true,
            _ => false,
        },
{
    let ghost outs = outcomes@;
    let ghost init = commits@;
    let mut rest = outcomes;
    let mut enriched: usize = 0;
    let mut failed: usize = 0;
    let mut first_error: Option<String> = None;
    let mut j: usize = 0;
    let n = rest.len();
    proof {
        assert(outs.skip(0) =~= outs);
    }
    while rest.len() > 0
        invariant
            n == outs.len(),
            j <= n,
            rest@ == outs.skip(j as int),
            forall|q: int| 0 <= q < outs.len() ==> (#[trigger] outs[q]).0 < init.len(),
            commits@.len() == init.len(),
            forall|k: int|
                0 <= k < commits@.len() ==> (#[trigger] commits@[k]).commit == init[k].commit
                    && commits@[k].pr == pr_after(outs.take(j as int), k, init[k].pr),
            enriched == found_count(outs.take(j as int)),
            failed == failed_count(outs.take(j as int)),
            match (first_error, first_failure(outs.take(j as int))) {
                (Some(m), Some(f)) => m@ == f,
                (None, None) => true,
                _ => false,
            },
        decreases rest@.len(),
    {
        let item = rest.remove(0);
        proof {
            assert(item == outs[j as int]);
            assert(outs.take(j + 1).drop_last() =~= outs.take(j as int));
            assert(outs.take(j + 1).last() == outs[j as int]);
            assert(rest@ =~= outs.skip(j + 1));
            lemma_counts_bound(outs.take(j as int));
        }
        let (idx, short_sha, result) = item;
        match result {
            Ok(Some(pr)) => {
                let ghost before = commits@;
                let mut e = commits.remove(idx);
                e.pr = Some(pr);
                commits.insert(idx, e);
                proof {
                    assert(commits@ =~= before.update(idx as int, e));
                }
                enriched = enriched + 1;
            },
            Ok(None) => {},
            Err(err) => {
                failed = failed + 1;
                if first_error.is_none() {
                    let mut m = short_sha;
                    push_str(&mut m, ": ");
                    let em = err.message();
                    push_str(&mut m, em.as_str());
                    first_error = Some(m);
                }
            },
        }
        j = j + 1;
    }
    proof {
        assert(outs.take(n as int) =~= outs);
    }
    EnrichOutcome { enriched, failed, first_error }
}

} // verus!
