//! Choosing the PR enricher for a repository and environment.
//!
//! Disabled by the user: no-op. A GitHub remote: the GitHub enricher,
//! authenticated when a token variable is set. Anything else: no-op.

use vstd::prelude::*;

use super::remote::GitHubRepo;
use crate::env::Env;
use crate::text::{push_str, trim};

verus! {

/// Variables that may hold a GitHub token, in order of preference.
pub open spec fn github_token_vars() -> Seq<Seq<char>> {
    seq!["GITHUB_TOKEN"@, "GH_TOKEN"@]
}

/// Value of the first name whose variable is set to something non-blank.
pub open spec fn first_set(env: Env, names: Seq<Seq<char>>) -> Option<Seq<char>>
    decreases names.len(),
{
    if names.len() == 0 {
        None
    } else {
        match env.lookup(names[0]) {
            Some(v) => if trim(v).len() > 0 {
                Some(v)
            } else {
                first_set(env, names.drop_first())
            },
            None => first_set(env, names.drop_first()),
        }
    }
}

/// Value of the first of `names` set to something non-blank.
pub fn first_set_env(env: &Env, names: &[&str]) -> (r: Option<String>)
    ensures
        match r {
            Some(v) => first_set(*env, names@.map_values(|n: &str| n@)) == Some(v@),
            None => first_set(*env, names@.map_values(|n: &str| n@)) is None,
        },
{
    let ghost all = names@.map_values(|n: &str| n@);
    let mut i: usize = 0;
    proof {
        assert(all.skip(0) =~= all);
    }
    while i < names.len()
        invariant
            i <= names@.len(),
            all == names@.map_values(|n: &str| n@),
            first_set(*env, all) == first_set(*env, all.skip(i as int)),
        decreases names@.len() - i,
    {
        proof {
            assert(all.skip(i as int).len() > 0);
            assert(all.skip(i as int)[0] == names@[i as int]@);
            assert(all.skip(i as int).drop_first() =~= all.skip(i + 1));
        }
        match env.var(names[i]) {
            Some(v) => {
                if crate::text::trim_exec(&crate::text::chars_of(v.as_str())).len() > 0 {
                    return Some(v);
                }
            },
            None => {},
        }
        i = i + 1;
    }
    None
}

/// Which enricher to run.
#[derive(Debug, PartialEq, Eq)]
pub enum EnricherChoice {
    NoOp,
    GitHub { repo: GitHubRepo, token: Option<String> },
}

/// The enricher for the situation and a one-line note of the decision.
pub fn choose_enricher(disabled: bool, github: Option<GitHubRepo>, env: &Env) -> (r: (EnricherChoice, String))
    ensures
        disabled ==> r.0 is NoOp && r.1@ == "PR enrichment disabled by --no-pr-enrichment"@,
        !disabled && github is None ==> r.0 is NoOp && r.1@
            == "PR enrichment skipped (no GitHub remote detected)"@,
        !disabled && github is Some ==> {
            let g = github->0;
            let tok = first_set(*env, github_token_vars());
            &&& r.0 matches EnricherChoice::GitHub { repo, token } && repo == g && match (token, tok) {
                (Some(a), Some(b)) => a@ == b,
                (None, None) => true,
                _ => false,
            }
            &&& r.1@ == "PR enrichment via GitHub for "@ + g.owner@ + "/"@ + g.repo@ + " ("@ + (if tok is Some {
                "authenticated"@
            } else {
                "anonymous (60 req/hour limit)"@
            }) + ")"@
        },
{
    if disabled {
        return (EnricherChoice::NoOp, String::from_str("PR enrichment disabled by --no-pr-enrichment"));
    }
    match github {
        Some(repo) => {
            let names: [&str; 2] = ["GITHUB_TOKEN", "GH_TOKEN"];
            let token = first_set_env(env, &names);
            proof {
                assert(names@.map_values(|n: &str| n@) =~= github_token_vars());
            }
            let mut info = String::from_str("PR enrichment via GitHub for ");
            push_str(&mut info, repo.owner.as_str());
            push_str(&mut info, "/");
            push_str(&mut info, repo.repo.as_str());
            push_str(&mut info, " (");
            match &token {
                Some(_) => push_str(&mut info, "authenticated"),
                None => push_str(&mut info, "anonymous (60 req/hour limit)"),
            }
            push_str(&mut info, ")");
            (EnricherChoice::GitHub { repo, token }, info)
        },
        None => (
            EnricherChoice::NoOp,
            String::from_str("PR enrichment skipped (no GitHub remote detected)"),
        ),
    }
}

} // verus!
