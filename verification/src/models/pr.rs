//! Pull-request data attached to a commit by the enrichment pass.

use vstd::prelude::*;

verus! {

#[derive(Debug, PartialEq, Eq)]
pub struct PrInfo {
    pub number: u64,
    pub title: String,
    pub body: String,
    pub labels: Vec<String>,
    pub author: Option<String>,
    pub merged_at: Option<String>,
    pub url: Option<String>,
}

impl PrInfo {
    /// Equal field by field, lists compared by content.
    pub open spec fn same_as(self, o: PrInfo) -> bool {
        &&& self.number == o.number
        &&& self.title == o.title
        &&& self.body == o.body
        &&& self.labels@ == o.labels@
        &&& self.author == o.author
        &&& self.merged_at == o.merged_at
        &&& self.url == o.url
    }
}

/// `a` and `b` are both absent or both present and the same.
pub open spec fn same_opt_pr(a: Option<PrInfo>, b: Option<PrInfo>) -> bool {
    match (a, b) {
        (Some(x), Some(y)) => x.same_as(y),
        (None, None) => true,
        _ => false,
    }
}

impl Clone for PrInfo {
    fn clone(&self) -> (r: Self)
        ensures
            r.same_as(*self),
    {
        PrInfo {
            number: self.number,
            title: self.title.clone(),
            body: self.body.clone(),
            labels: super::clone_strings(&self.labels),
            author: super::clone_opt_string(&self.author),
            merged_at: super::clone_opt_string(&self.merged_at),
            url: super::clone_opt_string(&self.url),
        }
    }
}

} // verus!
