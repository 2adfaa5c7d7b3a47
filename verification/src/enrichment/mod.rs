//! Pull-request enrichment and forge detection.
//!
//! Fetching pull requests is the caller's job; this module holds what
//! is decided around it: which enricher to use, how lookups land on the
//! commits, and how forge URLs are read and built.

pub mod github;
pub mod platform;
pub mod remote;

use vstd::prelude::*;

use crate::models::EnrichedCommit;
use crate::text::push_str;

verus! {

/// Failure of an enrichment backend.
#[derive(Debug, PartialEq, Eq)]
pub enum EnrichError {
    Api(String),
    NotConfigured(String),
    Other(String),
}

pub open spec fn enrich_error_text(e: EnrichError) -> Seq<char> {
    match e {
        EnrichError::Api(m) => "API error: "@ + m@,
        EnrichError::NotConfigured(m) => "not configured: "@ + m@,
        EnrichError::Other(m) => "other: "@ + m@,
    }
}

impl EnrichError {
    /// The error's message.
    pub fn message(&self) -> (r: String)
        ensures
            r@ == enrich_error_text(*self),
    {
        let mut out = String::new();
        match self {
            EnrichError::Api(m) => {
                push_str(&mut out, "API error: ");
                push_str(&mut out, m.as_str());
            },
            EnrichError::NotConfigured(m) => {
                push_str(&mut out, "not configured: ");
                push_str(&mut out, m.as_str());
            },
            EnrichError::Other(m) => {
                push_str(&mut out, "other: ");
                push_str(&mut out, m.as_str());
            },
        }
        out
    }
}

/// What an enrichment pass achieved.
#[derive(Debug, PartialEq, Eq)]
pub struct EnrichOutcome {
    /// Commits that gained PR data.
    pub enriched: usize,
    /// Commits whose lookup failed.
    pub failed: usize,
    /// `"<short_sha>: <message>"` of the first failed lookup.
    pub first_error: Option<String>,
}

impl Default for EnrichOutcome {
    fn default() -> (r: Self)
        ensures
            r.enriched == 0,
            r.failed == 0,
            r.first_error is None,
    {
        EnrichOutcome { enriched: 0, failed: 0, first_error: None }
    }
}

/// The enricher used when no PR backend is available.
#[derive(Debug, Default, PartialEq, Eq)]
pub struct NoOpEnricher;

impl NoOpEnricher {
    pub fn name(&self) -> (r: &'static str)
        ensures
            r@ == "no-op"@,
    {
        "no-op"
    }

    /// Leaves the commits as they are and reports nothing done.
    pub fn enrich(&self, commits: &mut Vec<EnrichedCommit>) -> (r: Result<EnrichOutcome, EnrichError>)
        ensures
            *final(commits) == *old(commits),
            r matches Ok(o) && o.enriched == 0 && o.failed == 0 && o.first_error is None,
    {
        Ok(EnrichOutcome { enriched: 0, failed: 0, first_error: None })
    }
}

} // verus!
