//! The command line, as plain values.
//!
//! Parsing argv is the binary's job; these types are what it produces
//! and what the library reads.

use vstd::prelude::*;

use crate::git::RangeSpec;

verus! {

/// The whole command line.
#[derive(Debug, PartialEq, Eq)]
pub struct Cli {
    /// Arguments of the default "generate notes" invocation.
    pub generate: GenerateArgs,
    pub command: Option<Command>,
}

/// Arguments of `chronikl [OPTIONS]`.
#[derive(Debug, Clone, Default, PartialEq, Eq)]
pub struct GenerateArgs {
    pub range: RangeArgs,
    /// Repository path; the working directory when absent.
    pub repo: Option<String>,
    /// Write the notes here instead of stdout.
    pub output: Option<String>,
    /// Skip every model call.
    pub no_llm: bool,
    /// Skip PR enrichment.
    pub no_pr_enrichment: bool,
    /// Voice profile name or path to a voice file.
    pub voice: Option<String>,
    /// One-shot system-prompt addendum.
    pub prompt: Option<String>,
    /// Include commit and PR bodies in the prose prompt.
    pub rich_context: bool,
    /// Enable the agentic tier.
    pub agent: bool,
    /// Skip the classification cache.
    pub no_cache: bool,
    /// Disable the heartbeat.
    pub no_telemetry: bool,
    /// Write a JSON audit log here.
    pub audit_log: Option<String>,
}

#[derive(Debug, PartialEq, Eq)]
pub enum Command {
    /// Print version and build metadata.
    Version,
    /// Validate a voice file.
    Validate { file: String },
    /// Manage the classification cache.
    Cache(CacheCommand),
    /// Manage the license key.
    License(LicenseCommand),
    /// Self-update from the latest release.
    Update { force: bool },
    /// Diagnostic helpers.
    Debug(DebugCommand),
}

#[derive(Debug, PartialEq, Eq)]
pub enum CacheCommand {
    Path,
    Stats,
    Clear,
}

#[derive(Debug, PartialEq, Eq)]
pub enum LicenseCommand {
    Activate { key: Option<String> },
    Status,
    Deactivate,
}

#[derive(Debug, PartialEq, Eq)]
pub enum DebugCommand {
    Commits { range: RangeArgs, repo: Option<String> },
    MergeStyle { range: RangeArgs, repo: Option<String> },
    Config { repo: Option<String> },
    Classify { range: RangeArgs, repo: Option<String> },
    Prompts {
        range: RangeArgs,
        repo: Option<String>,
        voice: Option<String>,
        prompt: Option<String>,
        rich_context: bool,
        no_pr_enrichment: bool,
    },
}

/// Range-selection flags.
#[derive(Debug, Clone, Default, PartialEq, Eq)]
pub struct RangeArgs {
    /// Lower bound, exclusive.
    pub from: Option<String>,
    /// Upper bound; `HEAD` when absent.
    pub to: Option<String>,
    /// From the latest semver tag to `HEAD`.
    pub since_last_tag: bool,
}

impl RangeArgs {
    /// `--since-last-tag` wins; either bound makes an explicit range with
    /// `HEAD` as the default upper bound; otherwise automatic.
    pub fn to_spec(&self) -> (r: RangeSpec)
        ensures
            self.since_last_tag ==> r is SinceLastTag,
            !self.since_last_tag && (self.from is Some || self.to is Some) ==> (r matches RangeSpec::Explicit { from, to }
                && from == self.from && to@ == match self.to {
                Some(t) => t@,
                None => "HEAD"@,
            }),
            !self.since_last_tag && self.from is None && self.to is None ==> r is Auto,
    {
        if self.since_last_tag {
            RangeSpec::SinceLastTag
        } else if self.from.is_some() || self.to.is_some() {
            RangeSpec::Explicit {
                from: crate::models::clone_opt_string(&self.from),
                to: match &self.to {
                    Some(t) => t.clone(),
                    None => String::from_str("HEAD"),
                },
            }
        } else {
            RangeSpec::Auto
        }
    }
}

} // verus!
