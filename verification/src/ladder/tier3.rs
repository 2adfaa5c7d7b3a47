//! Tier 3: an agent loop per commit that still resists classification,
//! with read-only repository tools and a terminal submit tool.

use vstd::prelude::*;

use crate::hashing::{hash_hex, hex_of, sha256};
use crate::ladder::{classification_of, clamped, set_classification, verdict_section, Verdict};
use crate::models::classification::{ClassificationSource, Classified, ClassifiedCommit};
use crate::prompts::{commit_context, commit_context_prompt, TIER3_SYSTEM};
use crate::providers::agent_loop::utf8;
use crate::text::{push_str, trim};

verus! {

/// Completion calls an agent loop may make per commit, by default.
pub const DEFAULT_MAX_TURNS: u32 = 10;

/// Output tokens allowed per agent turn.
pub const TIER3_MAX_OUTPUT_TOKENS: u64 = 2048;

/// The commits an agent loop runs for: those whose confidence is still
/// below `threshold`, by increasing index.
pub fn pending(classified: &Classified, threshold: u32) -> (r: Vec<usize>)
    ensures
        forall|a: int, b: int| 0 <= a < b < r@.len() ==> r@[a] < r@[b],
        forall|k: int| 0 <= k < r@.len() ==> crate::ladder::is_pending(classified.0@, threshold, #[trigger] r@[k] as int),
        forall|i: int| crate::ladder::is_pending(classified.0@, threshold, i) ==> #[trigger] r@.contains(i as usize),
{
    crate::ladder::pending_indices(classified, threshold)
}

/// The default turn cap of the agent loop.
pub fn default_max_turns() -> (r: u32)
    ensures
        r == DEFAULT_MAX_TURNS,
{
    DEFAULT_MAX_TURNS
}

/// The Tier 3 system prompt.
pub fn default_system_prompt() -> (r: &'static str)
    ensures
        r@ == TIER3_SYSTEM@,
{
    TIER3_SYSTEM
}

/// The instruction that closes a Tier 3 prompt.
pub const TIER3_PROMPT_CLOSING: &'static str = "\n\nExplore the repo if it helps you classify with confidence, then call `submit_classification` with your final verdict.";

/// The first user message of the agent loop for a commit.
pub open spec fn tier3_prompt(entry: ClassifiedCommit, diff: Seq<char>) -> Seq<char> {
    "Classify the following commit ("@ + entry.commit.short_sha@ + ").\n\n"@ + commit_context(entry, diff)
        + TIER3_PROMPT_CLOSING@
}

/// The first user message Tier 3 sends for a commit and its diff.
pub fn debug_prompt(entry: &ClassifiedCommit, diff: &str) -> (r: String)
    ensures
        r@ == tier3_prompt(*entry, diff@),
{
    let mut out = String::from_str("Classify the following commit (");
    push_str(&mut out, entry.commit.short_sha.as_str());
    push_str(&mut out, ").\n\n");
    let ctx = commit_context_prompt(entry, diff);
    push_str(&mut out, ctx.as_str());
    push_str(&mut out, TIER3_PROMPT_CLOSING);
    out
}

/// The audit hash of an agent run's prompt: SHA-256 of the system
/// prompt, a blank line and the user prompt.
pub fn agent_prompt_hash(system_prompt: &str, user_prompt: &str) -> (r: String)
    ensures
        r@ == hex_of(sha256(utf8(system_prompt@ + "\n\n"@ + user_prompt@))),
{
    let mut s = String::from_str(system_prompt);
    push_str(&mut s, "\n\n");
    push_str(&mut s, user_prompt);
    hash_hex(s.as_str())
}

/// Write the verdict an agent run submitted back to entry `i`; a run
/// that submitted none leaves the entry as it was. Returns whether the
/// entry changed.
pub fn apply_agent_result(classified: &mut Classified, i: usize, verdict: Option<Verdict>) -> (r: bool)
    requires
        i < old(classified).0@.len(),
    ensures
        r == verdict is Some,
        final(classified).0@.len() == old(classified).0@.len(),
        forall|j: int| 0 <= j < old(classified).0@.len() && j != i ==> #[trigger] final(classified).0@[j] == old(
            classified,
        ).0@[j],
        final(classified).0@[i as int].commit == old(classified).0@[i as int].commit,
        final(classified).0@[i as int].pr == old(classified).0@[i as int].pr,
        match verdict {
            Some(v) => {
                &&& final(classified).0@[i as int].classification.section == verdict_section(v.section@, v.breaking)
                &&& final(classified).0@[i as int].classification.summary@ == trim(v.summary@)
                &&& final(classified).0@[i as int].classification.source == ClassificationSource::Agentic
                &&& final(classified).0@[i as int].classification.confidence == clamped(v.confidence)
            },
            None => final(classified).0@[i as int] == old(classified).0@[i as int],
        },
{
    match verdict {
        Some(v) => {
            let c = classification_of(&v, ClassificationSource::Agentic);
            set_classification(classified, i, c);
            true
        },
        None => false,
    }
}

} // verus!
