//! Prose pass: the classified commits turned into release notes by the
//! model in the configured voice.
//!
//! The model call is the caller's job; this module builds the request
//! and cleans up the answer.

pub mod prompts;

use vstd::prelude::*;

use crate::models::{Classified, MergeStyle, ReleaseKind, VersionBump, VersionScheme};
use crate::project::ProjectContext;
use crate::split::{strip_prefix, strip_prefix_exec};
use crate::text::{chars_of, ends_with, ends_with_exec, slice_vec, string_of, trim, trim_exec};
use crate::voice::Voice;

verus! {

/// Output token cap of the prose call.
pub const PROSE_MAX_OUTPUT_TOKENS: u64 = 8192;

/// Everything the prose pass reads.
#[derive(Debug)]
pub struct ProseRequest<'a> {
    pub voice: &'a Voice,
    pub extra_instructions: Option<&'a str>,
    pub inline_prompt: Option<&'a str>,
    pub classified: &'a Classified,
    pub merge_style: MergeStyle,
    pub release_kind: &'a ReleaseKind,
    pub version_bump: VersionBump,
    pub version_scheme: Option<VersionScheme>,
    pub from_ref: Option<&'a str>,
    pub to_ref: &'a str,
    /// Embed commit and PR bodies in the user prompt.
    pub rich_context: bool,
    pub project_context: &'a ProjectContext,
}

/// The inside of a fence wrapping the whole text, when it is one:
/// ```` ```markdown ````, ```` ```md ```` or a bare ```` ``` ```` line
/// first, a closing ```` ``` ```` last.
pub open spec fn full_fence_inner(s: Seq<char>) -> Option<Seq<char>> {
    let t = trim(s);
    let opening = if strip_prefix(t, "```markdown\n"@) is Some {
        strip_prefix(t, "```markdown\n"@)
    } else if strip_prefix(t, "```md\n"@) is Some {
        strip_prefix(t, "```md\n"@)
    } else {
        strip_prefix(t, "```\n"@)
    };
    match opening {
        Some(o) => if ends_with(o, "```"@) {
            Some(o.take(o.len() - 3))
        } else {
            None
        },
        None => None,
    }
}

/// The model's answer cleaned: trimmed, and unwrapped (and trimmed again)
/// when a fence wraps all of it.
pub open spec fn postprocessed(s: Seq<char>) -> Seq<char> {
    match full_fence_inner(trim(s)) {
        Some(inner) => trim(inner),
        None => trim(s),
    }
}

/// [`full_fence_inner`], executable.
pub fn strip_full_fence(s: &str) -> (r: Option<String>)
    ensures
        match r {
            Some(x) => full_fence_inner(s@) == Some(x@),
            None => full_fence_inner(s@) is None,
        },
{
    let t = trim_exec(&chars_of(s));
    let opening = match strip_prefix_exec(&t, "```markdown\n") {
        Some(o) => Some(o),
        None => match strip_prefix_exec(&t, "```md\n") {
            Some(o) => Some(o),
            None => strip_prefix_exec(&t, "```\n"),
        },
    };
    match opening {
        Some(o) => {
            let close = chars_of("```");
            if ends_with_exec(&o, &close) {
                proof {
                    reveal_strlit("```");
                }
                let inner = slice_vec(&o, 0, o.len() - 3);
                proof {
                    assert(inner@ =~= o@.take(o@.len() - 3));
                }
                Some(string_of(&inner))
            } else {
                None
            }
        },
        None => None,
    }
}

/// Clean up the model's Markdown.
pub fn postprocess(s: &str) -> (r: String)
    ensures
        r@ == postprocessed(s@),
{
    let t = string_of(&trim_exec(&chars_of(s)));
    match strip_full_fence(t.as_str()) {
        Some(inner) => string_of(&trim_exec(&chars_of(inner.as_str()))),
        None => t,
    }
}

/// The SHAs a prose call covers: every commit, in order.
pub fn covered_shas(classified: &Classified) -> (r: Vec<String>)
    ensures
        r@.len() == classified.0@.len(),
        forall|i: int| 0 <= i < r@.len() ==> #[trigger] r@[i]@ == classified.0@[i].commit.sha@,
{
    let mut out: Vec<String> = Vec::new();
    let mut i: usize = 0;
    while i < classified.0.len()
        invariant
            i <= classified.0@.len(),
            out@.len() == i,
            forall|j: int| 0 <= j < i ==> #[trigger] out@[j]@ == classified.0@[j].commit.sha@,
        decreases classified.0@.len() - i,
    {
        out.push(classified.0[i].commit.sha.clone());
        i = i + 1;
    }
    out
}

} // verus!
