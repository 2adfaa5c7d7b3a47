//! Tier 2: one model call per uncertain commit, with its diff.
//!
//! The diff is cut to a token budget before it is sent; the verdict may
//! flag a breaking change the message did not mention.

use vstd::prelude::*;

use crate::ladder::{classification_of, set_classification, Verdict};
use crate::models::classification::{ClassificationSource, Classified, ClassifiedCommit};
use crate::prompts::{commit_context, commit_context_prompt, TIER2_SYSTEM};
use crate::providers::agent_loop::utf8;
use crate::split::{lines, lines_exec};
use crate::text::{decimal, push_chars, push_decimal, push_str, string_of, views};

verus! {

/// Output tokens allowed for a Tier 2 reply.
pub const TIER2_MAX_OUTPUT_TOKENS: u64 = 1024;

/// The Tier 2 system prompt.
pub fn default_system_prompt() -> (r: &'static str)
    ensures
        r@ == TIER2_SYSTEM@,
{
    TIER2_SYSTEM
}

/// A token estimate: one token per four bytes, rounded down.
pub open spec fn token_estimate(s: Seq<char>) -> nat {
    utf8(s).len() / 4
}

/// Estimate the token count of a text from its UTF-8 length.
pub fn estimate_tokens(s: &str) -> (r: usize)
    ensures
        r == token_estimate(s@),
        utf8(s@).len() <= usize::MAX,
{
    s.as_bytes().len() / 4
}

/// The leading lines whose bytes, each counted with its newline, fit in
/// `budget`.
pub open spec fn lines_within(ls: Seq<Seq<char>>, budget: nat) -> Seq<Seq<char>>
    decreases ls.len(),
{
    if ls.len() == 0 {
        seq![]
    } else if utf8(ls[0]).len() + 1 <= budget {
        seq![ls[0]] + lines_within(ls.drop_first(), (budget - (utf8(ls[0]).len() + 1)) as nat)
    } else {
        seq![]
    }
}

/// Each line followed by a newline.
pub open spec fn newline_each(ls: Seq<Seq<char>>) -> Seq<char>
    decreases ls.len(),
{
    if ls.len() == 0 {
        seq![]
    } else {
        newline_each(ls.drop_last()) + ls.last() + "\n"@
    }
}

/// A diff cut to a token budget: unchanged when its estimate fits;
/// otherwise the leading lines that fit in four bytes per token, then a
/// marker that gives the budget and the original estimate.
pub open spec fn diff_within(diff: Seq<char>, max_tokens: nat) -> Seq<char> {
    let est = token_estimate(diff);
    if est <= max_tokens {
        diff
    } else {
        newline_each(lines_within(lines(diff), max_tokens * 4)) + "\n[\u{2026}diff truncated to fit ~"@ + decimal(
            max_tokens,
        ) + "-token budget; original was ~"@ + decimal(est) + " tokens]\n"@
    }
}

proof fn lemma_lines_within_step(ls: Seq<Seq<char>>, budget: nat, k: int, used: nat)
    requires
        0 <= k < ls.len(),
        used <= budget,
        lines_within(ls, budget) == ls.take(k) + lines_within(ls.skip(k), (budget - used) as nat),
    ensures
        utf8(ls[k]).len() + 1 <= budget - used ==> lines_within(ls, budget) == ls.take(k + 1) + lines_within(
            ls.skip(k + 1),
            (budget - used - (utf8(ls[k]).len() + 1)) as nat,
        ),
        utf8(ls[k]).len() + 1 > budget - used ==> lines_within(ls, budget) == ls.take(k),
{
    assert(ls.skip(k)[0] == ls[k]);
    assert(ls.skip(k).drop_first() =~= ls.skip(k + 1));
    assert(ls.take(k + 1) =~= ls.take(k) + seq![ls[k]]);
    if utf8(ls[k]).len() + 1 > budget - used {
        assert(ls.take(k) + Seq::<Seq<char>>::empty() =~= ls.take(k));
    }
}

proof fn lemma_newline_each_push(ls: Seq<Seq<char>>, x: Seq<char>)
    ensures
        newline_each(ls.push(x)) == newline_each(ls) + x + "\n"@,
{
    assert(ls.push(x).drop_last() =~= ls);
}

/// Cut a diff to fit a token budget, as [`diff_within`] describes.
pub fn truncate_diff(diff: &str, max_tokens: usize) -> (r: String)
    ensures
        r@ == diff_within(diff@, max_tokens as nat),
{
    let estimated = estimate_tokens(diff);
    if estimated <= max_tokens {
        return String::from_str(diff);
    }
    let max_bytes = max_tokens * 4;
    let ls = lines_exec(&crate::text::chars_of(diff));
    let ghost all = views(ls@);
    let mut out = String::new();
    let mut used: usize = 0;
    let mut k: usize = 0;
    proof {
        assert(all.skip(0) =~= all);
        assert(all.take(0) + lines_within(all.skip(0), max_bytes as nat) =~= lines_within(all, max_bytes as nat));
        assert(all.take(0) =~= Seq::<Seq<char>>::empty());
    }
    while k < ls.len()
        invariant
            k <= ls@.len(),
            all == views(ls@),
            all == lines(diff@),
            used <= max_bytes,
            max_bytes == max_tokens * 4,
            lines_within(all, max_bytes as nat) == all.take(k as int) + lines_within(
                all.skip(k as int),
                (max_bytes - used) as nat,
            ),
            out@ == newline_each(all.take(k as int)),
        ensures
            out@ == newline_each(lines_within(all, max_bytes as nat)),
        decreases ls@.len() - k,
    {
        let line = string_of(&ls[k]);
        let n = line.as_str().as_bytes().len();
        proof {
            lemma_lines_within_step(all, max_bytes as nat, k as int, used as nat);
        }
        if n >= max_bytes - used {
            break;
        }
        push_str(&mut out, line.as_str());
        push_str(&mut out, "\n");
        proof {
            assert(all.take(k + 1) =~= all.take(k as int).push(all[k as int]));
            lemma_newline_each_push(all.take(k as int), all[k as int]);
        }
        used = used + n + 1;
        k = k + 1;
    }
    proof {
        if k == ls@.len() {
            assert(all.skip(k as int) =~= Seq::<Seq<char>>::empty());
            assert(all.take(k as int) =~= all);
            assert(all.take(k as int) + Seq::<Seq<char>>::empty() =~= all.take(k as int));
        }
    }
    push_str(&mut out, "\n[\u{2026}diff truncated to fit ~");
    let mut d: Vec<char> = Vec::new();
    push_decimal(&mut d, max_tokens as u64);
    push_chars(&mut out, &d);
    push_str(&mut out, "-token budget; original was ~");
    let mut e: Vec<char> = Vec::new();
    push_decimal(&mut e, estimated as u64);
    push_chars(&mut out, &e);
    push_str(&mut out, " tokens]\n");
    proof {
        assert(d@ =~= decimal(max_tokens as nat));
        assert(e@ =~= decimal(estimated as nat));
    }
    out
}

/// The instruction that closes a Tier 2 prompt.
pub const TIER2_PROMPT_CLOSING: &'static str = "\n\nReturn JSON: {\"section\": \"...\", \"summary\": \"...\", \"confidence\": 0.0, \"breaking\": false}.\n";

/// The Tier 2 user prompt of a commit and its (already cut) diff.
pub open spec fn tier2_prompt(entry: ClassifiedCommit, diff: Seq<char>) -> Seq<char> {
    commit_context(entry, diff) + TIER2_PROMPT_CLOSING@
}

/// The user prompt Tier 2 sends for a commit and its diff.
pub fn debug_prompt(entry: &ClassifiedCommit, diff: &str) -> (r: String)
    ensures
        r@ == tier2_prompt(*entry, diff@),
{
    let mut out = commit_context_prompt(entry, diff);
    push_str(&mut out, TIER2_PROMPT_CLOSING);
    out
}

/// Write a Tier 2 verdict back to entry `i`.
pub fn apply_verdict(classified: &mut Classified, i: usize, v: &Verdict)
    requires
        i < old(classified).0@.len(),
    ensures
        final(classified).0@.len() == old(classified).0@.len(),
        forall|j: int| 0 <= j < old(classified).0@.len() && j != i ==> #[trigger] final(classified).0@[j] == old(
            classified,
        ).0@[j],
        final(classified).0@[i as int].commit == old(classified).0@[i as int].commit,
        final(classified).0@[i as int].pr == old(classified).0@[i as int].pr,
        final(classified).0@[i as int].classification.section == crate::ladder::verdict_section(v.section@, v.breaking),
        final(classified).0@[i as int].classification.summary@ == crate::text::trim(v.summary@),
        final(classified).0@[i as int].classification.source == ClassificationSource::PerCommitLlm,
        final(classified).0@[i as int].classification.confidence == crate::ladder::clamped(v.confidence),
{
    let c = classification_of(v, ClassificationSource::PerCommitLlm);
    set_classification(classified, i, c);
}

/// The bytes of lines, each counted with its newline.
pub open spec fn bytes_with_newlines(ls: Seq<Seq<char>>) -> nat
    decreases ls.len(),
{
    if ls.len() == 0 {
        0
    } else {
        utf8(ls[0]).len() + 1 + bytes_with_newlines(ls.drop_first())
    }
}

/// The lines a cut diff keeps fit the budget, and are the diff's leading
/// lines.
pub proof fn lemma_lines_within_fit(ls: Seq<Seq<char>>, budget: nat)
    ensures
        bytes_with_newlines(lines_within(ls, budget)) <= budget,
        lines_within(ls, budget).len() <= ls.len(),
        lines_within(ls, budget) == ls.take(lines_within(ls, budget).len() as int),
    decreases ls.len(),
{
    if ls.len() > 0 && utf8(ls[0]).len() + 1 <= budget {
        let rest = (budget - (utf8(ls[0]).len() + 1)) as nat;
        lemma_lines_within_fit(ls.drop_first(), rest);
        let w = lines_within(ls, budget);
        assert(w == seq![ls[0]] + lines_within(ls.drop_first(), rest));
        assert(w.drop_first() =~= lines_within(ls.drop_first(), rest));
        assert(w =~= ls.take(w.len() as int));
    } else {
        assert(ls.take(0) =~= Seq::<Seq<char>>::empty());
    }
}

} // verus!
