//! The document of the prompts a run would send, without calling a
//! model: the Tier 1 batches, the Tier 2 and Tier 3 per-commit prompts
//! and the prose-pass prompts, each in a fenced block.

use vstd::prelude::*;

use crate::ladder::tier1::{batch_prompt, debug_batch_prompt};
use crate::ladder::tier2::{diff_within, tier2_prompt, truncate_diff};
use crate::ladder::tier3::tier3_prompt;
use crate::models::classification::{derefs, Classified, ClassifiedCommit, CONFIDENCE_FULL};
use crate::models::{merge_style_name, MergeStyle, ReleaseKind, VersionBump, VersionScheme};
use crate::prompts::{TIER1_SYSTEM, TIER2_SYSTEM, TIER3_SYSTEM};
use crate::prose::prompts::{build_system_prompt, build_user_prompt, system_prompt, user_prompt};
use crate::run::{bump_label_text, release_label_text};
use crate::text::{decimal, push_chars, push_decimal, push_str};
use crate::voice::Voice;

verus! {

/// What the prompt document is built from, besides the entries.
pub struct DumpSettings<'a> {
    /// The range as given to git.
    pub range_arg: &'a str,
    pub merge_style: MergeStyle,
    pub release_kind: &'a ReleaseKind,
    pub version_bump: VersionBump,
    pub version_scheme: Option<VersionScheme>,
    pub batch_size: usize,
    /// The Tier 2 threshold, in thousandths.
    pub threshold: u32,
    pub max_diff_tokens: usize,
    pub voice: &'a Voice,
    pub extra_instructions: Option<&'a str>,
    pub inline_prompt: Option<&'a str>,
    pub rich_context: bool,
    pub from_ref: Option<&'a str>,
    pub to_ref: &'a str,
}

/// A confidence in thousandths written as a decimal fraction without
/// trailing zeros: `800` as `0.8`, `1000` as `1`.
pub open spec fn fraction_text(t: nat) -> Seq<char> {
    let whole = t / 1000;
    let frac = t % 1000;
    if frac == 0 {
        decimal(whole)
    } else if frac % 100 == 0 {
        decimal(whole) + "."@ + decimal(frac / 100)
    } else if frac % 10 == 0 {
        decimal(whole) + "."@ + two_digits(frac / 10)
    } else {
        decimal(whole) + "."@ + three_digits(frac)
    }
}

pub open spec fn two_digits(n: nat) -> Seq<char> {
    if n < 10 { "0"@ + decimal(n) } else { decimal(n) }
}

pub open spec fn three_digits(n: nat) -> Seq<char> {
    if n < 10 { "00"@ + decimal(n) } else if n < 100 { "0"@ + decimal(n) } else { decimal(n) }
}

fn push_dec(out: &mut String, n: u64)
    ensures
        final(out)@ == old(out)@ + decimal(n as nat),
{
    let mut d: Vec<char> = Vec::new();
    push_decimal(&mut d, n);
    proof {
        assert(d@ =~= decimal(n as nat));
    }
    push_chars(out, &d);
}

pub(crate) fn push_fraction(out: &mut String, t: u32)
    ensures
        final(out)@ == old(out)@ + fraction_text(t as nat),
{
    let whole = t / 1000;
    let frac = t % 1000;
    push_dec(out, whole as u64);
    if frac == 0 {
        return;
    }
    push_str(out, ".");
    if frac % 100 == 0 {
        push_dec(out, (frac / 100) as u64);
    } else if frac % 10 == 0 {
        if frac / 10 < 10 {
            push_str(out, "0");
        }
        push_dec(out, (frac / 10) as u64);
    } else {
        if frac < 10 {
            push_str(out, "00");
        } else if frac < 100 {
            push_str(out, "0");
        }
        push_dec(out, frac as u64);
    }
}

/// The entries below `t`, in order.
pub open spec fn below(e: Seq<ClassifiedCommit>, t: u32) -> Seq<ClassifiedCommit> {
    e.filter(below_pred(t))
}

/// An entry is below `t`.
pub open spec fn below_pred(t: u32) -> spec_fn(ClassifiedCommit) -> bool {
    |c: ClassifiedCommit| c.classification.confidence < t
}

fn entries_below<'a>(classified: &'a Classified, t: u32) -> (r: Vec<&'a ClassifiedCommit>)
    ensures
        derefs(r@) == below(classified.0@, t),
{
    let mut out: Vec<&ClassifiedCommit> = Vec::new();
    let mut i: usize = 0;
    while i < classified.0.len()
        invariant
            i <= classified.0@.len(),
            derefs(out@) == below(classified.0@.take(i as int), t),
        decreases classified.0@.len() - i,
    {
        let ghost before = out@;
        proof {
            assert(classified.0@.take(i + 1).drop_last() =~= classified.0@.take(i as int));
            classified.0@.take(i as int).lemma_filter_push(classified.0@[i as int], below_pred(t));
            assert(classified.0@.take(i as int).push(classified.0@[i as int]) =~= classified.0@.take(i + 1));
        }
        if classified.0[i].classification.confidence < t {
            out.push(&classified.0[i]);
            proof {
                assert(derefs(out@) =~= derefs(before).push(classified.0@[i as int]));
            }
        }
        i = i + 1;
    }
    proof {
        assert(classified.0@.take(classified.0@.len() as int) =~= classified.0@);
    }
    out
}

/// The header block.
pub open spec fn dump_header(s: DumpSettings, n: nat) -> Seq<char> {
    "# Prompts that would be sent\n\nRange: `"@ + s.range_arg@ + "` (commits: "@ + decimal(n) + ")\nMerge style: "@
        + merge_style_name(s.merge_style) + "\nRelease kind: "@ + release_label_text(*s.release_kind)
        + "\nVersion bump: "@ + bump_label_text(s.version_bump, s.version_scheme) + "\n\n"@
}

/// A prompt in a fenced block under a heading.
pub open spec fn prompt_block(heading: Seq<char>, body: Seq<char>) -> Seq<char> {
    "### "@ + heading + "\n```\n"@ + body + "\n```\n\n"@
}

/// The user prompts of the Tier 1 batches of `es`, numbered from `k`.
#[verifier::opaque]
pub open spec fn batch_blocks(es: Seq<ClassifiedCommit>, size: nat, k: nat) -> Seq<char>
    decreases es.len(),
{
    if es.len() == 0 || size == 0 {
        seq![]
    } else {
        let n = if es.len() < size { es.len() } else { size };
        prompt_block("user (batch "@ + decimal(k + 1) + ")"@, batch_prompt(es.take(n as int))) + batch_blocks(
            es.skip(n as int),
            size,
            k + 1,
        )
    }
}

/// The Tier 1 part when some entries are pending.
pub open spec fn tier1_batches_part(pending: Seq<ClassifiedCommit>, batch_size: nat) -> Seq<char> {
    decimal(pending.len()) + " commits would be sent in batches of "@ + decimal(batch_size) + ".\n\n"@
        + prompt_block("system"@, TIER1_SYSTEM@) + batch_blocks(
        pending,
        if batch_size < 1 { 1 } else { batch_size },
        0,
    )
}

/// The Tier 1 part.
pub open spec fn tier1_part(pending: Seq<ClassifiedCommit>, batch_size: nat) -> Seq<char> {
    "## Tier 1 \u{2014} batched LLM (would-send)\n\n"@ + if pending.len() == 0 {
        "_No commits below conf=1.0; Tier 1 wouldn't run._\n"@
    } else {
        tier1_batches_part(pending, batch_size)
    }
}

/// Each entry paired with its diff.
pub open spec fn with_diffs(e: Seq<ClassifiedCommit>, d: Seq<Seq<char>>) -> Seq<(ClassifiedCommit, Seq<char>)> {
    Seq::new(e.len(), |i: int| (e[i], d[i]))
}

/// The pairs whose entry is below `t`, in order.
pub open spec fn pairs_below(p: Seq<(ClassifiedCommit, Seq<char>)>, t: u32) -> Seq<(ClassifiedCommit, Seq<char>)> {
    p.filter(pair_below_pred(t))
}

/// A pair's entry is below `t`.
pub open spec fn pair_below_pred(t: u32) -> spec_fn((ClassifiedCommit, Seq<char>)) -> bool {
    |x: (ClassifiedCommit, Seq<char>)| x.0.classification.confidence < t
}

/// The Tier 2 user prompts, each with its diff cut to the budget.
pub open spec fn tier2_blocks(ps: Seq<(ClassifiedCommit, Seq<char>)>, max_tokens: nat) -> Seq<char>
    decreases ps.len(),
{
    if ps.len() == 0 {
        seq![]
    } else {
        tier2_blocks(ps.drop_last(), max_tokens) + prompt_block(
            "user (commit "@ + ps.last().0.commit.short_sha@ + ")"@,
            tier2_prompt(ps.last().0, diff_within(ps.last().1, max_tokens)),
        )
    }
}

/// The Tier 3 first user messages, each with its diff cut to the budget.
pub open spec fn tier3_blocks(ps: Seq<(ClassifiedCommit, Seq<char>)>, max_tokens: nat) -> Seq<char>
    decreases ps.len(),
{
    if ps.len() == 0 {
        seq![]
    } else {
        tier3_blocks(ps.drop_last(), max_tokens) + prompt_block(
            "user (commit "@ + ps.last().0.commit.short_sha@ + ", initial turn)"@,
            tier3_prompt(ps.last().0, diff_within(ps.last().1, max_tokens)),
        )
    }
}

/// The Tier 2 part.
pub open spec fn tier2_part(ps: Seq<(ClassifiedCommit, Seq<char>)>, threshold: u32, max_tokens: nat) -> Seq<char> {
    "## Tier 2 \u{2014} per-commit + diff (would-send)\n\n"@ + if ps.len() == 0 {
        "_No commits below conf="@ + fraction_text(threshold as nat) + "; Tier 2 wouldn't run._\n"@
    } else {
        prompt_block("system"@, TIER2_SYSTEM@) + tier2_blocks(ps, max_tokens)
    }
}

/// The Tier 3 part.
pub open spec fn tier3_part(ps: Seq<(ClassifiedCommit, Seq<char>)>, max_tokens: nat) -> Seq<char> {
    "## Tier 3 \u{2014} agentic (would-send, initial turn only)\n\n"@ + if ps.len() == 0 {
        "_No commits below the threshold; Tier 3 wouldn't run._\n"@
    } else {
        prompt_block("system"@, TIER3_SYSTEM@) + tier3_blocks(ps, max_tokens)
    }
}

/// The prose-pass part.
pub open spec fn prose_part(c: Classified, s: DumpSettings) -> Seq<char> {
    "## Prose pass (would-send)\n\n"@ + prompt_block(
        "system (voice + addenda)"@,
        system_prompt(*s.voice, s.extra_instructions, s.inline_prompt, *s.release_kind, s.version_bump, s.version_scheme),
    ) + "### user\n```\n"@ + user_prompt(
        c,
        s.from_ref,
        s.to_ref,
        s.merge_style,
        *s.release_kind,
        s.version_bump,
        s.version_scheme,
        s.rich_context,
    ) + "\n```\n"@
}

/// The whole document.
pub open spec fn prompt_document(c: Classified, diffs: Seq<Seq<char>>, s: DumpSettings) -> Seq<char> {
    let ps = pairs_below(with_diffs(c.0@, diffs), s.threshold);
    dump_header(s, c.0@.len()) + tier1_part(below(c.0@, CONFIDENCE_FULL), s.batch_size as nat) + tier2_part(
        ps,
        s.threshold,
        s.max_diff_tokens as nat,
    ) + tier3_part(ps, s.max_diff_tokens as nat) + prose_part(c, s)
}

fn push_block(out: &mut String, heading: &str, body: &str)
    ensures
        final(out)@ == old(out)@ + prompt_block(heading@, body@),
{
    push_str(out, "### ");
    push_str(out, heading);
    push_str(out, "\n```\n");
    push_str(out, body);
    push_str(out, "\n```\n\n");
}

fn push_header(out: &mut String, s: &DumpSettings, n: usize)
    ensures
        final(out)@ == old(out)@ + dump_header(*s, n as nat),
{
    let ghost start = out@;
    push_str(out, "# Prompts that would be sent\n\nRange: `");
    push_str(out, s.range_arg);
    push_str(out, "` (commits: ");
    push_dec(out, n as u64);
    push_str(out, ")\nMerge style: ");
    push_str(out, s.merge_style.as_str());
    push_str(out, "\nRelease kind: ");
    let rl = crate::run::release_label(s.release_kind);
    push_str(out, rl.as_str());
    push_str(out, "\nVersion bump: ");
    let bl = crate::run::bump_label(s.version_bump, s.version_scheme);
    push_str(out, bl.as_str());
    push_str(out, "\n\n");
    proof {
        assert(out@ =~= start + dump_header(*s, n as nat));
    }
}

proof fn lemma_batch_blocks_step(es: Seq<ClassifiedCommit>, size: nat, k: nat)
    requires
        es.len() > 0,
        size > 0,
    ensures
        ({
            let n = if es.len() < size { es.len() } else { size };
            batch_blocks(es, size, k) == prompt_block(
                "user (batch "@ + decimal(k + 1) + ")"@,
                batch_prompt(es.take(n as int)),
            ) + batch_blocks(es.skip(n as int), size, k + 1)
        }),
{
    reveal(batch_blocks);
}

fn take_chunk<'a>(pending: &Vec<&'a ClassifiedCommit>, pos: usize, n: usize) -> (r: Vec<&'a ClassifiedCommit>)
    requires
        pos + n <= pending.len(),
    ensures
        derefs(r@) == derefs(pending@).skip(pos as int).take(n as int),
{
    let ghost all = derefs(pending@);
    let mut chunk: Vec<&ClassifiedCommit> = Vec::new();
    let mut i: usize = 0;
    while i < n
        invariant
            i <= n,
            pos + n <= pending.len(),
            derefs(chunk@) == all.skip(pos as int).take(i as int),
            all == derefs(pending@),
        decreases n - i,
    {
        let ghost before = chunk@;
        chunk.push(pending[pos + i]);
        i = i + 1;
        proof {
            assert(derefs(chunk@) =~= derefs(before).push(*pending@[pos + i - 1]));
            assert(all.skip(pos as int).take(i as int) =~= all.skip(pos as int).take(i - 1).push(all[pos + i - 1]));
        }
    }
    chunk
}

fn push_batch_blocks(out: &mut String, pending: &Vec<&ClassifiedCommit>, size: usize)
    requires
        size >= 1,
    ensures
        final(out)@ == old(out)@ + batch_blocks(derefs(pending@), size as nat, 0),
{
    let ghost all = derefs(pending@);
    let ghost mid = out@;
    let mut pos: usize = 0;
    let mut k: usize = 0;
    proof {
        assert(all.skip(0) =~= all);
        assert(mid + batch_blocks(all, size as nat, 0) =~= out@ + batch_blocks(all.skip(0), size as nat, 0));
    }
    while pos < pending.len()
        invariant
            pos <= pending@.len(),
            size >= 1,
            all == derefs(pending@),
            mid + batch_blocks(all, size as nat, 0) == out@ + batch_blocks(all.skip(pos as int), size as nat, k as nat),
            k <= pos,
        decreases pending@.len() - pos,
    {
        let n = if pending.len() - pos < size { pending.len() - pos } else { size };
        let chunk = take_chunk(pending, pos, n);
        proof {
            lemma_batch_blocks_step(all.skip(pos as int), size as nat, k as nat);
            assert(all.skip(pos as int).skip(n as int) =~= all.skip(pos + n));
        }
        let mut heading = String::from_str("user (batch ");
        push_dec(&mut heading, (k + 1) as u64);
        push_str(&mut heading, ")");
        let body = debug_batch_prompt(&chunk);
        let ghost before = out@;
        push_block(out, heading.as_str(), body.as_str());
        proof {
            assert(out@ =~= before + prompt_block(
                "user (batch "@ + decimal((k + 1) as nat) + ")"@,
                batch_prompt(all.skip(pos as int).take(n as int)),
            ));
        }
        pos = pos + n;
        k = k + 1;
    }
    proof {
        assert(all.skip(pos as int) =~= Seq::<ClassifiedCommit>::empty());
        reveal(batch_blocks);
        assert(out@ + Seq::<char>::empty() =~= out@);
    }
}

fn push_tier1(out: &mut String, pending: &Vec<&ClassifiedCommit>, batch_size: usize)
    ensures
        final(out)@ == old(out)@ + tier1_part(derefs(pending@), batch_size as nat),
{
    let ghost start = out@;
    let ghost all = derefs(pending@);
    push_str(out, "## Tier 1 \u{2014} batched LLM (would-send)\n\n");
    if pending.len() == 0 {
        push_str(out, "_No commits below conf=1.0; Tier 1 wouldn't run._\n");
        proof {
            assert(out@ =~= start + tier1_part(all, batch_size as nat));
        }
        return;
    }
    let ghost mid = out@;
    push_tier1_batches(out, pending, batch_size);
    proof {
        assert(out@ =~= start + tier1_part(all, batch_size as nat));
    }
}

fn push_tier1_batches(out: &mut String, pending: &Vec<&ClassifiedCommit>, batch_size: usize)
    ensures
        final(out)@ == old(out)@ + tier1_batches_part(derefs(pending@), batch_size as nat),
{
    let ghost start = out@;
    push_dec(out, pending.len() as u64);
    push_str(out, " commits would be sent in batches of ");
    push_dec(out, batch_size as u64);
    push_str(out, ".\n\n");
    push_block(out, "system", TIER1_SYSTEM);
    let size: usize = if batch_size < 1 { 1 } else { batch_size };
    push_batch_blocks(out, pending, size);
    proof {
        assert(out@ =~= start + tier1_batches_part(derefs(pending@), batch_size as nat));
    }
}

/// The views of entry/diff pairs.
pub open spec fn pair_views(v: Seq<(&ClassifiedCommit, &String)>) -> Seq<(ClassifiedCommit, Seq<char>)> {
    v.map_values(|x: (&ClassifiedCommit, &String)| (*x.0, x.1@))
}

fn pairs_below_exec<'a>(classified: &'a Classified, diffs: &'a Vec<String>, t: u32) -> (r: Vec<(&'a ClassifiedCommit, &'a String)>)
    requires
        diffs@.len() == classified.0@.len(),
    ensures
        pair_views(r@) == pairs_below(with_diffs(classified.0@, crate::text::string_views(diffs@)), t),
{
    let ghost all = with_diffs(classified.0@, crate::text::string_views(diffs@));
    let mut out: Vec<(&ClassifiedCommit, &String)> = Vec::new();
    let mut i: usize = 0;
    while i < classified.0.len()
        invariant
            i <= classified.0@.len(),
            diffs@.len() == classified.0@.len(),
            all == with_diffs(classified.0@, crate::text::string_views(diffs@)),
            pair_views(out@) == pairs_below(all.take(i as int), t),
        decreases classified.0@.len() - i,
    {
        let ghost before = out@;
        proof {
            all.take(i as int).lemma_filter_push(all[i as int], pair_below_pred(t));
            assert(all.take(i as int).push(all[i as int]) =~= all.take(i + 1));
        }
        if classified.0[i].classification.confidence < t {
            out.push((&classified.0[i], &diffs[i]));
            proof {
                assert(pair_views(out@) =~= pair_views(before).push(all[i as int]));
            }
        }
        i = i + 1;
    }
    proof {
        assert(all.take(classified.0@.len() as int) =~= all);
    }
    out
}

fn push_tier2_blocks(out: &mut String, ps: &Vec<(&ClassifiedCommit, &String)>, max_tokens: usize)
    ensures
        final(out)@ == old(out)@ + tier2_blocks(pair_views(ps@), max_tokens as nat),
{
    let ghost all = pair_views(ps@);
    let ghost start = out@;
    let mut i: usize = 0;
    while i < ps.len()
        invariant
            i <= ps@.len(),
            all == pair_views(ps@),
            out@ == start + tier2_blocks(all.take(i as int), max_tokens as nat),
        decreases ps@.len() - i,
    {
        proof {
            assert(all.take(i + 1).drop_last() =~= all.take(i as int));
            assert(all.take(i + 1).last() == all[i as int]);
        }
        let (entry, diff) = ps[i];
        let cut = truncate_diff(diff.as_str(), max_tokens);
        let mut heading = String::from_str("user (commit ");
        push_str(&mut heading, entry.commit.short_sha.as_str());
        push_str(&mut heading, ")");
        let body = crate::ladder::tier2::debug_prompt(entry, cut.as_str());
        push_block(out, heading.as_str(), body.as_str());
        i = i + 1;
    }
    proof {
        assert(all.take(ps@.len() as int) =~= all);
    }
}

fn push_tier3_blocks(out: &mut String, ps: &Vec<(&ClassifiedCommit, &String)>, max_tokens: usize)
    ensures
        final(out)@ == old(out)@ + tier3_blocks(pair_views(ps@), max_tokens as nat),
{
    let ghost all = pair_views(ps@);
    let ghost start = out@;
    let mut i: usize = 0;
    while i < ps.len()
        invariant
            i <= ps@.len(),
            all == pair_views(ps@),
            out@ == start + tier3_blocks(all.take(i as int), max_tokens as nat),
        decreases ps@.len() - i,
    {
        proof {
            assert(all.take(i + 1).drop_last() =~= all.take(i as int));
            assert(all.take(i + 1).last() == all[i as int]);
        }
        let (entry, diff) = ps[i];
        let cut = truncate_diff(diff.as_str(), max_tokens);
        let mut heading = String::from_str("user (commit ");
        push_str(&mut heading, entry.commit.short_sha.as_str());
        push_str(&mut heading, ", initial turn)");
        let body = crate::ladder::tier3::debug_prompt(entry, cut.as_str());
        push_block(out, heading.as_str(), body.as_str());
        i = i + 1;
    }
    proof {
        assert(all.take(ps@.len() as int) =~= all);
    }
}

fn push_tier2(out: &mut String, ps: &Vec<(&ClassifiedCommit, &String)>, threshold: u32, max_tokens: usize)
    ensures
        final(out)@ == old(out)@ + tier2_part(pair_views(ps@), threshold, max_tokens as nat),
{
    let ghost start = out@;
    push_str(out, "## Tier 2 \u{2014} per-commit + diff (would-send)\n\n");
    if ps.len() == 0 {
        push_str(out, "_No commits below conf=");
        push_fraction(out, threshold);
        push_str(out, "; Tier 2 wouldn't run._\n");
    } else {
        push_block(out, "system", TIER2_SYSTEM);
        push_tier2_blocks(out, ps, max_tokens);
    }
    proof {
        assert(out@ =~= start + tier2_part(pair_views(ps@), threshold, max_tokens as nat));
    }
}

fn push_tier3(out: &mut String, ps: &Vec<(&ClassifiedCommit, &String)>, max_tokens: usize)
    ensures
        final(out)@ == old(out)@ + tier3_part(pair_views(ps@), max_tokens as nat),
{
    let ghost start = out@;
    push_str(out, "## Tier 3 \u{2014} agentic (would-send, initial turn only)\n\n");
    if ps.len() == 0 {
        push_str(out, "_No commits below the threshold; Tier 3 wouldn't run._\n");
    } else {
        push_block(out, "system", TIER3_SYSTEM);
        push_tier3_blocks(out, ps, max_tokens);
    }
    proof {
        assert(out@ =~= start + tier3_part(pair_views(ps@), max_tokens as nat));
    }
}

fn push_prose(out: &mut String, classified: &Classified, s: &DumpSettings)
    ensures
        final(out)@ == old(out)@ + prose_part(*classified, *s),
{
    let ghost start = out@;
    push_str(out, "## Prose pass (would-send)\n\n");
    let sys = build_system_prompt(
        s.voice,
        s.extra_instructions,
        s.inline_prompt,
        s.release_kind,
        s.version_bump,
        s.version_scheme,
    );
    push_block(out, "system (voice + addenda)", sys.as_str());
    push_str(out, "### user\n```\n");
    let user = build_user_prompt(
        classified,
        s.from_ref,
        s.to_ref,
        s.merge_style,
        s.release_kind,
        s.version_bump,
        s.version_scheme,
        s.rich_context,
    );
    push_str(out, user.as_str());
    push_str(out, "\n```\n");
    proof {
        assert(out@ =~= start + prose_part(*classified, *s));
    }
}

/// The document of the prompts a run would send. `diffs[i]` is the diff
/// of entry `i` (only those below the threshold are used).
pub fn prompt_document_exec(classified: &Classified, diffs: &Vec<String>, s: &DumpSettings) -> (r: String)
    requires
        diffs@.len() == classified.0@.len(),
    ensures
        r@ == prompt_document(*classified, crate::text::string_views(diffs@), *s),
{
    let mut out = String::new();
    push_header(&mut out, s, classified.0.len());
    let t1 = entries_below(classified, CONFIDENCE_FULL);
    push_tier1(&mut out, &t1, s.batch_size);
    let ps = pairs_below_exec(classified, diffs, s.threshold);
    push_tier2(&mut out, &ps, s.threshold, s.max_diff_tokens);
    push_tier3(&mut out, &ps, s.max_diff_tokens);
    push_prose(&mut out, classified, s);
    proof {
        assert(out@ =~= prompt_document(*classified, crate::text::string_views(diffs@), *s));
    }
    out
}

} // verus!
