//! Tier 1: batched model classification, without diffs.
//!
//! Only the entries Tier 0 left below the threshold are sent, in batches,
//! so the system prompt is paid once per batch rather than per commit.

use vstd::prelude::*;

use crate::ladder::{classification_of, clamped, set_classification, verdict_section, Verdict};
use crate::models::classification::{ClassificationSource, Classified, ClassifiedCommit};
use crate::models::PrInfo;
use crate::providers::ProviderError;
use crate::prompts::{comma_joined, fence, fence_text, join_comma, TIER1_SYSTEM};
use crate::text::{chars_of, decimal, push_chars, push_decimal, push_str, string_of, string_views, trim, trim_exec};

verus! {

/// Characters of a commit or PR body shown per commit.
pub const BODY_PREVIEW_CHARS: usize = 600;

/// Changed files listed per commit.
pub const FILES_PREVIEW: usize = 12;

/// Output tokens allowed for a batch reply.
pub const TIER1_MAX_OUTPUT_TOKENS: u64 = 4096;

/// The Tier 1 system prompt.
pub fn default_system_prompt() -> (r: &'static str)
    ensures
        r@ == TIER1_SYSTEM@,
{
    TIER1_SYSTEM
}

/// A text cut to `cap` characters, marked with ` …` when cut.
pub open spec fn preview(s: Seq<char>, cap: nat) -> Seq<char> {
    if s.len() <= cap {
        s
    } else {
        s.take(cap as int) + " \u{2026}"@
    }
}

/// Cut a text to `cap` characters, marking the cut.
pub fn truncate(s: &str, cap: usize) -> (r: String)
    ensures
        r@ == preview(s@, cap as nat),
{
    let cs = chars_of(s);
    if cs.len() <= cap {
        return String::from_str(s);
    }
    let head = crate::text::slice_vec(&cs, 0, cap);
    let mut out = string_of(&head);
    push_str(&mut out, " \u{2026}");
    proof {
        assert(head@ =~= s@.take(cap as int));
    }
    out
}

/// The PR blocks of one batch entry.
pub open spec fn batch_pr_part(pr: Option<PrInfo>) -> Seq<char> {
    match pr {
        Some(p) => fence_text("pr_title"@, p.title@) + "\n"@ + (if trim(p.body@).len() > 0 {
            fence_text("pr_body"@, preview(p.body@, BODY_PREVIEW_CHARS as nat)) + "\n"@
        } else {
            seq![]
        }) + (if p.labels@.len() > 0 {
            fence_text("pr_labels"@, comma_joined(string_views(p.labels@))) + "\n"@
        } else {
            seq![]
        }),
        None => seq![],
    }
}

/// The files line of one batch entry: the first [`FILES_PREVIEW`] files
/// and how many more there are.
pub open spec fn batch_files_part(files: Seq<Seq<char>>) -> Seq<char> {
    if files.len() == 0 {
        seq![]
    } else {
        "files: "@ + comma_joined(if files.len() <= FILES_PREVIEW { files } else { files.take(FILES_PREVIEW as int) })
            + "\n"@ + (if files.len() > FILES_PREVIEW {
            "  (+"@ + decimal((files.len() - FILES_PREVIEW) as nat) + " more files)\n"@
        } else {
            seq![]
        })
    }
}

/// The block of batch entry `i`.
pub open spec fn batch_entry(i: nat, e: ClassifiedCommit) -> Seq<char> {
    let c = e.commit;
    "--- commit "@ + decimal(i) + " ---\n"@ + fence_text("commit_subject"@, c.subject@) + "\n"@ + (if trim(
        c.body@,
    ).len() > 0 {
        fence_text("commit_body"@, preview(c.body@, BODY_PREVIEW_CHARS as nat)) + "\n"@
    } else {
        seq![]
    }) + batch_pr_part(e.pr) + batch_files_part(string_views(c.files@)) + "\n"@
}

/// The blocks of the first entries of a batch.
pub open spec fn batch_entries(es: Seq<ClassifiedCommit>) -> Seq<char>
    decreases es.len(),
{
    if es.len() == 0 {
        seq![]
    } else {
        batch_entries(es.drop_last()) + batch_entry((es.len() - 1) as nat, es.last())
    }
}

/// The instruction that closes a batch prompt.
pub const BATCH_PROMPT_CLOSING: &'static str = "Return JSON with shape {\"verdicts\": [{\"index\": 0, \"section\": \"...\", \"summary\": \"...\", \"confidence\": 0.0}]}.\n";

/// The user prompt of a batch.
pub open spec fn batch_prompt(es: Seq<ClassifiedCommit>) -> Seq<char> {
    "Classify these commits.\n\n"@ + batch_entries(es) + BATCH_PROMPT_CLOSING@
}

fn push_fenced_line(out: &mut String, tag: &str, content: &str)
    ensures
        final(out)@ == old(out)@ + fence_text(tag@, content@) + "\n"@,
{
    let f = fence(tag, content);
    push_str(out, f.as_str());
    push_str(out, "\n");
}

fn push_batch_pr_part(out: &mut String, pr: &Option<PrInfo>)
    ensures
        final(out)@ == old(out)@ + batch_pr_part(*pr),
{
    let ghost start = out@;
    match pr {
        Some(p) => {
            push_fenced_line(out, "pr_title", p.title.as_str());
            let ghost a = out@;
            if trim_exec(&chars_of(p.body.as_str())).len() > 0 {
                let b = truncate(p.body.as_str(), BODY_PREVIEW_CHARS);
                push_fenced_line(out, "pr_body", b.as_str());
            }
            let ghost b = out@;
            if p.labels.len() > 0 {
                let j = join_comma(&p.labels);
                push_fenced_line(out, "pr_labels", j.as_str());
            }
            proof {
                assert(out@ =~= start + batch_pr_part(*pr));
            }
        },
        None => {
            proof {
                assert(out@ =~= start + batch_pr_part(*pr));
            }
        },
    }
}

fn push_batch_files_part(out: &mut String, files: &Vec<String>)
    ensures
        final(out)@ == old(out)@ + batch_files_part(string_views(files@)),
{
    let ghost start = out@;
    let ghost fs = string_views(files@);
    if files.len() == 0 {
        proof {
            assert(out@ =~= start + batch_files_part(fs));
        }
        return;
    }
    let mut shown: Vec<String> = Vec::new();
    let n = if files.len() <= FILES_PREVIEW { files.len() } else { FILES_PREVIEW };
    let mut i: usize = 0;
    while i < n
        invariant
            n <= files@.len(),
            i <= n,
            string_views(shown@) == string_views(files@).take(i as int),
        decreases n - i,
    {
        let ghost before = shown@;
        shown.push(files[i].clone());
        i = i + 1;
        proof {
            assert(string_views(shown@) =~= string_views(before).push(files@[i - 1]@));
            assert(string_views(files@).take(i as int) =~= string_views(files@).take(i - 1).push(files@[i - 1]@));
        }
    }
    push_str(out, "files: ");
    let j = join_comma(&shown);
    push_str(out, j.as_str());
    push_str(out, "\n");
    let ghost a = out@;
    if files.len() > FILES_PREVIEW {
        push_str(out, "  (+");
        let mut d: Vec<char> = Vec::new();
        push_decimal(&mut d, (files.len() - FILES_PREVIEW) as u64);
        push_chars(out, &d);
        push_str(out, " more files)\n");
        proof {
            assert(d@ =~= decimal((files@.len() - FILES_PREVIEW) as nat));
        }
    }
    proof {
        if files@.len() <= FILES_PREVIEW {
            assert(fs.take(files@.len() as int) =~= fs);
        }
        assert(out@ =~= start + batch_files_part(fs));
    }
}

fn push_batch_entry(out: &mut String, i: usize, e: &ClassifiedCommit)
    ensures
        final(out)@ == old(out)@ + batch_entry(i as nat, *e),
{
    let ghost start = out@;
    let c = &e.commit;
    push_str(out, "--- commit ");
    let mut d: Vec<char> = Vec::new();
    push_decimal(&mut d, i as u64);
    push_chars(out, &d);
    push_str(out, " ---\n");
    push_fenced_line(out, "commit_subject", c.subject.as_str());
    let ghost a = out@;
    if trim_exec(&chars_of(c.body.as_str())).len() > 0 {
        let b = truncate(c.body.as_str(), BODY_PREVIEW_CHARS);
        push_fenced_line(out, "commit_body", b.as_str());
    }
    let ghost b = out@;
    push_batch_pr_part(out, &e.pr);
    push_batch_files_part(out, &c.files);
    push_str(out, "\n");
    proof {
        assert(d@ =~= decimal(i as nat));
        assert(out@ =~= start + batch_entry(i as nat, *e));
    }
}

/// The user prompt Tier 1 sends for a batch.
pub fn debug_batch_prompt(commits: &Vec<&ClassifiedCommit>) -> (r: String)
    ensures
        r@ == batch_prompt(crate::models::classification::derefs(commits@)),
{
    let ghost all = crate::models::classification::derefs(commits@);
    let mut out = String::from_str("Classify these commits.\n\n");
    let ghost base = out@;
    let mut i: usize = 0;
    while i < commits.len()
        invariant
            i <= commits@.len(),
            all == crate::models::classification::derefs(commits@),
            out@ == base + batch_entries(all.take(i as int)),
        decreases commits@.len() - i,
    {
        proof {
            assert(all.take(i + 1).drop_last() =~= all.take(i as int));
            assert(all.take(i + 1).last() == *commits@[i as int]);
        }
        push_batch_entry(&mut out, i, commits[i]);
        i = i + 1;
    }
    proof {
        assert(all.take(commits@.len() as int) =~= all);
    }
    push_str(&mut out, BATCH_PROMPT_CLOSING);
    out
}

/// The audit label of a batch of `n` commits.
pub fn batch_label(n: usize) -> (r: String)
    ensures
        r@ == "tier-1-batch-"@ + decimal(n as nat) + "-commits"@,
{
    let mut out = String::from_str("tier-1-batch-");
    let mut d: Vec<char> = Vec::new();
    push_decimal(&mut d, n as u64);
    push_chars(&mut out, &d);
    push_str(&mut out, "-commits");
    proof {
        assert(d@ =~= decimal(n as nat));
    }
    out
}

/// `items` cut into consecutive batches of `size` (at least one) items;
/// the last batch may be shorter.
pub fn batches(items: &Vec<usize>, size: usize) -> (r: Vec<Vec<usize>>)
    ensures
        ({
            let s = if size < 1 { 1 } else { size };
            &&& r@.len() == if items@.len() == 0 { 0 } else { (items@.len() - 1) as nat / (s as nat) + 1 }
            &&& forall|k: int| #![trigger r@[k]] 0 <= k < r@.len() ==> r@[k]@ == items@.subrange(
                k * s,
                if (k + 1) * s < items@.len() { (k + 1) * s } else { items@.len() as int },
            )
        }),
{
    let s: usize = if size < 1 { 1 } else { size };
    let mut out: Vec<Vec<usize>> = Vec::new();
    let mut start: usize = 0;
    while start < items.len()
        invariant
            s >= 1,
            s == if size < 1 { 1 } else { size },
            start <= items@.len(),
            start < items@.len() ==> start == out@.len() * s,
            out@.len() > 0 ==> (out@.len() - 1) * s < items@.len(),
            start == items@.len() ==> out@.len() * s >= items@.len(),
            forall|k: int| #![trigger out@[k]] 0 <= k < out@.len() ==> out@[k]@ == items@.subrange(
                k * s,
                if (k + 1) * s < items@.len() { (k + 1) * s } else { items@.len() as int },
            ),
        decreases items@.len() - start,
    {
        let end = if items.len() - start > s { start + s } else { items.len() };
        let mut chunk: Vec<usize> = Vec::new();
        let mut i = start;
        while i < end
            invariant
                start <= i <= end <= items@.len(),
                chunk@ == items@.subrange(start as int, i as int),
            decreases end - i,
        {
            chunk.push(items[i]);
            i = i + 1;
            proof {
                assert(chunk@ =~= items@.subrange(start as int, i as int));
            }
        }
        let ghost k = out@.len() as int;
        proof {
            assert((k + 1) * s == k * s + s) by (nonlinear_arith);
        }
        out.push(chunk);
        start = end;
    }
    proof {
        let n = out@.len() as int;
        let l = items@.len() as int;
        if l > 0 {
            lemma_batch_count(n, l, s as int);
        }
    }
    out
}

proof fn lemma_batch_count(n: int, l: int, s: int)
    requires
        s >= 1,
        l >= 1,
        n > 0 ==> (n - 1) * s < l,
        n * s >= l,
    ensures
        n == (l - 1) / s + 1,
{
    assert(n > 0) by (nonlinear_arith)
        requires
            n * s >= l,
            l >= 1,
            s >= 1,
    ;
    assert((n - 1) * s <= l - 1 && l - 1 < n * s);
    assert((l - 1) / s == n - 1) by (nonlinear_arith)
        requires
            (n - 1) * s <= l - 1,
            l - 1 < n * s,
            s >= 1,
            n >= 1,
    {
        vstd::arithmetic::div_mod::lemma_div_pos_is_pos(l - 1, s);
        vstd::arithmetic::div_mod::lemma_fundamental_div_mod(l - 1, s);
    }
}

/// A verdict of a batch reply, for the entry at `index` in the batch.
#[derive(Debug, Clone)]
pub struct BatchVerdict {
    pub index: usize,
    pub section: String,
    pub summary: String,
    /// In thousandths, as the model gave it.
    pub confidence: i64,
}

/// The reply shape of a batch.
#[derive(Debug, Clone)]
pub struct BatchResponse {
    pub verdicts: Vec<BatchVerdict>,
}

/// Parse a batch reply: as the wrapped shape (`{"verdicts": [...]}`)
/// first, and when that gives nothing, as a top-level array. `wrapped`
/// and `array` read one candidate text as each shape.
pub fn parse_batch_response<F: Fn(&str) -> Option<BatchResponse>, G: Fn(&str) -> Option<Vec<BatchVerdict>>>(
    text: &str,
    wrapped: F,
    array: G,
) -> (r: Result<Vec<BatchVerdict>, ProviderError>)
    requires
        forall|s: &str| #[trigger] wrapped.requires((s,)),
        forall|s: &str| #[trigger] array.requires((s,)),
        crate::providers::agent_loop::utf8(text@).len() > crate::providers::response::PARSE_ERROR_PREVIEW_LEN
            ==> vstd::utf8::is_char_boundary(
            crate::providers::agent_loop::utf8(text@),
            crate::providers::response::PARSE_ERROR_PREVIEW_LEN as int,
        ),
    ensures
        exists|first: Result<BatchResponse, ProviderError>|
            #[trigger] crate::providers::response::fallback_result(text@, wrapped, first) && match first {
                Ok(w) => r == Ok::<Vec<BatchVerdict>, ProviderError>(w.verdicts),
                Err(_) => crate::providers::response::fallback_result(text@, array, r),
            },
{
    let first = crate::providers::response::parse_with_fallbacks(text, wrapped);
    match first {
        Ok(w) => {
            let r = Ok(w.verdicts);
            proof {
                assert(crate::providers::response::fallback_result(text@, wrapped, first));
            }
            r
        },
        Err(_) => {
            let r = crate::providers::response::parse_with_fallbacks(text, array);
            proof {
                assert(crate::providers::response::fallback_result(text@, wrapped, first));
            }
            r
        },
    }
}

/// `k` holds the last verdict for batch entry `j`.
pub open spec fn is_last_verdict(vs: Seq<BatchVerdict>, j: int, k: int) -> bool {
    0 <= k < vs.len() && vs[k].index == j && forall|k2: int| k < k2 < vs.len() ==> vs[k2].index != j
}

/// Some verdict is for batch entry `j`.
pub open spec fn has_verdict(vs: Seq<BatchVerdict>, j: int) -> bool {
    exists|k: int| 0 <= k < vs.len() && vs[k].index == j
}

/// The last verdict for batch entry `j`: later verdicts for an entry
/// override earlier ones.
pub open spec fn verdict_for(vs: Seq<BatchVerdict>, j: int) -> BatchVerdict {
    vs[choose|k: int| is_last_verdict(vs, j, k)]
}

/// How many of the first `n` batch entries have a verdict.
pub open spec fn verdict_count(vs: Seq<BatchVerdict>, n: int) -> nat
    decreases n,
{
    if n <= 0 {
        0
    } else {
        verdict_count(vs, n - 1) + if has_verdict(vs, n - 1) { 1nat } else { 0nat }
    }
}

fn last_verdict(vs: &Vec<BatchVerdict>, j: usize) -> (r: Option<usize>)
    ensures
        match r {
            Some(k) => is_last_verdict(vs@, j as int, k as int) && has_verdict(vs@, j as int) && verdict_for(
                vs@,
                j as int,
            ) == vs@[k as int],
            None => !has_verdict(vs@, j as int),
        },
{
    let mut k: usize = vs.len();
    while k > 0
        invariant
            k <= vs@.len(),
            forall|k2: int| k <= k2 < vs@.len() ==> vs@[k2].index != j,
        decreases k,
    {
        k = k - 1;
        if vs[k].index == j {
            proof {
                assert(is_last_verdict(vs@, j as int, k as int));
                let c = choose|c: int| is_last_verdict(vs@, j as int, c);
                if c < k {
                    assert(vs@[k as int].index != j);
                }
                if k < c {
                    assert(vs@[c].index != j);
                }
            }
            return Some(k);
        }
    }
    None
}

/// Entry `c` is `orig` with the classification verdict `v` gives.
pub open spec fn takes_verdict(orig: ClassifiedCommit, c: ClassifiedCommit, v: BatchVerdict) -> bool {
    &&& c.commit == orig.commit
    &&& c.pr == orig.pr
    &&& c.classification.section == verdict_section(v.section@, false)
    &&& c.classification.summary@ == trim(v.summary@)
    &&& c.classification.source == ClassificationSource::BatchedLlm
    &&& c.classification.confidence == clamped(v.confidence)
}

/// Some position before `j` that has a verdict points at entry `e`.
pub open spec fn written_before(chunk: Seq<usize>, vs: Seq<BatchVerdict>, j: int, e: int) -> bool {
    exists|j1: int| 0 <= j1 < j && chunk[j1] == e && has_verdict(vs, j1)
}

/// Position `j1` is the last one before `j` that points at its entry
/// and has a verdict.
pub open spec fn last_written(chunk: Seq<usize>, vs: Seq<BatchVerdict>, j: int, j1: int) -> bool {
    0 <= j1 < j && has_verdict(vs, j1) && forall|j2: int| j1 < j2 < j && chunk[j2] == chunk[j1] ==> !has_verdict(vs, j2)
}

/// The entries after the first `j` positions of a batch were written back.
#[verifier::opaque]
pub open spec fn batch_written(
    orig: Seq<ClassifiedCommit>,
    cur: Seq<ClassifiedCommit>,
    chunk: Seq<usize>,
    vs: Seq<BatchVerdict>,
    j: int,
) -> bool {
    &&& cur.len() == orig.len()
    &&& forall|e: int| 0 <= e < orig.len() && !written_before(chunk, vs, j, e) ==> #[trigger] cur[e] == orig[e]
    &&& forall|j1: int|
        #![trigger chunk[j1]]
        last_written(chunk, vs, j, j1) ==> takes_verdict(orig[chunk[j1] as int], cur[chunk[j1] as int], verdict_for(vs, j1))
}

proof fn lemma_batch_step_none(
    orig: Seq<ClassifiedCommit>,
    cur: Seq<ClassifiedCommit>,
    chunk: Seq<usize>,
    vs: Seq<BatchVerdict>,
    j: int,
)
    requires
        0 <= j < chunk.len(),
        batch_written(orig, cur, chunk, vs, j),
        !has_verdict(vs, j),
    ensures
        batch_written(orig, cur, chunk, vs, j + 1),
{
    reveal(batch_written);
    assert forall|e: int| 0 <= e < orig.len() && !written_before(chunk, vs, j + 1, e) implies #[trigger] cur[e] == orig[e] by {
        assert(!written_before(chunk, vs, j, e));
    }
    assert forall|j1: int| #![trigger chunk[j1]] last_written(chunk, vs, j + 1, j1) implies takes_verdict(
        orig[chunk[j1] as int],
        cur[chunk[j1] as int],
        verdict_for(vs, j1),
    ) by {
        assert(j1 != j);
        assert(last_written(chunk, vs, j, j1));
    }
}

proof fn lemma_batch_step_some(
    orig: Seq<ClassifiedCommit>,
    cur: Seq<ClassifiedCommit>,
    next: Seq<ClassifiedCommit>,
    chunk: Seq<usize>,
    vs: Seq<BatchVerdict>,
    j: int,
)
    requires
        0 <= j < chunk.len(),
        forall|jj: int| 0 <= jj < chunk.len() ==> #[trigger] chunk[jj] < orig.len(),
        batch_written(orig, cur, chunk, vs, j),
        has_verdict(vs, j),
        next.len() == cur.len(),
        forall|e: int| 0 <= e < cur.len() && e != chunk[j] ==> #[trigger] next[e] == cur[e],
        takes_verdict(cur[chunk[j] as int], next[chunk[j] as int], verdict_for(vs, j)),
    ensures
        batch_written(orig, next, chunk, vs, j + 1),
{
    reveal(batch_written);
    let t = chunk[j] as int;
    assert(written_before(chunk, vs, j + 1, t));
    assert forall|e: int| 0 <= e < orig.len() && !written_before(chunk, vs, j + 1, e) implies #[trigger] next[e] == orig[e] by {
        assert(!written_before(chunk, vs, j, e));
        assert(e != t);
    }
    if !written_before(chunk, vs, j, t) {
        assert(cur[t] == orig[t]);
        assert(cur[t].commit == orig[t].commit && cur[t].pr == orig[t].pr);
    } else {
        let j0 = choose|j1: int| 0 <= j1 < j && chunk[j1] == t && has_verdict(vs, j1);
        lemma_last_written_exists(chunk, vs, j, j0);
        let j1 = choose|j1: int| #[trigger] last_written(chunk, vs, j, j1) && chunk[j1] == chunk[j0];
        assert(takes_verdict(orig[chunk[j1] as int], cur[chunk[j1] as int], verdict_for(vs, j1)));
        assert(cur[t].commit == orig[t].commit && cur[t].pr == orig[t].pr);
    }
    assert forall|j1: int| #![trigger chunk[j1]] last_written(chunk, vs, j + 1, j1) implies takes_verdict(
        orig[chunk[j1] as int],
        next[chunk[j1] as int],
        verdict_for(vs, j1),
    ) by {
        if j1 < j {
            assert(chunk[j1] != chunk[j]);
            assert(last_written(chunk, vs, j, j1));
            assert(takes_verdict(orig[chunk[j1] as int], cur[chunk[j1] as int], verdict_for(vs, j1)));
            assert(chunk[j1] < orig.len());
            assert(next[chunk[j1] as int] == cur[chunk[j1] as int]);
        } else {
            assert(j1 == j);
            assert(chunk[j1] as int == t);
        }
    }
}

/// Some position before `j` that writes entry `chunk[j0]` is the last one.
proof fn lemma_last_written_exists(chunk: Seq<usize>, vs: Seq<BatchVerdict>, j: int, j0: int)
    requires
        0 <= j0 < j <= chunk.len(),
        has_verdict(vs, j0),
    ensures
        exists|j1: int| #[trigger] last_written(chunk, vs, j, j1) && chunk[j1] == chunk[j0],
    decreases j - j0,
{
    if exists|j2: int| j0 < j2 < j && chunk[j2] == chunk[j0] && has_verdict(vs, j2) {
        let j2 = choose|j2: int| j0 < j2 < j && chunk[j2] == chunk[j0] && has_verdict(vs, j2);
        lemma_last_written_exists(chunk, vs, j, j2);
    } else {
        assert(last_written(chunk, vs, j, j0) && chunk[j0] == chunk[j0]);
    }
}

/// Write a batch's verdicts back: the entry at `chunk[j]` takes the last
/// verdict for batch position `j`; an entry that appears at several
/// positions takes the verdict of the last of them that has one. Returns
/// how many positions had a verdict.
pub fn apply_batch(classified: &mut Classified, chunk: &Vec<usize>, verdicts: &Vec<BatchVerdict>) -> (r: usize)
    requires
        forall|j: int| 0 <= j < chunk@.len() ==> #[trigger] chunk@[j] < old(classified).0@.len(),
    ensures
        r == verdict_count(verdicts@, chunk@.len() as int),
        final(classified).0@.len() == old(classified).0@.len(),
        forall|e: int|
            0 <= e < old(classified).0@.len() && !written_before(chunk@, verdicts@, chunk@.len() as int, e)
                ==> #[trigger] final(classified).0@[e] == old(classified).0@[e],
        forall|j: int|
            #![trigger chunk@[j]]
            last_written(chunk@, verdicts@, chunk@.len() as int, j) ==> takes_verdict(
                old(classified).0@[chunk@[j] as int],
                final(classified).0@[chunk@[j] as int],
                verdict_for(verdicts@, j),
            ),
{
    let ghost orig = classified.0@;
    let mut updated: usize = 0;
    let mut j: usize = 0;
    proof {
        reveal(batch_written);
    }
    while j < chunk.len()
        invariant
            j <= chunk@.len(),
            forall|j: int| 0 <= j < chunk@.len() ==> #[trigger] chunk@[j] < orig.len(),
            orig == old(classified).0@,
            updated == verdict_count(verdicts@, j as int),
            updated <= j,
            batch_written(orig, classified.0@, chunk@, verdicts@, j as int),
        decreases chunk@.len() - j,
    {
        let ghost before = classified.0@;
        assert(chunk@[j as int] < orig.len());
        proof {
            reveal(batch_written);
        }
        match last_verdict(verdicts, j) {
            Some(k) => {
                let bv = &verdicts[k];
                let v = Verdict {
                    section: bv.section.clone(),
                    summary: bv.summary.clone(),
                    confidence: bv.confidence,
                    breaking: false,
                };
                let c = classification_of(&v, ClassificationSource::BatchedLlm);
                set_classification(classified, chunk[j], c);
                updated = updated + 1;
                proof {
                    lemma_batch_step_some(orig, before, classified.0@, chunk@, verdicts@, j as int);
                }
            },
            None => {
                proof {
                    lemma_batch_step_none(orig, before, chunk@, verdicts@, j as int);
                }
            },
        }
        j = j + 1;
    }
    proof {
        reveal(batch_written);
    }
    updated
}

/// A batch drawn from the pending entries never writes an entry at or
/// above the threshold: Tier 1 leaves confident classifications alone.
pub proof fn lemma_batch_spares_confident(
    orig: Seq<ClassifiedCommit>,
    threshold: u32,
    chunk: Seq<usize>,
    vs: Seq<BatchVerdict>,
    e: int,
)
    requires
        forall|j: int| 0 <= j < chunk.len() ==> crate::ladder::is_pending(orig, threshold, #[trigger] chunk[j] as int),
        0 <= e < orig.len(),
        orig[e].classification.confidence >= threshold,
    ensures
        !written_before(chunk, vs, chunk.len() as int, e),
{
    if written_before(chunk, vs, chunk.len() as int, e) {
        let j = choose|j1: int| 0 <= j1 < chunk.len() && chunk[j1] == e && has_verdict(vs, j1);
        assert(crate::ladder::is_pending(orig, threshold, chunk[j] as int));
    }
}

/// The batches of a list, concatenated.
pub open spec fn concat_batches(bs: Seq<Seq<usize>>) -> Seq<usize>
    decreases bs.len(),
{
    if bs.len() == 0 {
        seq![]
    } else {
        concat_batches(bs.drop_last()) + bs.last()
    }
}

/// Batches as [`batches`] cuts them put back together give the list:
/// every pending entry is sent exactly once, in order.
pub proof fn lemma_batches_cover(items: Seq<usize>, s: int, bs: Seq<Seq<usize>>)
    requires
        s >= 1,
        bs.len() == if items.len() == 0 { 0 } else { (items.len() - 1) / s + 1 },
        forall|k: int| #![trigger bs[k]] 0 <= k < bs.len() ==> bs[k] == items.subrange(
            k * s,
            if (k + 1) * s < items.len() { (k + 1) * s } else { items.len() as int },
        ),
    ensures
        concat_batches(bs) == items,
{
    lemma_batches_prefix(items, s, bs, bs.len() as int);
    if items.len() > 0 {
        let n = bs.len() as int;
        let l = items.len() as int;
        assert((n - 1) * s <= l - 1 && l - 1 < n * s) by (nonlinear_arith)
            requires
                n == (l - 1) / s + 1,
                s >= 1,
                l >= 1,
        {
            vstd::arithmetic::div_mod::lemma_fundamental_div_mod(l - 1, s);
            vstd::arithmetic::div_mod::lemma_mod_bound(l - 1, s);
        }
        assert(bs.take(n) =~= bs);
        assert(items.subrange(0, l) =~= items);
    } else {
        assert(bs =~= Seq::<Seq<usize>>::empty());
        assert(items =~= Seq::<usize>::empty());
    }
}

#[verifier::spinoff_prover]
proof fn lemma_batches_prefix(items: Seq<usize>, s: int, bs: Seq<Seq<usize>>, k: int)
    requires
        s >= 1,
        0 <= k <= bs.len(),
        bs.len() == if items.len() == 0 { 0 } else { (items.len() - 1) / s + 1 },
        forall|k: int| #![trigger bs[k]] 0 <= k < bs.len() ==> bs[k] == items.subrange(
            k * s,
            if (k + 1) * s < items.len() { (k + 1) * s } else { items.len() as int },
        ),
    ensures
        concat_batches(bs.take(k)) == items.subrange(0, if k * s < items.len() { k * s } else { items.len() as int }),
    decreases k,
{
    if k == 0 {
        assert(bs.take(0) =~= Seq::<Seq<usize>>::empty());
        assert(items.subrange(0, 0) =~= Seq::<usize>::empty());
    } else {
        lemma_batches_prefix(items, s, bs, k - 1);
        assert(bs.take(k).drop_last() =~= bs.take(k - 1));
        assert(bs.take(k).last() == bs[k - 1]);
        let l = items.len() as int;
        assert((k - 1) * s < l) by (nonlinear_arith)
            requires
                k <= (l - 1) / s + 1,
                k >= 1,
                s >= 1,
                l >= 1,
        {
            vstd::arithmetic::div_mod::lemma_fundamental_div_mod(l - 1, s);
            vstd::arithmetic::div_mod::lemma_mod_bound(l - 1, s);
        }
        assert(k * s == (k - 1) * s + s) by (nonlinear_arith);
        let lo = (k - 1) * s;
        let hi = if k * s < l { k * s } else { l };
        assert(bs[k - 1] == items.subrange(lo, hi));
        assert(concat_batches(bs.take(k)) == concat_batches(bs.take(k - 1)) + bs[k - 1]);
        assert(items.subrange(0, lo) + items.subrange(lo, hi) =~= items.subrange(0, hi));
    }
}

} // verus!
