//! The decisions and labels of a generate run.
//!
//! The run itself (reading the repository, calling the model, printing)
//! happens outside the library; these functions decide what it does at
//! each step and word what it reports.

use vstd::prelude::*;

use crate::audit::{ConfigSnapshot, RangeSnapshot};
use crate::config::Config;
use crate::models::classification::{Classified, ClassifiedCommit, CONFIDENCE_FULL};
use crate::models::release::{bump_name, scheme_name};
use crate::models::{merge_style_name, MergeStyle, ReleaseKind, VersionBump, VersionScheme};
use crate::text::{
    chars_of, contains, contains_exec, decimal, is_ws, is_ws_exec, push_chars, push_decimal, push_str,
    slice_vec, string_of, trim_end,
};

verus! {

fn trim_end_exec(s: &[char]) -> (r: Vec<char>)
    ensures
        r@ == trim_end(s@),
{
    let mut k: usize = 0;
    while k < s.len() && is_ws_exec(s[s.len() - 1 - k])
        invariant
            k <= s@.len(),
            forall|j: int| s@.len() - k <= j < s@.len() ==> is_ws(#[trigger] s@[j]),
        decreases s@.len() - k,
    {
        k = k + 1;
    }
    proof {
        crate::text::lemma_trail_ws_char(s@, k as int);
    }
    let r = slice_vec(s, 0, s.len() - k);
    proof {
        assert(r@ =~= trim_end(s@));
    }
    r
}

/// A footer appended to notes: the notes without trailing whitespace,
/// a blank line, the footer and a newline; when the notes already hold
/// the footer, just a final newline.
pub open spec fn with_footer(markdown: Seq<char>, footer: Option<Seq<char>>) -> Seq<char> {
    match footer {
        None => markdown,
        Some(f) => {
            let t = trim_end(markdown);
            if contains(t, f) {
                t + "\n"@
            } else {
                t + "\n\n"@ + f + "\n"@
            }
        },
    }
}

/// Whitespace appended to a text that ends in non-whitespace is exactly
/// what trimming its end removes.
pub proof fn lemma_trim_end_appended_ws(s: Seq<char>, w: Seq<char>)
    requires
        s.len() == 0 || !crate::text::is_ws(s.last()),
        forall|i: int| 0 <= i < w.len() ==> crate::text::is_ws(#[trigger] w[i]),
    ensures
        trim_end(s + w) == s,
{
    let x = s + w;
    assert forall|j: int| x.len() - w.len() <= j < x.len() implies crate::text::is_ws(#[trigger] x[j]) by {
        assert(x[j] == w[j - s.len()]);
    }
    if s.len() > 0 {
        assert(x[x.len() - w.len() - 1] == s.last());
    }
    crate::text::lemma_trail_ws_char(x, w.len() as int);
    assert(x.take(x.len() - w.len()) =~= s);
}

/// Adding the footer a second time changes nothing, for a footer without
/// trailing whitespace.
pub proof fn lemma_footer_idempotent(markdown: Seq<char>, f: Seq<char>)
    requires
        trim_end(f) == f,
    ensures
        with_footer(with_footer(markdown, Some(f)), Some(f)) == with_footer(markdown, Some(f)),
{
    let t = trim_end(markdown);
    crate::text::lemma_trail_ws_bound(markdown);
    assert(t.len() == 0 || t.last() == markdown[markdown.len() - crate::text::trail_ws(markdown) - 1]);
    if f.len() > 0 {
        crate::text::lemma_trail_ws_bound(f);
        assert(f.last() == f[f.len() - crate::text::trail_ws(f) - 1]);
    }
    reveal_strlit("\n");
    reveal_strlit("\n\n");
    if contains(t, f) {
        lemma_trim_end_appended_ws(t, "\n"@);
    } else {
        assert(f.len() > 0) by {
            if f.len() == 0 {
                assert(t.subrange(0, 0) =~= f);
                assert(crate::text::occurs_at(t, f, 0));
            }
        }
        let body = t + "\n\n"@ + f;
        assert(body.len() == 0 || !crate::text::is_ws(body.last())) by {
            assert(body.last() == f.last());
        }
        lemma_trim_end_appended_ws(body, "\n"@);
        assert(body + "\n"@ =~= t + "\n\n"@ + f + "\n"@);
        assert(crate::text::occurs_at(body, f, t.len() + 2int)) by {
            assert(body.subrange(t.len() + 2int, t.len() + 2int + f.len()) =~= f);
        }
    }
}

/// Append a footer line to Markdown notes, once.
pub fn append_footer(markdown: String, footer: Option<&str>) -> (r: String)
    ensures
        r@ == with_footer(markdown@, match footer {
            Some(f) => Some(f@),
            None => None,
        }),
{
    match footer {
        None => markdown,
        Some(f) => {
            let t = trim_end_exec(&chars_of(markdown.as_str()));
            let mut out = string_of(&t);
            if contains_exec(&t, &chars_of(f)) {
                push_str(&mut out, "\n");
            } else {
                push_str(&mut out, "\n\n");
                push_str(&mut out, f);
                push_str(&mut out, "\n");
            }
            out
        },
    }
}

/// Whether the model passes run: not turned off, a provider named, and
/// a key present (a local Ollama needs none).
pub fn should_run_llm(no_llm: bool, provider_name: Option<&str>, has_api_key: bool) -> (r: bool)
    ensures
        r == (!no_llm && provider_name is Some && (has_api_key || (provider_name matches Some(n) && n@ == "ollama"@))),
{
    if no_llm {
        return false;
    }
    match provider_name {
        None => false,
        Some(n) => has_api_key || crate::text::eq_str(&chars_of(n), "ollama"),
    }
}

/// How a release kind is shown in the run header.
pub open spec fn release_label_text(kind: ReleaseKind) -> Seq<char> {
    match kind {
        ReleaseKind::Stable => "stable"@,
        ReleaseKind::Prerelease { label } => "prerelease ("@ + label@ + ")"@,
        ReleaseKind::Untagged => "untagged"@,
    }
}

/// The release line of the run header.
pub fn release_label(kind: &ReleaseKind) -> (r: String)
    ensures
        r@ == release_label_text(*kind),
{
    match kind {
        ReleaseKind::Stable => String::from_str("stable"),
        ReleaseKind::Prerelease { label } => {
            let mut out = String::from_str("prerelease (");
            push_str(&mut out, label.as_str());
            push_str(&mut out, ")");
            out
        },
        ReleaseKind::Untagged => String::from_str("untagged"),
    }
}

/// How a version bump is shown in the run header.
pub open spec fn bump_label_text(bump: VersionBump, scheme: Option<VersionScheme>) -> Seq<char> {
    match scheme {
        Some(s) => bump_name(bump) + " ("@ + scheme_name(s) + ")"@,
        None => bump_name(bump),
    }
}

/// The version line of the run header.
pub fn bump_label(bump: VersionBump, scheme: Option<VersionScheme>) -> (r: String)
    ensures
        r@ == bump_label_text(bump, scheme),
{
    let mut out = String::from_str(bump.as_str());
    match scheme {
        Some(s) => {
            push_str(&mut out, " (");
            push_str(&mut out, s.as_str());
            push_str(&mut out, ")");
        },
        None => {},
    }
    out
}

/// How a range is shown in the run header.
pub open spec fn range_label_text(from: Option<&str>, to: &str, n: nat, style: MergeStyle) -> Seq<char> {
    (match from {
        Some(f) => f@,
        None => "(initial)"@,
    }) + ".."@ + to@ + " ("@ + decimal(n) + " commits, "@ + merge_style_name(style) + ")"@
}

/// The range line of the run header.
pub fn range_label(from: Option<&str>, to: &str, n: usize, style: MergeStyle) -> (r: String)
    ensures
        r@ == range_label_text(from, to, n as nat, style),
{
    let mut out = String::from_str(
        match from {
            Some(f) => f,
            None => "(initial)",
        },
    );
    push_str(&mut out, "..");
    push_str(&mut out, to);
    push_str(&mut out, " (");
    let mut d: Vec<char> = Vec::new();
    push_decimal(&mut d, n as u64);
    push_chars(&mut out, &d);
    push_str(&mut out, " commits, ");
    push_str(&mut out, style.as_str());
    push_str(&mut out, ")");
    proof {
        assert(d@ =~= decimal(n as nat));
    }
    out
}

/// How the voice is shown in the run header: the bundled profile's name,
/// else the file name of the voice file (the command line's before the
/// configuration's), else `custom`.
pub open spec fn voice_label_text(
    bundled_name: Option<&str>,
    cli_voice: Option<&str>,
    config_path: Option<&str>,
) -> Seq<char> {
    match bundled_name {
        Some(n) => n@,
        None => {
            let path = match cli_voice {
                Some(p) => Some(p),
                None => config_path,
            };
            match path {
                Some(p) => match crate::ladder::tier0::path_file_name(p@) {
                    Some(n) => n,
                    None => "custom"@,
                },
                None => "custom"@,
            }
        },
    }
}

/// The voice line of the run header.
pub fn voice_label(bundled_name: Option<&str>, cli_voice: Option<&str>, config_path: Option<&str>) -> (r: String)
    ensures
        r@ == voice_label_text(bundled_name, cli_voice, config_path),
{
    match bundled_name {
        Some(n) => String::from_str(n),
        None => {
            let path = match cli_voice {
                Some(p) => Some(p),
                None => config_path,
            };
            match path {
                Some(p) => match crate::ladder::tier0::file_name_of(p) {
                    Some(n) => n,
                    None => String::from_str("custom"),
                },
                None => String::from_str("custom"),
            }
        },
    }
}

/// The merge style reported in the heartbeat: `unknown` when none was
/// detected.
pub fn heartbeat_merge_style(detected: &str) -> (r: String)
    ensures
        r@ == if detected@.len() == 0 { "unknown"@ } else { detected@ },
{
    if detected.is_empty() {
        String::from_str("unknown")
    } else {
        String::from_str(detected)
    }
}

/// How many entries have full confidence.
pub open spec fn full_count(e: Seq<ClassifiedCommit>) -> nat
    decreases e.len(),
{
    if e.len() == 0 {
        0
    } else {
        full_count(e.drop_last()) + if e.last().classification.confidence == CONFIDENCE_FULL { 1nat } else { 0nat }
    }
}

/// How many entries Tier 0 placed with full confidence.
pub fn confident_count(classified: &Classified) -> (r: usize)
    ensures
        r == full_count(classified.0@),
{
    let mut n: usize = 0;
    let mut i: usize = 0;
    while i < classified.0.len()
        invariant
            i <= classified.0@.len(),
            n == full_count(classified.0@.take(i as int)),
            n <= i,
        decreases classified.0@.len() - i,
    {
        proof {
            assert(classified.0@.take(i + 1).drop_last() =~= classified.0@.take(i as int));
        }
        if classified.0[i].classification.confidence == CONFIDENCE_FULL {
            n = n + 1;
        }
        i = i + 1;
    }
    proof {
        assert(classified.0@.take(classified.0@.len() as int) =~= classified.0@);
    }
    n
}

/// `n / d` rounded up.
pub open spec fn ceil_div(n: nat, d: nat) -> nat {
    if d == 0 {
        0
    } else {
        ((n + d - 1) as nat) / d
    }
}

/// The detail of the Tier 1 stage line.
pub open spec fn tier1_detail_text(updated: nat, pending: nat, batch_size: nat) -> Seq<char> {
    let s = if batch_size < 1 { 1 } else { batch_size };
    let b = ceil_div(pending, s);
    decimal(updated) + " of "@ + decimal(pending) + " commit(s) in "@ + decimal(b) + " batch"@ + if b == 1 {
        ""@
    } else {
        "es"@
    }
}

/// The Tier 1 stage line: commits updated, commits sent, batches used.
pub fn tier1_detail(updated: usize, pending: usize, batch_size: usize) -> (r: String)
    ensures
        r@ == tier1_detail_text(updated as nat, pending as nat, batch_size as nat),
{
    let s: usize = if batch_size < 1 { 1 } else { batch_size };
    let q: usize = pending / s;
    if pending % s != 0 {
        assert(q < usize::MAX) by (nonlinear_arith)
            requires
                q == pending / s,
                pending % s != 0,
                s >= 1,
                pending <= usize::MAX,
        {
            vstd::arithmetic::div_mod::lemma_fundamental_div_mod(pending as int, s as int);
        }
    }
    let b: usize = if pending % s == 0 { q } else { q + 1 };
    proof {
        assert(b == ceil_div(pending as nat, s as nat)) by (nonlinear_arith)
            requires
                s >= 1,
                b == pending / s + if pending % s == 0 { 0int } else { 1int },
                b >= 0,
        {
            vstd::arithmetic::div_mod::lemma_fundamental_div_mod(pending as int, s as int);
            vstd::arithmetic::div_mod::lemma_fundamental_div_mod((pending + s - 1) as int, s as int);
            vstd::arithmetic::div_mod::lemma_mod_bound(pending as int, s as int);
            vstd::arithmetic::div_mod::lemma_mod_bound((pending + s - 1) as int, s as int);
        }
    }
    let mut d: Vec<char> = Vec::new();
    push_decimal(&mut d, updated as u64);
    push_str_chars(&mut d, " of ");
    push_decimal(&mut d, pending as u64);
    push_str_chars(&mut d, " commit(s) in ");
    push_decimal(&mut d, b as u64);
    push_str_chars(&mut d, " batch");
    if b != 1 {
        push_str_chars(&mut d, "es");
    }
    proof {
        reveal_strlit("");
        assert(d@ =~= tier1_detail_text(updated as nat, pending as nat, batch_size as nat));
    }
    string_of(&d)
}

fn push_str_chars(out: &mut Vec<char>, s: &str)
    ensures
        final(out)@ == old(out)@ + s@,
{
    let c = chars_of(s);
    let ghost start = out@;
    let mut i: usize = 0;
    while i < c.len()
        invariant
            i <= c@.len(),
            c@ == s@,
            out@ == start + c@.take(i as int),
        decreases c@.len() - i,
    {
        out.push(c[i]);
        i = i + 1;
        proof {
            assert(out@ =~= start + c@.take(i as int));
        }
    }
    proof {
        assert(c@.take(c@.len() as int) =~= c@);
    }
}

/// The detail of a per-commit stage line: `<updated> of <pending>
/// commit(s)` and an optional note.
pub fn stage_detail(updated: usize, pending: usize, note: &str) -> (r: String)
    ensures
        r@ == decimal(updated as nat) + " of "@ + decimal(pending as nat) + " commit(s)"@ + note@,
{
    let mut d: Vec<char> = Vec::new();
    push_decimal(&mut d, updated as u64);
    push_str_chars(&mut d, " of ");
    push_decimal(&mut d, pending as u64);
    push_str_chars(&mut d, " commit(s)");
    push_str_chars(&mut d, note);
    string_of(&d)
}

/// The report of a cleared cache.
pub fn cache_cleared_message(n: usize, root: Option<&str>) -> (r: String)
    ensures
        r@ == "cleared "@ + decimal(n as nat) + " cache entr"@ + (if n == 1 { "y"@ } else { "ies"@ }) + " at "@
            + match root {
            Some(p) => p@,
            None => "(unknown)"@,
        },
{
    let mut d: Vec<char> = Vec::new();
    push_str_chars(&mut d, "cleared ");
    push_decimal(&mut d, n as u64);
    push_str_chars(&mut d, " cache entr");
    push_str_chars(&mut d, if n == 1 { "y" } else { "ies" });
    push_str_chars(&mut d, " at ");
    push_str_chars(
        &mut d,
        match root {
            Some(p) => p,
            None => "(unknown)",
        },
    );
    string_of(&d)
}

/// The audit record of a run's range.
pub fn snapshot_range(
    from: Option<&str>,
    to: &str,
    commit_count: usize,
    style: MergeStyle,
    kind: &ReleaseKind,
    bump: VersionBump,
    scheme: Option<VersionScheme>,
) -> (r: RangeSnapshot)
    ensures
        match (r.from, from) {
            (Some(a), Some(b)) => a@ == b@,
            (None, None) => true,
            _ => false,
        },
        r.to@ == to@,
        r.commit_count == commit_count,
        r.detected_merge_style@ == merge_style_name(style),
        r.prerelease == kind is Prerelease,
        match (r.release_label, *kind) {
            (Some(l), ReleaseKind::Prerelease { label }) => l@ == label@,
            (None, ReleaseKind::Stable) => true,
            (None, ReleaseKind::Untagged) => true,
            _ => false,
        },
        r.version_bump@ == bump_name(bump),
        match (r.version_scheme, scheme) {
            (Some(a), Some(s)) => a@ == scheme_name(s),
            (None, None) => true,
            _ => false,
        },
{
    RangeSnapshot {
        from: match from {
            Some(f) => Some(String::from_str(f)),
            None => None,
        },
        to: String::from_str(to),
        commit_count,
        detected_merge_style: String::from_str(style.as_str()),
        prerelease: kind.is_prerelease(),
        release_label: match kind.label() {
            Some(l) => Some(String::from_str(l)),
            None => None,
        },
        version_bump: String::from_str(bump.as_str()),
        version_scheme: match scheme {
            Some(s) => Some(String::from_str(s.as_str())),
            None => None,
        },
    }
}

/// Entries whose confidence is below `t`.
pub open spec fn below_count(e: Seq<ClassifiedCommit>, t: u32) -> nat
    decreases e.len(),
{
    if e.len() == 0 {
        0
    } else {
        below_count(e.drop_last(), t) + if e.last().classification.confidence < t { 1nat } else { 0nat }
    }
}

/// How many entries have a confidence below `t`.
pub fn count_below(classified: &Classified, t: u32) -> (r: usize)
    ensures
        r == below_count(classified.0@, t),
{
    let mut n: usize = 0;
    let mut i: usize = 0;
    while i < classified.0.len()
        invariant
            i <= classified.0@.len(),
            n == below_count(classified.0@.take(i as int), t),
            n <= i,
        decreases classified.0@.len() - i,
    {
        proof {
            assert(classified.0@.take(i + 1).drop_last() =~= classified.0@.take(i as int));
        }
        if classified.0[i].classification.confidence < t {
            n = n + 1;
        }
        i = i + 1;
    }
    proof {
        assert(classified.0@.take(classified.0@.len() as int) =~= classified.0@);
    }
    n
}

/// The stages of the model pipeline, in order.
#[derive(Debug, Clone, Copy, PartialEq, Eq, Structural)]
pub enum PipelineStage {
    Tier1,
    Tier2,
    Tier3,
    Persist,
    Prose,
    Finished,
}

/// What the runner does at a stage.
#[derive(Debug, Clone, PartialEq, Eq)]
pub enum PipelineAction {
    /// Report the stage as skipped, with the reason.
    Skip { stage: &'static str, reason: String },
    /// Send the `pending` entries below full confidence to Tier 1.
    RunTier1 { pending: usize },
    /// Run Tier 2 over the `pending` entries below the threshold.
    RunTier2 { pending: usize },
    /// Run the agent over the `pending` entries below the threshold.
    RunTier3 { pending: usize },
    /// Store the model-derived classifications in the cache.
    Persist,
    /// Write the notes with the prose pass.
    RunProse,
    /// Nothing is left to do.
    Finish,
}

/// The settings the pipeline's decisions depend on.
#[derive(Debug, Clone, Copy, PartialEq, Eq)]
pub struct PipelineSettings {
    /// Confidence threshold, in thousandths.
    pub threshold: u32,
    /// The agent tier is enabled (flag or configuration).
    pub agent: bool,
    /// A model id is known, so results can be cached.
    pub cache_model: bool,
}

/// `a` is the action at the persist stage or, when caching is off, at
/// the prose stage, with `next` the stage after it.
pub open spec fn persist_step(s: PipelineSettings, e: Seq<ClassifiedCommit>, a: PipelineAction, next: PipelineStage) -> bool {
    if s.cache_model {
        a == PipelineAction::Persist && next == PipelineStage::Prose
    } else {
        prose_step(e, a, next)
    }
}

/// `a` is the action at the prose stage, with `next` the stage after it.
pub open spec fn prose_step(e: Seq<ClassifiedCommit>, a: PipelineAction, next: PipelineStage) -> bool {
    next == PipelineStage::Finished && if e.len() == 0 {
        a matches PipelineAction::Skip { stage, reason } && stage@ == "Prose pass"@ && reason@
            == "no commits to summarize"@
    } else {
        a == PipelineAction::RunProse
    }
}

/// `(a, next)` is the pipeline's step at `stage`: Tier 1 runs when an
/// entry is below full confidence, Tier 2 when one is below the
/// threshold, Tier 3 (when enabled) when one still is, then the cache is
/// written (when a model id is known) and the prose pass runs when there
/// are entries. A stage with nothing to do is reported skipped.
pub open spec fn pipeline_next(
    stage: PipelineStage,
    s: PipelineSettings,
    e: Seq<ClassifiedCommit>,
    a: PipelineAction,
    next: PipelineStage,
) -> bool {
    match stage {
        PipelineStage::Tier1 => next == PipelineStage::Tier2 && if below_count(e, CONFIDENCE_FULL) == 0 {
            a matches PipelineAction::Skip { stage, reason } && stage@ == "Tier 1 batched LLM"@ && reason@
                == "no commits below confidence 1.0"@
        } else {
            a == PipelineAction::RunTier1 { pending: below_count(e, CONFIDENCE_FULL) as usize }
        },
        PipelineStage::Tier2 => next == PipelineStage::Tier3 && if below_count(e, s.threshold) == 0 {
            a matches PipelineAction::Skip { stage, reason } && stage@ == "Tier 2 per-commit"@ && reason@
                == "none below threshold "@ + crate::prompt_dump::fraction_text(s.threshold as nat)
        } else {
            a == PipelineAction::RunTier2 { pending: below_count(e, s.threshold) as usize }
        },
        PipelineStage::Tier3 => if !s.agent {
            persist_step(s, e, a, next)
        } else {
            next == PipelineStage::Persist && if below_count(e, s.threshold) == 0 {
                a matches PipelineAction::Skip { stage, reason } && stage@ == "Tier 3 agentic"@ && reason@
                    == "nothing left to classify"@
            } else {
                a == PipelineAction::RunTier3 { pending: below_count(e, s.threshold) as usize }
            }
        },
        PipelineStage::Persist => persist_step(s, e, a, next),
        PipelineStage::Prose => prose_step(e, a, next),
        PipelineStage::Finished => a == PipelineAction::Finish && next == PipelineStage::Finished,
    }
}

fn prose_action(classified: &Classified) -> (r: (PipelineAction, PipelineStage))
    ensures
        prose_step(classified.0@, r.0, r.1),
{
    if classified.0.len() == 0 {
        (PipelineAction::Skip { stage: "Prose pass", reason: String::from_str("no commits to summarize") }, PipelineStage::Finished)
    } else {
        (PipelineAction::RunProse, PipelineStage::Finished)
    }
}

fn persist_action(s: &PipelineSettings, classified: &Classified) -> (r: (PipelineAction, PipelineStage))
    ensures
        persist_step(*s, classified.0@, r.0, r.1),
{
    if s.cache_model {
        (PipelineAction::Persist, PipelineStage::Prose)
    } else {
        prose_action(classified)
    }
}

/// The model pipeline's step at `stage` (see [`pipeline_next`]): what to
/// do there and the stage that follows. The runner performs the action
/// (updating `classified`) and calls again with the next stage until
/// [`PipelineAction::Finish`].
pub fn pipeline_step(stage: PipelineStage, s: &PipelineSettings, classified: &Classified) -> (r: (PipelineAction, PipelineStage))
    ensures
        pipeline_next(stage, *s, classified.0@, r.0, r.1),
{
    match stage {
        PipelineStage::Tier1 => {
            let p = count_below(classified, CONFIDENCE_FULL);
            if p == 0 {
                (
                    PipelineAction::Skip { stage: "Tier 1 batched LLM", reason: String::from_str("no commits below confidence 1.0") },
                    PipelineStage::Tier2,
                )
            } else {
                (PipelineAction::RunTier1 { pending: p }, PipelineStage::Tier2)
            }
        },
        PipelineStage::Tier2 => {
            let p = count_below(classified, s.threshold);
            if p == 0 {
                let mut reason = String::from_str("none below threshold ");
                crate::prompt_dump::push_fraction(&mut reason, s.threshold);
                (PipelineAction::Skip { stage: "Tier 2 per-commit", reason }, PipelineStage::Tier3)
            } else {
                (PipelineAction::RunTier2 { pending: p }, PipelineStage::Tier3)
            }
        },
        PipelineStage::Tier3 => {
            if !s.agent {
                return persist_action(s, classified);
            }
            let p = count_below(classified, s.threshold);
            if p == 0 {
                (
                    PipelineAction::Skip { stage: "Tier 3 agentic", reason: String::from_str("nothing left to classify") },
                    PipelineStage::Persist,
                )
            } else {
                (PipelineAction::RunTier3 { pending: p }, PipelineStage::Persist)
            }
        },
        PipelineStage::Persist => persist_action(s, classified),
        PipelineStage::Prose => prose_action(classified),
        PipelineStage::Finished => (PipelineAction::Finish, PipelineStage::Finished),
    }
}

/// Each step moves on: from any stage but the last, the stage that
/// follows comes later in the order, so the runner ends after at most
/// six steps.
pub open spec fn stage_rank(s: PipelineStage) -> nat {
    match s {
        PipelineStage::Tier1 => 0,
        PipelineStage::Tier2 => 1,
        PipelineStage::Tier3 => 2,
        PipelineStage::Persist => 3,
        PipelineStage::Prose => 4,
        PipelineStage::Finished => 5,
    }
}

/// The pipeline always advances until it finishes, and it finishes with
/// nothing more to do.
pub proof fn lemma_pipeline_advances(
    stage: PipelineStage,
    s: PipelineSettings,
    e: Seq<ClassifiedCommit>,
    a: PipelineAction,
    next: PipelineStage,
)
    requires
        pipeline_next(stage, s, e, a, next),
    ensures
        stage != PipelineStage::Finished ==> stage_rank(next) > stage_rank(stage),
        stage == PipelineStage::Finished ==> a == PipelineAction::Finish && next == PipelineStage::Finished,
        a == PipelineAction::Finish ==> stage == PipelineStage::Finished,
{
}

/// Tier 2 and Tier 3 only run over entries below the threshold, and
/// only when there are some; an empty range never reaches the prose
/// pass.
pub proof fn lemma_pipeline_runs_only_with_work(
    stage: PipelineStage,
    s: PipelineSettings,
    e: Seq<ClassifiedCommit>,
    a: PipelineAction,
    next: PipelineStage,
)
    requires
        pipeline_next(stage, s, e, a, next),
        e.len() <= usize::MAX,
    ensures
        a matches PipelineAction::RunTier1 { pending } ==> pending > 0,
        a matches PipelineAction::RunTier2 { pending } ==> pending > 0,
        a matches PipelineAction::RunTier3 { pending } ==> pending > 0 && s.agent,
        a == PipelineAction::RunProse ==> e.len() > 0,
{
    lemma_below_count_bound(e, CONFIDENCE_FULL);
    lemma_below_count_bound(e, s.threshold);
}

proof fn lemma_below_count_bound(e: Seq<ClassifiedCommit>, t: u32)
    ensures
        below_count(e, t) <= e.len(),
    decreases e.len(),
{
    if e.len() > 0 {
        lemma_below_count_bound(e.drop_last(), t);
    }
}

/// The audit record of a run's configuration; no secrets.
pub fn snapshot_config(cfg: &Config) -> (r: ConfigSnapshot)
    ensures
        r.provider == cfg.provider.name,
        r.model == cfg.provider.model,
        r.agent_fallback == cfg.ladder.agent_fallback,
        r.max_diff_tokens == cfg.ladder.max_diff_tokens,
        r.confidence_threshold == cfg.ladder.confidence_threshold,
        r.batch_size == cfg.ladder.batch_size,
        r.merge_style_override is None,
{
    ConfigSnapshot {
        provider: crate::models::clone_opt_string(&cfg.provider.name),
        model: crate::models::clone_opt_string(&cfg.provider.model),
        agent_fallback: cfg.ladder.agent_fallback,
        max_diff_tokens: cfg.ladder.max_diff_tokens,
        confidence_threshold: cfg.ladder.confidence_threshold,
        batch_size: cfg.ladder.batch_size,
        merge_style_override: None,
    }
}

/// The `**Full Changelog**` line of a compare link.
pub open spec fn changelog_line(url: Seq<char>) -> Seq<char> {
    "**Full Changelog**: "@ + url
}

/// The notes of a run: the prose pass's Markdown with the compare-link
/// footer appended once; without prose, the plain rendering headed for
/// the release, closed by the compare link.
pub open spec fn notes_of(
    prose: Option<Seq<char>>,
    classified: Classified,
    kind: ReleaseKind,
    compare_url: Option<Seq<char>>,
) -> Seq<char> {
    let footer = match compare_url {
        Some(u) => Some(changelog_line(u)),
        None => None,
    };
    match prose {
        Some(md) => with_footer(md, footer),
        None => crate::output::markdown::rendered(
            classified.0@,
            Some(match kind {
                ReleaseKind::Prerelease { label } => "Prerelease Notes \u{2014} "@ + label@,
                _ => crate::output::markdown::DEFAULT_HEADER@,
            }),
            footer,
        ),
    }
}

/// The release notes of a run (see [`notes_of`]).
pub fn notes_markdown(prose: Option<String>, classified: &Classified, kind: &ReleaseKind, compare_url: Option<&str>) -> (r: String)
    ensures
        r@ == notes_of(
            match prose {
                Some(p) => Some(p@),
                None => None,
            },
            *classified,
            *kind,
            match compare_url {
                Some(u) => Some(u@),
                None => None,
            },
        ),
{
    let footer = match compare_url {
        Some(u) => {
            let mut f = String::from_str("**Full Changelog**: ");
            push_str(&mut f, u);
            Some(f)
        },
        None => None,
    };
    match prose {
        Some(md) => match &footer {
            Some(f) => append_footer(md, Some(f.as_str())),
            None => append_footer(md, None),
        },
        None => {
            let mut opts = crate::output::markdown::RenderOptions::for_release(kind);
            opts.footer = footer;
            crate::output::markdown::render(classified, &opts)
        },
    }
}

/// The Tier 0 stage line: entries placed with full confidence, of all.
pub fn tier0_detail(confident: usize, total: usize) -> (r: String)
    ensures
        r@ == decimal(confident as nat) + "/"@ + decimal(total as nat) + " placed"@,
{
    let mut d: Vec<char> = Vec::new();
    push_decimal(&mut d, confident as u64);
    push_str_chars(&mut d, "/");
    push_decimal(&mut d, total as u64);
    push_str_chars(&mut d, " placed");
    string_of(&d)
}

/// The PR-enrichment stage line, and whether it is a warning: some
/// lookups failed (with the first failure), or how many commits gained
/// PR data.
pub fn enrichment_detail(outcome: &crate::enrichment::EnrichOutcome, commit_count: usize) -> (r: (bool, String))
    ensures
        r.0 == (outcome.failed > 0),
        outcome.failed > 0 ==> r.1@ == decimal(outcome.enriched as nat) + " ok / "@ + decimal(outcome.failed as nat)
            + " failed (first: "@ + match outcome.first_error {
            Some(e) => e@,
            None => "?"@,
        } + ")"@,
        outcome.failed == 0 ==> r.1@ == decimal(outcome.enriched as nat) + " of "@ + decimal(commit_count as nat)
            + " commit(s) enriched"@,
{
    let mut d: Vec<char> = Vec::new();
    push_decimal(&mut d, outcome.enriched as u64);
    if outcome.failed > 0 {
        push_str_chars(&mut d, " ok / ");
        push_decimal(&mut d, outcome.failed as u64);
        push_str_chars(&mut d, " failed (first: ");
        match &outcome.first_error {
            Some(e) => push_str_chars(&mut d, e.as_str()),
            None => push_str_chars(&mut d, "?"),
        }
        push_str_chars(&mut d, ")");
        (true, string_of(&d))
    } else {
        push_str_chars(&mut d, " of ");
        push_decimal(&mut d, commit_count as u64);
        push_str_chars(&mut d, " commit(s) enriched");
        (false, string_of(&d))
    }
}

} // verus!
