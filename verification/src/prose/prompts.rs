//! The system and user prompts of the prose pass.

use vstd::prelude::*;

use crate::models::classification::{derefs, grouped, section_header, Section};
use crate::models::release::{bump_name, scheme_name};
use crate::models::{
    merge_style_name, Classified, ClassificationSource, ClassifiedCommit, MergeStyle, ReleaseKind,
    VersionBump, VersionScheme,
};
use crate::progress::{one_decimal, tenths_half_even};
use crate::project::{truncate, truncated};
use crate::prompts::{bump_text, comma_joined, join_comma, PRERELEASE_TEMPLATE};
use crate::split::{lines, lines_exec};
use crate::text::{chars_of, decimal, push_chars, push_decimal, push_str, replace_all, trim, trim_exec, views};
use crate::voice::Voice;

verus! {

/// Commit-body characters shown under rich context.
pub const COMMIT_BODY_PREVIEW: usize = 600;

/// PR-body characters shown under rich context.
pub const PR_BODY_PREVIEW: usize = 1000;

/// `"\n\n" + t` when `t` is present.
pub open spec fn addendum(t: Option<Seq<char>>) -> Seq<char> {
    match t {
        Some(x) => "\n\n"@ + x,
        None => seq![],
    }
}

/// A user-supplied piece, trimmed, when not blank.
pub open spec fn user_piece(p: Option<&str>) -> Option<Seq<char>> {
    match p {
        Some(x) => if trim(x@).len() > 0 { Some(trim(x@)) } else { None },
        None => None,
    }
}

/// Voice, then the bump addendum, then the prerelease addendum, then the
/// TOML extra instructions, then the inline prompt, separated by blank
/// lines; blank user pieces are skipped.
pub open spec fn system_prompt(
    voice: Voice,
    extra: Option<&str>,
    inline: Option<&str>,
    kind: ReleaseKind,
    bump: VersionBump,
    scheme: Option<VersionScheme>,
) -> Seq<char> {
    voice.system_prompt@ + addendum(bump_text(bump, scheme)) + addendum(
        match kind {
            ReleaseKind::Prerelease { label } => Some(replace_all(PRERELEASE_TEMPLATE@, "{label}"@, label@)),
            _ => None,
        },
    ) + addendum(user_piece(extra)) + addendum(user_piece(inline))
}

fn push_piece(out: &mut String, p: Option<&str>)
    ensures
        final(out)@ == old(out)@ + addendum(user_piece(p)),
{
    match p {
        Some(x) => {
            let t = trim_exec(&chars_of(x));
            if t.len() > 0 {
                push_str(out, "\n\n");
                push_chars(out, &t);
            }
        },
        None => {},
    }
}

/// Build the system prompt of the prose pass.
pub fn build_system_prompt(
    voice: &Voice,
    extra_instructions: Option<&str>,
    inline_prompt: Option<&str>,
    release_kind: &ReleaseKind,
    bump: VersionBump,
    scheme: Option<VersionScheme>,
) -> (r: String)
    ensures
        r@ == system_prompt(*voice, extra_instructions, inline_prompt, *release_kind, bump, scheme),
{
    let mut out = voice.system_prompt.clone();
    match crate::prompts::bump_addendum(bump, scheme) {
        Some(a) => {
            push_str(&mut out, "\n\n");
            push_str(&mut out, a);
        },
        None => {},
    }
    match release_kind {
        ReleaseKind::Prerelease { label } => {
            push_str(&mut out, "\n\n");
            let p = crate::prompts::prerelease_addendum(label.as_str());
            push_str(&mut out, p.as_str());
        },
        _ => {},
    }
    push_piece(&mut out, extra_instructions);
    push_piece(&mut out, inline_prompt);
    out
}

/// Short tag of a classification source.
pub open spec fn source_name(s: ClassificationSource) -> Seq<char> {
    match s {
        ClassificationSource::Conventional => "conv"@,
        ClassificationSource::FilesHeuristic { .. } => "files"@,
        ClassificationSource::Default => "default"@,
        ClassificationSource::BatchedLlm => "llm-batch"@,
        ClassificationSource::PerCommitLlm => "llm-per-commit"@,
        ClassificationSource::Agentic => "llm-agent"@,
    }
}

pub fn source_tag(source: &ClassificationSource) -> (r: &'static str)
    ensures
        r@ == source_name(*source),
{
    match source {
        ClassificationSource::Conventional => "conv",
        ClassificationSource::FilesHeuristic { .. } => "files",
        ClassificationSource::Default => "default",
        ClassificationSource::BatchedLlm => "llm-batch",
        ClassificationSource::PerCommitLlm => "llm-per-commit",
        ClassificationSource::Agentic => "llm-agent",
    }
}

/// `    <line>` per line, each ending in a newline.
pub open spec fn indented_lines(ls: Seq<Seq<char>>) -> Seq<char>
    decreases ls.len(),
{
    if ls.len() == 0 {
        seq![]
    } else {
        indented_lines(ls.drop_last()) + "    "@ + ls.last() + "\n"@
    }
}

/// A labelled block under a bullet; nothing when the body is blank.
pub open spec fn indented_block(label: Seq<char>, body: Seq<char>) -> Seq<char> {
    let b = trim(body);
    if b.len() == 0 {
        seq![]
    } else {
        "  "@ + label + ":\n"@ + indented_lines(lines(b))
    }
}

fn push_indented_block(out: &mut String, label: &str, body: &str)
    ensures
        final(out)@ == old(out)@ + indented_block(label@, body@),
{
    let b = trim_exec(&chars_of(body));
    if b.len() == 0 {
        return;
    }
    push_str(out, "  ");
    push_str(out, label);
    push_str(out, ":\n");
    let ls = lines_exec(&b);
    let ghost all = views(ls@);
    let ghost start = out@;
    let mut i: usize = 0;
    while i < ls.len()
        invariant
            i <= ls@.len(),
            all == views(ls@),
            out@ == start + indented_lines(all.take(i as int)),
        decreases ls@.len() - i,
    {
        proof {
            assert(all.take(i + 1).drop_last() =~= all.take(i as int));
            assert(all.take(i + 1).last() == ls@[i as int]@);
        }
        push_str(out, "    ");
        push_chars(out, &ls[i]);
        push_str(out, "\n");
        i = i + 1;
    }
    proof {
        assert(all.take(ls@.len() as int) =~= all);
    }
}

/// The bullet line of one entry: summary, source tag, confidence and PR id.
pub open spec fn entry_head(e: ClassifiedCommit) -> Seq<char> {
    let c = e.classification;
    "- "@ + trim(c.summary@) + "  ["@ + source_name(c.source) + ", conf="@ + one_decimal(
        tenths_half_even(c.confidence as nat, 1000),
    ) + "]"@ + (match e.commit.pr_id {
        Some(n) => "  (#"@ + decimal(n as nat) + ")"@,
        None => seq![],
    }) + "\n"@
}

/// The PR line of one entry, when a PR is attached.
pub open spec fn entry_pr_line(e: ClassifiedCommit) -> Seq<char> {
    match e.pr {
        Some(pr) => "  PR #"@ + decimal(pr.number as nat) + ": "@ + pr.title@ + (if pr.labels@.len() > 0 {
            "  labels: "@ + comma_joined(crate::text::string_views(pr.labels@))
        } else {
            seq![]
        }) + "\n"@,
        None => seq![],
    }
}

/// The body blocks of one entry under rich context.
pub open spec fn entry_rich(e: ClassifiedCommit, rich: bool) -> Seq<char> {
    if rich {
        indented_block("commit-body"@, truncated(e.commit.body@, COMMIT_BODY_PREVIEW as nat)) + match e.pr {
            Some(pr) => indented_block("pr-body"@, truncated(pr.body@, PR_BODY_PREVIEW as nat)),
            None => seq![],
        }
    } else {
        seq![]
    }
}

/// The bullet of one entry, with its PR line and, under rich context,
/// its body blocks.
pub open spec fn entry_text(e: ClassifiedCommit, rich: bool) -> Seq<char> {
    entry_head(e) + entry_pr_line(e) + entry_rich(e, rich)
}

fn push_dec(out: &mut String, n: u64)
    ensures
        final(out)@ == old(out)@ + decimal(n as nat),
{
    let mut d: Vec<char> = Vec::new();
    push_decimal(&mut d, n);
    proof {
        assert(d@ =~= decimal(n as nat));
    }
    push_chars(out, &d);
}

fn push_conf(out: &mut String, c: u32)
    ensures
        final(out)@ == old(out)@ + one_decimal(tenths_half_even(c as nat, 1000)),
{
    let num = c as u64;
    let q = (num * 10) / 1000;
    let r = (num * 10) % 1000;
    let t = if 2 * r > 1000 || (2 * r == 1000 && q % 2 == 1) { q + 1 } else { q };
    push_dec(out, t / 10);
    push_str(out, ".");
    push_dec(out, t % 10);
    proof {
        reveal_strlit(".");
        assert(seq!['.'] =~= "."@);
    }
}

fn push_entry_head(out: &mut String, entry: &ClassifiedCommit)
    ensures
        final(out)@ == old(out)@ + entry_head(*entry),
{
    let ghost start = out@;
    let c = &entry.classification;
    push_str(out, "- ");
    push_chars(out, &trim_exec(&chars_of(c.summary.as_str())));
    push_str(out, "  [");
    push_str(out, source_tag(&c.source));
    push_str(out, ", conf=");
    push_conf(out, c.confidence);
    push_str(out, "]");
    match entry.commit.pr_id {
        Some(n) => {
            push_str(out, "  (#");
            push_dec(out, n);
            push_str(out, ")");
        },
        None => {},
    }
    push_str(out, "\n");
    proof {
        assert(out@ =~= start + entry_head(*entry));
    }
}

fn push_entry_pr_line(out: &mut String, entry: &ClassifiedCommit)
    ensures
        final(out)@ == old(out)@ + entry_pr_line(*entry),
{
    let ghost start = out@;
    match &entry.pr {
        Some(pr) => {
            push_str(out, "  PR #");
            push_dec(out, pr.number);
            push_str(out, ": ");
            push_str(out, pr.title.as_str());
            if pr.labels.len() > 0 {
                push_str(out, "  labels: ");
                let j = join_comma(&pr.labels);
                push_str(out, j.as_str());
            }
            push_str(out, "\n");
        },
        None => {},
    }
    proof {
        assert(out@ =~= start + entry_pr_line(*entry));
    }
}

fn push_entry_rich(out: &mut String, entry: &ClassifiedCommit, rich_context: bool)
    ensures
        final(out)@ == old(out)@ + entry_rich(*entry, rich_context),
{
    let ghost start = out@;
    if rich_context {
        let b = truncate(entry.commit.body.as_str(), COMMIT_BODY_PREVIEW);
        push_indented_block(out, "commit-body", b.as_str());
        match &entry.pr {
            Some(pr) => {
                let pb = truncate(pr.body.as_str(), PR_BODY_PREVIEW);
                push_indented_block(out, "pr-body", pb.as_str());
            },
            None => {},
        }
    }
    proof {
        assert(out@ =~= start + entry_rich(*entry, rich_context));
    }
}

fn push_entry(out: &mut String, entry: &ClassifiedCommit, rich_context: bool)
    ensures
        final(out)@ == old(out)@ + entry_text(*entry, rich_context),
{
    let ghost start = out@;
    push_entry_head(out, entry);
    push_entry_pr_line(out, entry);
    push_entry_rich(out, entry, rich_context);
    proof {
        assert(out@ =~= start + entry_text(*entry, rich_context));
    }
}

/// The entries of a group, one bullet each.
pub open spec fn entries_text(es: Seq<ClassifiedCommit>, rich: bool) -> Seq<char>
    decreases es.len(),
{
    if es.len() == 0 {
        seq![]
    } else {
        entries_text(es.drop_last(), rich) + entry_text(es.last(), rich)
    }
}

/// One `## Header` block: the header line, the entries, a blank line.
pub open spec fn group_text(section: Section, entries: Seq<ClassifiedCommit>, rich: bool) -> Seq<char> {
    "## "@ + section_header(section) + "\n"@ + entries_text(entries, rich) + "\n"@
}

/// One `## Header` block per group.
pub open spec fn groups_text(gs: Seq<(Section, Seq<ClassifiedCommit>)>, rich: bool) -> Seq<char>
    decreases gs.len(),
{
    if gs.len() == 0 {
        seq![]
    } else {
        groups_text(gs.drop_last(), rich) + group_text(gs.last().0, gs.last().1, rich)
    }
}

proof fn lemma_groups_text_step(gs: Seq<(Section, Seq<ClassifiedCommit>)>, i: int, rich: bool)
    requires
        0 <= i < gs.len(),
    ensures
        groups_text(gs.take(i + 1), rich) == groups_text(gs.take(i), rich) + group_text(gs[i].0, gs[i].1, rich),
{
    assert(gs.take(i + 1).drop_last() =~= gs.take(i));
    assert(gs.take(i + 1).last() == gs[i]);
}

/// The release line of the user prompt.
pub open spec fn kind_line(kind: ReleaseKind) -> Seq<char> {
    match kind {
        ReleaseKind::Prerelease { label } => "Release kind: prerelease ("@ + label@ + ").\n\n"@,
        ReleaseKind::Stable => "Release kind: stable.\n\n"@,
        ReleaseKind::Untagged => "Release kind: preview (no release tag at the upper bound).\n\n"@,
    }
}

/// The closing instruction of the user prompt.
pub const USER_PROMPT_CLOSING: &'static str = "Write release notes in your configured voice. Output GitHub-flavored Markdown only. Use the section names above as `### Section Name` headers and skip empty sections. Do not invent entries that aren't in the list above. Do not include a top-level title or a `## What's Changed` wrapper.\n";

/// The first line of the user prompt: the range and the commit count.
pub open spec fn range_line(n: nat, from: Option<&str>, to: &str) -> Seq<char> {
    let range = match from {
        Some(f) => f@ + ".."@ + to@,
        None => to@,
    };
    "Generate release notes for the range `"@ + range + "` ("@ + decimal(n) + " commits).\n\n"@
}

/// The merge style, bump and scheme lines of the user prompt.
pub open spec fn meta_lines(style: MergeStyle, bump: VersionBump, scheme: Option<VersionScheme>) -> Seq<char> {
    "Detected merge style: "@ + merge_style_name(style) + ".\n"@ + "Version bump: "@ + bump_name(bump) + ".\n"@
        + (match scheme {
        Some(s) => "Version scheme: "@ + scheme_name(s) + ".\n"@,
        None => seq![],
    })
}

/// The head of the user prompt: range and count, merge style, bump,
/// scheme and release kind.
pub open spec fn prompt_head(
    n: nat,
    from: Option<&str>,
    to: &str,
    style: MergeStyle,
    kind: ReleaseKind,
    bump: VersionBump,
    scheme: Option<VersionScheme>,
) -> Seq<char> {
    range_line(n, from, to) + meta_lines(style, bump, scheme) + kind_line(kind)
}

/// The user prompt: the head, then the entries grouped by section in
/// display order (or a no-commits line), then the closing instruction.
pub open spec fn user_prompt(
    classified: Classified,
    from: Option<&str>,
    to: &str,
    style: MergeStyle,
    kind: ReleaseKind,
    bump: VersionBump,
    scheme: Option<VersionScheme>,
    rich: bool,
) -> Seq<char> {
    let head = prompt_head(classified.0@.len(), from, to, style, kind, bump, scheme);
    if classified.0@.len() == 0 {
        head + "No commits in range.\n"@
    } else {
        head + "Commits, grouped by section:\n\n"@ + groups_text(grouped(classified.0@), rich)
            + USER_PROMPT_CLOSING@
    }
}

fn push_group(out: &mut String, section: Section, entries: &Vec<&ClassifiedCommit>, rich: bool)
    ensures
        final(out)@ == old(out)@ + group_text(section, derefs(entries@), rich),
{
    let ghost start = out@;
    push_str(out, "## ");
    push_str(out, section.header());
    push_str(out, "\n");
    let ghost all = derefs(entries@);
    let ghost base = out@;
    let mut i: usize = 0;
    while i < entries.len()
        invariant
            i <= entries@.len(),
            all == derefs(entries@),
            out@ == base + entries_text(all.take(i as int), rich),
        decreases entries@.len() - i,
    {
        proof {
            assert(all.take(i + 1).drop_last() =~= all.take(i as int));
            assert(all.take(i + 1).last() == *entries@[i as int]);
        }
        push_entry(out, entries[i], rich);
        i = i + 1;
    }
    proof {
        assert(all.take(entries@.len() as int) =~= all);
    }
    push_str(out, "\n");
    proof {
        assert(out@ =~= start + group_text(section, derefs(entries@), rich));
    }
}

fn push_range_line(out: &mut String, n: usize, from_ref: Option<&str>, to_ref: &str)
    ensures
        final(out)@ == old(out)@ + range_line(n as nat, from_ref, to_ref),
{
    let ghost start = out@;
    push_str(out, "Generate release notes for the range `");
    match from_ref {
        Some(f) => {
            push_str(out, f);
            push_str(out, "..");
            push_str(out, to_ref);
        },
        None => push_str(out, to_ref),
    }
    push_str(out, "` (");
    push_dec(out, n as u64);
    push_str(out, " commits).\n\n");
    proof {
        assert(out@ =~= start + range_line(n as nat, from_ref, to_ref));
    }
}

fn push_meta_lines(out: &mut String, merge_style: MergeStyle, bump: VersionBump, scheme: Option<VersionScheme>)
    ensures
        final(out)@ == old(out)@ + meta_lines(merge_style, bump, scheme),
{
    let ghost start = out@;
    push_str(out, "Detected merge style: ");
    push_str(out, merge_style.as_str());
    push_str(out, ".\n");
    push_str(out, "Version bump: ");
    push_str(out, bump.as_str());
    push_str(out, ".\n");
    match scheme {
        Some(s) => {
            push_str(out, "Version scheme: ");
            push_str(out, s.as_str());
            push_str(out, ".\n");
        },
        None => {},
    }
    proof {
        assert(out@ =~= start + meta_lines(merge_style, bump, scheme));
    }
}

fn push_kind_line(out: &mut String, release_kind: &ReleaseKind)
    ensures
        final(out)@ == old(out)@ + kind_line(*release_kind),
{
    let ghost start = out@;
    match release_kind {
        ReleaseKind::Prerelease { label } => {
            push_str(out, "Release kind: prerelease (");
            push_str(out, label.as_str());
            push_str(out, ").\n\n");
        },
        ReleaseKind::Stable => push_str(out, "Release kind: stable.\n\n"),
        ReleaseKind::Untagged => push_str(out, "Release kind: preview (no release tag at the upper bound).\n\n"),
    }
    proof {
        assert(out@ =~= start + kind_line(*release_kind));
    }
}

fn push_groups(out: &mut String, classified: &Classified, rich_context: bool)
    ensures
        final(out)@ == old(out)@ + groups_text(grouped(classified.0@), rich_context),
{
    let groups = classified.group_by_section();
    let ghost gs = grouped(classified.0@);
    let ghost base = out@;
    let mut i: usize = 0;
    proof {
        assert(gs.take(0) =~= Seq::<(Section, Seq<ClassifiedCommit>)>::empty());
    }
    while i < groups.len()
        invariant
            i <= groups@.len(),
            gs == grouped(classified.0@),
            groups@.len() == gs.len(),
            forall|k: int|
                0 <= k < groups@.len() ==> #[trigger] groups@[k].0 == gs[k].0 && derefs(groups@[k].1@) == gs[k].1,
            out@ == base + groups_text(gs.take(i as int), rich_context),
        decreases groups@.len() - i,
    {
        proof {
            lemma_groups_text_step(gs, i as int, rich_context);
            assert(groups@[i as int].0 == gs[i as int].0);
            assert(derefs(groups@[i as int].1@) == gs[i as int].1);
        }
        push_group(out, groups[i].0, &groups[i].1, rich_context);
        i = i + 1;
    }
    proof {
        assert(gs.take(groups@.len() as int) =~= gs);
    }
}

/// Build the user prompt of the prose pass.
pub fn build_user_prompt(
    classified: &Classified,
    from_ref: Option<&str>,
    to_ref: &str,
    merge_style: MergeStyle,
    release_kind: &ReleaseKind,
    bump: VersionBump,
    scheme: Option<VersionScheme>,
    rich_context: bool,
) -> (r: String)
    ensures
        r@ == user_prompt(*classified, from_ref, to_ref, merge_style, *release_kind, bump, scheme, rich_context),
{
    let mut out = String::new();
    let ghost start = out@;
    push_range_line(&mut out, classified.len(), from_ref, to_ref);
    push_meta_lines(&mut out, merge_style, bump, scheme);
    push_kind_line(&mut out, release_kind);
    proof {
        assert(out@ =~= start + prompt_head(classified.0@.len(), from_ref, to_ref, merge_style, *release_kind, bump, scheme));
    }
    if classified.is_empty() {
        push_str(&mut out, "No commits in range.\n");
        return out;
    }
    push_str(&mut out, "Commits, grouped by section:\n\n");
    push_groups(&mut out, classified, rich_context);
    push_str(&mut out, USER_PROMPT_CLOSING);
    out
}

} // verus!
