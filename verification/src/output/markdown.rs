//! The section-grouped Markdown renderer.
//!
//! It gives plain release notes from the classification alone, without
//! a model: a header, one `###` block per section in display order, a
//! bullet per commit, and an optional footer.

use vstd::prelude::*;

use crate::models::classification::{
    derefs, entries_in, grouped, grouped_upto, in_section, section_at, section_header, section_order, Classified,
    ClassifiedCommit, Section, SECTION_COUNT,
};
use crate::models::ReleaseKind;
use crate::text::{chars_of, contains, contains_exec, decimal, push_chars, push_decimal, push_str, trim, trim_exec};

verus! {

/// What the renderer writes around the sections.
#[derive(Debug, Clone)]
pub struct RenderOptions {
    /// A `## ` header line; `None` writes only the section headers.
    pub header: Option<String>,
    /// A closing line such as a link to the full changelog.
    pub footer: Option<String>,
}

/// The default header.
pub const DEFAULT_HEADER: &'static str = "What's Changed";

impl Default for RenderOptions {
    fn default() -> (r: Self)
        ensures
            r.header matches Some(h) && h@ == DEFAULT_HEADER@,
            r.footer is None,
    {
        RenderOptions { header: Some(String::from_str(DEFAULT_HEADER)), footer: None }
    }
}

impl RenderOptions {
    /// The options for a release: a prerelease is headed
    /// `Prerelease Notes — <label>`; other releases take the defaults.
    pub fn for_release(release_kind: &ReleaseKind) -> (r: Self)
        ensures
            r.footer is None,
            match release_kind {
                ReleaseKind::Prerelease { label } => r.header matches Some(h) && h@ == "Prerelease Notes \u{2014} "@
                    + label@,
                _ => r.header matches Some(h) && h@ == DEFAULT_HEADER@,
            },
    {
        match release_kind {
            ReleaseKind::Prerelease { label } => {
                let mut h = String::from_str("Prerelease Notes \u{2014} ");
                push_str(&mut h, label.as_str());
                RenderOptions { header: Some(h), footer: None }
            },
            _ => RenderOptions::default(),
        }
    }
}

/// The `(#id)` marker of a PR.
pub open spec fn pr_marker(id: u64) -> Seq<char> {
    "(#"@ + decimal(id as nat) + ")"@
}

/// The text of one bullet: the trimmed summary, with ` (#id)` appended
/// when the commit names a PR the summary does not mention yet.
pub open spec fn bullet_text(e: ClassifiedCommit) -> Seq<char> {
    let s = trim(e.classification.summary@);
    match e.commit.pr_id {
        Some(id) => if contains(s, pr_marker(id)) {
            s
        } else {
            s + " "@ + pr_marker(id)
        },
        None => s,
    }
}

/// The bullet body of one entry, without the leading dash.
pub fn format_bullet(entry: &ClassifiedCommit) -> (r: String)
    ensures
        r@ == bullet_text(*entry),
{
    let s = trim_exec(&chars_of(entry.classification.summary.as_str()));
    let mut out = crate::text::string_of(&s);
    match entry.commit.pr_id {
        Some(id) => {
            let mut m: Vec<char> = Vec::new();
            m.push('(');
            m.push('#');
            push_decimal(&mut m, id);
            m.push(')');
            proof {
                reveal_strlit("(#");
                reveal_strlit(")");
                assert(m@ =~= pr_marker(id));
            }
            if !contains_exec(&s, &m) {
                push_str(&mut out, " ");
                push_chars(&mut out, &m);
            }
        },
        None => {},
    }
    out
}

/// The bullets of a section, one line each.
pub open spec fn bullets(es: Seq<ClassifiedCommit>) -> Seq<char>
    decreases es.len(),
{
    if es.len() == 0 {
        seq![]
    } else {
        bullets(es.drop_last()) + "- "@ + bullet_text(es.last()) + "\n"@
    }
}

/// One section block.
pub open spec fn section_block(s: Section, es: Seq<ClassifiedCommit>) -> Seq<char> {
    "### "@ + section_header(s) + "\n\n"@ + bullets(es) + "\n"@
}

/// The section blocks in order.
pub open spec fn section_blocks(gs: Seq<(Section, Seq<ClassifiedCommit>)>) -> Seq<char>
    decreases gs.len(),
{
    if gs.len() == 0 {
        seq![]
    } else {
        section_blocks(gs.drop_last()) + section_block(gs.last().0, gs.last().1)
    }
}

/// The rendered notes.
pub open spec fn rendered(entries: Seq<ClassifiedCommit>, header: Option<Seq<char>>, footer: Option<Seq<char>>) -> Seq<
    char,
> {
    let head = match header {
        Some(h) => "## "@ + h + "\n\n"@,
        None => seq![],
    };
    if entries.len() == 0 {
        head + "_No changes._\n"@ + match footer {
            Some(f) => "\n"@ + f + "\n"@,
            None => seq![],
        }
    } else {
        head + section_blocks(grouped(entries)) + match footer {
            Some(f) => f + "\n"@,
            None => seq![],
        }
    }
}

/// The view of an optional string.
pub open spec fn opt_view(o: Option<String>) -> Option<Seq<char>> {
    match o {
        Some(s) => Some(s@),
        None => None,
    }
}

fn push_section(out: &mut String, section: Section, entries: &Vec<&ClassifiedCommit>)
    ensures
        final(out)@ == old(out)@ + section_block(section, derefs(entries@)),
{
    let ghost start = out@;
    push_str(out, "### ");
    push_str(out, section.header());
    push_str(out, "\n\n");
    let ghost all = derefs(entries@);
    let ghost base = out@;
    let mut i: usize = 0;
    while i < entries.len()
        invariant
            i <= entries@.len(),
            all == derefs(entries@),
            out@ == base + bullets(all.take(i as int)),
        decreases entries@.len() - i,
    {
        proof {
            assert(all.take(i + 1).drop_last() =~= all.take(i as int));
            assert(all.take(i + 1).last() == *entries@[i as int]);
        }
        push_str(out, "- ");
        let b = format_bullet(entries[i]);
        push_str(out, b.as_str());
        push_str(out, "\n");
        i = i + 1;
    }
    proof {
        assert(all.take(entries@.len() as int) =~= all);
    }
    push_str(out, "\n");
    proof {
        assert(out@ =~= start + section_block(section, derefs(entries@)));
    }
}

proof fn lemma_section_blocks_step(gs: Seq<(Section, Seq<ClassifiedCommit>)>, i: int)
    requires
        0 <= i < gs.len(),
    ensures
        section_blocks(gs.take(i + 1)) == section_blocks(gs.take(i)) + section_block(gs[i].0, gs[i].1),
{
    assert(gs.take(i + 1).drop_last() =~= gs.take(i));
    assert(gs.take(i + 1).last() == gs[i]);
}

fn push_sections(out: &mut String, classified: &Classified)
    ensures
        final(out)@ == old(out)@ + section_blocks(grouped(classified.0@)),
{
    let groups = classified.group_by_section();
    let ghost gs = grouped(classified.0@);
    let ghost base = out@;
    let mut i: usize = 0;
    proof {
        assert(gs.take(0) =~= Seq::<(Section, Seq<ClassifiedCommit>)>::empty());
    }
    while i < groups.len()
        invariant
            i <= groups@.len(),
            gs == grouped(classified.0@),
            groups@.len() == gs.len(),
            forall|k: int|
                0 <= k < groups@.len() ==> #[trigger] groups@[k].0 == gs[k].0 && derefs(groups@[k].1@) == gs[k].1,
            out@ == base + section_blocks(gs.take(i as int)),
        decreases groups@.len() - i,
    {
        proof {
            lemma_section_blocks_step(gs, i as int);
            assert(groups@[i as int].0 == gs[i as int].0);
            assert(derefs(groups@[i as int].1@) == gs[i as int].1);
        }
        push_section(out, groups[i].0, &groups[i].1);
        i = i + 1;
    }
    proof {
        assert(gs.take(groups@.len() as int) =~= gs);
    }
}

/// Render classified commits as GitHub-flavored Markdown.
pub fn render(classified: &Classified, opts: &RenderOptions) -> (r: String)
    ensures
        r@ == rendered(classified.0@, opt_view(opts.header), opt_view(opts.footer)),
{
    let mut out = String::new();
    let ghost start = out@;
    match &opts.header {
        Some(h) => {
            push_str(&mut out, "## ");
            push_str(&mut out, h.as_str());
            push_str(&mut out, "\n\n");
        },
        None => {},
    }
    let ghost head = out@;
    if classified.is_empty() {
        push_str(&mut out, "_No changes._\n");
        match &opts.footer {
            Some(f) => {
                push_str(&mut out, "\n");
                push_str(&mut out, f.as_str());
                push_str(&mut out, "\n");
            },
            None => {},
        }
        proof {
            assert(out@ =~= rendered(classified.0@, opt_view(opts.header), opt_view(opts.footer)));
        }
        return out;
    }
    push_sections(&mut out, classified);
    match &opts.footer {
        Some(f) => {
            push_str(&mut out, f.as_str());
            push_str(&mut out, "\n");
        },
        None => {},
    }
    proof {
        assert(out@ =~= rendered(classified.0@, opt_view(opts.header), opt_view(opts.footer)));
    }
    out
}

/// The bullet line of an entry.
pub open spec fn bullet_line(e: ClassifiedCommit) -> Seq<char> {
    "- "@ + bullet_text(e) + "\n"@
}

proof fn lemma_contains_in_left(a: Seq<char>, b: Seq<char>, x: Seq<char>)
    requires
        contains(a, x),
    ensures
        contains(a + b, x),
{
    let i = choose|i: int| crate::text::occurs_at(a, x, i);
    assert((a + b).subrange(i, i + x.len()) =~= a.subrange(i, i + x.len()));
    assert(crate::text::occurs_at(a + b, x, i));
}

proof fn lemma_contains_in_right(a: Seq<char>, b: Seq<char>, x: Seq<char>)
    requires
        contains(b, x),
    ensures
        contains(a + b, x),
{
    let i = choose|i: int| crate::text::occurs_at(b, x, i);
    assert((a + b).subrange(a.len() + i, a.len() + i + x.len()) =~= b.subrange(i, i + x.len()));
    assert(crate::text::occurs_at(a + b, x, a.len() + i));
}

proof fn lemma_bullets_contain(es: Seq<ClassifiedCommit>, j: int)
    requires
        0 <= j < es.len(),
    ensures
        contains(bullets(es), bullet_line(es[j])),
    decreases es.len(),
{
    let pre = bullets(es.drop_last());
    assert(bullets(es) =~= pre + bullet_line(es.last()));
    if j == es.len() - 1 {
        assert(crate::text::occurs_at(bullet_line(es.last()), bullet_line(es.last()), 0)) by {
            assert(bullet_line(es.last()).subrange(0, bullet_line(es.last()).len() as int) =~= bullet_line(
                es.last(),
            ));
        }
        lemma_contains_in_right(pre, bullet_line(es.last()), bullet_line(es[j]));
    } else {
        lemma_bullets_contain(es.drop_last(), j);
        assert(es.drop_last()[j] == es[j]);
        lemma_contains_in_left(pre, bullet_line(es.last()), bullet_line(es[j]));
    }
}

proof fn lemma_blocks_contain(gs: Seq<(Section, Seq<ClassifiedCommit>)>, i: int, x: Seq<char>)
    requires
        0 <= i < gs.len(),
        contains(bullets(gs[i].1), x),
    ensures
        contains(section_blocks(gs), x),
    decreases gs.len(),
{
    let pre = section_blocks(gs.drop_last());
    if i == gs.len() - 1 {
        let head = "### "@ + section_header(gs[i].0) + "\n\n"@;
        lemma_contains_in_right(head, bullets(gs[i].1), x);
        lemma_contains_in_left(head + bullets(gs[i].1), "\n"@, x);
        assert(section_block(gs[i].0, gs[i].1) =~= head + bullets(gs[i].1) + "\n"@);
        lemma_contains_in_right(pre, section_block(gs[i].0, gs[i].1), x);
    } else {
        assert(gs.drop_last()[i] == gs[i]);
        lemma_blocks_contain(gs.drop_last(), i, x);
        lemma_contains_in_left(pre, section_block(gs.last().0, gs.last().1), x);
    }
}

proof fn lemma_grouped_upto_has(e: Seq<ClassifiedCommit>, s: Section, k: int)
    requires
        section_order(s) < k,
        entries_in(e, s).len() > 0,
    ensures
        exists|i: int|
            0 <= i < grouped_upto(e, k).len() && #[trigger] grouped_upto(e, k)[i] == (s, entries_in(e, s)),
    decreases k,
{
    let prev = grouped_upto(e, k - 1);
    let g = entries_in(e, section_at(k - 1));
    if section_order(s) == k - 1 {
        assert(section_at(k - 1) == s) by {
            match s {
                Section::Breaking => {},
                Section::Features => {},
                Section::BugFixes => {},
                Section::Performance => {},
                Section::Refactor => {},
                Section::Documentation => {},
                Section::Tests => {},
                Section::Build => {},
                Section::Ci => {},
                Section::Chore => {},
                Section::Other => {},
            }
        }
        let gk = grouped_upto(e, k);
        assert(gk == prev.push((s, entries_in(e, s))));
        let w = prev.len() as int;
        assert(0 <= w < gk.len() && gk[w] == (s, entries_in(e, s)));
    } else {
        lemma_grouped_upto_has(e, s, k - 1);
        let i = choose|i: int| 0 <= i < prev.len() && #[trigger] prev[i] == (s, entries_in(e, s));
        let gk = grouped_upto(e, k);
        if g.len() > 0 {
            assert(gk == prev.push((section_at(k - 1), g)));
            assert(gk[i] == prev[i]);
        } else {
            assert(gk == prev);
        }
        assert(0 <= i < gk.len() && gk[i] == (s, entries_in(e, s)));
    }
}

/// Nothing is lost in rendering: every classified commit's bullet line
/// (`- `, its bullet text, a newline) appears in the rendered notes,
/// under its section.
pub proof fn lemma_every_entry_rendered(
    entries: Seq<ClassifiedCommit>,
    header: Option<Seq<char>>,
    footer: Option<Seq<char>>,
    j: int,
)
    requires
        0 <= j < entries.len(),
    ensures
        contains(rendered(entries, header, footer), bullet_line(entries[j])),
{
    let s = entries[j].classification.section;
    let g = entries_in(entries, s);
    entries.lemma_filter_contains(in_section(s), j);
    assert(g.contains(entries[j]));
    let k = choose|k: int| 0 <= k < g.len() && g[k] == entries[j];
    lemma_bullets_contain(g, k);
    assert(section_order(s) < SECTION_COUNT);
    lemma_grouped_upto_has(entries, s, SECTION_COUNT as int);
    let gs = grouped(entries);
    let i = choose|i: int| 0 <= i < gs.len() && #[trigger] gs[i] == (s, g);
    lemma_blocks_contain(gs, i, bullet_line(entries[j]));
    let head = match header {
        Some(h) => "## "@ + h + "\n\n"@,
        None => seq![],
    };
    let tail = match footer {
        Some(f) => f + "\n"@,
        None => seq![],
    };
    lemma_contains_in_right(head, section_blocks(gs), bullet_line(entries[j]));
    lemma_contains_in_left(head + section_blocks(gs), tail, bullet_line(entries[j]));
}

/// Total length of the bullet lines of `es`.
pub open spec fn lines_len(es: Seq<ClassifiedCommit>) -> nat
    decreases es.len(),
{
    if es.len() == 0 {
        0
    } else {
        lines_len(es.drop_last()) + bullet_line(es.last()).len()
    }
}

proof fn lemma_bullets_len(es: Seq<ClassifiedCommit>)
    ensures
        bullets(es).len() == lines_len(es),
    decreases es.len(),
{
    if es.len() > 0 {
        lemma_bullets_len(es.drop_last());
        assert(bullets(es) =~= bullets(es.drop_last()) + bullet_line(es.last()));
    }
}

/// A section block holds a full bullet line for every one of its entries:
/// its length is that of its `### ` header line and blank line, the bullet
/// lines of all its entries, and the closing blank line.
pub proof fn lemma_section_block_len(s: Section, es: Seq<ClassifiedCommit>)
    ensures
        section_block(s, es).len() == section_header(s).len() + 7 + lines_len(es),
{
    reveal_strlit("### ");
    reveal_strlit("\n\n");
    reveal_strlit("\n");
    lemma_bullets_len(es);
}

/// The notes open with the `## ` header line when there is a header, say
/// `_No changes._` when there are no commits, and close with the footer
/// line when there is one.
pub proof fn lemma_rendered_frame(entries: Seq<ClassifiedCommit>, header: Option<Seq<char>>, footer: Option<Seq<char>>)
    ensures
        header matches Some(h) ==> crate::text::starts_with(rendered(entries, header, footer), "## "@ + h + "\n\n"@),
        footer matches Some(f) ==> crate::text::ends_with(rendered(entries, header, footer), f + "\n"@),
        entries.len() == 0 ==> contains(rendered(entries, header, footer), "_No changes._\n"@),
{
    let r = rendered(entries, header, footer);
    let head = match header {
        Some(h) => "## "@ + h + "\n\n"@,
        None => seq![],
    };
    let rest = r.skip(head.len() as int);
    assert(r =~= head + rest);
    assert(r.take(head.len() as int) =~= head);
    match footer {
        Some(f) => {
            let t = f + "\n"@;
            assert(r.skip(r.len() - t.len()) =~= t);
        },
        None => {},
    }
    if entries.len() == 0 {
        let n = "_No changes._\n"@;
        assert(r.subrange(head.len() as int, (head.len() + n.len()) as int) =~= n);
        assert(crate::text::occurs_at(r, n, head.len() as int));
    }
}

/// A bullet of a commit that names a PR always mentions that PR: the
/// marker is added whenever the summary lacks it.
pub proof fn lemma_bullet_mentions_pr(e: ClassifiedCommit, id: u64)
    requires
        e.commit.pr_id == Some(id),
    ensures
        contains(bullet_text(e), pr_marker(id)),
{
    let s = trim(e.classification.summary@);
    if !contains(s, pr_marker(id)) {
        let t = s + " "@ + pr_marker(id);
        let i = t.len() - pr_marker(id).len();
        assert(t.subrange(i, i + pr_marker(id).len()) =~= pr_marker(id));
        assert(crate::text::occurs_at(t, pr_marker(id), i));
    }
}

} // verus!
