//! Reading `git log` output into commits.
//!
//! Two listings are read: one with a record per commit whose fields are
//! separated by U+001F and whose records end with U+001E, and one with
//! `--name-only` where each commit starts with a marker line carrying its
//! SHA. They are joined by SHA.

use vstd::prelude::*;

use super::conventional::{self, breaking_footer, conventional_of, header_parts};
use super::merge_style::{extract_pr_id, pr_id_of};
use super::GitError;
use crate::models::Commit;
use crate::split::{
    lines, lines_exec, trim_end_char, trim_end_char_exec, trim_start_char, trim_start_char_exec,
    words, words_exec,
};
use crate::text::{
    chars_of, slice_vec, split_char, split_char_exec, starts_with, starts_with_exec, string_of,
    string_views, strings_of, trim, trim_exec, views,
};

verus! {

/// Separates the fields of a commit record.
pub const FIELD_SEP: char = '\u{1f}';

/// Ends a commit record.
pub const RECORD_SEP: char = '\u{1e}';

/// The `--format` argument of the metadata listing: SHA, short SHA,
/// author name, e-mail and ISO date, parents, subject, body.
pub fn metadata_format() -> (r: String)
    ensures
        r@ == "--format=%H\u{1f}%h\u{1f}%an\u{1f}%ae\u{1f}%aI\u{1f}%P\u{1f}%s\u{1f}%b\u{1e}"@,
{
    String::from_str("--format=%H\u{1f}%h\u{1f}%an\u{1f}%ae\u{1f}%aI\u{1f}%P\u{1f}%s\u{1f}%b\u{1e}")
}

/// The `--format` argument of the file listing.
pub fn files_format() -> (r: String)
    ensures
        r@ == "--format=__CHRONIKL_SHA__%H"@,
{
    String::from_str("--format=__CHRONIKL_SHA__%H")
}

/// The prefix of a SHA line in the file listing.
pub open spec fn sha_marker() -> Seq<char> {
    "__CHRONIKL_SHA__"@
}

/// The records of the metadata listing: pieces between record
/// separators, leading newlines dropped, blank pieces skipped.
pub open spec fn keep_records(ps: Seq<Seq<char>>) -> Seq<Seq<char>>
    decreases ps.len(),
{
    if ps.len() == 0 {
        seq![]
    } else {
        let r = trim_start_char(ps[0], '\n');
        let rest = keep_records(ps.drop_first());
        if trim(r).len() == 0 {
            rest
        } else {
            seq![r] + rest
        }
    }
}

pub open spec fn metadata_records(s: Seq<char>) -> Seq<Seq<char>> {
    keep_records(split_char(s, RECORD_SEP))
}

pub open spec fn fields_of(rec: Seq<char>) -> Seq<Seq<char>> {
    split_char(rec, FIELD_SEP)
}

/// The error for a record with only `n` fields.
pub open spec fn missing_field(n: nat) -> Seq<char> {
    if n <= 1 {
        "missing short sha"@
    } else if n == 2 {
        "missing author name"@
    } else if n == 3 {
        "missing author email"@
    } else if n == 4 {
        "missing author date"@
    } else if n == 5 {
        "missing parents"@
    } else {
        "missing subject"@
    }
}

/// Body of a record: the eighth field, trailing newlines dropped.
pub open spec fn record_body(f: Seq<Seq<char>>) -> Seq<char> {
    trim_end_char(if f.len() > 7 { f[7] } else { seq![] }, '\n')
}

/// `c` is what a record with at least seven fields reads as, the file
/// list aside.
pub open spec fn commit_of_record_except_files(c: Commit, rec: Seq<char>) -> bool {
    let f = fields_of(rec);
    let body = record_body(f);
    &&& c.sha@ == f[0]
    &&& c.short_sha@ == f[1]
    &&& c.author_name@ == f[2]
    &&& c.author_email@ == f[3]
    &&& c.author_date@ == f[4]
    &&& string_views(c.parents@) == words(f[5])
    &&& c.subject@ == f[6]
    &&& c.body@ == body
    &&& c.pr_id == pr_id_of(f[6])
    &&& (c.conventional is None <==> header_parts(trim(f[6])) is None)
    &&& (c.conventional matches Some(cc) ==> conventional_of(cc, f[6], body))
    &&& c.breaking == match c.conventional {
        Some(cc) => cc.breaking,
        None => breaking_footer(body),
    }
}

/// A commit read from a record takes its fields in the order the log
/// format writes them: full SHA, short SHA, author name, author email,
/// author date, parents (separated by whitespace), subject; the subject's
/// Conventional header is parsed when it has one.
pub proof fn lemma_record_fields(c: Commit, rec: Seq<char>)
    requires
        commit_of_record_except_files(c, rec),
    ensures
        ({
            let f = split_char(rec, FIELD_SEP);
            &&& c.sha@ == f[0]
            &&& c.short_sha@ == f[1]
            &&& c.author_name@ == f[2]
            &&& c.author_email@ == f[3]
            &&& c.author_date@ == f[4]
            &&& string_views(c.parents@) == words(f[5])
            &&& c.subject@ == f[6]
            &&& (c.conventional is Some <==> header_parts(trim(c.subject@)) is Some)
        }),
{
}

/// Whether a line of `text` begins with `BREAKING CHANGE:` or
/// `BREAKING-CHANGE:`.
pub open spec fn has_breaking_line(text: Seq<char>) -> bool {
    exists|i: int|
        0 <= i <= text.len() && (i == 0 || text[i - 1] == '\n') && (crate::text::occurs_at(
            text,
            "BREAKING CHANGE:"@,
            i,
        ) || crate::text::occurs_at(text, "BREAKING-CHANGE:"@, i))
}

/// A commit read from the log is breaking when a line of its body (the
/// message after the subject, the record's eighth field without trailing
/// newlines) begins with a breaking-change footer; without a Conventional
/// header that is the only thing that makes it breaking.
pub proof fn lemma_breaking_from_body(c: Commit, rec: Seq<char>)
    requires
        commit_of_record_except_files(c, rec),
    ensures
        c.body@ == record_body(fields_of(rec)),
        c.conventional is None ==> (c.breaking <==> has_breaking_line(c.body@)),
        has_breaking_line(c.body@) ==> c.breaking,
{
}

pub open spec fn commit_of_record(c: Commit, rec: Seq<char>) -> bool {
    commit_of_record_except_files(c, rec) && c.files@.len() == 0
}

/// Every record has the seven fields a commit needs.
pub open spec fn records_complete(recs: Seq<Seq<char>>) -> bool {
    forall|j: int| 0 <= j < recs.len() ==> #[trigger] fields_of(recs[j]).len() >= 7
}

/// `e` reports the first record that lacks a field.
pub open spec fn metadata_error(recs: Seq<Seq<char>>, e: GitError) -> bool {
    exists|j: int|
        0 <= j < recs.len() && #[trigger] fields_of(recs[j]).len() < 7 && (forall|k: int|
            0 <= k < j ==> fields_of(#[trigger] recs[k]).len() >= 7) && (e matches GitError::ParseError(
            m,
        ) && m@ == missing_field(fields_of(recs[j]).len()))
}

/// Read one record.
fn commit_from_record(rec: &Vec<char>) -> (r: Result<Commit, String>)
    ensures
        match r {
            Ok(c) => fields_of(rec@).len() >= 7 && commit_of_record(c, rec@),
            Err(m) => fields_of(rec@).len() < 7 && m@ == missing_field(fields_of(rec@).len()),
        },
{
    let f = split_char_exec(rec, FIELD_SEP);
    let ghost fs = fields_of(rec@);
    proof {
        assert(views(f@).len() == f@.len());
        crate::text::lemma_split_char_nonempty(rec@, FIELD_SEP);
    }
    if f.len() < 7 {
        let m = if f.len() <= 1 {
            "missing short sha"
        } else if f.len() == 2 {
            "missing author name"
        } else if f.len() == 3 {
            "missing author email"
        } else if f.len() == 4 {
            "missing author date"
        } else if f.len() == 5 {
            "missing parents"
        } else {
            "missing subject"
        };
        return Err(String::from_str(m));
    }
    proof {
        assert forall|j: int| 0 <= j < f@.len() implies views(f@)[j] == #[trigger] f@[j]@ by {}
    }
    let sha = string_of(&f[0]);
    let short_sha = string_of(&f[1]);
    let author_name = string_of(&f[2]);
    let author_email = string_of(&f[3]);
    let author_date = string_of(&f[4]);
    let parents = strings_of(&words_exec(&f[5]));
    let subject = string_of(&f[6]);
    let raw_body: Vec<char> = if f.len() > 7 {
        slice_vec(&f[7], 0, f[7].len())
    } else {
        Vec::new()
    };
    proof {
        if f@.len() > 7 {
            assert(raw_body@ =~= fs[7]);
        } else {
            assert(raw_body@ =~= Seq::<char>::empty());
        }
    }
    let body = string_of(&trim_end_char_exec(&raw_body, '\n'));
    let conventional = conventional::parse(subject.as_str(), body.as_str());
    let breaking = match &conventional {
        Some(c) => c.breaking,
        None => conventional::has_breaking_footer(body.as_str()),
    };
    let pr_id = extract_pr_id(subject.as_str());
    Ok(
        Commit {
            sha,
            short_sha,
            author_name,
            author_email,
            author_date,
            parents,
            subject,
            body,
            files: Vec::new(),
            pr_id,
            conventional,
            breaking,
        },
    )
}

/// Read the metadata listing. Fails on the first record with fewer than
/// seven fields, naming the first field it lacks.
pub fn parse_metadata(s: &str) -> (r: Result<Vec<Commit>, GitError>)
    ensures
        match r {
            Ok(cs) => {
                let recs = metadata_records(s@);
                &&& records_complete(recs)
                &&& cs@.len() == recs.len()
                &&& forall|j: int| 0 <= j < recs.len() ==> commit_of_record(#[trigger] cs@[j], recs[j])
            },
            Err(e) => metadata_error(metadata_records(s@), e),
        },
{
    let v = chars_of(s);
    let pieces = split_char_exec(&v, RECORD_SEP);
    let ghost ps = views(pieces@);
    let ghost all = keep_records(ps);
    let ghost mut done: Seq<Seq<char>> = seq![];
    let mut out: Vec<Commit> = Vec::new();
    let mut i: usize = 0;
    proof {
        assert(ps.skip(0) =~= ps);
    }
    while i < pieces.len()
        invariant
            i <= pieces@.len(),
            ps == views(pieces@),
            ps == split_char(s@, RECORD_SEP),
            all == keep_records(ps),
            done + keep_records(ps.skip(i as int)) == all,
            out@.len() == done.len(),
            forall|j: int| 0 <= j < done.len() ==> #[trigger] fields_of(done[j]).len() >= 7,
            forall|j: int| 0 <= j < done.len() ==> commit_of_record(#[trigger] out@[j], done[j]),
        decreases pieces@.len() - i,
    {
        let rec = trim_start_char_exec(&pieces[i], '\n');
        let ghost rest = ps.skip(i as int);
        proof {
            assert(rest[0] == pieces@[i as int]@);
            assert(rest.drop_first() =~= ps.skip(i + 1));
        }
        let t = trim_exec(&rec);
        if t.len() > 0 {
            proof {
                assert(keep_records(rest) == seq![rec@] + keep_records(ps.skip(i + 1)));
            }
            match commit_from_record(&rec) {
                Ok(c) => {
                    proof {
                        assert(done.push(rec@) + keep_records(ps.skip(i + 1)) =~= done + keep_records(rest));
                        done = done.push(rec@);
                    }
                    out.push(c);
                },
                Err(m) => {
                    proof {
                        let j = done.len() as int;
                        assert(all == done + (seq![rec@] + keep_records(ps.skip(i + 1))));
                        assert(all[j] == rec@);
                        assert(fields_of(all[j]).len() < 7);
                        assert forall|k: int| 0 <= k < j implies fields_of(#[trigger] all[k]).len() >= 7 by {
                            assert(all[k] == done[k]);
                        }
                        assert(metadata_records(s@) == all);
                    }
                    return Err(GitError::ParseError(m));
                },
            }
        }
        i = i + 1;
    }
    proof {
        assert(ps.skip(i as int) =~= Seq::<Seq<char>>::empty());
        assert(done =~= all);
    }
    Ok(out)
}

/// Entries `(sha, files)` of the file listing, in first-appearance order.
pub type FileEntries = Seq<(Seq<char>, Seq<Seq<char>>)>;

/// Index of the first entry for `sha`, or the number of entries.
pub open spec fn key_index(es: FileEntries, sha: Seq<char>) -> nat
    decreases es.len(),
{
    if es.len() == 0 {
        0
    } else if es[0].0 == sha {
        0
    } else {
        1 + key_index(es.drop_first(), sha)
    }
}

/// One line of the file listing applied to `(current entry, entries)`:
/// a marker line opens (or reopens) the entry of its SHA; another
/// non-blank line is a file of the current entry.
pub open spec fn files_step(st: (Option<int>, FileEntries), line: Seq<char>) -> (Option<int>, FileEntries) {
    let es = st.1;
    if starts_with(line, sha_marker()) {
        let sha = line.skip(sha_marker().len() as int);
        let k = key_index(es, sha);
        if k < es.len() {
            (Some(k as int), es)
        } else {
            (Some(es.len() as int), es.push((sha, seq![])))
        }
    } else if trim(line).len() > 0 {
        match st.0 {
            Some(k) => (st.0, es.update(k, (es[k].0, es[k].1.push(line)))),
            None => st,
        }
    } else {
        st
    }
}

pub open spec fn files_state(ls: Seq<Seq<char>>) -> (Option<int>, FileEntries)
    decreases ls.len(),
{
    if ls.len() == 0 {
        (None, seq![])
    } else {
        files_step(files_state(ls.drop_last()), ls.last())
    }
}

/// The files of each commit in the listing, by SHA.
pub open spec fn file_entries(s: Seq<char>) -> FileEntries {
    files_state(lines(s)).1
}

pub open spec fn entry_views(e: Seq<(String, Vec<String>)>) -> FileEntries {
    e.map_values(|x: (String, Vec<String>)| (x.0@, string_views(x.1@)))
}

pub open spec fn raw_entry_views(e: Seq<(Vec<char>, Vec<Vec<char>>)>) -> FileEntries {
    e.map_values(|x: (Vec<char>, Vec<Vec<char>>)| (x.0@, views(x.1@)))
}

proof fn lemma_key_index(es: FileEntries, sha: Seq<char>)
    ensures
        key_index(es, sha) <= es.len(),
        forall|j: int| 0 <= j < key_index(es, sha) ==> (#[trigger] es[j]).0 != sha,
        key_index(es, sha) < es.len() ==> es[key_index(es, sha) as int].0 == sha,
    decreases es.len(),
{
    if es.len() > 0 && es[0].0 != sha {
        lemma_key_index(es.drop_first(), sha);
        assert forall|j: int| 0 <= j < key_index(es, sha) implies (#[trigger] es[j]).0 != sha by {
            if j > 0 {
                assert(es[j] == es.drop_first()[j - 1]);
            }
        }
        if key_index(es, sha) < es.len() {
            assert(es[key_index(es, sha) as int] == es.drop_first()[key_index(es.drop_first(), sha) as int]);
        }
    }
}

proof fn lemma_key_index_is(es: FileEntries, sha: Seq<char>, k: int)
    requires
        0 <= k <= es.len(),
        forall|j: int| 0 <= j < k ==> (#[trigger] es[j]).0 != sha,
        k == es.len() || es[k].0 == sha,
    ensures
        key_index(es, sha) == k,
    decreases es.len(),
{
    if k > 0 {
        let t = es.drop_first();
        assert(es[0].0 != sha);
        assert forall|j: int| 0 <= j < k - 1 implies (#[trigger] t[j]).0 != sha by {
            assert(t[j] == es[j + 1]);
        }
        if k - 1 < t.len() {
            assert(t[k - 1] == es[k]);
        }
        lemma_key_index_is(t, sha, k - 1);
    }
}

/// Index of the entry for `sha`, or the number of entries.
fn find_entry(es: &Vec<(Vec<char>, Vec<Vec<char>>)>, sha: &Vec<char>) -> (r: usize)
    ensures
        r == key_index(raw_entry_views(es@), sha@),
{
    let ghost ev = raw_entry_views(es@);
    let mut i: usize = 0;
    while i < es.len()
        invariant
            i <= es@.len(),
            ev == raw_entry_views(es@),
            forall|j: int| 0 <= j < i ==> (#[trigger] ev[j]).0 != sha@,
        decreases es@.len() - i,
    {
        if crate::text::eq_chars(&es[i].0, sha) {
            proof {
                assert(ev[i as int].0 == sha@);
                lemma_key_index_is(ev, sha@, i as int);
            }
            return i;
        }
        proof {
            assert(ev[i as int].0 != sha@);
        }
        i = i + 1;
    }
    proof {
        lemma_key_index_is(ev, sha@, i as int);
    }
    i
}

/// Read the `--name-only` listing: for each SHA, the non-blank lines after
/// its marker line.
pub fn parse_files(s: &str) -> (r: Vec<(String, Vec<String>)>)
    ensures
        entry_views(r@) == file_entries(s@),
{
    let v = chars_of(s);
    let ls = lines_exec(&v);
    let ghost all = views(ls@);
    let marker = chars_of("__CHRONIKL_SHA__");
    let mut es: Vec<(Vec<char>, Vec<Vec<char>>)> = Vec::new();
    let mut cur: Option<usize> = None;
    let mut i: usize = 0;
    while i < ls.len()
        invariant
            i <= ls@.len(),
            all == views(ls@),
            all == lines(s@),
            marker@ == sha_marker(),
            files_state(all.take(i as int)) == (
                match cur {
                    Some(k) => Some(k as int),
                    None => None::<int>,
                },
                raw_entry_views(es@),
            ),
            cur matches Some(k) ==> k < es@.len(),
        decreases ls@.len() - i,
    {
        let ghost st = files_state(all.take(i as int));
        proof {
            assert(all.take(i + 1).drop_last() =~= all.take(i as int));
            assert(all.take(i + 1).last() == ls@[i as int]@);
        }
        let line = &ls[i];
        if starts_with_exec(line, &marker) {
            let sha = slice_vec(line, marker.len(), line.len());
            let k = find_entry(&es, &sha);
            proof {
                lemma_key_index(raw_entry_views(es@), sha@);
                assert(sha@ =~= line@.skip(sha_marker().len() as int));
            }
            if k < es.len() {
                cur = Some(k);
            } else {
                let ghost before = es@;
                let nv: Vec<Vec<char>> = Vec::new();
                proof {
                    assert(views(nv@) =~= Seq::<Seq<char>>::empty());
                }
                es.push((sha, nv));
                proof {
                    assert(raw_entry_views(es@) =~= raw_entry_views(before).push(
                        (line@.skip(sha_marker().len() as int), Seq::<Seq<char>>::empty()),
                    ));
                }
                cur = Some(es.len() - 1);
            }
        } else {
            let t = trim_exec(line);
            if t.len() > 0 {
                match cur {
                    Some(k) => {
                        let ghost before = es@;
                        let ghost old_entry = raw_entry_views(es@)[k as int];
                        let mut entry = es.remove(k);
                        let ghost mid = es@;
                        let copy = slice_vec(line, 0, line.len());
                        let ghost old_files = entry.1@;
                        entry.1.push(copy);
                        proof {
                            assert(copy@ =~= line@);
                            assert(before[k as int].0 == entry.0 && before[k as int].1@ == old_files);
                            assert(views(entry.1@) =~= views(old_files).push(line@));
                        }
                        let ghost new_entry = entry;
                        es.insert(k, entry);
                        proof {
                            assert(es@ =~= before.update(k as int, new_entry));
                            assert(raw_entry_views(es@) =~= raw_entry_views(before).update(
                                k as int,
                                (old_entry.0, old_entry.1.push(line@)),
                            ));
                        }
                    },
                    None => {},
                }
            }
        }
        i = i + 1;
    }
    proof {
        assert(all.take(ls@.len() as int) =~= all);
    }
    let mut out: Vec<(String, Vec<String>)> = Vec::new();
    let mut j: usize = 0;
    while j < es.len()
        invariant
            j <= es@.len(),
            entry_views(out@) == raw_entry_views(es@).take(j as int),
        decreases es@.len() - j,
    {
        let sha = string_of(&es[j].0);
        let files = strings_of(&es[j].1);
        let ghost before = out@;
        out.push((sha, files));
        proof {
            assert(entry_views(out@) =~= entry_views(before).push((es@[j as int].0@, views(es@[j as int].1@))));
            assert(raw_entry_views(es@).take(j + 1) =~= raw_entry_views(es@).take(j as int).push(
                (es@[j as int].0@, views(es@[j as int].1@)),
            ));
        }
        j = j + 1;
    }
    proof {
        assert(raw_entry_views(es@).take(es@.len() as int) =~= raw_entry_views(es@));
    }
    out
}

/// The files listed for `sha`, none when it is not listed.
pub open spec fn files_for(es: FileEntries, sha: Seq<char>) -> Seq<Seq<char>> {
    let k = key_index(es, sha);
    if k < es.len() {
        es[k as int].1
    } else {
        seq![]
    }
}

/// Index of the entry for `sha`, or the number of entries.
fn find_sha(es: &Vec<(String, Vec<String>)>, sha: &str) -> (r: usize)
    ensures
        r == key_index(entry_views(es@), sha@),
{
    let ghost ev = entry_views(es@);
    let target = chars_of(sha);
    let mut i: usize = 0;
    while i < es.len()
        invariant
            i <= es@.len(),
            ev == entry_views(es@),
            target@ == sha@,
            forall|j: int| 0 <= j < i ==> (#[trigger] ev[j]).0 != sha@,
        decreases es@.len() - i,
    {
        if crate::text::eq_chars(&chars_of(es[i].0.as_str()), &target) {
            proof {
                assert(ev[i as int].0 == sha@);
                lemma_key_index_is(ev, sha@, i as int);
            }
            return i;
        }
        proof {
            assert(ev[i as int].0 != sha@);
        }
        i = i + 1;
    }
    proof {
        lemma_key_index_is(ev, sha@, i as int);
    }
    i
}

/// Give each commit the files the listing has for its SHA; a commit the
/// listing lacks keeps its files.
pub fn attach_files(commits: Vec<Commit>, es: &Vec<(String, Vec<String>)>) -> (r: Vec<Commit>)
    ensures
        r@.len() == commits@.len(),
        forall|i: int|
            0 <= i < r@.len() ==> {
                let c = #[trigger] r@[i];
                let o = commits@[i];
                let k = key_index(entry_views(es@), o.sha@);
                &&& c.sha == o.sha
                &&& c.short_sha == o.short_sha
                &&& c.author_name == o.author_name
                &&& c.author_email == o.author_email
                &&& c.author_date == o.author_date
                &&& c.parents == o.parents
                &&& c.subject == o.subject
                &&& c.body == o.body
                &&& c.pr_id == o.pr_id
                &&& c.conventional == o.conventional
                &&& c.breaking == o.breaking
                &&& string_views(c.files@) == if k < es@.len() {
                    entry_views(es@)[k as int].1
                } else {
                    string_views(o.files@)
                }
            },
{
    let ghost orig = commits@;
    let mut cs = commits;
    let mut i: usize = 0;
    while i < cs.len()
        invariant
            i <= cs@.len() == orig.len(),
            forall|j: int| i <= j < cs@.len() ==> #[trigger] cs@[j] == orig[j],
            forall|j: int|
                0 <= j < i ==> {
                    let c = #[trigger] cs@[j];
                    let o = orig[j];
                    let k = key_index(entry_views(es@), o.sha@);
                    &&& c.sha == o.sha
                    &&& c.short_sha == o.short_sha
                    &&& c.author_name == o.author_name
                    &&& c.author_email == o.author_email
                    &&& c.author_date == o.author_date
                    &&& c.parents == o.parents
                    &&& c.subject == o.subject
                    &&& c.body == o.body
                    &&& c.pr_id == o.pr_id
                    &&& c.conventional == o.conventional
                    &&& c.breaking == o.breaking
                    &&& string_views(c.files@) == if k < es@.len() {
                        entry_views(es@)[k as int].1
                    } else {
                        string_views(o.files@)
                    }
                },
        decreases cs@.len() - i,
    {
        let k = find_sha(es, cs[i].sha.as_str());
        if k < es.len() {
            let mut c = cs.remove(i);
            c.files = crate::models::clone_strings(&es[k].1);
            proof {
                assert(entry_views(es@)[k as int].1 == string_views(es@[k as int].1@));
            }
            cs.insert(i, c);
        }
        i = i + 1;
    }
    cs
}

/// Commits of a range from the two `git log` listings: the metadata
/// read by [`parse_metadata`], each with the files [`parse_files`] lists
/// for its SHA.
pub fn log_from_output(metadata: &str, files: &str) -> (r: Result<Vec<Commit>, GitError>)
    ensures
        match r {
            Ok(cs) => {
                let recs = metadata_records(metadata@);
                &&& records_complete(recs)
                &&& cs@.len() == recs.len()
                &&& forall|j: int|
                    0 <= j < recs.len() ==> commit_of_record_except_files(#[trigger] cs@[j], recs[j])
                        && string_views(cs@[j].files@) == files_for(
                        file_entries(files@),
                        fields_of(recs[j])[0],
                    )
            },
            Err(e) => metadata_error(metadata_records(metadata@), e),
        },
{
    let commits = match parse_metadata(metadata) {
        Ok(cs) => cs,
        Err(e) => return Err(e),
    };
    let es = parse_files(files);
    let ghost before = commits@;
    let out = attach_files(commits, &es);
    proof {
        let recs = metadata_records(metadata@);
        assert forall|j: int| 0 <= j < recs.len() implies commit_of_record_except_files(
            #[trigger] out@[j],
            recs[j],
        ) && string_views(out@[j].files@) == files_for(file_entries(files@), fields_of(recs[j])[0]) by {
            assert(commit_of_record(before[j], recs[j]));
            assert(string_views(before[j].files@) =~= Seq::<Seq<char>>::empty());
        }
    }
    Ok(out)
}

} // verus!
