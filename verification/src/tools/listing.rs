//! The `list_directory` result: `.git` left out, at most
//! [`MAX_ENTRIES`] entries, sorted by name.

use vstd::prelude::*;

use super::files::{DirEntry, EntryKind};
use crate::text::{chars_of, eq_str};

verus! {

broadcast use vstd::seq_lib::group_to_multiset_ensures;

/// Entries listed at most.
pub const MAX_ENTRIES: usize = 200;

/// An entry as its name and kind.
pub open spec fn entry_view(e: DirEntry) -> (Seq<char>, EntryKind) {
    (e.name@, e.kind)
}

pub open spec fn entry_views(v: Seq<DirEntry>) -> Seq<(Seq<char>, EntryKind)> {
    v.map_values(|e: DirEntry| entry_view(e))
}

/// `a` sorts before `b` in string order: the first differing character
/// decides, a proper prefix comes first. For UTF-8 text this is the byte
/// order `str` compares by.
pub open spec fn name_less(a: Seq<char>, b: Seq<char>) -> bool
    decreases a.len(),
{
    if a.len() == 0 {
        b.len() > 0
    } else if b.len() == 0 {
        false
    } else if a[0] != b[0] {
        (a[0] as u32) < (b[0] as u32)
    } else {
        name_less(a.drop_first(), b.drop_first())
    }
}

proof fn lemma_name_less_trans(a: Seq<char>, b: Seq<char>, c: Seq<char>)
    requires
        name_less(a, b),
        name_less(b, c),
    ensures
        name_less(a, c),
    decreases a.len(),
{
    if a.len() > 0 && b.len() > 0 && c.len() > 0 && a[0] == b[0] && b[0] == c[0] {
        lemma_name_less_trans(a.drop_first(), b.drop_first(), c.drop_first());
    }
}

proof fn lemma_name_less_irrefl(a: Seq<char>)
    ensures
        !name_less(a, a),
    decreases a.len(),
{
    if a.len() > 0 {
        lemma_name_less_irrefl(a.drop_first());
    }
}

fn name_less_exec(a: &[char], b: &[char]) -> (r: bool)
    ensures
        r == name_less(a@, b@),
{
    let mut i: usize = 0;
    proof {
        assert(a@.skip(0) =~= a@);
        assert(b@.skip(0) =~= b@);
    }
    while i < a.len() && i < b.len() && a[i] == b[i]
        invariant
            i <= a@.len(),
            i <= b@.len(),
            forall|j: int| 0 <= j < i ==> a@[j] == b@[j],
            name_less(a@, b@) == name_less(a@.skip(i as int), b@.skip(i as int)),
        decreases a@.len() - i,
    {
        proof {
            assert(a@.skip(i as int).drop_first() =~= a@.skip(i + 1));
            assert(b@.skip(i as int).drop_first() =~= b@.skip(i + 1));
        }
        i = i + 1;
    }
    proof {
        if i < a@.len() {
            assert(a@.skip(i as int)[0] == a@[i as int]);
        }
        if i < b@.len() {
            assert(b@.skip(i as int)[0] == b@[i as int]);
        }
    }
    if i == a.len() {
        i < b.len()
    } else if i == b.len() {
        false
    } else {
        (a[i] as u32) < (b[i] as u32)
    }
}

/// Sorted by name, ties in any order.
pub open spec fn sorted_by_name(v: Seq<(Seq<char>, EntryKind)>) -> bool {
    forall|i: int, j: int| 0 <= i < j < v.len() ==> !name_less(#[trigger] v[j].0, #[trigger] v[i].0)
}

/// Insert `x` into a sorted list after every entry that does not sort
/// after it.
fn insert_sorted(out: &mut Vec<DirEntry>, x: DirEntry)
    requires
        sorted_by_name(entry_views(old(out)@)),
    ensures
        sorted_by_name(entry_views(final(out)@)),
        entry_views(final(out)@).to_multiset() == entry_views(old(out)@).to_multiset().insert(entry_view(x)),
{
    let ghost v = entry_views(out@);
    let xn = chars_of(x.name.as_str());
    let mut p: usize = 0;
    while p < out.len()
        invariant
            p <= out@.len(),
            v == entry_views(out@),
            xn@ == x.name@,
            forall|i: int| 0 <= i < p ==> !name_less(x.name@, #[trigger] v[i].0),
        ensures
            p <= out@.len(),
            forall|i: int| 0 <= i < p ==> !name_less(x.name@, #[trigger] v[i].0),
            p < out@.len() ==> name_less(x.name@, v[p as int].0),
        decreases out@.len() - p,
    {
        if name_less_exec(&xn, &chars_of(out[p].name.as_str())) {
            break;
        }
        p = p + 1;
    }
    let ghost xv = entry_view(x);
    out.insert(p, x);
    proof {
        let w = entry_views(out@);
        assert(w =~= v.insert(p as int, xv));
        vstd::seq_lib::to_multiset_insert(v, p as int, xv);
        assert(sorted_by_name(v));
        assert forall|i: int, j: int| 0 <= i < j < w.len() implies !name_less(#[trigger] w[j].0, #[trigger] w[i].0) by {
            if j < p {
                assert(w[j] == v[j] && w[i] == v[i]);
                assert(!name_less(v[j].0, v[i].0));
            } else if j == p {
                assert(w[j] == xv && w[i] == v[i]);
                assert(!name_less(x.name@, v[i].0));
            } else if i == p {
                assert(w[i] == xv && w[j] == v[j - 1]);
                assert(p < v.len());
                assert(name_less(x.name@, v[p as int].0));
                if name_less(v[j - 1].0, x.name@) {
                    lemma_name_less_trans(v[j - 1].0, x.name@, v[p as int].0);
                    if j - 1 > p {
                        assert(!name_less(v[j - 1].0, v[p as int].0));
                    } else {
                        lemma_name_less_irrefl(v[p as int].0);
                    }
                }
            } else if i < p {
                assert(w[i] == v[i] && w[j] == v[j - 1]);
                assert(!name_less(v[j - 1].0, v[i].0));
            } else {
                assert(w[i] == v[i - 1] && w[j] == v[j - 1]);
                assert(!name_less(v[j - 1].0, v[i - 1].0));
            }
        }
    }
}

/// Whether an entry is the `.git` directory.
pub open spec fn is_git_entry(e: (Seq<char>, EntryKind)) -> bool {
    e.0 == ".git"@
}

/// The entries other than `.git`, in order.
pub open spec fn without_git(v: Seq<(Seq<char>, EntryKind)>) -> Seq<(Seq<char>, EntryKind)> {
    v.filter(not_git())
}

pub open spec fn not_git() -> spec_fn((Seq<char>, EntryKind)) -> bool {
    |e: (Seq<char>, EntryKind)| !is_git_entry(e)
}

/// Leaving out `.git` from a prefix gives a prefix of the whole result.
proof fn lemma_without_git_prefix(v: Seq<(Seq<char>, EntryKind)>, i: int)
    requires
        0 <= i <= v.len(),
    ensures
        without_git(v.take(i)).len() <= without_git(v).len(),
        without_git(v).take(without_git(v.take(i)).len() as int) == without_git(v.take(i)),
{
    assert(v =~= v.take(i) + v.skip(i));
    Seq::filter_distributes_over_add(v.take(i), v.skip(i), not_git());
    let a = without_git(v.take(i));
    let b = v.skip(i).filter(not_git());
    assert((a + b).take(a.len() as int) =~= a);
}

/// The listing of a directory's raw entries: `.git` left out, the first
/// [`MAX_ENTRIES`] others kept (and `true` when more were left), sorted
/// by name.
pub fn finish_listing(raw: Vec<DirEntry>) -> (r: (Vec<DirEntry>, bool))
    ensures
        ({
            let kept = without_git(entry_views(raw@));
            let n = if kept.len() <= MAX_ENTRIES { kept.len() } else { MAX_ENTRIES as nat };
            &&& r.1 == (kept.len() > MAX_ENTRIES)
            &&& sorted_by_name(entry_views(r.0@))
            &&& entry_views(r.0@).to_multiset() == kept.take(n as int).to_multiset()
        }),
{
    let ghost all = entry_views(raw@);
    let mut out: Vec<DirEntry> = Vec::new();
    let mut truncated = false;
    let mut i: usize = 0;
    let mut pending: Vec<DirEntry> = Vec::new();
    proof {
        if raw@.len() == 0 {
            assert(all.take(0) =~= all);
        }
    }
    while i < raw.len()
        invariant_except_break
            !truncated,
        invariant
            all == entry_views(raw@),
            i <= raw@.len(),
            entry_views(pending@) == without_git(all.take(i as int)),
            pending@.len() <= MAX_ENTRIES,
            all.len() == raw@.len(),
            i == raw@.len() ==> all.take(i as int) == all,
        ensures
            truncated ==> without_git(all).len() > MAX_ENTRIES && entry_views(pending@) == without_git(all).take(
                MAX_ENTRIES as int,
            ),
            !truncated ==> without_git(all).len() <= MAX_ENTRIES && entry_views(pending@) == without_git(all),
        decreases raw@.len() - i,
    {
        proof {
            all.take(i as int).lemma_filter_push(all[i as int], not_git());
            assert(all.take(i as int).push(all[i as int]) =~= all.take(i + 1));
            assert(all[i as int] == entry_view(raw@[i as int]));
        }
        if eq_str(&chars_of(raw[i].name.as_str()), ".git") {
            i = i + 1;
        } else if pending.len() >= MAX_ENTRIES {
            proof {
                lemma_without_git_prefix(all, i + 1);
                lemma_without_git_prefix(all, i as int);
            }
            truncated = true;
            break;
        } else {
            let ghost before = pending@;
            pending.push(raw[i].clone());
            proof {
                assert(entry_views(pending@) =~= entry_views(before).push(all[i as int]));
            }
            i = i + 1;
        }
        proof {
            if i == raw@.len() {
                assert(all.take(i as int) =~= all);
            }
        }
    }
    let mut k: usize = 0;
    while k < pending.len()
        invariant
            k <= pending@.len(),
            sorted_by_name(entry_views(out@)),
            entry_views(out@).to_multiset() == entry_views(pending@).take(k as int).to_multiset(),
        decreases pending@.len() - k,
    {
        let e = pending[k].clone();
        proof {
            assert(entry_views(pending@).take(k + 1) =~= entry_views(pending@).take(k as int).push(entry_view(pending@[k as int])));
            vstd::seq_lib::to_multiset_build(entry_views(pending@).take(k as int), entry_view(pending@[k as int]));
        }
        insert_sorted(&mut out, e);
        k = k + 1;
    }
    proof {
        assert(entry_views(pending@).take(pending@.len() as int) =~= entry_views(pending@));
    }
    (out, truncated)
}

} // verus!
