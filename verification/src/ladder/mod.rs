//! The classification ladder: deterministic placement first, model
//! passes for what it leaves uncertain.
//!
//! Each model pass picks the entries still below a confidence threshold,
//! asks the model about them, and writes its verdicts back; the picking
//! and the writing back are here, the asking is done by the caller.

pub mod tier0;
pub mod tier1;
pub mod tier2;
pub mod tier3;

use vstd::prelude::*;

use crate::models::classification::{
    section_named, Classification, ClassificationSource, Classified, ClassifiedCommit, Section, CONFIDENCE_FULL,
};
use crate::text::{ascii_lower, chars_of, string_of, trim, trim_exec};

verus! {

/// `i` is an entry a pass below `threshold` works on.
pub open spec fn is_pending(e: Seq<ClassifiedCommit>, threshold: u32, i: int) -> bool {
    0 <= i < e.len() && e[i].classification.confidence < threshold
}

/// The entries below `threshold`, by increasing index.
pub fn pending_indices(classified: &Classified, threshold: u32) -> (r: Vec<usize>)
    ensures
        forall|a: int, b: int| 0 <= a < b < r@.len() ==> r@[a] < r@[b],
        forall|k: int| 0 <= k < r@.len() ==> is_pending(classified.0@, threshold, #[trigger] r@[k] as int),
        forall|i: int| is_pending(classified.0@, threshold, i) ==> #[trigger] r@.contains(i as usize),
{
    let mut out: Vec<usize> = Vec::new();
    let mut i: usize = 0;
    while i < classified.0.len()
        invariant
            i <= classified.0@.len(),
            forall|a: int, b: int| 0 <= a < b < out@.len() ==> out@[a] < out@[b],
            forall|k: int| 0 <= k < out@.len() ==> out@[k] < i,
            forall|k: int| 0 <= k < out@.len() ==> is_pending(classified.0@, threshold, #[trigger] out@[k] as int),
            forall|j: int| 0 <= j < i && is_pending(classified.0@, threshold, j) ==> #[trigger] out@.contains(
                j as usize,
            ),
        decreases classified.0@.len() - i,
    {
        if classified.0[i].classification.confidence < threshold {
            let ghost before = out@;
            out.push(i);
            proof {
                assert(out@[before.len() as int] == i);
                assert forall|j: int| 0 <= j < i + 1 && is_pending(classified.0@, threshold, j) implies #[trigger] out@.contains(
                    j as usize,
                ) by {
                    if j < i {
                        assert(before.contains(j as usize));
                        let k = choose|k: int| 0 <= k < before.len() && before[k] == j as usize;
                        assert(out@[k] == before[k]);
                    } else {
                        assert(out@[before.len() as int] == j as usize);
                    }
                }
            }
        }
        i = i + 1;
    }
    out
}

/// A verdict of a model pass, its confidence in thousandths as the model
/// gave it (it may lie outside `0..=1000`).
#[derive(Debug, Clone)]
pub struct Verdict {
    pub section: String,
    pub summary: String,
    pub confidence: i64,
    /// The model found a breaking change.
    pub breaking: bool,
}

/// `c` clamped to `0..=CONFIDENCE_FULL`.
pub open spec fn clamped(c: i64) -> u32 {
    if c < 0 {
        0
    } else if c > CONFIDENCE_FULL {
        CONFIDENCE_FULL
    } else {
        c as u32
    }
}

/// The section a verdict places a commit in: breaking when the model
/// found a breaking change, else the named section, else other.
pub open spec fn verdict_section(name: Seq<char>, breaking: bool) -> Section {
    if breaking {
        Section::Breaking
    } else {
        match section_named(ascii_lower(trim(name))) {
            Some(s) => s,
            None => Section::Other,
        }
    }
}

/// The classification a verdict gives, with the trimmed summary.
pub fn classification_of(v: &Verdict, source: ClassificationSource) -> (r: Classification)
    ensures
        r.section == verdict_section(v.section@, v.breaking),
        r.summary@ == trim(v.summary@),
        r.source == source,
        r.confidence == clamped(v.confidence),
{
    let section = if v.breaking {
        Section::Breaking
    } else {
        match Section::parse_lenient(v.section.as_str()) {
            Some(s) => s,
            None => Section::Other,
        }
    };
    let confidence: u32 = if v.confidence < 0 {
        0
    } else if v.confidence > CONFIDENCE_FULL as i64 {
        CONFIDENCE_FULL
    } else {
        v.confidence as u32
    };
    Classification {
        section,
        summary: string_of(&trim_exec(&chars_of(v.summary.as_str()))),
        source,
        confidence,
    }
}

/// Replace the classification of entry `i`, leaving everything else.
pub fn set_classification(classified: &mut Classified, i: usize, c: Classification)
    requires
        i < old(classified).0@.len(),
    ensures
        final(classified).0@.len() == old(classified).0@.len(),
        forall|j: int| 0 <= j < old(classified).0@.len() && j != i ==> #[trigger] final(classified).0@[j] == old(
            classified,
        ).0@[j],
        final(classified).0@[i as int].commit == old(classified).0@[i as int].commit,
        final(classified).0@[i as int].pr == old(classified).0@[i as int].pr,
        final(classified).0@[i as int].classification == c,
{
    let mut e = classified.0.remove(i);
    e.classification = c;
    classified.0.insert(i, e);
}

} // verus!
