//! Cache of model-derived classifications, keyed by commit SHA and model.
//!
//! Entries live under `<root>/v<SCHEMA>/<model>/<sha-prefix>/<sha>.json`;
//! the schema directory invalidates everything when bumped, the model
//! directory keeps models apart. Only model-derived classifications are
//! stored: Tier 0 recomputes instantly.

use vstd::prelude::*;

use crate::models::{Classification, Classified};
use crate::text::{chars_of, eq_chars, is_ascii_alnum, push_char, push_str, string_of, trim, trim_exec};

verus! {

/// Version of the cache layout; bumping it invalidates every entry.
pub const CACHE_SCHEMA_VERSION: u32 = 1;

#[derive(Debug, PartialEq, Eq)]
pub enum CacheError {
    Io { path: String, message: String },
    Invalid { path: String, message: String },
}

/// One stored classification and where it came from.
#[derive(Debug, PartialEq, Eq)]
pub struct CacheEntry {
    pub schema: u32,
    pub sha: String,
    pub model: String,
    pub classification: Classification,
    pub computed_at_unix_ms: u64,
}

#[derive(Debug, Clone, Default, PartialEq, Eq)]
pub struct CacheStats {
    pub entries: usize,
    pub bytes: u64,
}

/// A character allowed in a model directory name.
pub open spec fn model_id_char(c: char) -> bool {
    is_ascii_alnum(c) || c == '_' || c == '.' || c == '-'
}

/// The directory name of a model: disallowed characters become `_`; a
/// blank id becomes `unknown`.
pub open spec fn sanitized_model_id(m: Seq<char>) -> Seq<char> {
    if trim(m).len() == 0 {
        "unknown"@
    } else {
        Seq::new(m.len(), |i: int| if model_id_char(m[i]) { m[i] } else { '_' })
    }
}

/// Sanitize a model id for use as a directory name.
pub fn sanitize_model_id(model: &str) -> (r: String)
    ensures
        r@ == sanitized_model_id(model@),
{
    let v = chars_of(model);
    if trim_exec(&v).len() == 0 {
        return String::from_str("unknown");
    }
    let mut out = String::new();
    let mut i: usize = 0;
    while i < v.len()
        invariant
            i <= v@.len(),
            v@ == model@,
            out@ == Seq::new(i as nat, |j: int| if model_id_char(v@[j]) { v@[j] } else { '_' }),
        decreases v@.len() - i,
    {
        let c = v[i];
        if ('a' <= c && c <= 'z') || ('A' <= c && c <= 'Z') || ('0' <= c && c <= '9') || c == '_'
            || c == '.' || c == '-' {
            push_char(&mut out, c);
        } else {
            push_char(&mut out, '_');
        }
        i = i + 1;
        proof {
            assert(out@ =~= Seq::new(i as nat, |j: int| if model_id_char(v@[j]) { v@[j] } else { '_' }));
        }
    }
    out
}

/// The cache that never hits.
#[derive(Debug, Clone, Default, PartialEq, Eq)]
pub struct NullCache;

impl NullCache {
    pub fn get(&self, sha: &str, model: &str) -> (r: Option<Classification>)
        ensures
            r is None,
    {
        None
    }

    pub fn put(&self, sha: &str, model: &str, classification: &Classification) {
    }

    pub fn clear(&self) -> (r: Result<usize, CacheError>)
        ensures
            r == Ok::<usize, CacheError>(0),
    {
        Ok(0)
    }

    pub fn stats(&self) -> (r: CacheStats)
        ensures
            r.entries == 0 && r.bytes == 0,
    {
        CacheStats { entries: 0, bytes: 0 }
    }
}

/// The cache root: `CHRONIKL_CACHE_DIR` when set, else
/// `chronikl/classifications` under the user cache directory (when there
/// is one), else `.chronikl/cache/classifications` under the repository.
pub open spec fn cache_root_of(env: crate::env::Env, user_cache: Option<Seq<char>>, repo_root: Seq<char>) -> Seq<char> {
    match env.lookup("CHRONIKL_CACHE_DIR"@) {
        Some(d) => d,
        None => match user_cache {
            Some(c) => crate::tools::joined_path(c, "chronikl/classifications"@),
            None => crate::tools::joined_path(repo_root, ".chronikl/cache/classifications"@),
        },
    }
}

/// [`cache_root_of`]; `user_cache` is the platform's cache directory.
pub fn default_cache_root(env: &crate::env::Env, user_cache: Option<&str>, repo_root: &str) -> (r: String)
    ensures
        r@ == cache_root_of(*env, match user_cache {
            Some(c) => Some(c@),
            None => None,
        }, repo_root@),
{
    match env.var("CHRONIKL_CACHE_DIR") {
        Some(d) => d,
        None => match user_cache {
            Some(c) => crate::tools::join_path(c, "chronikl/classifications"),
            None => crate::tools::join_path(repo_root, ".chronikl/cache/classifications"),
        },
    }
}

/// The classification a stored entry gives for `sha` under `model`: none
/// when the entry has another schema or was written for another commit
/// or model.
pub fn entry_classification(entry: CacheEntry, sha: &str, model: &str) -> (r: Option<Classification>)
    ensures
        r == if entry.schema == CACHE_SCHEMA_VERSION && entry.sha@ == sha@ && entry.model@ == model@ {
            Some(entry.classification)
        } else {
            None::<Classification>
        },
{
    if entry.schema != CACHE_SCHEMA_VERSION {
        return None;
    }
    if !eq_chars(&chars_of(entry.sha.as_str()), &chars_of(sha)) || !eq_chars(&chars_of(entry.model.as_str()), &chars_of(model)) {
        return None;
    }
    Some(entry.classification)
}

/// The entry stored for a classification.
pub fn new_entry(sha: &str, model: &str, classification: Classification, now_ms: u64) -> (r: CacheEntry)
    ensures
        r.schema == CACHE_SCHEMA_VERSION,
        r.sha@ == sha@,
        r.model@ == model@,
        r.classification == classification,
        r.computed_at_unix_ms == now_ms,
{
    CacheEntry {
        schema: CACHE_SCHEMA_VERSION,
        sha: String::from_str(sha),
        model: String::from_str(model),
        classification,
        computed_at_unix_ms: now_ms,
    }
}

/// Classifications held in memory, one per `(model, sha)`.
#[derive(Debug)]
pub struct MemoryCache {
    entries: Vec<(String, String, Classification)>,
}

pub type CacheKey = (Seq<char>, Seq<char>);

/// The map the entries denote; a later entry for a key wins.
pub open spec fn map_of(es: Seq<(String, String, Classification)>) -> Map<CacheKey, Classification>
    decreases es.len(),
{
    if es.len() == 0 {
        Map::empty()
    } else {
        map_of(es.drop_last()).insert((es.last().0@, es.last().1@), es.last().2)
    }
}

pub open spec fn keys_distinct(es: Seq<(String, String, Classification)>) -> bool {
    forall|i: int, j: int|
        0 <= i < j < es.len() ==> (#[trigger] es[i].0@, es[i].1@) != (#[trigger] es[j].0@, es[j].1@)
}

proof fn lemma_map_of_dom(es: Seq<(String, String, Classification)>)
    ensures
        forall|k: CacheKey|
            #[trigger] map_of(es).dom().contains(k) <==> exists|i: int|
                0 <= i < es.len() && (es[i].0@, es[i].1@) == k,
        map_of(es).dom().finite(),
    decreases es.len(),
{
    if es.len() > 0 {
        lemma_map_of_dom(es.drop_last());
        let d = es.drop_last();
        assert forall|k: CacheKey| #[trigger] map_of(es).dom().contains(k) <==> exists|i: int|
            0 <= i < es.len() && (es[i].0@, es[i].1@) == k by {
            if map_of(es).dom().contains(k) && k != (es.last().0@, es.last().1@) {
                let i = choose|i: int| 0 <= i < d.len() && (d[i].0@, d[i].1@) == k;
                assert(es[i] == d[i]);
            }
            if exists|i: int| 0 <= i < es.len() && (es[i].0@, es[i].1@) == k {
                let i = choose|i: int| 0 <= i < es.len() && (es[i].0@, es[i].1@) == k;
                if i < es.len() - 1 {
                    assert(d[i] == es[i]);
                }
            }
        }
    }
}

proof fn lemma_map_of_len(es: Seq<(String, String, Classification)>)
    requires
        keys_distinct(es),
    ensures
        map_of(es).dom().len() == es.len(),
    decreases es.len(),
{
    if es.len() > 0 {
        let d = es.drop_last();
        assert(keys_distinct(d)) by {
            assert forall|i: int, j: int| 0 <= i < j < d.len() implies (#[trigger] d[i].0@, d[i].1@) != (
            #[trigger] d[j].0@, d[j].1@) by {
                assert(d[i] == es[i] && d[j] == es[j]);
            }
        }
        lemma_map_of_len(d);
        lemma_map_of_dom(d);
        let k = (es.last().0@, es.last().1@);
        if map_of(d).dom().contains(k) {
            let i = choose|i: int| 0 <= i < d.len() && (d[i].0@, d[i].1@) == k;
            assert(es[i] == d[i]);
            assert((es[i].0@, es[i].1@) != (es[es.len() - 1].0@, es[es.len() - 1].1@));
        }
    }
}

impl MemoryCache {
    /// The stored classifications, by `(model, sha)`.
    pub closed spec fn view(&self) -> Map<CacheKey, Classification> {
        map_of(self.entries@)
    }

    pub closed spec fn wf(&self) -> bool {
        keys_distinct(self.entries@)
    }

    pub fn new() -> (r: Self)
        ensures
            r.wf(),
            r.view() == Map::<CacheKey, Classification>::empty(),
    {
        MemoryCache { entries: Vec::new() }
    }

    /// Number of stored classifications.
    pub fn len(&self) -> (r: usize)
        requires
            self.wf(),
        ensures
            r == self.view().dom().len(),
    {
        proof {
            lemma_map_of_len(self.entries@);
        }
        self.entries.len()
    }

    pub fn is_empty(&self) -> (r: bool)
        requires
            self.wf(),
        ensures
            r == (self.view().dom().len() == 0),
    {
        self.len() == 0
    }

    /// Index of the entry for `(model, sha)`, if any.
    fn find(&self, sha: &str, model: &str) -> (r: Option<usize>)
        requires
            self.wf(),
        ensures
            match r {
                Some(i) => i < self.entries@.len() && self.entries@[i as int].0@ == model@
                    && self.entries@[i as int].1@ == sha@,
                None => !self.view().dom().contains((model@, sha@)),
            },
    {
        let m = chars_of(model);
        let s = chars_of(sha);
        let mut i: usize = 0;
        while i < self.entries.len()
            invariant
                i <= self.entries@.len(),
                m@ == model@,
                s@ == sha@,
                forall|j: int|
                    0 <= j < i ==> (#[trigger] self.entries@[j].0@, self.entries@[j].1@) != (model@, sha@),
            decreases self.entries@.len() - i,
        {
            if eq_chars(&chars_of(self.entries[i].0.as_str()), &m) && eq_chars(
                &chars_of(self.entries[i].1.as_str()),
                &s,
            ) {
                return Some(i);
            }
            i = i + 1;
        }
        proof {
            lemma_map_of_dom(self.entries@);
        }
        None
    }

    /// The classification stored for `sha` under `model`.
    pub fn get(&self, sha: &str, model: &str) -> (r: Option<Classification>)
        requires
            self.wf(),
        ensures
            match r {
                Some(c) => self.view().dom().contains((model@, sha@)) && c == self.view()[(
                    model@,
                    sha@,
                )],
                None => !self.view().dom().contains((model@, sha@)),
            },
    {
        match self.find(sha, model) {
            Some(i) => {
                proof {
                    lemma_map_of_last_wins(self.entries@, i as int);
                }
                Some(self.entries[i].2.clone())
            },
            None => None,
        }
    }

    /// Store a classification for `sha` under `model`, replacing any.
    pub fn put(&mut self, sha: &str, model: &str, classification: &Classification)
        requires
            old(self).wf(),
        ensures
            final(self).wf(),
            final(self).view() == old(self).view().insert((model@, sha@), *classification),
    {
        let c = classification.clone();
        match self.find(sha, model) {
            Some(i) => {
                let ghost before = self.entries@;
                let (m0, s0, _) = self.entries.remove(i);
                self.entries.insert(i, (m0, s0, c));
                proof {
                    assert(self.entries@ =~= before.update(i as int, (m0, s0, c)));
                    lemma_map_of_update(before, i as int, c);
                    assert forall|a: int, b: int| 0 <= a < b < self.entries@.len() implies (
                    #[trigger] self.entries@[a].0@, self.entries@[a].1@) != (
                    #[trigger] self.entries@[b].0@, self.entries@[b].1@) by {
                        assert(self.entries@[a].0 == before[a].0 && self.entries@[a].1 == before[a].1);
                        assert(self.entries@[b].0 == before[b].0 && self.entries@[b].1 == before[b].1);
                    }
                }
            },
            None => {
                let ghost before = self.entries@;
                proof {
                    lemma_map_of_dom(before);
                }
                self.entries.push((String::from_str(model), String::from_str(sha), c));
                proof {
                    assert(self.entries@.drop_last() =~= before);
                    assert forall|a: int, b: int| 0 <= a < b < self.entries@.len() implies (
                    #[trigger] self.entries@[a].0@, self.entries@[a].1@) != (
                    #[trigger] self.entries@[b].0@, self.entries@[b].1@) by {
                        if b == self.entries@.len() - 1 {
                            assert(self.entries@[a] == before[a]);
                        } else {
                            assert(self.entries@[a] == before[a] && self.entries@[b] == before[b]);
                        }
                    }
                }
            },
        }
    }

    /// Drop every entry, returning how many there were.
    pub fn clear(&mut self) -> (r: Result<usize, CacheError>)
        requires
            old(self).wf(),
        ensures
            final(self).wf(),
            final(self).view() == Map::<CacheKey, Classification>::empty(),
            r == Ok::<usize, CacheError>(old(self).view().dom().len() as usize),
    {
        let n = self.len();
        self.entries = Vec::new();
        Ok(n)
    }

    pub fn stats(&self) -> (r: CacheStats)
        requires
            self.wf(),
        ensures
            r.entries == self.view().dom().len() && r.bytes == 0,
    {
        CacheStats { entries: self.len(), bytes: 0 }
    }
}

impl MemoryCache {
    /// What the cache holds for each entry's SHA under `model`.
    pub fn lookups(&self, classified: &Classified, model: &str) -> (r: Vec<Option<Classification>>)
        requires
            self.wf(),
        ensures
            r@ == cached_for(self.view(), model@, classified.0@),
    {
        let ghost e = classified.0@;
        let mut out: Vec<Option<Classification>> = Vec::new();
        let mut i: usize = 0;
        while i < classified.0.len()
            invariant
                self.wf(),
                i <= e.len(),
                e == classified.0@,
                out@ == cached_for(self.view(), model@, e).take(i as int),
            decreases e.len() - i,
        {
            let h = self.get(classified.0[i].commit.sha.as_str(), model);
            out.push(h);
            proof {
                assert(out@ =~= cached_for(self.view(), model@, e).take(i + 1));
            }
            i = i + 1;
        }
        proof {
            assert(cached_for(self.view(), model@, e).take(e.len() as int) =~= cached_for(self.view(), model@, e));
        }
        out
    }

    /// Put the cached classification in place for every entry the cache
    /// holds (under `model`); returns how many were replaced.
    pub fn populate(&self, classified: &mut Classified, model: &str) -> (r: usize)
        requires
            self.wf(),
        ensures
            final(classified).0@.len() == old(classified).0@.len(),
            forall|i: int|
                0 <= i < final(classified).0@.len() ==> (#[trigger] final(classified).0@[i]).commit
                    == old(classified).0@[i].commit && final(classified).0@[i].pr == old(
                    classified,
                ).0@[i].pr && final(classified).0@[i].classification == match cached_for(self.view(), model@, old(classified).0@)[i] {
                    Some(c) => c,
                    None => old(classified).0@[i].classification,
                },
            r == hit_count(cached_for(self.view(), model@, old(classified).0@)),
    {
        let hits = self.lookups(classified, model);
        populate_with(classified, hits)
    }

    /// Store every model-derived classification under `model`; returns
    /// how many were stored.
    pub fn persist_llm_results(&mut self, classified: &Classified, model: &str) -> (r: usize)
        requires
            old(self).wf(),
        ensures
            final(self).wf(),
            final(self).view() == persisted(old(self).view(), model@, classified.0@),
            r == llm_indices(classified.0@).len(),
    {
        let ghost e = classified.0@;
        let ghost start = self.view();
        let mut written: usize = 0;
        let mut i: usize = 0;
        while i < classified.0.len()
            invariant
                self.wf(),
                i <= e.len(),
                e == classified.0@,
                self.view() == persisted(start, model@, e.take(i as int)),
                written == llm_indices(e.take(i as int)).len(),
                written <= i,
            decreases e.len() - i,
        {
            proof {
                assert(e.take(i + 1).drop_last() =~= e.take(i as int));
            }
            let entry = &classified.0[i];
            if entry.classification.source.is_llm_derived() {
                self.put(entry.commit.sha.as_str(), model, &entry.classification);
                written = written + 1;
            }
            i = i + 1;
        }
        proof {
            assert(e.take(e.len() as int) =~= e);
        }
        written
    }
}

/// For each entry, what `m` holds for its SHA under `model`.
pub open spec fn cached_for(
    m: Map<CacheKey, Classification>,
    model: Seq<char>,
    e: Seq<crate::models::ClassifiedCommit>,
) -> Seq<Option<Classification>> {
    Seq::new(
        e.len(),
        |i: int|
            if m.dom().contains((model, e[i].commit.sha@)) {
                Some(m[(model, e[i].commit.sha@)])
            } else {
                None
            },
    )
}

/// `m` after storing, in order, every model-derived classification of
/// `e` under `model`.
pub open spec fn persisted(
    m: Map<CacheKey, Classification>,
    model: Seq<char>,
    e: Seq<crate::models::ClassifiedCommit>,
) -> Map<CacheKey, Classification>
    decreases e.len(),
{
    if e.len() == 0 {
        m
    } else {
        let prev = persisted(m, model, e.drop_last());
        let c = e.last();
        let s = c.classification.source;
        if s is BatchedLlm || s is PerCommitLlm || s is Agentic {
            prev.insert((model, c.commit.sha@), c.classification)
        } else {
            prev
        }
    }
}

proof fn lemma_map_of_last_wins(es: Seq<(String, String, Classification)>, i: int)
    requires
        keys_distinct(es),
        0 <= i < es.len(),
    ensures
        map_of(es).dom().contains((es[i].0@, es[i].1@)),
        map_of(es)[(es[i].0@, es[i].1@)] == es[i].2,
    decreases es.len(),
{
    let d = es.drop_last();
    if i < es.len() - 1 {
        assert(keys_distinct(d)) by {
            assert forall|a: int, b: int| 0 <= a < b < d.len() implies (#[trigger] d[a].0@, d[a].1@) != (
            #[trigger] d[b].0@, d[b].1@) by {
                assert(d[a] == es[a] && d[b] == es[b]);
            }
        }
        assert(d[i] == es[i]);
        lemma_map_of_last_wins(d, i);
        assert((es[i].0@, es[i].1@) != (es[es.len() - 1].0@, es[es.len() - 1].1@));
    }
}

proof fn lemma_map_of_update(es: Seq<(String, String, Classification)>, i: int, c: Classification)
    requires
        keys_distinct(es),
        0 <= i < es.len(),
    ensures
        map_of(es.update(i, (es[i].0, es[i].1, c))) == map_of(es).insert((es[i].0@, es[i].1@), c),
    decreases es.len(),
{
    let u = es.update(i, (es[i].0, es[i].1, c));
    let d = es.drop_last();
    assert(keys_distinct(d)) by {
        assert forall|a: int, b: int| 0 <= a < b < d.len() implies (#[trigger] d[a].0@, d[a].1@) != (
        #[trigger] d[b].0@, d[b].1@) by {
            assert(d[a] == es[a] && d[b] == es[b]);
        }
    }
    if i == es.len() - 1 {
        assert(u.drop_last() =~= d);
        assert(map_of(u) =~= map_of(es).insert((es[i].0@, es[i].1@), c));
    } else {
        assert(u.drop_last() =~= d.update(i, (d[i].0, d[i].1, c)));
        lemma_map_of_update(d, i, c);
        assert((es[i].0@, es[i].1@) != (es[es.len() - 1].0@, es[es.len() - 1].1@));
        assert(map_of(u) =~= map_of(es).insert((es[i].0@, es[i].1@), c));
    }
}

/// Reading back a classification just stored for a key gives it back;
/// other keys are untouched.
pub proof fn lemma_put_then_get(
    before: Map<CacheKey, Classification>,
    after: Map<CacheKey, Classification>,
    key: CacheKey,
    c: Classification,
    other: CacheKey,
)
    requires
        after == before.insert(key, c),
        other != key,
    ensures
        after.dom().contains(key) && after[key] == c,
        after.dom().contains(other) == before.dom().contains(other),
        before.dom().contains(other) ==> after[other] == before[other],
{
}

/// The cache kept in files under a root directory.
#[derive(Debug, Clone, PartialEq, Eq)]
pub struct DiskCache {
    pub root: String,
}

impl DiskCache {
    pub fn new(root: String) -> (r: Self)
        ensures
            r.root == root,
    {
        DiskCache { root }
    }

    /// Name of the schema directory, `v<SCHEMA>`.
    pub fn schema_dir() -> (r: String)
        ensures
            r@ == "v1"@,
    {
        String::from_str("v1")
    }

    /// Path components of an entry below the root: schema directory,
    /// model directory, the first four characters of the SHA (all of it
    /// when shorter), and `<sha>.json`.
    pub fn entry_components(sha: &str, model: &str) -> (r: Vec<String>)
        ensures
            r@.len() == 4,
            r@[0]@ == "v1"@,
            r@[1]@ == sanitized_model_id(model@),
            r@[2]@ == if sha@.len() >= 4 { sha@.take(4) } else { sha@ },
            r@[3]@ == sha@ + ".json"@,
    {
        let s = chars_of(sha);
        let prefix = if s.len() >= 4 {
            crate::text::slice_vec(&s, 0, 4)
        } else {
            crate::text::slice_vec(&s, 0, s.len())
        };
        proof {
            if s@.len() >= 4 {
                assert(prefix@ =~= sha@.take(4));
            } else {
                assert(prefix@ =~= sha@);
            }
        }
        let mut file = String::from_str(sha);
        push_str(&mut file, ".json");
        let mut r: Vec<String> = Vec::new();
        r.push(Self::schema_dir());
        r.push(sanitize_model_id(model));
        r.push(string_of(&prefix));
        r.push(file);
        r
    }
}

/// Put cached classifications in place: `hits[i]` is what the cache has
/// for the `i`-th entry. Returns how many were replaced.
pub fn populate_with(classified: &mut Classified, hits: Vec<Option<Classification>>) -> (r: usize)
    requires
        hits@.len() == old(classified).0@.len(),
    ensures
        final(classified).0@.len() == old(classified).0@.len(),
        forall|i: int|
            0 <= i < final(classified).0@.len() ==> (#[trigger] final(classified).0@[i]).commit
                == old(classified).0@[i].commit && final(classified).0@[i].pr == old(
                classified,
            ).0@[i].pr && final(classified).0@[i].classification == match hits@[i] {
                Some(c) => c,
                None => old(classified).0@[i].classification,
            },
        r == hit_count(hits@),
{
    let ghost orig = classified.0@;
    let ghost hs = hits@;
    proof {
        assert(hits.len() == hs.len());
    }
    let mut rest = hits;
    let mut n: usize = 0;
    let mut i: usize = 0;
    while rest.len() > 0
        invariant
            i <= hs.len() == orig.len(),
            hs.len() <= usize::MAX,
            rest@ == hs.skip(i as int),
            classified.0@.len() == orig.len(),
            forall|j: int|
                0 <= j < orig.len() ==> (#[trigger] classified.0@[j]).commit == orig[j].commit
                    && classified.0@[j].pr == orig[j].pr && classified.0@[j].classification == if j
                    < i {
                    match hs[j] {
                        Some(c) => c,
                        None => orig[j].classification,
                    }
                } else {
                    orig[j].classification
                },
            n == hit_count(hs.take(i as int)),
            n <= i,
        decreases rest@.len(),
    {
        proof {
            assert(rest@.len() == hs.len() - i);
        }
        let h = rest.remove(0);
        proof {
            assert(h == hs[i as int]);
            assert(rest@ =~= hs.skip(i + 1));
            assert(hs.take(i + 1).drop_last() =~= hs.take(i as int));
        }
        match h {
            Some(c) => {
                let ghost before = classified.0@;
                let mut e = classified.0.remove(i);
                e.classification = c;
                classified.0.insert(i, e);
                proof {
                    assert(classified.0@ =~= before.update(i as int, e));
                }
                n = n + 1;
            },
            None => {},
        }
        i = i + 1;
    }
    proof {
        assert(hs.take(hs.len() as int) =~= hs);
    }
    n
}

/// Number of present elements.
pub open spec fn hit_count(hs: Seq<Option<Classification>>) -> nat
    decreases hs.len(),
{
    if hs.len() == 0 {
        0
    } else {
        hit_count(hs.drop_last()) + if hs.last() is Some { 1nat } else { 0nat }
    }
}

/// The entries worth storing: `(sha, classification)` of every
/// model-derived classification, in order.
pub fn llm_results(classified: &Classified) -> (r: Vec<(String, Classification)>)
    ensures
        r@.len() == llm_indices(classified.0@).len(),
        forall|k: int|
            0 <= k < r@.len() ==> {
                let i = llm_indices(classified.0@)[k];
                &&& (#[trigger] r@[k]).0@ == classified.0@[i].commit.sha@
                &&& r@[k].1 == classified.0@[i].classification
            },
{
    let ghost e = classified.0@;
    let mut out: Vec<(String, Classification)> = Vec::new();
    let mut i: usize = 0;
    while i < classified.0.len()
        invariant
            i <= e.len(),
            e == classified.0@,
            out@.len() == llm_indices(e.take(i as int)).len(),
            forall|k: int|
                0 <= k < out@.len() ==> {
                    let j = llm_indices(e.take(i as int))[k];
                    &&& 0 <= j < i
                    &&& (#[trigger] out@[k]).0@ == e[j].commit.sha@
                    &&& out@[k].1 == e[j].classification
                },
        decreases e.len() - i,
    {
        proof {
            assert(e.take(i + 1).drop_last() =~= e.take(i as int));
            lemma_llm_indices_bound(e.take(i as int));
        }
        let c = &classified.0[i];
        if c.classification.source.is_llm_derived() {
            out.push((c.commit.sha.clone(), c.classification.clone()));
        }
        i = i + 1;
    }
    proof {
        assert(e.take(e.len() as int) =~= e);
    }
    out
}

/// Indices of the entries with a model-derived classification.
pub open spec fn llm_indices(e: Seq<crate::models::ClassifiedCommit>) -> Seq<int>
    decreases e.len(),
{
    if e.len() == 0 {
        seq![]
    } else {
        let prev = llm_indices(e.drop_last());
        let s = e.last().classification.source;
        if s is BatchedLlm || s is PerCommitLlm || s is Agentic {
            prev.push(e.len() - 1)
        } else {
            prev
        }
    }
}

proof fn lemma_llm_indices_bound(e: Seq<crate::models::ClassifiedCommit>)
    ensures
        forall|k: int| 0 <= k < llm_indices(e).len() ==> 0 <= #[trigger] llm_indices(e)[k] < e.len(),
        llm_indices(e).len() <= e.len(),
    decreases e.len(),
{
    if e.len() > 0 {
        lemma_llm_indices_bound(e.drop_last());
    }
}

} // verus!
