//! File records of a store and the incremental-index decisions built on
//! them. Each record says which chunk ids its file owns; the catalog keeps
//! the records, the vector ids and the lexical-index ids in lock-step.
use vstd::prelude::*;
use crate::catalog::{VectorIds, distinct, without_ids};
use crate::text::str_equal;

verus! {

/// What is stored about one indexed file.
pub struct FileRecord {
    pub path: String,
    pub mtime_ns: u64,
    pub content_hash: Vec<u8>,
    pub model_id: String,
    pub dimensions: u32,
    pub chunk_ids: Vec<u32>,
}

/// File `f` of `files` owns chunk `id`.
pub open spec fn owns(files: Seq<FileRecord>, f: int, id: u32) -> bool {
    0 <= f < files.len() && files[f].chunk_ids@.contains(id)
}

/// The index of the record for `path`, if there is one.
pub open spec fn has_record(files: Seq<FileRecord>, path: Seq<char>) -> bool {
    exists|f: int| 0 <= f < files.len() && #[trigger] files[f].path@ == path
}

/// The file records of a store together with its live ids.
pub struct IndexCatalog {
    pub files: Vec<FileRecord>,
    pub vectors: VectorIds,
    pub fts: Vec<u32>,
    pub model_id: String,
    pub dimensions: u32,
}

impl IndexCatalog {
    /// The records and the two indexes agree: every id a record owns is live
    /// in the vector table, no two records own one id, every live id has an
    /// owner, the lexical index holds live ids only and each at most once,
    /// and no two records share a path.
    pub open spec fn wf(&self) -> bool {
        let files = self.files@;
        let live = self.vectors.live@;
        &&& self.vectors.wf()
        &&& distinct(self.fts@)
        &&& forall|f: int| 0 <= f < files.len() ==> distinct(#[trigger] files[f].chunk_ids@)
        &&& forall|f: int, id: u32| #[trigger] owns(files, f, id) ==> live.contains(id)
        &&& forall|id: u32| #[trigger] live.contains(id) ==> exists|f: int| #[trigger] owns(files, f, id)
        &&& forall|f: int, g: int, id: u32| #[trigger] owns(files, f, id) && #[trigger] owns(files, g, id) ==> f == g
        &&& forall|id: u32| #[trigger] self.fts@.contains(id) ==> live.contains(id)
        &&& forall|f: int, g: int| 0 <= f < files.len() && 0 <= g < files.len() && f != g
            ==> #[trigger] files[f].path@ != #[trigger] files[g].path@
    }

    /// An empty catalog for a model.
    pub fn new(model_id: String, dimensions: u32) -> (r: IndexCatalog)
        ensures
            r.wf(),
            r.files@.len() == 0,
            r.model_id@ == model_id@,
            r.dimensions == dimensions,
    {
        IndexCatalog { files: Vec::new(), vectors: VectorIds::new(), fts: Vec::new(), model_id, dimensions }
    }

    /// The record for `path`, if any.
    pub fn find_file(&self, path: &str) -> (r: Option<usize>)
        ensures
            r is None <==> !has_record(self.files@, path@),
            r matches Some(f) ==> f < self.files@.len() && self.files@[f as int].path@ == path@,
    {
        let mut i: usize = 0;
        while i < self.files.len()
            invariant
                i <= self.files@.len(),
                forall|g: int| 0 <= g < i ==> self.files@[g].path@ != path@,
            decreases self.files@.len() - i,
        {
            if str_equal(self.files[i].path.as_str(), path) {
                return Some(i);
            }
            i = i + 1;
        }
        None
    }
}

/// The observed file needs indexing again: it has no record, its mtime or
/// content hash differs from the record, or the record was made with
/// another model or width.
pub open spec fn needs_reindex(c: IndexCatalog, path: Seq<char>, mtime_ns: u64, hash: Seq<u8>) -> bool {
    !has_record(c.files@, path) || {
        let r = c.files@[choose|f: int| 0 <= f < c.files@.len() && #[trigger] c.files@[f].path@ == path];
        r.mtime_ns != mtime_ns || r.content_hash@ != hash || r.model_id@ != c.model_id@ || r.dimensions
            != c.dimensions
    }
}

/// The ids the record for `path` owns, or none.
pub open spec fn old_ids(c: IndexCatalog, path: Seq<char>) -> Seq<u32> {
    if has_record(c.files@, path) {
        c.files@[choose|f: int| 0 <= f < c.files@.len() && #[trigger] c.files@[f].path@ == path].chunk_ids@
    } else {
        Seq::empty()
    }
}

/// The record for path `q` (meaningful when `has_record`).
pub open spec fn record_at(files: Seq<FileRecord>, q: Seq<char>) -> FileRecord {
    files[choose|f: int| 0 <= f < files.len() && #[trigger] files[f].path@ == q]
}

/// No two records share a path.
pub open spec fn unique_paths(files: Seq<FileRecord>) -> bool {
    forall|f: int, g: int| 0 <= f < files.len() && 0 <= g < files.len() && f != g
        ==> #[trigger] files[f].path@ != #[trigger] files[g].path@
}

/// Two record lists with unique paths that hold the same records for every
/// path but `p` agree on every path but `p`.
proof fn lemma_same_records_elsewhere(a: Seq<FileRecord>, b: Seq<FileRecord>, p: Seq<char>)
    requires
        unique_paths(a),
        unique_paths(b),
        forall|i: int| 0 <= i < a.len() && a[i].path@ != p ==> exists|j: int| 0 <= j < b.len() && b[j] == #[trigger] a[i],
        forall|j: int| 0 <= j < b.len() && b[j].path@ != p ==> exists|i: int| 0 <= i < a.len() && a[i] == #[trigger] b[j],
    ensures
        forall|q: Seq<char>| q != p ==> (has_record(a, q) <==> has_record(b, q)),
        forall|q: Seq<char>| q != p && has_record(a, q) ==> record_at(a, q) == record_at(b, q),
{
    assert forall|q: Seq<char>| q != p implies (has_record(a, q) <==> has_record(b, q)) by {
        if has_record(a, q) {
            let i = choose|i: int| 0 <= i < a.len() && #[trigger] a[i].path@ == q;
            let j = choose|j: int| 0 <= j < b.len() && b[j] == #[trigger] a[i];
            assert(b[j].path@ == q);
        }
        if has_record(b, q) {
            let j = choose|j: int| 0 <= j < b.len() && #[trigger] b[j].path@ == q;
            let i = choose|i: int| 0 <= i < a.len() && a[i] == #[trigger] b[j];
            assert(a[i].path@ == q);
        }
    }
    assert forall|q: Seq<char>| q != p && has_record(a, q) implies record_at(a, q) == record_at(b, q) by {
        let i = choose|i: int| 0 <= i < a.len() && #[trigger] a[i].path@ == q;
        let j = choose|j: int| 0 <= j < b.len() && b[j] == #[trigger] a[i];
        assert(b[j].path@ == q);
        let i2 = choose|f: int| 0 <= f < a.len() && #[trigger] a[f].path@ == q;
        let j2 = choose|f: int| 0 <= f < b.len() && #[trigger] b[f].path@ == q;
        assert(i2 == i);
        assert(j2 == j);
    }
}

/// Copies a list of ids.
pub fn copy_ids(s: &Vec<u32>) -> (r: Vec<u32>)
    ensures
        r@ == s@,
{
    let mut r: Vec<u32> = Vec::new();
    let mut i: usize = 0;
    while i < s.len()
        invariant
            i <= s@.len(),
            r@ == s@.subrange(0, i as int),
        decreases s@.len() - i,
    {
        r.push(s[i]);
        i = i + 1;
        proof {
            assert(r@ =~= s@.subrange(0, i as int));
        }
    }
    proof {
        assert(s@.subrange(0, s@.len() as int) =~= s@);
    }
    r
}

/// Compares two byte strings.
pub fn bytes_equal(a: &Vec<u8>, b: &Vec<u8>) -> (r: bool)
    ensures
        r == (a@ == b@),
{
    if a.len() != b.len() {
        return false;
    }
    let mut i: usize = 0;
    while i < a.len()
        invariant
            a@.len() == b@.len(),
            i <= a@.len(),
            forall|j: int| 0 <= j < i ==> a@[j] == b@[j],
        decreases a@.len() - i,
    {
        if a[i] != b[i] {
            return false;
        }
        i = i + 1;
    }
    proof {
        assert(a@ =~= b@);
    }
    true
}

impl IndexCatalog {
    /// Decides whether the file at `path`, seen with `mtime_ns` and content
    /// hash `hash`, must be indexed again, and which ids it owns now.
    pub fn check_file(&self, path: &str, mtime_ns: u64, hash: &Vec<u8>) -> (r: (bool, Vec<u32>))
        requires
            self.wf(),
        ensures
            r.0 == needs_reindex(*self, path@, mtime_ns, hash@),
            r.1@ == old_ids(*self, path@),
    {
        match self.find_file(path) {
            None => (true, Vec::new()),
            Some(f) => {
                proof {
                    let g = choose|g: int| 0 <= g < self.files@.len() && #[trigger] self.files@[g].path@ == path@;
                    assert(g == f as int);
                }
                let rec = &self.files[f];
                let changed = rec.mtime_ns != mtime_ns || !bytes_equal(&rec.content_hash, hash)
                    || !str_equal(rec.model_id.as_str(), self.model_id.as_str())
                    || rec.dimensions != self.dimensions;
                (changed, copy_ids(&rec.chunk_ids))
            },
        }
    }
}

impl IndexCatalog {
    /// Removes record `f` and tombstones the ids it owned in both indexes.
    fn remove_record(&mut self, f: usize) -> (r: Vec<u32>)
        requires
            old(self).wf(),
            f < old(self).files@.len(),
        ensures
            final(self).wf(),
            r@ == old(self).files@[f as int].chunk_ids@,
            final(self).files@ == old(self).files@.remove(f as int),
            final(self).vectors.next_id == old(self).vectors.next_id,
            forall|x: u32| #[trigger] final(self).vectors.live@.contains(x) <==> (old(self).vectors.live@.contains(x) && !r@.contains(x)),
            forall|x: u32| #[trigger] final(self).fts@.contains(x) <==> (old(self).fts@.contains(x) && !r@.contains(x)),
            final(self).model_id@ == old(self).model_id@,
            final(self).dimensions == old(self).dimensions,
    {
        let ghost f0 = self.files@;
        let ghost l0 = self.vectors.live@;
        let ids = copy_ids(&self.files[f].chunk_ids);
        self.vectors.delete_chunks(&ids);
        let fts1 = without_ids(&self.fts, &ids);
        self.fts = fts1;
        let _removed = self.files.remove(f);
        proof {
            let f1 = self.files@;
            let l1 = self.vectors.live@;
            let fi = f as int;
            assert(f1 == f0.remove(fi));
            assert forall|g: int| 0 <= g < f1.len() implies #[trigger] f1[g] == f0[if g < fi { g } else { g + 1 }] by {}
            assert forall|g: int| 0 <= g < f1.len() implies distinct(#[trigger] f1[g].chunk_ids@) by {
                let h = if g < fi { g } else { g + 1 };
                assert(f1[g] == f0[h]);
            }
            assert forall|g: int, id: u32| #[trigger] owns(f1, g, id) implies l1.contains(id) by {
                let h = if g < fi { g } else { g + 1 };
                assert(f1[g] == f0[h]);
                assert(owns(f0, h, id));
                if ids@.contains(id) {
                    assert(owns(f0, fi, id));
                }
            }
            assert forall|id: u32| #[trigger] l1.contains(id) implies exists|g: int| #[trigger] owns(f1, g, id) by {
                assert(l0.contains(id));
                let h = choose|h: int| #[trigger] owns(f0, h, id);
                assert(h != fi);
                let g = if h < fi { h } else { h - 1 };
                assert(f1[g] == f0[h]);
                assert(owns(f1, g, id));
            }
            assert forall|g1: int, g2: int, id: u32| #[trigger] owns(f1, g1, id) && #[trigger] owns(f1, g2, id) implies g1 == g2 by {
                let h1 = if g1 < fi { g1 } else { g1 + 1 };
                let h2 = if g2 < fi { g2 } else { g2 + 1 };
                assert(f1[g1] == f0[h1]);
                assert(f1[g2] == f0[h2]);
                assert(owns(f0, h1, id) && owns(f0, h2, id));
            }
            assert forall|g1: int, g2: int| 0 <= g1 < f1.len() && 0 <= g2 < f1.len() && g1 != g2
                implies #[trigger] f1[g1].path@ != #[trigger] f1[g2].path@ by {
                let h1 = if g1 < fi { g1 } else { g1 + 1 };
                let h2 = if g2 < fi { g2 } else { g2 + 1 };
                assert(f1[g1] == f0[h1]);
                assert(f1[g2] == f0[h2]);
            }
        }
        ids
    }

    /// Adds a record for a file that has none, with `n` fresh chunk ids that
    /// become live in both indexes.
    fn add_record(&mut self, path: String, mtime_ns: u64, content_hash: Vec<u8>, n: u32) -> (r: Vec<u32>)
        requires
            old(self).wf(),
            !has_record(old(self).files@, path@),
            old(self).vectors.next_id + n <= u32::MAX,
        ensures
            final(self).wf(),
            r@.len() == n,
            forall|i: int| 0 <= i < n ==> #[trigger] r@[i] == old(self).vectors.next_id + i,
            final(self).vectors.next_id == old(self).vectors.next_id + n,
            final(self).files@.len() == old(self).files@.len() + 1,
            final(self).files@.drop_last() == old(self).files@,
            final(self).files@.last().path@ == path@,
            final(self).files@.last().mtime_ns == mtime_ns,
            final(self).files@.last().content_hash@ == content_hash@,
            final(self).files@.last().model_id@ == old(self).model_id@,
            final(self).files@.last().dimensions == old(self).dimensions,
            final(self).files@.last().chunk_ids@ == r@,
            final(self).vectors.live@ == old(self).vectors.live@ + r@,
            forall|x: u32| #[trigger] final(self).fts@.contains(x) <==> (old(self).fts@.contains(x) || r@.contains(x)),
            final(self).model_id@ == old(self).model_id@,
            final(self).dimensions == old(self).dimensions,
    {
        let ghost f0 = self.files@;
        let ghost l0 = self.vectors.live@;
        let ghost t0 = self.fts@;
        let ghost next0 = self.vectors.next_id;
        let ids = self.vectors.insert_chunks(n);
        let mut t = copy_ids(&self.fts);
        let mut k: usize = 0;
        while k < ids.len()
            invariant
                k <= ids@.len(),
                t@ == t0 + ids@.subrange(0, k as int),
            decreases ids@.len() - k,
        {
            t.push(ids[k]);
            k = k + 1;
            proof {
                assert(t@ =~= t0 + ids@.subrange(0, k as int));
            }
        }
        proof {
            assert(ids@.subrange(0, ids@.len() as int) =~= ids@);
        }
        self.fts = t;
        let rec = FileRecord {
            path,
            mtime_ns,
            content_hash,
            model_id: self.model_id.clone(),
            dimensions: self.dimensions,
            chunk_ids: copy_ids(&ids),
        };
        self.files.push(rec);
        proof {
            let f1 = self.files@;
            let l1 = self.vectors.live@;
            let t1 = self.fts@;
            let m = f0.len() as int;
            assert(f1.drop_last() =~= f0);
            assert forall|g: int| 0 <= g < m implies #[trigger] f1[g] == f0[g] by {}
            assert forall|x: u32| #[trigger] ids@.contains(x) implies x >= next0 by {
                let i = choose|i: int| 0 <= i < ids@.len() && ids@[i] == x;
            }
            assert forall|x: u32| #[trigger] l0.contains(x) implies x < next0 by {
                let i = choose|i: int| 0 <= i < l0.len() && l0[i] == x;
            }
            assert forall|x: u32| #[trigger] t1.contains(x) <==> (t0.contains(x) || ids@.contains(x)) by {
                if t1.contains(x) {
                    let i = choose|i: int| 0 <= i < t1.len() && t1[i] == x;
                    if i >= t0.len() {
                        assert(ids@[i - t0.len()] == x);
                    }
                }
                if t0.contains(x) {
                    let i = choose|i: int| 0 <= i < t0.len() && t0[i] == x;
                    assert(t1[i] == x);
                }
                if ids@.contains(x) {
                    let i = choose|i: int| 0 <= i < ids@.len() && ids@[i] == x;
                    assert(t1[t0.len() + i] == x);
                }
            }
            assert forall|x: u32| #[trigger] l1.contains(x) <==> (l0.contains(x) || ids@.contains(x)) by {
                if l1.contains(x) {
                    let i = choose|i: int| 0 <= i < l1.len() && l1[i] == x;
                    if i >= l0.len() {
                        assert(ids@[i - l0.len()] == x);
                    }
                }
                if l0.contains(x) {
                    let i = choose|i: int| 0 <= i < l0.len() && l0[i] == x;
                    assert(l1[i] == x);
                }
                if ids@.contains(x) {
                    let i = choose|i: int| 0 <= i < ids@.len() && ids@[i] == x;
                    assert(l1[l0.len() + i] == x);
                }
            }
            assert(distinct(t1)) by {
                assert forall|i: int, j: int| 0 <= i < t1.len() && 0 <= j < t1.len() && i != j implies t1[i] != t1[j] by {
                    if i < t0.len() && j >= t0.len() {
                        assert(t0.contains(t1[i]));
                        assert(ids@.contains(t1[j])) by { assert(ids@[j - t0.len()] == t1[j]); }
                    } else if j < t0.len() && i >= t0.len() {
                        assert(t0.contains(t1[j]));
                        assert(ids@.contains(t1[i])) by { assert(ids@[i - t0.len()] == t1[i]); }
                    }
                }
            }
            assert(distinct(f1[m].chunk_ids@));
            assert forall|g: int, id: u32| #[trigger] owns(f1, g, id) implies l1.contains(id) by {
                if g < m {
                    assert(owns(f0, g, id));
                }
            }
            assert forall|id: u32| #[trigger] l1.contains(id) implies exists|g: int| #[trigger] owns(f1, g, id) by {
                if ids@.contains(id) {
                    assert(owns(f1, m, id));
                } else {
                    let h = choose|h: int| #[trigger] owns(f0, h, id);
                    assert(owns(f1, h, id));
                }
            }
            assert forall|g1: int, g2: int, id: u32| #[trigger] owns(f1, g1, id) && #[trigger] owns(f1, g2, id) implies g1 == g2 by {
                if g1 < m && g2 < m {
                    assert(owns(f0, g1, id) && owns(f0, g2, id));
                } else if g1 < m {
                    assert(owns(f0, g1, id));
                    assert(l0.contains(id));
                } else if g2 < m {
                    assert(owns(f0, g2, id));
                    assert(l0.contains(id));
                }
            }
            assert forall|g1: int, g2: int| 0 <= g1 < f1.len() && 0 <= g2 < f1.len() && g1 != g2
                implies #[trigger] f1[g1].path@ != #[trigger] f1[g2].path@ by {
                if g1 == m {
                    assert(f1[g2] == f0[g2]);
                } else if g2 == m {
                    assert(f1[g1] == f0[g1]);
                }
            }
        }
        ids
    }

    /// Replaces what is indexed for the file at `path` by `n` new chunks:
    /// the ids its record owned are tombstoned in both indexes, `n` fresh
    /// ids are handed out, and the record now holds them with the new
    /// mtime and content hash.
    pub fn update_file(&mut self, path: String, mtime_ns: u64, content_hash: Vec<u8>, n: u32) -> (r: Vec<u32>)
        requires
            old(self).wf(),
            old(self).vectors.next_id + n <= u32::MAX,
        ensures
            final(self).wf(),
            r@.len() == n,
            forall|i: int| 0 <= i < n ==> #[trigger] r@[i] == old(self).vectors.next_id + i,
            has_record(final(self).files@, path@),
            !needs_reindex(*final(self), path@, mtime_ns, content_hash@),
            old_ids(*final(self), path@) == r@,
            forall|x: u32| #[trigger] final(self).vectors.live@.contains(x) <==> ((old(self).vectors.live@.contains(x)
                && !old_ids(*old(self), path@).contains(x)) || r@.contains(x)),
            forall|x: u32| #[trigger] final(self).fts@.contains(x) <==> ((old(self).fts@.contains(x)
                && !old_ids(*old(self), path@).contains(x)) || r@.contains(x)),
            forall|q: Seq<char>| q != path@ ==> (has_record(final(self).files@, q) <==> has_record(old(self).files@, q)),
            forall|q: Seq<char>| q != path@ && has_record(old(self).files@, q)
                ==> record_at(final(self).files@, q) == record_at(old(self).files@, q),
            final(self).model_id@ == old(self).model_id@,
            final(self).dimensions == old(self).dimensions,
    {
        let ghost c0 = *self;
        let ghost p = path@;
        match self.find_file(path.as_str()) {
            Some(f) => {
                proof {
                    let g = choose|g: int| 0 <= g < c0.files@.len() && #[trigger] c0.files@[g].path@ == p;
                    assert(g == f as int);
                }
                let _old = self.remove_record(f);
                proof {
                    assert forall|g: int| 0 <= g < self.files@.len() implies #[trigger] self.files@[g].path@ != p by {
                        let h = if g < f { g } else { g + 1 };
                        assert(self.files@[g] == c0.files@[h]);
                    }
                }
            },
            None => {},
        }
        let ghost c1 = *self;
        let ids = self.add_record(path, mtime_ns, content_hash, n);
        proof {
            let m = self.files@.len() - 1;
            assert(self.files@[m].path@ == p);
            assert(has_record(self.files@, p));
            let g = choose|g: int| 0 <= g < self.files@.len() && #[trigger] self.files@[g].path@ == p;
            assert(g == m);
            assert forall|x: u32| #[trigger] self.vectors.live@.contains(x) <==> ((c0.vectors.live@.contains(x)
                && !old_ids(c0, p).contains(x)) || ids@.contains(x)) by {
                let l1 = self.vectors.live@;
                if l1.contains(x) {
                    let i = choose|i: int| 0 <= i < l1.len() && l1[i] == x;
                    if i >= c1.vectors.live@.len() {
                        assert(ids@[i - c1.vectors.live@.len()] == x);
                    } else {
                        assert(c1.vectors.live@[i] == x);
                    }
                }
                if c1.vectors.live@.contains(x) {
                    let i = choose|i: int| 0 <= i < c1.vectors.live@.len() && c1.vectors.live@[i] == x;
                    assert(l1[i] == x);
                }
                if ids@.contains(x) {
                    let i = choose|i: int| 0 <= i < ids@.len() && ids@[i] == x;
                    assert(l1[c1.vectors.live@.len() + i] == x);
                }
            }
            let a = c0.files@;
            let b = self.files@;
            assert(b.drop_last() == c1.files@);
            if has_record(a, p) {
                let f = choose|f: int| 0 <= f < a.len() && #[trigger] a[f].path@ == p;
                assert(c1.files@ == a.remove(f));
                assert(old_ids(c0, p) == a[f].chunk_ids@);
            } else {
                assert(c1.files@ == a);
                assert(old_ids(c0, p) =~= Seq::<u32>::empty());
            }
            assert forall|i: int| 0 <= i < a.len() && a[i].path@ != p implies exists|j: int| 0 <= j < b.len() && b[j] == #[trigger] a[i] by {
                if has_record(a, p) {
                    let f = choose|f: int| 0 <= f < a.len() && #[trigger] a[f].path@ == p;
                    assert(c1.files@ == a.remove(f));
                    assert(i != f);
                    if i < f {
                        assert(b.drop_last()[i] == b[i]);
                        assert(b[i] == a[i]);
                    } else {
                        assert(b.drop_last()[i - 1] == b[i - 1]);
                        assert(b[i - 1] == a[i]);
                    }
                } else {
                    assert(b.drop_last()[i] == b[i]);
                    assert(b[i] == a[i]);
                }
            }
            assert forall|j: int| 0 <= j < b.len() && b[j].path@ != p implies exists|i: int| 0 <= i < a.len() && a[i] == #[trigger] b[j] by {
                assert(j < b.len() - 1);
                if has_record(a, p) {
                    let f = choose|f: int| 0 <= f < a.len() && #[trigger] a[f].path@ == p;
                    assert(c1.files@ == a.remove(f));
                    assert(b.drop_last()[j] == b[j]);
                    if j < f {
                        assert(a[j] == b[j]);
                    } else {
                        assert(a[j + 1] == b[j]);
                    }
                } else {
                    assert(b.drop_last()[j] == b[j]);
                    assert(a[j] == b[j]);
                }
            }
            lemma_same_records_elsewhere(a, b, p);
        }
        ids
    }

    /// Forgets the file at `path`: its record goes and the ids it owned are
    /// tombstoned in both indexes. Returns those ids.
    pub fn remove_file(&mut self, path: &str) -> (r: Vec<u32>)
        requires
            old(self).wf(),
        ensures
            final(self).wf(),
            r@ == old_ids(*old(self), path@),
            !has_record(final(self).files@, path@),
            forall|x: u32| #[trigger] final(self).vectors.live@.contains(x) <==> (old(self).vectors.live@.contains(x) && !r@.contains(x)),
            forall|x: u32| #[trigger] final(self).fts@.contains(x) <==> (old(self).fts@.contains(x) && !r@.contains(x)),
            forall|q: Seq<char>| q != path@ ==> (has_record(final(self).files@, q) <==> has_record(old(self).files@, q)),
            forall|q: Seq<char>| q != path@ && has_record(old(self).files@, q)
                ==> record_at(final(self).files@, q) == record_at(old(self).files@, q),
            final(self).model_id@ == old(self).model_id@,
            final(self).dimensions == old(self).dimensions,
    {
        let ghost c0 = *self;
        match self.find_file(path) {
            Some(f) => {
                proof {
                    let g = choose|g: int| 0 <= g < c0.files@.len() && #[trigger] c0.files@[g].path@ == path@;
                    assert(g == f as int);
                }
                let ids = self.remove_record(f);
                proof {
                    let a = c0.files@;
                    let b = self.files@;
                    assert forall|g: int| 0 <= g < b.len() implies #[trigger] b[g].path@ != path@ by {
                        let h = if g < f { g } else { g + 1 };
                        assert(b[g] == a[h]);
                    }
                    assert forall|i: int| 0 <= i < a.len() && a[i].path@ != path@ implies exists|j: int| 0 <= j < b.len() && b[j] == #[trigger] a[i] by {
                        if i < f {
                            assert(b[i] == a[i]);
                        } else {
                            assert(i != f);
                            assert(b[i - 1] == a[i]);
                        }
                    }
                    assert forall|j: int| 0 <= j < b.len() && b[j].path@ != path@ implies exists|i: int| 0 <= i < a.len() && a[i] == #[trigger] b[j] by {
                        if j < f {
                            assert(a[j] == b[j]);
                        } else {
                            assert(a[j + 1] == b[j]);
                        }
                    }
                    lemma_same_records_elsewhere(a, b, path@);
                }
                ids
            },
            None => {
                proof {
                    assert(old_ids(c0, path@) =~= Seq::<u32>::empty());
                }
                Vec::new()
            },
        }
    }
}

/// Every id that a file record owns is held exactly once by the vector
/// table and at most once by the lexical index, and the ids the records own
/// are exactly the live ids.
pub proof fn lemma_ids_accounted(c: IndexCatalog)
    requires
        c.wf(),
    ensures
        forall|f: int, id: u32| #[trigger] owns(c.files@, f, id) ==> c.vectors.live@.to_multiset().count(id) == 1
            && c.fts@.to_multiset().count(id) <= 1,
        forall|id: u32| c.vectors.live@.contains(id) <==> exists|f: int| #[trigger] owns(c.files@, f, id),
{
    let live = c.vectors.live@;
    let t = c.fts@;
    assert(live.no_duplicates());
    assert(t.no_duplicates());
    live.lemma_multiset_has_no_duplicates();
    t.lemma_multiset_has_no_duplicates();
    live.to_multiset_ensures();
    t.to_multiset_ensures();
    assert forall|f: int, id: u32| #[trigger] owns(c.files@, f, id) implies live.to_multiset().count(id) == 1
        && t.to_multiset().count(id) <= 1 by {
        assert(live.contains(id));
        if t.contains(id) {
            assert(t.to_multiset().contains(id));
        }
    }
    assert forall|id: u32| live.contains(id) <==> exists|f: int| #[trigger] owns(c.files@, f, id) by {
        if exists|f: int| #[trigger] owns(c.files@, f, id) {
            let f = choose|f: int| #[trigger] owns(c.files@, f, id);
        }
    }
}

/// `f` is listed in `r`.
pub open spec fn listed(r: Seq<usize>, f: int) -> bool {
    exists|k: int| 0 <= k < r.len() && #[trigger] r[k] == f
}

/// `path` is among the `present` paths.
pub open spec fn is_present(present: Seq<String>, path: Seq<char>) -> bool {
    exists|q: int| 0 <= q < present.len() && #[trigger] present[q]@ == path
}

/// A file as the walker sees it now.
pub struct ObservedFile {
    pub path: String,
    pub mtime_ns: u64,
    pub content_hash: Vec<u8>,
}

impl IndexCatalog {
    /// For each observed file, whether it must be indexed again.
    pub fn plan_sync(&self, observed: &Vec<ObservedFile>) -> (r: Vec<bool>)
        requires
            self.wf(),
        ensures
            r@.len() == observed@.len(),
            forall|i: int| 0 <= i < r@.len() ==> #[trigger] r@[i] == needs_reindex(
                *self,
                observed@[i].path@,
                observed@[i].mtime_ns,
                observed@[i].content_hash@,
            ),
    {
        let mut r: Vec<bool> = Vec::new();
        let mut i: usize = 0;
        while i < observed.len()
            invariant
                self.wf(),
                i <= observed@.len(),
                r@.len() == i,
                forall|j: int| 0 <= j < i ==> #[trigger] r@[j] == needs_reindex(
                    *self,
                    observed@[j].path@,
                    observed@[j].mtime_ns,
                    observed@[j].content_hash@,
                ),
            decreases observed@.len() - i,
        {
            let o = &observed[i];
            let (needs, _ids) = self.check_file(o.path.as_str(), o.mtime_ns, &o.content_hash);
            r.push(needs);
            i = i + 1;
        }
        r
    }

    /// The records whose path is not among the paths present on disk.
    pub fn find_deleted_files(&self, present: &Vec<String>) -> (r: Vec<usize>)
        ensures
            forall|k: int| 0 <= k < r@.len() ==> (#[trigger] r@[k]) < self.files@.len(),
            forall|f: int| 0 <= f < self.files@.len() ==> (listed(r@, f) <==> !is_present(present@, #[trigger] self.files@[f].path@)),
            forall|k: int, l: int| 0 <= k < l < r@.len() ==> #[trigger] r@[k] < #[trigger] r@[l],
    {
        let mut r: Vec<usize> = Vec::new();
        let mut f: usize = 0;
        while f < self.files.len()
            invariant
                f <= self.files@.len(),
                forall|k: int| 0 <= k < r@.len() ==> (#[trigger] r@[k]) < f,
                forall|g: int| 0 <= g < f ==> (listed(r@, g) <==> !is_present(present@, #[trigger] self.files@[g].path@)),
                forall|k: int, l: int| 0 <= k < l < r@.len() ==> #[trigger] r@[k] < #[trigger] r@[l],
            decreases self.files@.len() - f,
        {
            let mut found = false;
            let mut q: usize = 0;
            while q < present.len()
                invariant
                    f < self.files@.len(),
                    q <= present@.len(),
                    found == exists|q2: int| 0 <= q2 < q && #[trigger] present@[q2]@ == self.files@[f as int].path@,
                decreases present@.len() - q,
            {
                if present[q] == self.files[f].path {
                    found = true;
                }
                q = q + 1;
            }
            let ghost r0 = r@;
            if !found {
                r.push(f);
            }
            proof {
                assert(found == is_present(present@, self.files@[f as int].path@));
                assert forall|g: int| 0 <= g < f + 1 implies (listed(r@, g) <==> !is_present(present@, #[trigger] self.files@[g].path@)) by {
                    if g < f {
                        if listed(r@, g) {
                            let k = choose|k: int| 0 <= k < r@.len() && #[trigger] r@[k] == g;
                            assert(r0[k] == g);
                        }
                        if listed(r0, g) {
                            let k = choose|k: int| 0 <= k < r0.len() && #[trigger] r0[k] == g;
                            assert(r@[k] == g);
                        }
                    } else {
                        if !found {
                            assert(r@[r@.len() - 1] == g);
                        } else {
                            if listed(r@, g) {
                                let k = choose|k: int| 0 <= k < r@.len() && #[trigger] r@[k] == g;
                            }
                        }
                    }
                }
            }
            f = f + 1;
        }
        r
    }
}

/// The catalog holds a record for the observed file with its mtime and
/// content hash, made with the catalog's model and width.
pub open spec fn unchanged(c: IndexCatalog, o: ObservedFile) -> bool {
    exists|f: int| 0 <= f < c.files@.len() && record_matches(c, #[trigger] c.files@[f], o)
}

/// The record describes the observed file as it is now.
pub open spec fn record_matches(c: IndexCatalog, r: FileRecord, o: ObservedFile) -> bool {
    &&& r.path@ == o.path@
    &&& r.mtime_ns == o.mtime_ns
    &&& r.content_hash@ == o.content_hash@
    &&& r.model_id@ == c.model_id@
    &&& r.dimensions == c.dimensions
}

/// Indexing a tree again, when no file changed and the model is the same,
/// finds nothing to do: no observed file needs a new embedding or a store
/// write.
pub proof fn lemma_unchanged_tree_needs_nothing(c: IndexCatalog, observed: Seq<ObservedFile>)
    requires
        c.wf(),
        forall|i: int| 0 <= i < observed.len() ==> unchanged(c, #[trigger] observed[i]),
    ensures
        forall|i: int| 0 <= i < observed.len() ==> !needs_reindex(
            c,
            #[trigger] observed[i].path@,
            observed[i].mtime_ns,
            observed[i].content_hash@,
        ),
{
    assert forall|i: int| 0 <= i < observed.len() implies !needs_reindex(
        c,
        #[trigger] observed[i].path@,
        observed[i].mtime_ns,
        observed[i].content_hash@,
    ) by {
        let o = observed[i];
        assert(unchanged(c, o));
        let f = choose|f: int| 0 <= f < c.files@.len() && record_matches(c, #[trigger] c.files@[f], o);
        assert(c.files@[f].path@ == o.path@);
        assert(has_record(c.files@, o.path@));
        let g = choose|g: int| 0 <= g < c.files@.len() && #[trigger] c.files@[g].path@ == o.path@;
        assert(g == f);
    }
}

} // verus!
