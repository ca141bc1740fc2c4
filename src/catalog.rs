//! Chunk-id bookkeeping of one store: which chunk ids are live in the
//! vector table and the lexical index, and which file owns each of them.
//!
//! The vectors and texts themselves live on disk; this is the part of the
//! store that decides what an incremental index run must do and keeps the
//! file records and the two indexes in lock-step.
use vstd::prelude::*;
use crate::results::{SearchHit, HitView, views, copy_hit};

verus! {

/// No value occurs twice.
pub open spec fn distinct(s: Seq<u32>) -> bool {
    forall|i: int, j: int| 0 <= i < s.len() && 0 <= j < s.len() && i != j ==> s[i] != s[j]
}

/// Ids held by the vector table, and the next id to hand out. Ids are
/// never reused: every live id is below `next_id`.
pub struct VectorIds {
    pub live: Vec<u32>,
    pub next_id: u32,
}

impl VectorIds {
    /// Each live id once, all below `next_id`.
    pub open spec fn wf(&self) -> bool {
        &&& distinct(self.live@)
        &&& forall|i: int| 0 <= i < self.live@.len() ==> #[trigger] self.live@[i] < self.next_id
    }

    /// An empty table.
    pub fn new() -> (r: VectorIds)
        ensures
            r.wf(),
            r.live@.len() == 0,
            r.next_id == 0,
    {
        VectorIds { live: Vec::new(), next_id: 0 }
    }

    /// Whether `id` is live.
    pub fn contains(&self, id: u32) -> (r: bool)
        ensures
            r == self.live@.contains(id),
    {
        contains_id(&self.live, id)
    }

    /// Hands out `n` fresh ids, `next_id`, `next_id + 1`, ..., and makes them live.
    pub fn insert_chunks(&mut self, n: u32) -> (r: Vec<u32>)
        requires
            old(self).wf(),
            old(self).next_id + n <= u32::MAX,
        ensures
            final(self).wf(),
            final(self).next_id == old(self).next_id + n,
            r@.len() == n,
            forall|i: int| 0 <= i < n ==> #[trigger] r@[i] == old(self).next_id + i,
            final(self).live@ == old(self).live@ + r@,
    {
        let mut r: Vec<u32> = Vec::new();
        let mut k: u32 = 0;
        let ghost l0 = self.live@;
        let ghost n0 = self.next_id;
        while k < n
            invariant
                k <= n,
                n0 + n <= u32::MAX,
                self.next_id == n0 + k,
                r@.len() == k,
                forall|i: int| 0 <= i < k ==> #[trigger] r@[i] == n0 + i,
                self.live@ == l0 + r@,
                distinct(self.live@),
                forall|i: int| 0 <= i < self.live@.len() ==> #[trigger] self.live@[i] < self.next_id,
            decreases n - k,
        {
            let id = self.next_id;
            r.push(id);
            self.live.push(id);
            self.next_id = self.next_id + 1;
            k = k + 1;
            proof {
                assert(self.live@ =~= l0 + r@);
            }
        }
        r
    }

    /// Tombstones the ids: none of them is live afterwards, every other live
    /// id stays.
    pub fn delete_chunks(&mut self, ids: &Vec<u32>)
        requires
            old(self).wf(),
        ensures
            final(self).wf(),
            final(self).next_id == old(self).next_id,
            forall|x: u32| #[trigger] final(self).live@.contains(x) <==> (old(self).live@.contains(x) && !ids@.contains(x)),
    {
        let kept = without_ids(&self.live, ids);
        proof {
            assert forall|i: int| 0 <= i < kept@.len() implies #[trigger] kept@[i] < self.next_id by {
                assert(kept@.contains(kept@[i]));
                let j = choose|j: int| 0 <= j < self.live@.len() && self.live@[j] == kept@[i];
            }
        }
        self.live = kept;
    }

    /// The hits whose chunk is live, in their order.
    pub fn search_live(&self, hits: &Vec<SearchHit>) -> (r: Vec<SearchHit>)
        ensures
            views(r@) == live_hits(views(hits@), self.live@),
    {
        let ghost s = views(hits@);
        let mut out: Vec<SearchHit> = Vec::new();
        let mut i: usize = 0;
        while i < hits.len()
            invariant
                s == views(hits@),
                i <= hits@.len(),
                views(out@) == live_hits(s.subrange(0, i as int), self.live@),
            decreases hits@.len() - i,
        {
            proof {
                let t = s.subrange(0, i + 1);
                assert(t.drop_last() =~= s.subrange(0, i as int));
                reveal(Seq::filter);
            }
            if self.contains(hits[i].chunk_id) {
                let h = copy_hit(&hits[i]);
                let ghost o = out@;
                out.push(h);
                proof {
                    assert(views(out@) =~= views(o).push(hits@[i as int]@));
                }
            }
            i = i + 1;
        }
        proof {
            assert(s.subrange(0, hits@.len() as int) =~= s);
        }
        out
    }
}

/// The hits whose chunk id is live.
pub open spec fn live_hits(s: Seq<HitView>, live: Seq<u32>) -> Seq<HitView> {
    s.filter(|h: HitView| live.contains(h.chunk_id))
}

/// Once a set of ids is deleted, a search over what stays live returns none
/// of them, whatever the candidate hits.
pub proof fn lemma_deleted_never_found(live: Seq<u32>, after: Seq<u32>, deleted: Seq<u32>, hits: Seq<HitView>)
    requires
        forall|x: u32| #[trigger] after.contains(x) <==> (live.contains(x) && !deleted.contains(x)),
    ensures
        forall|i: int| 0 <= i < live_hits(hits, after).len() ==> !deleted.contains(#[trigger] live_hits(hits, after)[i].chunk_id),
{
    let r = live_hits(hits, after);
    assert forall|i: int| 0 <= i < r.len() implies !deleted.contains(#[trigger] r[i].chunk_id) by {
        hits.lemma_filter_pred(|h: HitView| after.contains(h.chunk_id), i);
    }
}

/// Whether `id` occurs in `s`.
pub fn contains_id(s: &Vec<u32>, id: u32) -> (r: bool)
    ensures
        r == s@.contains(id),
{
    let mut i: usize = 0;
    while i < s.len()
        invariant
            i <= s@.len(),
            forall|j: int| 0 <= j < i ==> s@[j] != id,
        decreases s@.len() - i,
    {
        if s[i] == id {
            proof {
                assert(s@[i as int] == id);
            }
            return true;
        }
        i = i + 1;
    }
    false
}

/// `x` occurs among the first `i` elements of `s`.
pub open spec fn in_prefix(s: Seq<u32>, i: int, x: u32) -> bool {
    exists|j: int| 0 <= j < i && j < s.len() && #[trigger] s[j] == x
}

/// The ids of `s` not in `ids`, in their order.
pub fn without_ids(s: &Vec<u32>, ids: &Vec<u32>) -> (r: Vec<u32>)
    requires
        distinct(s@),
    ensures
        distinct(r@),
        forall|x: u32| #[trigger] r@.contains(x) <==> (s@.contains(x) && !ids@.contains(x)),
{
    let mut out: Vec<u32> = Vec::new();
    let mut i: usize = 0;
    while i < s.len()
        invariant
            i <= s@.len(),
            distinct(s@),
            distinct(out@),
            forall|x: u32| #[trigger] out@.contains(x) <==> (in_prefix(s@, i as int, x) && !ids@.contains(x)),
        decreases s@.len() - i,
    {
        let x = s[i];
        if !contains_id(ids, x) {
            proof {
                assert(!out@.contains(x)) by {
                    if out@.contains(x) {
                        let j = choose|j: int| 0 <= j < i && j < s@.len() && #[trigger] s@[j] == x;
                    }
                }
            }
            let ghost o = out@;
            out.push(x);
            proof {
                assert forall|y: u32| #[trigger] out@.contains(y) <==> o.contains(y) || y == x by {
                    if out@.contains(y) && y != x {
                        let j = choose|j: int| 0 <= j < out@.len() && out@[j] == y;
                        assert(o[j] == y);
                    }
                    if o.contains(y) {
                        let j = choose|j: int| 0 <= j < o.len() && o[j] == y;
                        assert(out@[j] == y);
                    }
                    if y == x {
                        assert(out@[out@.len() - 1] == y);
                    }
                }
            }
        }
        proof {
            assert forall|y: u32| in_prefix(s@, i + 1, y) <==> (in_prefix(s@, i as int, y) || y == x) by {
                if y == x {
                    assert(s@[i as int] == y);
                }
                if in_prefix(s@, i as int, y) {
                    let j = choose|j: int| 0 <= j < i && j < s@.len() && #[trigger] s@[j] == y;
                    assert(0 <= j < i + 1);
                }
            }
        }
        i = i + 1;
    }
    proof {
        assert forall|y: u32| in_prefix(s@, s@.len() as int, y) <==> s@.contains(y) by {
            if s@.contains(y) {
                let j = choose|j: int| 0 <= j < s@.len() && s@[j] == y;
                assert(in_prefix(s@, s@.len() as int, y));
            }
        }
    }
    out
}

} // verus!
