//! The tail of the query pipeline: fused candidates become hits, then
//! path and kind filters, per-file diversification and the page.
use vstd::prelude::*;
use crate::fusion::{FusedResult, RankedId, rrf_fusion, is_fusion, unique_ids};
use crate::model::{lowercase, lowercase_of};
use crate::results::{SearchHit, HitView, views, copy_hit, path_filtered, filter_path, diversified, diversify, page};
use crate::watch::{contains_str, occurs_in};

verus! {

/// The first record for a chunk id, if any.
pub open spec fn record_for(records: Seq<HitView>, id: u32) -> Option<HitView>
    decreases records.len(),
{
    if records.len() == 0 {
        None
    } else if records[0].chunk_id == id {
        Some(records[0])
    } else {
        record_for(records.drop_first(), id)
    }
}

/// The fused candidates, in fused order, as the records that hold them;
/// candidates without a record are dropped.
pub open spec fn materialized(fused: Seq<FusedResult>, records: Seq<HitView>) -> Seq<HitView>
    decreases fused.len(),
{
    if fused.len() == 0 {
        Seq::empty()
    } else {
        let m = materialized(fused.drop_last(), records);
        match record_for(records, fused.last().chunk_id) {
            Some(h) => m.push(h),
            None => m,
        }
    }
}

/// The first record for `id`.
fn find_record(records: &Vec<SearchHit>, id: u32) -> (r: Option<usize>)
    ensures
        match record_for(views(records@), id) {
            Some(h) => r matches Some(i) && i < records@.len() && records@[i as int]@ == h,
            None => r is None,
        },
{
    let ghost s = views(records@);
    let mut i: usize = 0;
    proof {
        assert(s.subrange(0, s.len() as int) =~= s);
    }
    while i < records.len()
        invariant
            s == views(records@),
            i <= records@.len(),
            record_for(s, id) == record_for(s.subrange(i as int, s.len() as int), id),
        decreases records@.len() - i,
    {
        let ghost rest = s.subrange(i as int, s.len() as int);
        if records[i].chunk_id == id {
            proof {
                assert(rest[0] == records@[i as int]@);
            }
            return Some(i);
        }
        proof {
            assert(rest.drop_first() =~= s.subrange(i + 1, s.len() as int));
        }
        i = i + 1;
    }
    proof {
        assert(s.subrange(i as int, s.len() as int) =~= Seq::<HitView>::empty());
    }
    None
}

/// Turns fused candidates into hits, in fused order.
pub fn materialize(fused: &Vec<FusedResult>, records: &Vec<SearchHit>) -> (r: Vec<SearchHit>)
    ensures
        views(r@) == materialized(fused@, views(records@)),
{
    let mut out: Vec<SearchHit> = Vec::new();
    let mut i: usize = 0;
    while i < fused.len()
        invariant
            i <= fused@.len(),
            views(out@) == materialized(fused@.subrange(0, i as int), views(records@)),
        decreases fused@.len() - i,
    {
        proof {
            let t = fused@.subrange(0, i + 1);
            assert(t.drop_last() =~= fused@.subrange(0, i as int));
        }
        match find_record(records, fused[i].chunk_id) {
            Some(j) => {
                let ghost o = out@;
                out.push(copy_hit(&records[j]));
                proof {
                    assert(views(out@) =~= views(o).push(records@[j as int]@));
                }
            },
            None => {},
        }
        i = i + 1;
    }
    proof {
        assert(fused@.subrange(0, fused@.len() as int) =~= fused@);
    }
    out
}

/// Hybrid ranking within one store: RRF fusion of the store's vector and
/// lexical rankings, materialized from the store's records.
pub fn hybrid_rank(v: &Vec<RankedId>, f: &Vec<RankedId>, k: u32, records: &Vec<SearchHit>) -> (r: Vec<SearchHit>)
    requires
        unique_ids(v@),
        unique_ids(f@),
        v@.len() < u32::MAX,
        f@.len() < u32::MAX,
    ensures
        exists|fused: Seq<FusedResult>| is_fusion(v@, f@, k as int, fused) && views(r@) == materialized(fused, views(records@)),
{
    let fused = rrf_fusion(v, f, k);
    materialize(&fused, records)
}

/// Hits whose kind contains `filter`, ignoring case.
pub open spec fn kind_filtered(s: Seq<HitView>, filter: Seq<char>) -> Seq<HitView> {
    s.filter(|h: HitView| occurs_in(lowercase_of(h.kind), lowercase_of(filter)))
}

/// Keeps the hits whose kind contains `filter`, ignoring case.
pub fn filter_kind(hits: &Vec<SearchHit>, filter: &str) -> (r: Vec<SearchHit>)
    ensures
        views(r@) == kind_filtered(views(hits@), filter@),
{
    let ghost s = views(hits@);
    let lf = lowercase(filter);
    let mut out: Vec<SearchHit> = Vec::new();
    let mut i: usize = 0;
    while i < hits.len()
        invariant
            s == views(hits@),
            lf@ == lowercase_of(filter@),
            i <= hits@.len(),
            views(out@) == kind_filtered(s.subrange(0, i as int), filter@),
        decreases hits@.len() - i,
    {
        proof {
            let t = s.subrange(0, i + 1);
            assert(t.drop_last() =~= s.subrange(0, i as int));
            reveal(Seq::filter);
        }
        let lk = lowercase(hits[i].kind.as_str());
        if contains_str(lk.as_str(), lf.as_str()) {
            let ghost o = out@;
            out.push(copy_hit(&hits[i]));
            proof {
                assert(views(out@) =~= views(o).push(hits@[i as int]@));
            }
        }
        i = i + 1;
    }
    proof {
        assert(s.subrange(0, hits@.len() as int) =~= s);
    }
    out
}

/// Options of the last pipeline steps.
pub struct ResultOptions {
    pub filter_path: Option<String>,
    pub kind_filter: Option<String>,
    pub per_file: Option<usize>,
    pub offset: usize,
    pub limit: usize,
}

/// The hits the last steps keep: path filter, kind filter, per-file
/// diversification, then the page.
pub open spec fn finished(s: Seq<HitView>, o: ResultOptions) -> Seq<HitView> {
    let a = match o.filter_path {
        Some(p) => path_filtered(s, p@),
        None => s,
    };
    let b = match o.kind_filter {
        Some(k) => kind_filtered(a, k@),
        None => a,
    };
    let c = match o.per_file {
        Some(p) => diversified(b, p as nat),
        None => b,
    };
    page(c, o.offset as int, o.limit as int)
}

/// Applies the last pipeline steps to hits in ranking order.
pub fn finish(hits: &Vec<SearchHit>, options: &ResultOptions) -> (r: Vec<SearchHit>)
    ensures
        views(r@) == finished(views(hits@), *options),
{
    let a = match &options.filter_path {
        Some(p) => filter_path(hits, p.as_str()),
        None => copy_hits(hits),
    };
    let b = match &options.kind_filter {
        Some(k) => filter_kind(&a, k.as_str()),
        None => a,
    };
    let c = match options.per_file {
        Some(p) => diversify(&b, p),
        None => b,
    };
    let ghost cv = views(c@);
    let n = c.len();
    let start = options.offset;
    let end: usize = if start >= n { start } else if options.limit >= n - start { n } else { start + options.limit };
    let mut r: Vec<SearchHit> = Vec::new();
    let mut p: usize = start;
    while p < end
        invariant
            cv == views(c@),
            n == c@.len(),
            start <= p <= end,
            end <= n || end == start,
            r@.len() == p - start,
            forall|t: int| 0 <= t < r@.len() ==> (#[trigger] r@[t])@ == cv[start + t],
        decreases end - p,
    {
        r.push(copy_hit(&c[p]));
        p = p + 1;
    }
    proof {
        assert(views(r@) =~= page(cv, options.offset as int, options.limit as int));
    }
    r
}

/// Copies a list of hits.
fn copy_hits(hits: &Vec<SearchHit>) -> (r: Vec<SearchHit>)
    ensures
        views(r@) == views(hits@),
{
    let mut r: Vec<SearchHit> = Vec::new();
    let mut i: usize = 0;
    while i < hits.len()
        invariant
            i <= hits@.len(),
            views(r@) == views(hits@).subrange(0, i as int),
        decreases hits@.len() - i,
    {
        let ghost o = r@;
        r.push(copy_hit(&hits[i]));
        proof {
            assert(views(r@) =~= views(o).push(hits@[i as int]@));
            assert(views(hits@).subrange(0, i + 1) =~= views(hits@).subrange(0, i as int).push(hits@[i as int]@));
        }
        i = i + 1;
    }
    proof {
        assert(views(hits@).subrange(0, hits@.len() as int) =~= views(hits@));
    }
    r
}

/// `order` lists each of `0..m` once.
pub open spec fn is_permutation(order: Seq<usize>, m: int) -> bool {
    &&& order.len() == m
    &&& forall|i: int| 0 <= i < m ==> (#[trigger] order[i]) < m
    &&& forall|i: int, j: int| 0 <= i < m && 0 <= j < m && i != j ==> order[i] != order[j]
}

/// The hits after reranking the head: the first `m` hits in the order the
/// reranker gave, then the rest in their fused order.
pub open spec fn reranked(s: Seq<HitView>, order: Seq<usize>) -> Seq<HitView> {
    order.map_values(|i: usize| s[i as int]) + s.subrange(order.len() as int, s.len() as int)
}

/// Whether `order` lists each of `0..m` once.
fn check_permutation(order: &Vec<usize>, m: usize) -> (r: bool)
    ensures
        r == is_permutation(order@, m as int),
{
    if order.len() != m {
        return false;
    }
    let mut seen: Vec<bool> = Vec::new();
    let mut k: usize = 0;
    while k < m
        invariant
            k <= m,
            seen@.len() == k,
            forall|t: int| 0 <= t < k ==> !(#[trigger] seen@[t]),
        decreases m - k,
    {
        seen.push(false);
        k = k + 1;
    }
    let mut i: usize = 0;
    while i < m
        invariant
            order@.len() == m,
            seen@.len() == m,
            i <= m,
            forall|a: int| 0 <= a < i ==> (#[trigger] order@[a]) < m,
            forall|a: int, b: int| 0 <= a < i && 0 <= b < i && a != b ==> order@[a] != order@[b],
            forall|v: int| 0 <= v < m ==> (#[trigger] seen@[v] <==> exists|a: int| 0 <= a < i && order@[a] == v),
        decreases m - i,
    {
        let v = order[i];
        if v >= m {
            return false;
        }
        if seen[v] {
            proof {
                let a = choose|a: int| 0 <= a < i && order@[a] == v;
                assert(order@[a] == order@[i as int]);
            }
            return false;
        }
        let ghost s0 = seen@;
        seen.set(v, true);
        proof {
            assert forall|w: int| 0 <= w < m implies (#[trigger] seen@[w] <==> exists|a: int| 0 <= a < i + 1 && order@[a] == w) by {
                if w == v {
                    assert(order@[i as int] == w);
                } else {
                    assert(seen@[w] == s0[w]);
                    if exists|a: int| 0 <= a < i + 1 && order@[a] == w {
                        let a = choose|a: int| 0 <= a < i + 1 && order@[a] == w;
                        assert(a != i);
                    }
                }
            }
        }
        i = i + 1;
    }
    true
}

/// Applies a reranker's order to the head of the hits: when `order` lists
/// each of the first `order.len()` positions once, those hits come in that
/// order and the rest follow in fused order; otherwise (the reranker
/// failed or answered for other hits) the hits stay as they are.
pub fn apply_rerank(hits: &Vec<SearchHit>, order: &Vec<usize>) -> (r: Vec<SearchHit>)
    ensures
        order@.len() <= hits@.len() && is_permutation(order@, order@.len() as int) ==> views(r@) == reranked(views(hits@), order@),
        !(order@.len() <= hits@.len() && is_permutation(order@, order@.len() as int)) ==> views(r@) == views(hits@),
{
    let m = order.len();
    if m > hits.len() || !check_permutation(order, m) {
        return copy_hits(hits);
    }
    let ghost s = views(hits@);
    let mut r: Vec<SearchHit> = Vec::new();
    let mut i: usize = 0;
    while i < hits.len()
        invariant
            s == views(hits@),
            m == order@.len(),
            m <= hits@.len(),
            is_permutation(order@, m as int),
            i <= hits@.len(),
            views(r@) == reranked(s, order@).subrange(0, i as int),
        decreases hits@.len() - i,
    {
        let j = if i < m { order[i] } else { i };
        let ghost o = r@;
        r.push(copy_hit(&hits[j]));
        proof {
            let t = reranked(s, order@);
            assert(t.len() == s.len());
            assert(t[i as int] == s[j as int]);
            assert(views(r@) =~= views(o).push(hits@[j as int]@));
            assert(t.subrange(0, i + 1) =~= t.subrange(0, i as int).push(t[i as int]));
            assert(views(r@) =~= t.subrange(0, i + 1));
        }
        i = i + 1;
    }
    proof {
        assert(reranked(s, order@).subrange(0, hits@.len() as int) =~= reranked(s, order@));
    }
    r
}

/// How many fused candidates a query gathers before reranking, filtering
/// and paging: `max(rerank_top, limit + offset)`, saturating.
pub fn candidate_limit(rerank_top: usize, limit: usize, offset: usize) -> (r: usize)
    ensures
        r == if rerank_top >= limit + offset { rerank_top as int } else if limit + offset <= usize::MAX {
            limit + offset
        } else {
            usize::MAX as int
        },
{
    let wanted = limit.saturating_add(offset);
    if rerank_top >= wanted { rerank_top } else { wanted }
}

} // verus!
