//! Reciprocal Rank Fusion of a dense-vector ranking and a lexical ranking.
//!
//! A fused score `1/(k + r_V) + 1/(k + r_F)` is kept as an exact fraction
//! `rrf_num / rrf_den`, so two scores are compared by cross-multiplication.
use vstd::prelude::*;

verus! {

/// Default RRF constant `k`.
pub const DEFAULT_RRF_K: u32 = 20;

/// Bound on a fused numerator: `2k + r_V + r_F` with every term below 2^32.
pub const MAX_NUM: u128 = 0x4_0000_0000;

/// Bound on a fused denominator: `(k + r_V)(k + r_F)` with every term below 2^32.
pub const MAX_DEN: u128 = 0x4_0000_0000_0000_0000;

/// One entry of a source ranking: the chunk and an order key of the
/// source's own score (a larger key is a better score).
#[derive(Debug, Clone, Copy, PartialEq, Eq, Structural)]
pub struct RankedId {
    pub chunk_id: u32,
    pub score: u32,
}

/// One fused candidate, with the per-source scores and 1-based ranks kept
/// for explanation.
#[derive(Debug, Clone, Copy, PartialEq, Eq, Structural)]
pub struct FusedResult {
    pub chunk_id: u32,
    pub rrf_num: u128,
    pub rrf_den: u128,
    pub vector_score: Option<u32>,
    pub fts_score: Option<u32>,
    pub vector_rank: Option<u32>,
    pub fts_rank: Option<u32>,
}

/// Each chunk id occurs at most once in the ranking.
pub open spec fn unique_ids(l: Seq<RankedId>) -> bool {
    forall|i: int, j: int|
        0 <= i < l.len() && 0 <= j < l.len() && i != j ==> l[i].chunk_id != l[j].chunk_id
}

/// The chunk id occurs in the ranking.
pub open spec fn has_id(l: Seq<RankedId>, id: u32) -> bool {
    exists|i: int| 0 <= i < l.len() && l[i].chunk_id == id
}

/// Position of the chunk id in the ranking (meaningful when `has_id`).
pub open spec fn pos_of(l: Seq<RankedId>, id: u32) -> int {
    choose|i: int| 0 <= i < l.len() && l[i].chunk_id == id
}

/// The fused score's numerator for a chunk.
pub open spec fn fused_num(v: Seq<RankedId>, f: Seq<RankedId>, k: int, id: u32) -> int {
    if has_id(v, id) && has_id(f, id) {
        (k + pos_of(v, id) + 1) + (k + pos_of(f, id) + 1)
    } else {
        1
    }
}

/// The fused score's denominator for a chunk.
pub open spec fn fused_den(v: Seq<RankedId>, f: Seq<RankedId>, k: int, id: u32) -> int {
    if has_id(v, id) && has_id(f, id) {
        (k + pos_of(v, id) + 1) * (k + pos_of(f, id) + 1)
    } else if has_id(v, id) {
        k + pos_of(v, id) + 1
    } else {
        k + pos_of(f, id) + 1
    }
}

/// The fused entry that a chunk present in either ranking receives.
pub open spec fn fused_entry(v: Seq<RankedId>, f: Seq<RankedId>, k: int, id: u32) -> FusedResult {
    FusedResult {
        chunk_id: id,
        rrf_num: fused_num(v, f, k, id) as u128,
        rrf_den: fused_den(v, f, k, id) as u128,
        vector_score: if has_id(v, id) { Some(v[pos_of(v, id)].score) } else { None },
        fts_score: if has_id(f, id) { Some(f[pos_of(f, id)].score) } else { None },
        vector_rank: if has_id(v, id) { Some((pos_of(v, id) + 1) as u32) } else { None },
        fts_rank: if has_id(f, id) { Some((pos_of(f, id) + 1) as u32) } else { None },
    }
}

/// `a` has the strictly better vector score (a present score beats none).
pub open spec fn better_vector(a: Option<u32>, b: Option<u32>) -> bool {
    match (a, b) {
        (Some(x), Some(y)) => x > y,
        (Some(_), None) => true,
        _ => false,
    }
}

/// Fused order: higher fused score first, then higher vector score, then
/// lower chunk id.
pub open spec fn fused_before(a: FusedResult, b: FusedResult) -> bool {
    let l = a.rrf_num * b.rrf_den;
    let r = b.rrf_num * a.rrf_den;
    l > r || (l == r && (better_vector(a.vector_score, b.vector_score) || (a.vector_score
        == b.vector_score && a.chunk_id < b.chunk_id)))
}

/// Some entry of `r` is for the chunk id.
pub open spec fn covers(r: Seq<FusedResult>, id: u32) -> bool {
    exists|a: int| 0 <= a < r.len() && #[trigger] r[a].chunk_id == id
}

/// Numerator and denominator stay in range.
pub open spec fn fused_wf(e: FusedResult) -> bool {
    0 < e.rrf_num <= MAX_NUM && 0 < e.rrf_den <= MAX_DEN
}

/// `r` is the fusion of `v` and `f` with constant `k`: one entry per chunk of
/// either ranking, each as `fused_entry` gives it, in fused order.
pub open spec fn is_fusion(v: Seq<RankedId>, f: Seq<RankedId>, k: int, r: Seq<FusedResult>) -> bool {
    &&& forall|i: int| 0 <= i < r.len() ==> (has_id(v, #[trigger] r[i].chunk_id) || has_id(f, r[i].chunk_id))
    &&& forall|i: int| 0 <= i < r.len() ==> #[trigger] r[i] == fused_entry(v, f, k, r[i].chunk_id)
    &&& forall|id: u32| (has_id(v, id) || has_id(f, id)) ==> #[trigger] covers(r, id)
    &&& forall|i: int, j: int| 0 <= i < j < r.len() ==> fused_before(#[trigger] r[i], #[trigger] r[j])
}

proof fn lemma_cross_trans(a: int, b: int, c: int, d: int, e: int, g: int)
    requires
        b > 0,
        d > 0,
        g > 0,
        a * d >= c * b,
        c * g >= e * d,
    ensures
        a * g >= e * b,
        (a * d > c * b || c * g > e * d) ==> a * g > e * b,
        (a * d == c * b && c * g == e * d) ==> a * g == e * b,
{
    assert(a * d * g >= c * b * g) by (nonlinear_arith)
        requires a * d >= c * b, g > 0;
    assert(c * g * b >= e * d * b) by (nonlinear_arith)
        requires c * g >= e * d, b > 0;
    assert(a * g * d >= e * b * d) by (nonlinear_arith)
        requires a * d * g >= c * b * g, c * g * b >= e * d * b;
    assert(a * g >= e * b) by (nonlinear_arith)
        requires a * g * d >= e * b * d, d > 0;
    if a * d > c * b || c * g > e * d {
        assert(a * d * g > c * b * g || c * g * b > e * d * b) by (nonlinear_arith)
            requires a * d > c * b || c * g > e * d, g > 0, b > 0;
        assert(a * g * d > e * b * d) by (nonlinear_arith)
            requires a * d * g >= c * b * g, c * g * b >= e * d * b,
                a * d * g > c * b * g || c * g * b > e * d * b;
        assert(a * g > e * b) by (nonlinear_arith)
            requires a * g * d > e * b * d, d > 0;
    }
    if a * d == c * b && c * g == e * d {
        assert(a * g * d == e * b * d) by (nonlinear_arith)
            requires a * d == c * b, c * g == e * d;
        assert(a * g == e * b) by (nonlinear_arith)
            requires a * g * d == e * b * d, d > 0;
    }
}

/// The fused order is transitive.
proof fn lemma_before_trans(a: FusedResult, b: FusedResult, c: FusedResult)
    requires
        fused_wf(a),
        fused_wf(b),
        fused_wf(c),
        fused_before(a, b),
        fused_before(b, c),
    ensures
        fused_before(a, c),
{
    lemma_cross_trans(
        a.rrf_num as int, a.rrf_den as int, b.rrf_num as int, b.rrf_den as int,
        c.rrf_num as int, c.rrf_den as int,
    );
}

/// Two entries with different chunk ids are ordered one way or the other.
proof fn lemma_before_total(a: FusedResult, b: FusedResult)
    requires
        a.chunk_id != b.chunk_id,
    ensures
        fused_before(a, b) || fused_before(b, a),
{
}

/// Compares two well-formed entries in fused order.
fn before(a: &FusedResult, b: &FusedResult) -> (r: bool)
    requires
        fused_wf(*a),
        fused_wf(*b),
    ensures
        r == fused_before(*a, *b),
{
    assert(a.rrf_num * b.rrf_den <= MAX_NUM * MAX_DEN) by (nonlinear_arith)
        requires a.rrf_num <= MAX_NUM, b.rrf_den <= MAX_DEN, 0 <= a.rrf_num, 0 <= b.rrf_den;
    assert(b.rrf_num * a.rrf_den <= MAX_NUM * MAX_DEN) by (nonlinear_arith)
        requires b.rrf_num <= MAX_NUM, a.rrf_den <= MAX_DEN, 0 <= b.rrf_num, 0 <= a.rrf_den;
    let l = a.rrf_num * b.rrf_den;
    let r = b.rrf_num * a.rrf_den;
    if l != r {
        return l > r;
    }
    let bv = match (a.vector_score, b.vector_score) {
        (Some(x), Some(y)) => x > y,
        (Some(_), None) => true,
        _ => false,
    };
    if bv {
        return true;
    }
    a.vector_score == b.vector_score && a.chunk_id < b.chunk_id
}

/// Inserts `x` into the fused-ordered sequence `out` at its place.
fn insert_sorted(out: &mut Vec<FusedResult>, x: FusedResult)
    requires
        fused_wf(x),
        forall|i: int| 0 <= i < old(out)@.len() ==> fused_wf(#[trigger] old(out)@[i]),
        forall|i: int| 0 <= i < old(out)@.len() ==> (#[trigger] old(out)@[i]).chunk_id != x.chunk_id,
        forall|i: int, j: int| 0 <= i < j < old(out)@.len() ==> fused_before(#[trigger] old(out)@[i], #[trigger] old(out)@[j]),
    ensures
        exists|p: int| 0 <= p <= old(out)@.len() && final(out)@ == old(out)@.insert(p, x),
        forall|i: int, j: int| 0 <= i < j < final(out)@.len() ==> fused_before(#[trigger] final(out)@[i], #[trigger] final(out)@[j]),
{
    let n = out.len();
    let mut p: usize = 0;
    while p < n && !before(&x, &out[p])
        invariant
            n == out@.len(),
            out@ == old(out)@,
            p <= n,
            fused_wf(x),
            forall|i: int| 0 <= i < n ==> fused_wf(#[trigger] out@[i]),
            forall|i: int| 0 <= i < p ==> fused_before(#[trigger] out@[i], x),
            forall|i: int| 0 <= i < n ==> (#[trigger] out@[i]).chunk_id != x.chunk_id,
        decreases n - p,
    {
        proof {
            lemma_before_total(out@[p as int], x);
        }
        p = p + 1;
    }
    proof {
        let s = old(out)@;
        assert forall|i: int| p <= i < n implies fused_before(x, #[trigger] s[i]) by {
            if i > p {
                lemma_before_trans(x, s[p as int], s[i]);
            }
        }
    }
    out.insert(p, x);
    proof {
        let s = old(out)@;
        let t = out@;
        assert(t == s.insert(p as int, x));
        assert forall|i: int, j: int| 0 <= i < j < t.len() implies fused_before(#[trigger] t[i], #[trigger] t[j]) by {
            if j < p {
                assert(t[i] == s[i] && t[j] == s[j]);
            } else if j == p {
                assert(t[i] == s[i]);
            } else if i < p {
                assert(t[i] == s[i] && t[j] == s[j - 1]);
                lemma_before_trans(s[i], x, s[j - 1]);
            } else if i == p {
                assert(t[j] == s[j - 1]);
            } else {
                assert(t[i] == s[i - 1] && t[j] == s[j - 1]);
            }
        }
    }
}

/// Position of `id` in `l`, if it is there.
fn find_pos(l: &Vec<RankedId>, id: u32) -> (r: Option<usize>)
    requires
        unique_ids(l@),
    ensures
        r is Some <==> has_id(l@, id),
        r matches Some(p) ==> p == pos_of(l@, id) && p < l@.len(),
{
    let mut i: usize = 0;
    while i < l.len()
        invariant
            i <= l@.len(),
            unique_ids(l@),
            forall|j: int| 0 <= j < i ==> l@[j].chunk_id != id,
        decreases l@.len() - i,
    {
        if l[i].chunk_id == id {
            proof {
                assert(has_id(l@, id));
                let q = pos_of(l@, id);
                assert(l@[q].chunk_id == id);
                assert(q == i as int);
            }
            return Some(i);
        }
        i = i + 1;
    }
    None
}

/// Fuses a vector ranking `v` and a lexical ranking `f` with constant `k`.
///
/// Every chunk of either ranking appears once, scored
/// `Σ 1/(k + rank)` over the rankings that hold it, ordered by that score,
/// then by vector score, then by chunk id.
pub fn rrf_fusion(v: &Vec<RankedId>, f: &Vec<RankedId>, k: u32) -> (r: Vec<FusedResult>)
    requires
        unique_ids(v@),
        unique_ids(f@),
        v@.len() < u32::MAX,
        f@.len() < u32::MAX,
    ensures
        is_fusion(v@, f@, k as int, r@),
        forall|i: int| 0 <= i < r@.len() ==> fused_wf(#[trigger] r@[i]),
{
    let mut out: Vec<FusedResult> = Vec::new();
    let ku = k as u128;
    let mut i: usize = 0;
    while i < v.len()
        invariant
            i <= v@.len(),
            unique_ids(v@),
            unique_ids(f@),
            v@.len() < u32::MAX,
            f@.len() < u32::MAX,
            ku == k,
            forall|a: int| 0 <= a < out@.len() ==> fused_wf(#[trigger] out@[a]),
            forall|a: int| 0 <= a < out@.len() ==> has_id(v@, #[trigger] out@[a].chunk_id),
            forall|a: int| 0 <= a < out@.len() ==> pos_of(v@, #[trigger] out@[a].chunk_id) < i,
            forall|a: int| 0 <= a < out@.len() ==> #[trigger] out@[a] == fused_entry(v@, f@, k as int, out@[a].chunk_id),
            forall|b: int| 0 <= b < i ==> covers(out@, #[trigger] v@[b].chunk_id),
            forall|a: int, c: int| 0 <= a < c < out@.len() ==> fused_before(#[trigger] out@[a], #[trigger] out@[c]),
        decreases v@.len() - i,
    {
        let id = v[i].chunk_id;
        proof {
            assert(has_id(v@, id));
            let q = pos_of(v@, id);
            assert(v@[q].chunk_id == id);
            assert(q == i);
        }
        let rv = (i as u128) + 1;
        let e = match find_pos(f, id) {
            Some(p) => {
                let rf = (p as u128) + 1;
                let num = (ku + rv) + (ku + rf);
                assert((ku + rv) * (ku + rf) <= MAX_DEN) by (nonlinear_arith)
                    requires ku + rv <= 0x2_0000_0000, ku + rf <= 0x2_0000_0000, ku + rv >= 1, ku + rf >= 1;
                assert((ku + rv) * (ku + rf) > 0) by (nonlinear_arith)
                    requires ku + rv >= 1, ku + rf >= 1;
                let den = (ku + rv) * (ku + rf);
                FusedResult {
                    chunk_id: id,
                    rrf_num: num,
                    rrf_den: den,
                    vector_score: Some(v[i].score),
                    fts_score: Some(f[p].score),
                    vector_rank: Some((i + 1) as u32),
                    fts_rank: Some((p + 1) as u32),
                }
            },
            None => FusedResult {
                chunk_id: id,
                rrf_num: 1,
                rrf_den: ku + rv,
                vector_score: Some(v[i].score),
                fts_score: None,
                vector_rank: Some((i + 1) as u32),
                fts_rank: None,
            },
        };
        proof {
            assert(e == fused_entry(v@, f@, k as int, id));
            assert forall|a: int| 0 <= a < out@.len() implies (#[trigger] out@[a]).chunk_id != id by {
                let q = pos_of(v@, out@[a].chunk_id);
                assert(v@[q].chunk_id == out@[a].chunk_id);
            }
        }
        let ghost before_out = out@;
        insert_sorted(&mut out, e);
        proof {
            let p = choose|p: int| 0 <= p <= before_out.len() && out@ == before_out.insert(p, e);
            assert forall|a: int| 0 <= a < out@.len() implies #[trigger] out@[a] == e || exists|c: int| 0 <= c < before_out.len() && out@[a] == before_out[c] by {
                if a < p {
                    assert(out@[a] == before_out[a]);
                } else if a > p {
                    assert(out@[a] == before_out[a - 1]);
                }
            }
            assert forall|b: int| 0 <= b < i + 1 implies covers(out@, #[trigger] v@[b].chunk_id) by {
                if b == i {
                    assert(out@[p].chunk_id == v@[b].chunk_id);
                } else {
                    let a0 = choose|a: int| 0 <= a < before_out.len() && before_out[a].chunk_id == v@[b].chunk_id;
                    if a0 < p {
                        assert(out@[a0] == before_out[a0]);
                    } else {
                        assert(out@[a0 + 1] == before_out[a0]);
                    }
                }
            }
        }
        i = i + 1;
    }
    let mut j: usize = 0;
    while j < f.len()
        invariant
            j <= f@.len(),
            unique_ids(v@),
            unique_ids(f@),
            v@.len() < u32::MAX,
            f@.len() < u32::MAX,
            ku == k,
            forall|a: int| 0 <= a < out@.len() ==> fused_wf(#[trigger] out@[a]),
            forall|a: int| 0 <= a < out@.len() ==> (has_id(v@, #[trigger] out@[a].chunk_id) || (has_id(f@, out@[a].chunk_id) && pos_of(f@, out@[a].chunk_id) < j)),
            forall|a: int| 0 <= a < out@.len() ==> #[trigger] out@[a] == fused_entry(v@, f@, k as int, out@[a].chunk_id),
            forall|b: int| 0 <= b < v@.len() ==> covers(out@, #[trigger] v@[b].chunk_id),
            forall|b: int| 0 <= b < j ==> covers(out@, #[trigger] f@[b].chunk_id),
            forall|a: int, c: int| 0 <= a < c < out@.len() ==> fused_before(#[trigger] out@[a], #[trigger] out@[c]),
        decreases f@.len() - j,
    {
        let id = f[j].chunk_id;
        proof {
            assert(has_id(f@, id));
            let q = pos_of(f@, id);
            assert(f@[q].chunk_id == id);
            assert(q == j);
        }
        match find_pos(v, id) {
            Some(_) => {},
            None => {
                let e = FusedResult {
                    chunk_id: id,
                    rrf_num: 1,
                    rrf_den: ku + (j as u128) + 1,
                    vector_score: None,
                    fts_score: Some(f[j].score),
                    vector_rank: None,
                    fts_rank: Some((j + 1) as u32),
                };
                proof {
                    assert(e == fused_entry(v@, f@, k as int, id));
                    assert forall|a: int| 0 <= a < out@.len() implies (#[trigger] out@[a]).chunk_id != id by {
                        if !has_id(v@, out@[a].chunk_id) {
                            let q = pos_of(f@, out@[a].chunk_id);
                            assert(f@[q].chunk_id == out@[a].chunk_id);
                        }
                    }
                }
                let ghost before_out = out@;
                insert_sorted(&mut out, e);
                proof {
                    let p = choose|p: int| 0 <= p <= before_out.len() && out@ == before_out.insert(p, e);
                    assert forall|a: int| 0 <= a < out@.len() implies #[trigger] out@[a] == e || exists|c: int| 0 <= c < before_out.len() && out@[a] == before_out[c] by {
                        if a < p {
                            assert(out@[a] == before_out[a]);
                        } else if a > p {
                            assert(out@[a] == before_out[a - 1]);
                        }
                    }
                    assert forall|b: int| 0 <= b < v@.len() implies covers(out@, #[trigger] v@[b].chunk_id) by {
                        let a0 = choose|a: int| 0 <= a < before_out.len() && before_out[a].chunk_id == v@[b].chunk_id;
                        if a0 < p {
                            assert(out@[a0] == before_out[a0]);
                        } else {
                            assert(out@[a0 + 1] == before_out[a0]);
                        }
                    }
                    assert forall|b: int| 0 <= b < j + 1 implies covers(out@, #[trigger] f@[b].chunk_id) by {
                        if b == j {
                            assert(out@[p].chunk_id == f@[b].chunk_id);
                        } else {
                            let a0 = choose|a: int| 0 <= a < before_out.len() && before_out[a].chunk_id == f@[b].chunk_id;
                            if a0 < p {
                                assert(out@[a0] == before_out[a0]);
                            } else {
                                assert(out@[a0 + 1] == before_out[a0]);
                            }
                        }
                    }
                }
            },
        }
        proof {
            assert forall|b: int| 0 <= b < j + 1 implies covers(out@, #[trigger] f@[b].chunk_id) by {
                if b == j && has_id(v@, id) {
                    let q = pos_of(v@, id);
                    assert(v@[q].chunk_id == id);
                }
            }
        }
        j = j + 1;
    }
    proof {
        assert forall|id: u32| (has_id(v@, id) || has_id(f@, id)) implies #[trigger] covers(out@, id) by {
            if has_id(v@, id) {
                let q = choose|q: int| 0 <= q < v@.len() && v@[q].chunk_id == id;
            } else {
                let q = choose|q: int| 0 <= q < f@.len() && f@[q].chunk_id == id;
            }
        }
    }
    out
}

/// Fusion treats its two rankings alike but for the tie-break: fusing `v`
/// with `f` and fusing `f` with `v` give the same chunks, each with the same
/// fused score; and a chunk held by both rankings, at 1-based ranks `r_V` and
/// `r_F`, scores exactly `1/(k + r_V) + 1/(k + r_F)`.
pub proof fn lemma_rrf_symmetric(
    v: Seq<RankedId>,
    f: Seq<RankedId>,
    k: u32,
    r1: Seq<FusedResult>,
    r2: Seq<FusedResult>,
)
    requires
        unique_ids(v),
        unique_ids(f),
        v.len() < u32::MAX,
        f.len() < u32::MAX,
        is_fusion(v, f, k as int, r1),
        is_fusion(f, v, k as int, r2),
    ensures
        forall|id: u32| covers(r1, id) <==> covers(r2, id),
        forall|i: int, j: int|
            0 <= i < r1.len() && 0 <= j < r2.len() && #[trigger] r1[i].chunk_id == #[trigger] r2[j].chunk_id
            ==> r1[i].rrf_num == r2[j].rrf_num && r1[i].rrf_den == r2[j].rrf_den,
        forall|i: int| 0 <= i < r1.len() && (#[trigger] r1[i]).vector_rank is Some && r1[i].fts_rank is Some
            ==> ({
                let a = k + r1[i].vector_rank.unwrap();
                let b = k + r1[i].fts_rank.unwrap();
                r1[i].rrf_num * a * b == r1[i].rrf_den * (a + b)
            }),
{
    let kk = k as int;
    assert forall|id: u32| covers(r1, id) <==> covers(r2, id) by {
        if covers(r1, id) {
            let a = choose|a: int| 0 <= a < r1.len() && #[trigger] r1[a].chunk_id == id;
            assert(has_id(v, r1[a].chunk_id) || has_id(f, r1[a].chunk_id));
        }
        if covers(r2, id) {
            let a = choose|a: int| 0 <= a < r2.len() && #[trigger] r2[a].chunk_id == id;
            assert(has_id(f, r2[a].chunk_id) || has_id(v, r2[a].chunk_id));
        }
    }
    assert forall|i: int, j: int|
        0 <= i < r1.len() && 0 <= j < r2.len() && #[trigger] r1[i].chunk_id == #[trigger] r2[j].chunk_id
        implies r1[i].rrf_num == r2[j].rrf_num && r1[i].rrf_den == r2[j].rrf_den by {
        let id = r1[i].chunk_id;
        assert(r1[i] == fused_entry(v, f, kk, id));
        assert(r2[j] == fused_entry(f, v, kk, id));
        if has_id(v, id) && has_id(f, id) {
            let a = kk + pos_of(v, id) + 1;
            let b = kk + pos_of(f, id) + 1;
            assert(a * b == b * a) by (nonlinear_arith);
        }
    }
    assert forall|i: int| 0 <= i < r1.len() && (#[trigger] r1[i]).vector_rank is Some && r1[i].fts_rank is Some
        implies ({
            let a = k + r1[i].vector_rank.unwrap();
            let b = k + r1[i].fts_rank.unwrap();
            r1[i].rrf_num * a * b == r1[i].rrf_den * (a + b)
        }) by {
        let id = r1[i].chunk_id;
        assert(r1[i] == fused_entry(v, f, kk, id));
        assert(has_id(v, id) && has_id(f, id));
        let pv = pos_of(v, id);
        let pf = pos_of(f, id);
        assert(0 <= pv < v.len()) by {
            let w = choose|w: int| 0 <= w < v.len() && v[w].chunk_id == id;
        }
        assert(0 <= pf < f.len()) by {
            let w = choose|w: int| 0 <= w < f.len() && f[w].chunk_id == id;
        }
        let a = kk + pv + 1;
        let b = kk + pf + 1;
        assert(a * b <= MAX_DEN) by (nonlinear_arith)
            requires 1 <= a <= 0x2_0000_0000, 1 <= b <= 0x2_0000_0000;
        assert(a * b >= 0) by (nonlinear_arith)
            requires 1 <= a, 1 <= b;
        assert(r1[i].rrf_den == a * b);
        assert(r1[i].rrf_num == a + b);
        assert((a + b) * a * b == (a * b) * (a + b)) by (nonlinear_arith);
    }
}

} // verus!
