//! Search hits and the steps that turn per-store hit lists into one page:
//! deduplication, ordering, pagination and per-file diversification.
use vstd::prelude::*;
use crate::text::starts_with;

verus! {

/// One search hit. `score` is an order key of the similarity: a larger key
/// is a better hit. `path` is the normalized path of the file (the stores
/// record normalized paths), so equal files have equal paths when hits are
/// deduplicated or counted per file.
pub struct SearchHit {
    pub chunk_id: u32,
    pub path: String,
    pub start_line: u32,
    pub end_line: u32,
    pub kind: String,
    pub content: String,
    pub score: u32,
}

/// Mathematical view of a hit.
pub ghost struct HitView {
    pub chunk_id: u32,
    pub path: Seq<char>,
    pub start_line: u32,
    pub end_line: u32,
    pub kind: Seq<char>,
    pub content: Seq<char>,
    pub score: u32,
}

impl View for SearchHit {
    type V = HitView;

    open spec fn view(&self) -> HitView {
        HitView {
            chunk_id: self.chunk_id,
            path: self.path@,
            start_line: self.start_line,
            end_line: self.end_line,
            kind: self.kind@,
            content: self.content@,
            score: self.score,
        }
    }
}

/// The views of a list of hits.
pub open spec fn views(s: Seq<SearchHit>) -> Seq<HitView> {
    s.map_values(|h: SearchHit| h@)
}

/// Copies a hit.
pub fn copy_hit(h: &SearchHit) -> (r: SearchHit)
    ensures
        r@ == h@,
{
    SearchHit {
        chunk_id: h.chunk_id,
        path: h.path.clone(),
        start_line: h.start_line,
        end_line: h.end_line,
        kind: h.kind.clone(),
        content: h.content.clone(),
        score: h.score,
    }
}

/// Two hits cover the same source span.
pub open spec fn same_span(a: HitView, b: HitView) -> bool {
    a.path == b.path && a.start_line == b.start_line && a.end_line == b.end_line
}

/// Hit `j` outranks hit `i` of the same list: a better score, or an equal
/// score and an earlier place.
pub open spec fn outranks(s: Seq<HitView>, j: int, i: int) -> bool {
    s[j].score > s[i].score || (s[j].score == s[i].score && j < i)
}

/// Hit `i` is the one kept for its span: no other hit of that span outranks it.
pub open spec fn kept(s: Seq<HitView>, i: int) -> bool {
    forall|j: int| 0 <= j < s.len() && j != i && same_span(#[trigger] s[j], s[i]) ==> !outranks(s, j, i)
}

/// `idx` lists the kept hits of `s`, each once, best first.
pub open spec fn is_ranking(s: Seq<HitView>, idx: Seq<usize>) -> bool {
    &&& forall|p: int| 0 <= p < idx.len() ==> (#[trigger] idx[p]) < s.len() && kept(s, idx[p] as int)
    &&& forall|i: usize| i < s.len() && kept(s, i as int) ==> exists|p: int| 0 <= p < idx.len() && #[trigger] idx[p] == i
    &&& forall|p: int, q: int| 0 <= p < q < idx.len() ==> outranks(s, #[trigger] idx[p] as int, #[trigger] idx[q] as int)
}

/// The window `[offset, offset + limit)` of a sequence, cut at its end.
pub open spec fn page<T>(s: Seq<T>, offset: int, limit: int) -> Seq<T> {
    if offset >= s.len() {
        Seq::empty()
    } else if offset + limit >= s.len() {
        s.subrange(offset, s.len() as int)
    } else {
        s.subrange(offset, offset + limit)
    }
}

/// The hits of `s` in the order `idx` gives.
pub open spec fn pick(s: Seq<HitView>, idx: Seq<usize>) -> Seq<HitView> {
    idx.map_values(|i: usize| s[i as int])
}

/// Two sequences that each list, best first and once each, the kept hits
/// outside `ex` are the same.
proof fn lemma_ranking_unique(s: Seq<HitView>, a: Seq<usize>, b: Seq<usize>, ex: Set<usize>)
    requires
        forall|p: int| 0 <= p < a.len() ==> (#[trigger] a[p]) < s.len() && kept(s, a[p] as int) && !ex.contains(a[p]),
        forall|p: int| 0 <= p < b.len() ==> (#[trigger] b[p]) < s.len() && kept(s, b[p] as int) && !ex.contains(b[p]),
        forall|i: usize| i < s.len() && kept(s, i as int) && !ex.contains(i) ==> exists|p: int| 0 <= p < a.len() && #[trigger] a[p] == i,
        forall|i: usize| i < s.len() && kept(s, i as int) && !ex.contains(i) ==> exists|p: int| 0 <= p < b.len() && #[trigger] b[p] == i,
        forall|p: int, q: int| 0 <= p < q < a.len() ==> outranks(s, #[trigger] a[p] as int, #[trigger] a[q] as int),
        forall|p: int, q: int| 0 <= p < q < b.len() ==> outranks(s, #[trigger] b[p] as int, #[trigger] b[q] as int),
    ensures
        a == b,
    decreases a.len(),
{
    if a.len() == 0 {
        if b.len() > 0 {
            let i = b[0];
            assert(i < s.len() && kept(s, i as int) && !ex.contains(i));
            let p = choose|p: int| 0 <= p < a.len() && #[trigger] a[p] == i;
        }
        assert(a =~= b);
    } else {
        let x = a[0];
        let y = b[0];
        assert(x < s.len() && kept(s, x as int) && !ex.contains(x));
        assert(y < s.len() && kept(s, y as int) && !ex.contains(y));
        let q = choose|q: int| 0 <= q < b.len() && #[trigger] b[q] == x;
        let p = choose|p: int| 0 <= p < a.len() && #[trigger] a[p] == y;
        if p > 0 {
            assert(outranks(s, a[0] as int, a[p] as int));
            if q > 0 {
                assert(outranks(s, b[0] as int, b[q] as int));
            }
        }
        assert(x == y);
        let a1 = a.drop_first();
        let b1 = b.drop_first();
        let ex1 = ex.insert(x);
        assert forall|p: int| 0 <= p < a1.len() implies (#[trigger] a1[p]) < s.len() && kept(s, a1[p] as int) && !ex1.contains(a1[p]) by {
            assert(a1[p] == a[p + 1]);
            assert(outranks(s, a[0] as int, a[p + 1] as int));
        }
        assert forall|p: int| 0 <= p < b1.len() implies (#[trigger] b1[p]) < s.len() && kept(s, b1[p] as int) && !ex1.contains(b1[p]) by {
            assert(b1[p] == b[p + 1]);
            assert(outranks(s, b[0] as int, b[p + 1] as int));
        }
        assert forall|p: int, r: int| 0 <= p < r < a1.len() implies outranks(s, #[trigger] a1[p] as int, #[trigger] a1[r] as int) by {
            assert(a1[p] == a[p + 1] && a1[r] == a[r + 1]);
        }
        assert forall|p: int, r: int| 0 <= p < r < b1.len() implies outranks(s, #[trigger] b1[p] as int, #[trigger] b1[r] as int) by {
            assert(b1[p] == b[p + 1] && b1[r] == b[r + 1]);
        }
        assert forall|i: usize| i < s.len() && kept(s, i as int) && !ex1.contains(i) implies exists|p: int| 0 <= p < a1.len() && #[trigger] a1[p] == i by {
            let p = choose|p: int| 0 <= p < a.len() && #[trigger] a[p] == i;
            assert(a1[p - 1] == a[p]);
        }
        assert forall|i: usize| i < s.len() && kept(s, i as int) && !ex1.contains(i) implies exists|p: int| 0 <= p < b1.len() && #[trigger] b1[p] == i by {
            let p = choose|p: int| 0 <= p < b.len() && #[trigger] b[p] == i;
            assert(b1[p - 1] == b[p]);
        }
        lemma_ranking_unique(s, a1, b1, ex1);
        assert(a =~= b) by {
            assert(a =~= seq![x] + a1);
            assert(b =~= seq![y] + b1);
        }
    }
}

/// The ranking of a hit list: the kept hits, best first.
pub open spec fn ranking(s: Seq<HitView>) -> Seq<usize> {
    choose|idx: Seq<usize>| is_ranking(s, idx)
}

/// The page `[offset, offset + limit)` of the ranked, deduplicated hits.
pub open spec fn federated_page(s: Seq<HitView>, offset: int, limit: int) -> Seq<HitView> {
    page(pick(s, ranking(s)), offset, limit)
}

/// The hits of several lists, one list after the other.
pub open spec fn flat(lists: Seq<Vec<SearchHit>>) -> Seq<HitView>
    decreases lists.len(),
{
    if lists.len() == 0 {
        Seq::empty()
    } else {
        flat(lists.drop_last()) + views(lists.last()@)
    }
}

/// Hit `i` of `all` is the one kept for its span.
fn is_kept(all: &Vec<SearchHit>, i: usize) -> (r: bool)
    requires
        i < all@.len(),
    ensures
        r == kept(views(all@), i as int),
{
    let ghost s = views(all@);
    let mut j: usize = 0;
    while j < all.len()
        invariant
            i < all@.len(),
            s == views(all@),
            j <= all@.len(),
            forall|t: int| 0 <= t < j && t != i && same_span(#[trigger] s[t], s[i as int]) ==> !outranks(s, t, i as int),
        decreases all@.len() - j,
    {
        if j != i && all[j].start_line == all[i].start_line && all[j].end_line == all[i].end_line
            && all[j].path == all[i].path {
            if all[j].score > all[i].score || (all[j].score == all[i].score && j < i) {
                proof {
                    assert(same_span(s[j as int], s[i as int]));
                }
                return false;
            }
        }
        j = j + 1;
    }
    true
}

/// Ranks the hits: one per source span, the best of that span, best first.
pub fn rank_hits(all: &Vec<SearchHit>) -> (idx: Vec<usize>)
    ensures
        is_ranking(views(all@), idx@),
        idx@ == ranking(views(all@)),
{
    let ghost s = views(all@);
    let mut idx: Vec<usize> = Vec::new();
    let mut i: usize = 0;
    while i < all.len()
        invariant
            s == views(all@),
            i <= all@.len(),
            forall|p: int| 0 <= p < idx@.len() ==> (#[trigger] idx@[p]) < i && kept(s, idx@[p] as int),
            forall|t: usize| t < i && kept(s, t as int) ==> exists|p: int| 0 <= p < idx@.len() && #[trigger] idx@[p] == t,
            forall|p: int, q: int| 0 <= p < q < idx@.len() ==> outranks(s, #[trigger] idx@[p] as int, #[trigger] idx@[q] as int),
        decreases all@.len() - i,
    {
        if is_kept(all, i) {
            let n = idx.len();
            let mut p: usize = 0;
            while p < n && (all[idx[p]].score > all[i].score || (all[idx[p]].score == all[i].score && idx[p] < i))
                invariant
                    s == views(all@),
                    i < all@.len(),
                    n == idx@.len(),
                    p <= n,
                    forall|t: int| 0 <= t < idx@.len() ==> (#[trigger] idx@[t]) < i,
                    forall|t: int| 0 <= t < p ==> outranks(s, #[trigger] idx@[t] as int, i as int),
                decreases n - p,
            {
                p = p + 1;
            }
            let ghost old_idx = idx@;
            idx.insert(p, i);
            proof {
                assert(idx@ == old_idx.insert(p as int, i));
                assert forall|a: int, b: int| 0 <= a < b < idx@.len() implies outranks(s, #[trigger] idx@[a] as int, #[trigger] idx@[b] as int) by {
                    if b < p {
                        assert(idx@[a] == old_idx[a] && idx@[b] == old_idx[b]);
                    } else if b == p {
                        assert(idx@[a] == old_idx[a]);
                    } else if a < p {
                        assert(idx@[a] == old_idx[a] && idx@[b] == old_idx[b - 1]);
                    } else if a == p {
                        assert(idx@[b] == old_idx[b - 1]);
                        assert(outranks(s, old_idx[p as int] as int, old_idx[b - 1] as int) || b - 1 == p);
                    } else {
                        assert(idx@[a] == old_idx[a - 1] && idx@[b] == old_idx[b - 1]);
                    }
                }
                assert forall|q: int| 0 <= q < idx@.len() implies (#[trigger] idx@[q]) < i + 1 && kept(s, idx@[q] as int) by {
                    if q < p {
                        assert(idx@[q] == old_idx[q]);
                    } else if q > p {
                        assert(idx@[q] == old_idx[q - 1]);
                    }
                }
                assert forall|t: usize| t < i + 1 && kept(s, t as int) implies exists|q: int| 0 <= q < idx@.len() && #[trigger] idx@[q] == t by {
                    if t == i {
                        assert(idx@[p as int] == t);
                    } else {
                        let q = choose|q: int| 0 <= q < old_idx.len() && #[trigger] old_idx[q] == t;
                        if q < p {
                            assert(idx@[q] == old_idx[q]);
                        } else {
                            assert(idx@[q + 1] == old_idx[q]);
                        }
                    }
                }
            }
        }
        i = i + 1;
    }
    proof {
        assert(is_ranking(s, idx@));
        let c = ranking(s);
        assert(is_ranking(s, c));
        lemma_ranking_unique(s, idx@, c, Set::empty());
    }
    idx
}

/// Puts the hits of all lists into one, list after list.
pub fn concat_hits(lists: &Vec<Vec<SearchHit>>) -> (r: Vec<SearchHit>)
    ensures
        views(r@) == flat(lists@),
{
    let mut r: Vec<SearchHit> = Vec::new();
    let mut a: usize = 0;
    while a < lists.len()
        invariant
            a <= lists@.len(),
            views(r@) == flat(lists@.subrange(0, a as int)),
        decreases lists@.len() - a,
    {
        let l = &lists[a];
        let ghost r0 = r@;
        let mut b: usize = 0;
        while b < l.len()
            invariant
                b <= l@.len(),
                l == lists@[a as int],
                r@.len() == r0.len() + b,
                forall|t: int| 0 <= t < r0.len() ==> r@[t] == r0[t],
                forall|t: int| 0 <= t < b ==> (#[trigger] r@[r0.len() + t])@ == l@[t]@,
            decreases l@.len() - b,
        {
            let h = copy_hit(&l[b]);
            r.push(h);
            b = b + 1;
        }
        proof {
            let sub = lists@.subrange(0, a + 1);
            assert(sub.drop_last() =~= lists@.subrange(0, a as int));
            assert(sub.last() == l);
            assert(views(r@) =~= views(r0) + views(l@)) by {
                assert forall|t: int| 0 <= t < r@.len() implies #[trigger] views(r@)[t] == (views(r0) + views(l@))[t] by {
                    if t >= r0.len() {
                        assert(r@[r0.len() + (t - r0.len())]@ == l@[t - r0.len()]@);
                    }
                }
            }
        }
        a = a + 1;
    }
    proof {
        assert(lists@.subrange(0, lists@.len() as int) =~= lists@);
    }
    r
}

/// How many hits to ask of each store so that the page `[offset, offset +
/// limit)` of the federated ranking can be formed.
pub fn fetch_size(limit: usize, offset: usize) -> (r: usize)
    ensures
        r == if limit + offset <= usize::MAX { limit + offset } else { usize::MAX as int },
{
    limit.saturating_add(offset)
}

/// Federated search over per-store hit lists: concatenates them, keeps for
/// each source span its best hit, orders by score (then by place), and
/// returns the page `[offset, offset + limit)`.
pub fn search_all(lists: &Vec<Vec<SearchHit>>, limit: usize, offset: usize) -> (r: Vec<SearchHit>)
    ensures
        views(r@) == federated_page(flat(lists@), offset as int, limit as int),
        forall|k: int| 0 <= k < r@.len() ==> flat(lists@).contains(#[trigger] r@[k]@),
{
    let all = concat_hits(lists);
    let idx = rank_hits(&all);
    let ghost s = views(all@);
    let ghost full = pick(s, idx@);
    let n = idx.len();
    let mut r: Vec<SearchHit> = Vec::new();
    let mut p: usize = offset;
    let end: usize = if offset >= n { offset } else if limit >= n - offset { n } else { offset + limit };
    while p < end
        invariant
            s == views(all@),
            full == pick(s, idx@),
            is_ranking(s, idx@),
            n == idx@.len(),
            offset <= p <= end,
            end <= n || end == offset,
            r@.len() == p - offset,
            forall|t: int| 0 <= t < r@.len() ==> (#[trigger] r@[t])@ == full[offset + t],
        decreases end - p,
    {
        let h = copy_hit(&all[idx[p]]);
        r.push(h);
        p = p + 1;
    }
    proof {
        assert(views(r@) =~= page(full, offset as int, limit as int));
        assert forall|k: int| 0 <= k < r@.len() implies s.contains(#[trigger] r@[k]@) by {
            assert(r@[k]@ == full[offset + k]);
            assert(idx@[offset + k] < s.len());
            assert(s[idx@[offset + k] as int] == r@[k]@);
        }
    }
    r
}

/// A page of the federated ranking is the same window of a first page that
/// reaches as far: asking for `limit` hits after `offset` gives the hits at
/// `[offset, offset + limit)` of the answer to `limit + offset` hits from the
/// start.
pub proof fn lemma_page_is_slice(s: Seq<HitView>, limit: nat, offset: nat)
    ensures
        federated_page(s, offset as int, limit as int)
            == page(federated_page(s, 0, (limit + offset) as int), offset as int, limit as int),
{
    let full = pick(s, ranking(s));
    let first = page(full, 0, (limit + offset) as int);
    assert(first =~= full.subrange(0, if limit + offset >= full.len() { full.len() as int } else { (limit + offset) as int }));
    assert(federated_page(s, offset as int, limit as int) =~= page(first, offset as int, limit as int));
}

/// How many hits of `s` lie in the file `path`.
pub open spec fn count_path(s: Seq<HitView>, path: Seq<char>) -> nat
    decreases s.len(),
{
    if s.len() == 0 {
        0
    } else {
        count_path(s.drop_last(), path) + if s.last().path == path { 1nat } else { 0nat }
    }
}

/// Per-file diversification: walking the ranking in order, a hit is kept
/// while fewer than `per_file` hits of its file have been kept.
pub open spec fn diversified(s: Seq<HitView>, per_file: nat) -> Seq<HitView>
    decreases s.len(),
{
    if s.len() == 0 {
        Seq::empty()
    } else {
        let d = diversified(s.drop_last(), per_file);
        if count_path(d, s.last().path) < per_file {
            d.push(s.last())
        } else {
            d
        }
    }
}

/// `d` is `s` with some elements left out, the rest in their order.
pub open spec fn is_subsequence(d: Seq<HitView>, s: Seq<HitView>) -> bool {
    exists|m: Seq<int>|
        m.len() == d.len()
        && (forall|i: int| 0 <= i < m.len() ==> 0 <= #[trigger] m[i] < s.len() && d[i] == s[m[i]])
        && (forall|i: int, j: int| 0 <= i < j < m.len() ==> #[trigger] m[i] < #[trigger] m[j])
}

/// Counts the hits of `out` in the file `path`.
fn count_in_file(out: &Vec<SearchHit>, path: &String) -> (r: usize)
    ensures
        r == count_path(views(out@), path@),
{
    let mut c: usize = 0;
    let mut i: usize = 0;
    while i < out.len()
        invariant
            i <= out@.len(),
            c == count_path(views(out@).subrange(0, i as int), path@),
            c <= i,
        decreases out@.len() - i,
    {
        proof {
            let t = views(out@).subrange(0, i + 1);
            assert(t.drop_last() =~= views(out@).subrange(0, i as int));
        }
        if out[i].path == *path {
            c = c + 1;
        }
        i = i + 1;
    }
    proof {
        assert(views(out@).subrange(0, out@.len() as int) =~= views(out@));
    }
    c
}

/// Keeps at most `per_file` hits of each file, in ranking order.
pub fn diversify(hits: &Vec<SearchHit>, per_file: usize) -> (r: Vec<SearchHit>)
    ensures
        views(r@) == diversified(views(hits@), per_file as nat),
{
    let ghost s = views(hits@);
    let mut out: Vec<SearchHit> = Vec::new();
    let mut i: usize = 0;
    while i < hits.len()
        invariant
            s == views(hits@),
            i <= hits@.len(),
            views(out@) == diversified(s.subrange(0, i as int), per_file as nat),
        decreases hits@.len() - i,
    {
        proof {
            let t = s.subrange(0, i + 1);
            assert(t.drop_last() =~= s.subrange(0, i as int));
            assert(t.last() == hits@[i as int]@);
        }
        let c = count_in_file(&out, &hits[i].path);
        if c < per_file {
            let h = copy_hit(&hits[i]);
            let ghost o = out@;
            out.push(h);
            proof {
                assert(views(out@) =~= views(o).push(hits@[i as int]@));
            }
        }
        i = i + 1;
    }
    proof {
        assert(s.subrange(0, hits@.len() as int) =~= s);
    }
    out
}

/// Diversification with `per_file = p` keeps at most `p` hits of any one file.
pub proof fn lemma_diversify_bounded(s: Seq<HitView>, per_file: nat, path: Seq<char>)
    ensures
        count_path(diversified(s, per_file), path) <= per_file,
    decreases s.len(),
{
    if s.len() > 0 {
        lemma_diversify_bounded(s.drop_last(), per_file, path);
        let d = diversified(s.drop_last(), per_file);
        if count_path(d, s.last().path) < per_file {
            assert(d.push(s.last()).drop_last() =~= d);
        }
    }
}

/// Diversification keeps the hits it keeps in their ranking order.
pub proof fn lemma_diversify_order_preserving(s: Seq<HitView>, per_file: nat)
    ensures
        is_subsequence(diversified(s, per_file), s),
    decreases s.len(),
{
    let d = diversified(s, per_file);
    if s.len() == 0 {
        let m = Seq::<int>::empty();
        assert(m.len() == d.len());
    } else {
        let s0 = s.drop_last();
        lemma_diversify_order_preserving(s0, per_file);
        let d0 = diversified(s0, per_file);
        let m0 = choose|m: Seq<int>|
            m.len() == d0.len()
            && (forall|i: int| 0 <= i < m.len() ==> 0 <= #[trigger] m[i] < s0.len() && d0[i] == s0[m[i]])
            && (forall|i: int, j: int| 0 <= i < j < m.len() ==> #[trigger] m[i] < #[trigger] m[j]);
        if count_path(d0, s.last().path) < per_file {
            let m = m0.push(s.len() - 1);
            assert(d == d0.push(s.last()));
            assert forall|i: int| 0 <= i < m.len() implies 0 <= #[trigger] m[i] < s.len() && d[i] == s[m[i]] by {
                if i < m0.len() {
                    assert(m[i] == m0[i]);
                }
            }
            assert forall|i: int, j: int| 0 <= i < j < m.len() implies #[trigger] m[i] < #[trigger] m[j] by {
                if j < m0.len() {
                    assert(m[i] == m0[i] && m[j] == m0[j]);
                } else {
                    assert(m[i] == m0[i]);
                }
            }
            assert(m.len() == d.len());
        } else {
            assert(d == d0);
            assert forall|i: int| 0 <= i < m0.len() implies 0 <= #[trigger] m0[i] < s.len() && d[i] == s[m0[i]] by {
                assert(s[m0[i]] == s0[m0[i]]);
            }
        }
    }
}

/// Hits whose path starts with `prefix`, in their order.
pub open spec fn path_filtered(s: Seq<HitView>, prefix: Seq<char>) -> Seq<HitView> {
    s.filter(|h: HitView| crate::text::is_prefix(prefix, h.path))
}

/// Keeps the hits whose path starts with `prefix`.
pub fn filter_path(hits: &Vec<SearchHit>, prefix: &str) -> (r: Vec<SearchHit>)
    ensures
        views(r@) == path_filtered(views(hits@), prefix@),
{
    let ghost s = views(hits@);
    let mut out: Vec<SearchHit> = Vec::new();
    let mut i: usize = 0;
    while i < hits.len()
        invariant
            s == views(hits@),
            i <= hits@.len(),
            views(out@) == path_filtered(s.subrange(0, i as int), prefix@),
        decreases hits@.len() - i,
    {
        proof {
            let t = s.subrange(0, i + 1);
            assert(t.drop_last() =~= s.subrange(0, i as int));
            reveal(Seq::filter);
        }
        if starts_with(hits[i].path.as_str(), prefix) {
            let h = copy_hit(&hits[i]);
            let ghost o = out@;
            out.push(h);
            proof {
                assert(views(out@) =~= views(o).push(hits@[i as int]@));
            }
        }
        i = i + 1;
    }
    proof {
        assert(s.subrange(0, hits@.len() as int) =~= s);
    }
    out
}

/// The hit lists of the stores that answered, in store order.
pub open spec fn answered(per_store: Seq<Option<Vec<SearchHit>>>) -> Seq<Vec<SearchHit>>
    decreases per_store.len(),
{
    if per_store.len() == 0 {
        Seq::empty()
    } else {
        let a = answered(per_store.drop_last());
        match per_store.last() {
            Some(l) => a.push(l),
            None => a,
        }
    }
}

/// Federated search that isolates failing stores: `None` stands for a
/// store whose search failed and is skipped. Fails when no store answered.
pub fn search_answered(
    per_store: Vec<Option<Vec<SearchHit>>>,
    limit: usize,
    offset: usize,
) -> (r: Result<Vec<SearchHit>, crate::error::DemongrepError>)
    ensures
        answered(per_store@).len() == 0 <==> r is Err,
        r matches Err(e) ==> (per_store@.len() == 0 ==> e == crate::error::DemongrepError::NoDatabases)
            && (per_store@.len() > 0 ==> e is SearchError),
        r matches Ok(v) ==> views(v@) == federated_page(flat(answered(per_store@)), offset as int, limit as int),
{
    let ghost ps = per_store@;
    let n = per_store.len();
    let mut lists: Vec<Vec<SearchHit>> = Vec::new();
    let mut rest = per_store;
    let mut i: usize = 0;
    while i < n
        invariant
            n == ps.len(),
            i <= n,
            rest@ == ps.subrange(i as int, n as int),
            lists@ == answered(ps.subrange(0, i as int)),
        decreases n - i,
    {
        let ghost r0 = rest@;
        let item = rest.remove(0);
        proof {
            assert(item == r0[0]);
            assert(rest@ =~= ps.subrange(i + 1, n as int));
            let t = ps.subrange(0, i + 1);
            assert(t.drop_last() =~= ps.subrange(0, i as int));
            assert(t.last() == item);
        }
        match item {
            Some(l) => lists.push(l),
            None => {},
        }
        i = i + 1;
    }
    proof {
        assert(ps.subrange(0, n as int) =~= ps);
    }
    if lists.len() == 0 {
        if n == 0 {
            return Err(crate::error::DemongrepError::NoDatabases);
        }
        return Err(crate::error::DemongrepError::SearchError { reason: String::from_str("every store failed") });
    }
    Ok(search_all(&lists, limit, offset))
}

} // verus!
