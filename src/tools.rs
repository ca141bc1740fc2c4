//! Request and response values of the query tools served to agents.
use vstd::prelude::*;
use crate::database::{StoreStats};
use crate::model::{ModelType, spec_short_name};
use crate::text::str_equal;
use crate::results::{SearchHit, HitView, views, copy_hit};

verus! {

/// Default number of hits of a semantic search.
pub const DEFAULT_TOOL_LIMIT: usize = 10;

/// A semantic search request.
pub struct SemanticSearchRequest {
    /// The query, in natural language or as a code snippet.
    pub query: String,
    /// How many hits to return; ten when absent.
    pub limit: Option<usize>,
}

impl SemanticSearchRequest {
    /// The number of hits asked for.
    pub fn effective_limit(&self) -> (r: usize)
        ensures
            r == match self.limit {
                Some(n) => n,
                None => 10usize,
            },
    {
        match self.limit {
            Some(n) => n,
            None => DEFAULT_TOOL_LIMIT,
        }
    }
}

/// A request for every chunk of one file.
pub struct GetFileChunksRequest {
    /// Path of the file, relative to the project root.
    pub path: String,
}

/// A path with every leading `./` taken off.
pub open spec fn strip_dot_slash(p: Seq<char>) -> Seq<char>
    decreases p.len(),
{
    if p.len() >= 2 && p[0] == '.' && p[1] == '/' {
        strip_dot_slash(p.subrange(2, p.len() as int))
    } else {
        p
    }
}

/// A path with every leading `./` taken off.
fn trim_dot_slash(p: &str) -> (r: &str)
    ensures
        r@ == strip_dot_slash(p@),
{
    let n = p.unicode_len();
    let mut i: usize = 0;
    proof {
        assert(p@.subrange(0, n as int) =~= p@);
    }
    while n - i >= 2 && p.get_char(i) == '.' && p.get_char(i + 1) == '/'
        invariant
            n == p@.len(),
            i <= n,
            strip_dot_slash(p@) == strip_dot_slash(p@.subrange(i as int, n as int)),
        decreases n - i,
    {
        proof {
            let q = p@.subrange(i as int, n as int);
            assert(q.subrange(2, q.len() as int) =~= p@.subrange(i + 2, n as int));
        }
        i = i + 2;
    }
    p.substring_char(i, n)
}

impl GetFileChunksRequest {
    /// Whether a chunk's path names the requested file: equal as given, or
    /// equal once leading `./` are taken off both.
    pub fn matches_path(&self, chunk_path: &str) -> (r: bool)
        ensures
            r == (strip_dot_slash(chunk_path@) == strip_dot_slash(self.path@) || chunk_path@ == self.path@),
    {
        str_equal(trim_dot_slash(chunk_path), trim_dot_slash(self.path.as_str())) || str_equal(chunk_path, self.path.as_str())
    }
}

/// A chunk path names the requested file.
pub open spec fn names_file(req: Seq<char>, p: Seq<char>) -> bool {
    strip_dot_slash(p) == strip_dot_slash(req) || p == req
}

/// Hit `i` comes before hit `j` of the same list in a file listing: an
/// earlier start line, or the same start line and an earlier place.
pub open spec fn line_before(s: Seq<HitView>, i: int, j: int) -> bool {
    s[i].start_line < s[j].start_line || (s[i].start_line == s[j].start_line && i < j)
}

/// `idx` lists the hits of `s` in the requested file, each once, by start
/// line (then by place).
pub open spec fn is_file_listing(s: Seq<HitView>, req: Seq<char>, idx: Seq<usize>) -> bool {
    &&& forall|p: int| 0 <= p < idx.len() ==> (#[trigger] idx[p]) < s.len() && names_file(req, s[idx[p] as int].path)
    &&& forall|i: usize| i < s.len() && names_file(req, s[i as int].path) ==> exists|p: int| 0 <= p < idx.len() && #[trigger] idx[p] == i
    &&& forall|p: int, q: int| 0 <= p < q < idx.len() ==> line_before(s, #[trigger] idx[p] as int, #[trigger] idx[q] as int)
}

impl GetFileChunksRequest {
    /// The chunks of the requested file among `hits`, by start line.
    pub fn file_chunks(&self, hits: &Vec<SearchHit>) -> (r: Vec<SearchHit>)
        ensures
            exists|idx: Seq<usize>| is_file_listing(views(hits@), self.path@, idx)
                && views(r@) == idx.map_values(|i: usize| views(hits@)[i as int]),
    {
        let ghost s = views(hits@);
        let mut idx: Vec<usize> = Vec::new();
        let mut i: usize = 0;
        while i < hits.len()
            invariant
                s == views(hits@),
                i <= hits@.len(),
                forall|p: int| 0 <= p < idx@.len() ==> (#[trigger] idx@[p]) < i && names_file(self.path@, s[idx@[p] as int].path),
                forall|t: usize| t < i && names_file(self.path@, s[t as int].path) ==> exists|p: int| 0 <= p < idx@.len() && #[trigger] idx@[p] == t,
                forall|p: int, q: int| 0 <= p < q < idx@.len() ==> line_before(s, #[trigger] idx@[p] as int, #[trigger] idx@[q] as int),
            decreases hits@.len() - i,
        {
            if self.matches_path(hits[i].path.as_str()) {
                let n = idx.len();
                let mut p: usize = 0;
                while p < n && (hits[idx[p]].start_line < hits[i].start_line || (hits[idx[p]].start_line == hits[i].start_line && idx[p] < i))
                    invariant
                        s == views(hits@),
                        i < hits@.len(),
                        n == idx@.len(),
                        p <= n,
                        forall|t: int| 0 <= t < idx@.len() ==> (#[trigger] idx@[t]) < i,
                        forall|t: int| 0 <= t < p ==> line_before(s, #[trigger] idx@[t] as int, i as int),
                    decreases n - p,
                {
                    p = p + 1;
                }
                let ghost old_idx = idx@;
                idx.insert(p, i);
                proof {
                    assert(idx@ == old_idx.insert(p as int, i));
                    assert forall|a: int, b: int| 0 <= a < b < idx@.len() implies line_before(s, #[trigger] idx@[a] as int, #[trigger] idx@[b] as int) by {
                        if b < p {
                            assert(idx@[a] == old_idx[a] && idx@[b] == old_idx[b]);
                        } else if b == p {
                            assert(idx@[a] == old_idx[a]);
                        } else if a < p {
                            assert(idx@[a] == old_idx[a] && idx@[b] == old_idx[b - 1]);
                        } else if a == p {
                            assert(idx@[b] == old_idx[b - 1]);
                            assert(line_before(s, old_idx[p as int] as int, old_idx[b - 1] as int) || b - 1 == p);
                        } else {
                            assert(idx@[a] == old_idx[a - 1] && idx@[b] == old_idx[b - 1]);
                        }
                    }
                    assert forall|q: int| 0 <= q < idx@.len() implies (#[trigger] idx@[q]) < i + 1 && names_file(self.path@, s[idx@[q] as int].path) by {
                        if q < p {
                            assert(idx@[q] == old_idx[q]);
                        } else if q > p {
                            assert(idx@[q] == old_idx[q - 1]);
                        }
                    }
                    assert forall|t: usize| t < i + 1 && names_file(self.path@, s[t as int].path) implies exists|q: int| 0 <= q < idx@.len() && #[trigger] idx@[q] == t by {
                        if t == i {
                            assert(idx@[p as int] == t);
                        } else {
                            let q = choose|q: int| 0 <= q < old_idx.len() && #[trigger] old_idx[q] == t;
                            if q < p {
                                assert(idx@[q] == old_idx[q]);
                            } else {
                                assert(idx@[q + 1] == old_idx[q]);
                            }
                        }
                    }
                }
            }
            i = i + 1;
        }
        let mut r: Vec<SearchHit> = Vec::new();
        let mut k: usize = 0;
        while k < idx.len()
            invariant
                s == views(hits@),
                k <= idx@.len(),
                forall|p: int| 0 <= p < idx@.len() ==> (#[trigger] idx@[p]) < hits@.len(),
                views(r@) == idx@.subrange(0, k as int).map_values(|j: usize| s[j as int]),
            decreases idx@.len() - k,
        {
            let ghost o = r@;
            r.push(copy_hit(&hits[idx[k]]));
            proof {
                assert(views(r@) =~= views(o).push(s[idx@[k as int] as int]));
                assert(idx@.subrange(0, k + 1).map_values(|j: usize| s[j as int]) =~= idx@.subrange(0, k as int).map_values(|j: usize| s[j as int]).push(s[idx@[k as int] as int]));
            }
            k = k + 1;
        }
        proof {
            assert(idx@.subrange(0, idx@.len() as int) =~= idx@);
            assert(is_file_listing(s, self.path@, idx@));
        }
        r
    }
}

/// The state of the index, as the status tool reports it.
pub struct IndexStatusResponse {
    pub indexed: bool,
    pub total_chunks: usize,
    pub total_files: usize,
    pub model: String,
    pub dimensions: usize,
    pub db_path: String,
}

impl IndexStatusResponse {
    /// The status when there is no store at `db_path`.
    pub fn missing(db_path: String) -> (r: IndexStatusResponse)
        ensures
            !r.indexed,
            r.total_chunks == 0,
            r.total_files == 0,
            r.model@ == "none"@,
            r.dimensions == 0,
            r.db_path@ == db_path@,
    {
        IndexStatusResponse {
            indexed: false,
            total_chunks: 0,
            total_files: 0,
            model: String::from_str("none"),
            dimensions: 0,
            db_path,
        }
    }

    /// The status of an opened store.
    pub fn from_stats(stats: StoreStats, model: ModelType, db_path: String) -> (r: IndexStatusResponse)
        ensures
            r.indexed == stats.indexed,
            r.total_chunks == stats.total_chunks,
            r.total_files == stats.total_files,
            r.model@ == spec_short_name(model),
            r.dimensions == stats.dimensions,
            r.db_path@ == db_path@,
    {
        IndexStatusResponse {
            indexed: stats.indexed,
            total_chunks: stats.total_chunks,
            total_files: stats.total_files,
            model: String::from_str(model.short_name()),
            dimensions: stats.dimensions,
            db_path,
        }
    }
}

} // verus!
