//! Federation of a project's local store and its global store.
use vstd::prelude::*;
use crate::filemeta::IndexCatalog;
use crate::model::{ModelType, spec_short_name};
use crate::error::DemongrepError;
use crate::results::{SearchHit, HitView, views, flat, federated_page};
use crate::catalog::live_hits;
use crate::text::{str_equal, concat_str};

verus! {

/// Where a store lives.
#[derive(Debug, Clone, Copy, PartialEq, Eq, Structural)]
pub enum DatabaseType {
    /// In the project directory.
    Local,
    /// In the user's home directory.
    Global,
}

impl DatabaseType {
    /// Display name of the store kind.
    pub fn name(&self) -> (r: &'static str)
        ensures
            r@ == (match *self {
                DatabaseType::Local => "Local"@,
                DatabaseType::Global => "Global"@,
            }),
    {
        match self {
            DatabaseType::Local => "Local",
            DatabaseType::Global => "Global",
        }
    }
}

/// Name of the directory of a project's local store.
pub const LOCAL_DB_DIR: &'static str = ".demongrep.db";

/// The last component of a `/`-separated path.
pub open spec fn last_component(p: Seq<char>) -> Seq<char>
    decreases p.len(),
{
    if p.len() == 0 {
        Seq::empty()
    } else if p.last() == '/' {
        Seq::empty()
    } else {
        last_component(p.drop_last()).push(p.last())
    }
}

/// The kind of store that lives at a path: local when its last component
/// is the local store directory.
pub open spec fn type_for_path(p: Seq<char>) -> DatabaseType {
    if last_component(p) == ".demongrep.db"@ { DatabaseType::Local } else { DatabaseType::Global }
}

/// The kind of store that lives at `path`.
pub fn database_type_for(path: &str) -> (r: DatabaseType)
    ensures
        r == type_for_path(path@),
{
    let n = path.unicode_len();
    let mut start: usize = n;
    proof {
        assert(path@.subrange(0, n as int) =~= path@);
        assert(path@.subrange(n as int, n as int) =~= Seq::<char>::empty());
        assert(last_component(path@) =~= last_component(path@.subrange(0, n as int)) + path@.subrange(n as int, n as int));
    }
    while start > 0 && path.get_char(start - 1) != '/'
        invariant
            n == path@.len(),
            start <= n,
            forall|j: int| start <= j < n ==> path@[j] != '/',
            last_component(path@) == last_component(path@.subrange(0, start as int)) + path@.subrange(start as int, n as int),
        decreases start,
    {
        proof {
            let q = path@.subrange(0, start as int);
            assert(q.drop_last() =~= path@.subrange(0, start - 1));
            assert(path@.subrange(start - 1, n as int) =~= seq![q.last()] + path@.subrange(start as int, n as int));
        }
        start = start - 1;
    }
    proof {
        let q = path@.subrange(0, start as int);
        if start > 0 {
            assert(q.last() == '/');
        } else {
            assert(q.len() == 0);
        }
        assert(last_component(q) =~= Seq::<char>::empty());
        assert(last_component(path@) =~= path@.subrange(start as int, n as int));
    }
    let tail = path.substring_char(start, n);
    if str_equal(tail, LOCAL_DB_DIR) {
        DatabaseType::Local
    } else {
        DatabaseType::Global
    }
}

/// Counts of one store.
#[derive(Debug, Clone, Copy, PartialEq, Eq, Structural)]
pub struct StoreStats {
    pub total_chunks: usize,
    pub total_files: usize,
    pub dimensions: usize,
    pub indexed: bool,
}

/// A store together with where it lives.
pub struct Database {
    pub path: String,
    pub db_type: DatabaseType,
    pub store: IndexCatalog,
}

impl Database {
    /// Wraps an opened store, after checking that it was built with the
    /// model `model_id` at `dimensions`: a store built otherwise is a hard
    /// error.
    pub fn new(
        path: String,
        db_type: DatabaseType,
        store: IndexCatalog,
        metadata: &DbMetadata,
        model_id: &str,
        dimensions: usize,
    ) -> (r: Result<Database, DemongrepError>)
        ensures
            r is Ok <==> compatible(*metadata, model_id@, dimensions),
            r matches Ok(db) ==> db == (Database { path, db_type, store }),
            r matches Err(e) ==> e matches DemongrepError::DatabaseError { message }
                && message@ == mismatch_message(metadata.model_id@, model_id@),
    {
        match metadata.check_compatible(model_id, dimensions, false) {
            Ok(()) => Ok(Database { path, db_type, store }),
            Err(e) => Err(e),
        }
    }

    /// The store.
    pub open spec fn store_view(&self) -> IndexCatalog {
        self.store
    }

    /// The store.
    pub fn store(&self) -> (r: &IndexCatalog)
        ensures
            *r == self.store_view(),
    {
        &self.store
    }

    /// The store, for writing.
    pub fn store_mut(&mut self) -> (r: &mut IndexCatalog)
        ensures
            *r == old(self).store_view(),
            final(self).store_view() == *final(r),
            final(self).path == old(self).path,
            final(self).db_type == old(self).db_type,
    {
        &mut self.store
    }

    /// Counts of the store: its live chunks and its files; it counts as
    /// indexed when it holds a chunk.
    pub fn stats(&self) -> (r: StoreStats)
        ensures
            r == spec_stats(self.store_view()),
    {
        StoreStats {
            total_chunks: self.store.vectors.live.len(),
            total_files: self.store.files.len(),
            dimensions: self.store.dimensions as usize,
            indexed: self.store.vectors.live.len() > 0,
        }
    }
}

/// Counts of a store.
pub open spec fn spec_stats(c: IndexCatalog) -> StoreStats {
    StoreStats {
        total_chunks: c.vectors.live@.len() as usize,
        total_files: c.files@.len() as usize,
        dimensions: c.dimensions as usize,
        indexed: c.vectors.live@.len() > 0,
    }
}

/// Counts over all stores, and per kind of store.
#[derive(Debug, Clone, Copy, PartialEq, Eq, Structural)]
pub struct CombinedStats {
    pub total_chunks: usize,
    pub total_files: usize,
    pub local_chunks: usize,
    pub local_files: usize,
    pub global_chunks: usize,
    pub global_files: usize,
    pub indexed: bool,
    pub dimensions: usize,
}

impl Default for CombinedStats {
    fn default() -> (r: CombinedStats)
        ensures
            r == (CombinedStats {
                total_chunks: 0,
                total_files: 0,
                local_chunks: 0,
                local_files: 0,
                global_chunks: 0,
                global_files: 0,
                indexed: false,
                dimensions: 0,
            }),
    {
        CombinedStats {
            total_chunks: 0,
            total_files: 0,
            local_chunks: 0,
            local_files: 0,
            global_chunks: 0,
            global_files: 0,
            indexed: false,
            dimensions: 0,
        }
    }
}

/// Sum of the chunk counts (`chunks`) or file counts of the stores of one
/// kind (or of all, when `kind` is `None`).
pub open spec fn sum_over(dbs: Seq<Database>, kind: Option<DatabaseType>, chunks: bool) -> nat
    decreases dbs.len(),
{
    if dbs.len() == 0 {
        0
    } else {
        let d = dbs.last();
        let s = spec_stats(d.store_view());
        let add: nat = if kind is None || kind == Some(d.db_type) {
            if chunks { s.total_chunks as nat } else { s.total_files as nat }
        } else {
            0
        };
        sum_over(dbs.drop_last(), kind, chunks) + add
    }
}

/// The combined counts of a list of stores; the width is the last store's.
pub open spec fn spec_combined(dbs: Seq<Database>) -> CombinedStats {
    CombinedStats {
        total_chunks: sum_over(dbs, None, true) as usize,
        total_files: sum_over(dbs, None, false) as usize,
        local_chunks: sum_over(dbs, Some(DatabaseType::Local), true) as usize,
        local_files: sum_over(dbs, Some(DatabaseType::Local), false) as usize,
        global_chunks: sum_over(dbs, Some(DatabaseType::Global), true) as usize,
        global_files: sum_over(dbs, Some(DatabaseType::Global), false) as usize,
        indexed: exists|i: int| 0 <= i < dbs.len() && spec_stats(#[trigger] dbs[i].store_view()).indexed,
        dimensions: if dbs.len() == 0 { 0 } else { spec_stats(dbs.last().store_view()).dimensions },
    }
}

proof fn lemma_sum_monotone(dbs: Seq<Database>, k: Option<DatabaseType>, c: bool, i: int)
    requires
        0 <= i <= dbs.len(),
    ensures
        sum_over(dbs.subrange(0, i), k, c) <= sum_over(dbs, k, c),
    decreases dbs.len() - i,
{
    if i < dbs.len() {
        lemma_sum_monotone(dbs, k, c, i + 1);
        let t = dbs.subrange(0, i + 1);
        assert(t.drop_last() =~= dbs.subrange(0, i));
    } else {
        assert(dbs.subrange(0, i) =~= dbs);
    }
}

proof fn lemma_parts_below_total(dbs: Seq<Database>, c: bool)
    ensures
        sum_over(dbs, Some(DatabaseType::Local), c) <= sum_over(dbs, None, c),
        sum_over(dbs, Some(DatabaseType::Global), c) <= sum_over(dbs, None, c),
    decreases dbs.len(),
{
    if dbs.len() > 0 {
        lemma_parts_below_total(dbs.drop_last(), c);
    }
}

/// The stores of a project, searched as one.
pub struct DatabaseManager {
    databases: Vec<Database>,
    model_type: ModelType,
    dimensions: usize,
}

impl DatabaseManager {
    /// The stores, in search order.
    pub closed spec fn dbs(&self) -> Seq<Database> {
        self.databases@
    }

    /// The model of the stores.
    pub closed spec fn spec_model_type(&self) -> ModelType {
        self.model_type
    }

    /// The vector width of the stores.
    pub closed spec fn spec_dimensions(&self) -> usize {
        self.dimensions
    }

    /// The model of the stores.
    pub fn model_type(&self) -> (r: ModelType)
        ensures
            r == self.spec_model_type(),
    {
        self.model_type
    }

    /// The vector width of the stores.
    pub fn dimensions(&self) -> (r: usize)
        ensures
            r == self.spec_dimensions(),
    {
        self.dimensions
    }

    /// The store paths, in search order.
    pub fn database_paths(&self) -> (r: Vec<String>)
        ensures
            r@.len() == self.dbs().len(),
            forall|i: int| 0 <= i < r@.len() ==> (#[trigger] r@[i])@ == self.dbs()[i].path@,
    {
        let mut r: Vec<String> = Vec::new();
        let mut i: usize = 0;
        while i < self.databases.len()
            invariant
                i <= self.databases@.len(),
                r@.len() == i,
                forall|j: int| 0 <= j < i ==> (#[trigger] r@[j])@ == self.databases@[j].path@,
            decreases self.databases@.len() - i,
        {
            r.push(self.databases[i].path.clone());
            i = i + 1;
        }
        r
    }

    /// How many stores there are.
    pub fn database_count(&self) -> (r: usize)
        ensures
            r == self.dbs().len(),
    {
        self.databases.len()
    }

    /// Position of the first store of a kind.
    fn first_of(&self, kind: DatabaseType) -> (r: Option<usize>)
        ensures
            r is None <==> !(exists|i: int| 0 <= i < self.dbs().len() && (#[trigger] self.dbs()[i]).db_type == kind),
            r matches Some(i) ==> i < self.dbs().len() && self.dbs()[i as int].db_type == kind
                && forall|j: int| 0 <= j < i ==> (#[trigger] self.dbs()[j]).db_type != kind,
    {
        let mut i: usize = 0;
        while i < self.databases.len()
            invariant
                i <= self.databases@.len(),
                forall|j: int| 0 <= j < i ==> (#[trigger] self.databases@[j]).db_type != kind,
            decreases self.databases@.len() - i,
        {
            if self.databases[i].db_type == kind {
                return Some(i);
            }
            i = i + 1;
        }
        None
    }

    /// Whether a local store is among the stores.
    pub fn has_local(&self) -> (r: bool)
        ensures
            r == exists|i: int| 0 <= i < self.dbs().len() && (#[trigger] self.dbs()[i]).db_type == DatabaseType::Local,
    {
        self.first_of(DatabaseType::Local).is_some()
    }

    /// Whether a global store is among the stores.
    pub fn has_global(&self) -> (r: bool)
        ensures
            r == exists|i: int| 0 <= i < self.dbs().len() && (#[trigger] self.dbs()[i]).db_type == DatabaseType::Global,
    {
        self.first_of(DatabaseType::Global).is_some()
    }

    /// The first local store, if any.
    pub fn local_database(&self) -> (r: Option<&Database>)
        ensures
            r is None <==> !(exists|i: int| 0 <= i < self.dbs().len() && (#[trigger] self.dbs()[i]).db_type == DatabaseType::Local),
            r matches Some(d) ==> exists|i: int| 0 <= i < self.dbs().len() && *d == self.dbs()[i]
                && d.db_type == DatabaseType::Local
                && forall|j: int| 0 <= j < i ==> (#[trigger] self.dbs()[j]).db_type != DatabaseType::Local,
    {
        match self.first_of(DatabaseType::Local) {
            Some(i) => Some(&self.databases[i]),
            None => None,
        }
    }

    /// The first local store, if any, for writing; the other stores stay.
    pub fn local_database_mut(&mut self) -> (r: Option<&mut Database>)
        ensures
            r is None <==> !(exists|i: int| 0 <= i < old(self).dbs().len() && (#[trigger] old(self).dbs()[i]).db_type == DatabaseType::Local),
            r is None ==> final(self).dbs() == old(self).dbs(),
            r matches Some(d) ==> exists|i: int| 0 <= i < old(self).dbs().len() && *d == old(self).dbs()[i]
                && d.db_type == DatabaseType::Local
                && (forall|j: int| 0 <= j < i ==> (#[trigger] old(self).dbs()[j]).db_type != DatabaseType::Local)
                && final(self).dbs() == old(self).dbs().update(i, *final(d)),
            final(self).spec_model_type() == old(self).spec_model_type(),
            final(self).spec_dimensions() == old(self).spec_dimensions(),
    {
        match self.first_of(DatabaseType::Local) {
            Some(i) => Some(&mut self.databases[i]),
            None => None,
        }
    }

    /// All stores, in search order, for writing. The model and width stay.
    pub fn databases_mut(&mut self) -> (r: &mut Vec<Database>)
        ensures
            r@ == old(self).dbs(),
            final(self).dbs() == final(r)@,
            final(self).spec_model_type() == old(self).spec_model_type(),
            final(self).spec_dimensions() == old(self).spec_dimensions(),
    {
        &mut self.databases
    }

    /// All stores, in search order.
    pub fn databases(&self) -> (r: &Vec<Database>)
        ensures
            r@ == self.dbs(),
    {
        &self.databases
    }

    /// Counts summed over all stores and per kind of store.
    pub fn combined_stats(&self) -> (r: CombinedStats)
        requires
            sum_over(self.dbs(), None, true) <= usize::MAX,
            sum_over(self.dbs(), None, false) <= usize::MAX,
        ensures
            r == spec_combined(self.dbs()),
    {
        let ghost dbs = self.databases@;
        let mut st = CombinedStats::default();
        let mut i: usize = 0;
        while i < self.databases.len()
            invariant
                dbs == self.databases@,
                i <= dbs.len(),
                sum_over(dbs, None, true) <= usize::MAX,
                sum_over(dbs, None, false) <= usize::MAX,
                st.total_chunks == sum_over(dbs.subrange(0, i as int), None, true),
                st.total_files == sum_over(dbs.subrange(0, i as int), None, false),
                st.local_chunks == sum_over(dbs.subrange(0, i as int), Some(DatabaseType::Local), true),
                st.local_files == sum_over(dbs.subrange(0, i as int), Some(DatabaseType::Local), false),
                st.global_chunks == sum_over(dbs.subrange(0, i as int), Some(DatabaseType::Global), true),
                st.global_files == sum_over(dbs.subrange(0, i as int), Some(DatabaseType::Global), false),
                st.indexed == exists|j: int| 0 <= j < i && spec_stats(#[trigger] dbs[j].store_view()).indexed,
                st.dimensions == if i == 0 { 0 } else { spec_stats(dbs[i - 1].store_view()).dimensions },
            decreases dbs.len() - i,
        {
            let s = self.databases[i].stats();
            let ghost t = dbs.subrange(0, i + 1);
            proof {
                assert(t.drop_last() =~= dbs.subrange(0, i as int));
                assert(t.last() == dbs[i as int]);
                lemma_sum_monotone(dbs, None, true, i + 1);
                lemma_sum_monotone(dbs, None, false, i + 1);
                lemma_parts_below_total(t, true);
                lemma_parts_below_total(t, false);
            }
            st.total_chunks = st.total_chunks + s.total_chunks;
            st.total_files = st.total_files + s.total_files;
            st.indexed = st.indexed || s.indexed;
            st.dimensions = s.dimensions;
            match self.databases[i].db_type {
                DatabaseType::Local => {
                    st.local_chunks = st.local_chunks + s.total_chunks;
                    st.local_files = st.local_files + s.total_files;
                },
                DatabaseType::Global => {
                    st.global_chunks = st.global_chunks + s.total_chunks;
                    st.global_files = st.global_files + s.total_files;
                },
            }
            i = i + 1;
        }
        proof {
            assert(dbs.subrange(0, dbs.len() as int) =~= dbs);
        }
        st
    }

    /// Federated search: `per_store` holds, for each store in search order,
    /// the hits its search returned (each asked for `limit + offset` hits),
    /// or `None` when that search failed. Failed stores are skipped; each
    /// store's hits are kept only where their chunk is live in that store;
    /// the result is the page `[offset, offset + limit)` of the
    /// deduplicated ranking. Fails when no store answered.
    pub fn search_all(&self, per_store: Vec<Option<Vec<SearchHit>>>, limit: usize, offset: usize) -> (r: Result<
        Vec<SearchHit>,
        DemongrepError,
    >)
        requires
            per_store@.len() == self.dbs().len(),
        ensures
            r is Err <==> answered_count(per_store@) == 0,
            r matches Err(e) ==> (self.dbs().len() == 0 ==> e == DemongrepError::NoDatabases)
                && (self.dbs().len() > 0 ==> e is SearchError),
            r matches Ok(v) ==> views(v@) == federated_page(live_answered(self.dbs(), per_store@), offset as int, limit as int),
            r matches Ok(v) ==> forall|k: int| 0 <= k < v@.len() ==> from_live_store(self.dbs(), per_store@, #[trigger] v@[k]@),
    {
        let ghost ps = per_store@;
        let ghost dbs = self.databases@;
        let n = per_store.len();
        let mut lists: Vec<Vec<SearchHit>> = Vec::new();
        let mut rest = per_store;
        let mut i: usize = 0;
        while i < n
            invariant
                n == ps.len(),
                n == dbs.len(),
                dbs == self.databases@,
                i <= n,
                rest@ == ps.subrange(i as int, n as int),
                flat(lists@) == live_answered(dbs.subrange(0, i as int), ps.subrange(0, i as int)),
                lists@.len() == answered_count(ps.subrange(0, i as int)),
            decreases n - i,
        {
            let ghost r0 = rest@;
            let item = rest.remove(0);
            proof {
                assert(item == r0[0]);
                assert(rest@ =~= ps.subrange(i + 1, n as int));
                let t = ps.subrange(0, i + 1);
                let d = dbs.subrange(0, i + 1);
                assert(t.drop_last() =~= ps.subrange(0, i as int));
                assert(d.drop_last() =~= dbs.subrange(0, i as int));
                assert(t.last() == item);
                assert(d.last() == dbs[i as int]);
            }
            match item {
                Some(l) => {
                    let live = self.databases[i].store.vectors.search_live(&l);
                    let ghost l0 = lists@;
                    lists.push(live);
                    proof {
                        assert(lists@.drop_last() =~= l0);
                    }
                },
                None => {},
            }
            i = i + 1;
        }
        proof {
            assert(ps.subrange(0, n as int) =~= ps);
            assert(dbs.subrange(0, n as int) =~= dbs);
        }
        if lists.len() == 0 {
            if n == 0 {
                return Err(DemongrepError::NoDatabases);
            }
            return Err(DemongrepError::SearchError { reason: String::from_str("every store failed") });
        }
        let page = crate::results::search_all(&lists, limit, offset);
        proof {
            lemma_live_answered_from_stores(dbs, ps);
        }
        Ok(page)
    }
}

/// Hit `h` is one of the hits store `j` answered with, and its chunk is
/// live in store `j`, for some `j`.
pub open spec fn from_live_store(dbs: Seq<Database>, per_store: Seq<Option<Vec<SearchHit>>>, h: HitView) -> bool {
    exists|j: int|
        0 <= j < per_store.len() && j < dbs.len() && (#[trigger] per_store[j]) is Some && views(per_store[j]->0@).contains(h)
            && dbs[j].store.vectors.live@.contains(h.chunk_id)
}

/// Every hit kept from the stores' answers is one of a store's own hits
/// and is live in that store.
proof fn lemma_live_answered_from_stores(dbs: Seq<Database>, per_store: Seq<Option<Vec<SearchHit>>>)
    requires
        dbs.len() == per_store.len(),
    ensures
        forall|h: HitView| live_answered(dbs, per_store).contains(h) ==> #[trigger] from_live_store(dbs, per_store, h),
    decreases per_store.len(),
{
    if per_store.len() > 0 {
        let d0 = dbs.drop_last();
        let p0 = per_store.drop_last();
        lemma_live_answered_from_stores(d0, p0);
        let n = per_store.len() - 1;
        let a = live_answered(d0, p0);
        assert forall|h: HitView| live_answered(dbs, per_store).contains(h) implies #[trigger] from_live_store(dbs, per_store, h) by {
            let all = live_answered(dbs, per_store);
            let i = choose|i: int| 0 <= i < all.len() && all[i] == h;
            if i < a.len() {
                assert(a[i] == h);
                assert(a.contains(h));
                assert(from_live_store(d0, p0, h));
                let j = choose|j: int|
                    0 <= j < p0.len() && j < d0.len() && (#[trigger] p0[j]) is Some && views(p0[j]->0@).contains(h)
                        && d0[j].store.vectors.live@.contains(h.chunk_id);
                assert(per_store[j] == p0[j] && dbs[j] == d0[j]);
            } else {
                let l = per_store.last()->0;
                let f = live_hits(views(l@), dbs.last().store.vectors.live@);
                assert(per_store.last() is Some);
                assert(f[i - a.len()] == h);
                let pr = |x: HitView| dbs.last().store.vectors.live@.contains(x.chunk_id);
                assert(all == a + f);
                assert(f == views(l@).filter(pr));
                views(l@).lemma_filter_pred(pr, i - a.len());
                assert(f.contains(h));
                views(l@).lemma_filter_contains_rev(pr, h);
                assert(per_store[n] == per_store.last());
                assert(dbs[n] == dbs.last());
                assert(per_store[n] is Some && views(per_store[n]->0@).contains(h) && dbs[n].store.vectors.live@.contains(h.chunk_id));
            }
        }
    }
}

/// How many stores answered.
pub open spec fn answered_count(per_store: Seq<Option<Vec<SearchHit>>>) -> nat
    decreases per_store.len(),
{
    if per_store.len() == 0 {
        0
    } else {
        answered_count(per_store.drop_last()) + if per_store.last() is Some { 1nat } else { 0nat }
    }
}

/// The hits of the stores that answered, store after store, each store's
/// hits kept where their chunk is live in that store.
pub open spec fn live_answered(dbs: Seq<Database>, per_store: Seq<Option<Vec<SearchHit>>>) -> Seq<HitView>
    decreases per_store.len(),
{
    if per_store.len() == 0 || dbs.len() != per_store.len() {
        Seq::empty()
    } else {
        live_answered(dbs.drop_last(), per_store.drop_last()) + match per_store.last() {
            Some(l) => live_hits(views(l@), dbs.last().store.vectors.live@),
            None => Seq::empty(),
        }
    }
}

/// A store opened at a path, with the metadata it was built with.
pub struct StoreEntry {
    pub path: String,
    pub store: IndexCatalog,
    pub metadata: DbMetadata,
}

/// The stores among `entries` built with model `model_id` at `dimensions`,
/// in order, each with the kind its path gives.
pub open spec fn opened(entries: Seq<StoreEntry>, model_id: Seq<char>, dimensions: usize) -> Seq<Database>
    decreases entries.len(),
{
    if entries.len() == 0 {
        Seq::empty()
    } else {
        let e = entries.last();
        let rest = opened(entries.drop_last(), model_id, dimensions);
        if compatible(e.metadata, model_id, dimensions) {
            rest.push(Database { path: e.path, db_type: type_for_path(e.path@), store: e.store })
        } else {
            rest
        }
    }
}

/// The model and width a manager uses: those set when both are, otherwise
/// those read from the first store's metadata, or the default model at 384
/// dimensions.
pub open spec fn chosen_model(set_model: Option<ModelType>, set_dims: Option<usize>, metadata: Option<(ModelType, usize)>) -> (ModelType, usize) {
    match (set_model, set_dims) {
        (Some(mt), Some(d)) => (mt, d),
        _ => match metadata {
            Some(md) => md,
            None => (ModelType::JinaEmbeddingsV2BaseCode, 384usize),
        },
    }
}

/// Collects stores into a manager.
pub struct DatabaseManagerBuilder {
    entries: Vec<StoreEntry>,
    model_type: Option<ModelType>,
    dimensions: Option<usize>,
}

impl DatabaseManagerBuilder {
    /// The stores added so far.
    pub closed spec fn entries(&self) -> Seq<StoreEntry> {
        self.entries@
    }

    /// The model set, if any.
    pub closed spec fn spec_model_type(&self) -> Option<ModelType> {
        self.model_type
    }

    /// The width set, if any.
    pub closed spec fn spec_dimensions(&self) -> Option<usize> {
        self.dimensions
    }

    /// No stores, nothing set.
    pub fn new() -> (r: DatabaseManagerBuilder)
        ensures
            r.entries().len() == 0,
            r.spec_model_type() is None,
            r.spec_dimensions() is None,
    {
        DatabaseManagerBuilder { entries: Vec::new(), model_type: None, dimensions: None }
    }

    /// Adds the store opened at `path`, with the metadata it was built with.
    pub fn add_database(self, path: String, store: IndexCatalog, metadata: DbMetadata) -> (r: DatabaseManagerBuilder)
        ensures
            r.entries() == self.entries().push(StoreEntry { path, store, metadata }),
            r.spec_model_type() == self.spec_model_type(),
            r.spec_dimensions() == self.spec_dimensions(),
    {
        let mut b = self;
        b.entries.push(StoreEntry { path, store, metadata });
        b
    }

    /// Sets the model.
    pub fn with_model_type(self, model_type: ModelType) -> (r: DatabaseManagerBuilder)
        ensures
            r.entries() == self.entries(),
            r.spec_model_type() == Some(model_type),
            r.spec_dimensions() == self.spec_dimensions(),
    {
        let mut b = self;
        b.model_type = Some(model_type);
        b
    }

    /// Sets the vector width.
    pub fn with_dimensions(self, dimensions: usize) -> (r: DatabaseManagerBuilder)
        ensures
            r.entries() == self.entries(),
            r.spec_model_type() == self.spec_model_type(),
            r.spec_dimensions() == Some(dimensions),
    {
        let mut b = self;
        b.dimensions = Some(dimensions);
        b
    }

    /// Builds the manager over the stores built with the chosen model and
    /// width (see `chosen_model`; `metadata` is what the first store's
    /// metadata file gives); the others are skipped. Fails when no store was
    /// added, or when none of them fits.
    pub fn build(self, metadata: Option<(ModelType, usize)>) -> (r: Result<DatabaseManager, DemongrepError>)
        ensures
            ({
                let (mt, d) = chosen_model(self.spec_model_type(), self.spec_dimensions(), metadata);
                let dbs = opened(self.entries(), spec_short_name(mt), d);
                &&& r is Err <==> dbs.len() == 0
                &&& r matches Err(e) ==> (self.entries().len() == 0 ==> e == DemongrepError::NoDatabases)
                    && (self.entries().len() > 0 ==> e is DatabaseError)
                &&& r matches Ok(m) ==> m.dbs() == dbs && m.spec_model_type() == mt && m.spec_dimensions() == d
            }),
    {
        let ghost es = self.entries@;
        if self.entries.len() == 0 {
            return Err(DemongrepError::NoDatabases);
        }
        let (model_type, dimensions) = match (self.model_type, self.dimensions) {
            (Some(mt), Some(d)) => (mt, d),
            _ => match metadata {
                Some(md) => md,
                None => (ModelType::default(), 384),
            },
        };
        let model_id = model_type.short_name();
        let n = self.entries.len();
        let mut rest = self.entries;
        let mut databases: Vec<Database> = Vec::new();
        let mut i: usize = 0;
        while i < n
            invariant
                n == es.len(),
                i <= n,
                rest@ == es.subrange(i as int, n as int),
                databases@ == opened(es.subrange(0, i as int), model_id@, dimensions),
            decreases n - i,
        {
            let ghost r0 = rest@;
            let e = rest.remove(0);
            proof {
                assert(e == r0[0]);
                assert(rest@ =~= es.subrange(i + 1, n as int));
                let t = es.subrange(0, i + 1);
                assert(t.drop_last() =~= es.subrange(0, i as int));
                assert(t.last() == e);
            }
            let kind = database_type_for(e.path.as_str());
            match Database::new(e.path, kind, e.store, &e.metadata, model_id, dimensions) {
                Ok(db) => databases.push(db),
                Err(_) => {},
            }
            i = i + 1;
        }
        proof {
            assert(es.subrange(0, n as int) =~= es);
        }
        if databases.len() == 0 {
            return Err(DemongrepError::DatabaseError { message: String::from_str("Failed to load any databases") });
        }
        Ok(DatabaseManager { databases, model_type, dimensions })
    }
}

impl Default for DatabaseManagerBuilder {
    fn default() -> (r: DatabaseManagerBuilder)
        ensures
            r.entries().len() == 0,
            r.spec_model_type() is None,
            r.spec_dimensions() is None,
    {
        DatabaseManagerBuilder::new()
    }
}

/// What a store records about how it was built.
pub struct DbMetadata {
    pub model_id: String,
    pub model_display_name: String,
    pub dimensions: u32,
    pub created_at: u64,
    pub last_full_index_at: u64,
}

/// The store was built with model `model_id` at `dimensions`.
pub open spec fn compatible(m: DbMetadata, model_id: Seq<char>, dimensions: usize) -> bool {
    m.model_id@ == model_id && m.dimensions as int == dimensions as int
}

/// The message for a store built with another model or width.
pub open spec fn mismatch_message(stored: Seq<char>, expected: Seq<char>) -> Seq<char> {
    "model/dimension mismatch: store has "@ + stored + ", expected "@ + expected
}

impl DbMetadata {
    /// Opening a store for a model: fine when the store was built with the
    /// same model id and width, or when a full rebuild is asked for; a
    /// database error otherwise.
    pub fn check_compatible(&self, expected_model: &str, expected_dims: usize, rebuild: bool) -> (r: Result<(), DemongrepError>)
        ensures
            r is Ok <==> (rebuild || compatible(*self, expected_model@, expected_dims)),
            r matches Err(e) ==> e matches DemongrepError::DatabaseError { message }
                && message@ == mismatch_message(self.model_id@, expected_model@),
    {
        if rebuild || (str_equal(self.model_id.as_str(), expected_model) && self.dimensions as usize == expected_dims) {
            Ok(())
        } else {
            let a = concat_str("model/dimension mismatch: store has ", self.model_id.as_str());
            let b = a.concat(", expected ");
            Err(DemongrepError::DatabaseError { message: b.concat(expected_model) })
        }
    }
}

} // verus!
