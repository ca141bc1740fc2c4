use demongrep::database::{DatabaseManagerBuilder, DatabaseType, DbMetadata};
use demongrep::filemeta::IndexCatalog;
use demongrep::fusion::{rrf_fusion, RankedId, DEFAULT_RRF_K};
use demongrep::model::ModelType;
use demongrep::error::DemongrepError;
use demongrep::results::{diversify, fetch_size, filter_path, search_all, search_answered, SearchHit};

fn hit(id: u32, path: &str, start: u32, end: u32, score: u32) -> SearchHit {
    SearchHit {
        chunk_id: id,
        path: path.to_string(),
        start_line: start,
        end_line: end,
        kind: "Function".to_string(),
        content: format!("fn f{}() {{}}", id),
        score,
    }
}

fn meta(model: &str, dims: u32) -> DbMetadata {
    DbMetadata {
        model_id: model.to_string(),
        model_display_name: String::new(),
        dimensions: dims,
        created_at: 0,
        last_full_index_at: 0,
    }
}

fn paths(v: &[SearchHit]) -> Vec<String> {
    v.iter().map(|h| h.path.clone()).collect()
}

#[test]
fn integration_vector_search_pagination_across_databases() {
    // Scores are order keys of the cosine similarities to the query [1, 0, 0, 0]:
    // a = 1.0, b = 0.8, c = 0.6, d = 0.0.
    let local = vec![hit(0, "a.rs", 1, 3, 1000), hit(1, "c.rs", 1, 3, 600)];
    let global = vec![hit(0, "b.rs", 1, 3, 800), hit(1, "d.rs", 1, 3, 0)];
    let mut local_store = IndexCatalog::new("jina-code".to_string(), 4);
    local_store.update_file("a.rs".to_string(), 1, vec![1], 1);
    local_store.update_file("c.rs".to_string(), 1, vec![3], 1);
    let mut global_store = IndexCatalog::new("jina-code".to_string(), 4);
    global_store.update_file("b.rs".to_string(), 1, vec![2], 1);
    global_store.update_file("d.rs".to_string(), 1, vec![4], 1);
    let manager = DatabaseManagerBuilder::new()
        .add_database("/tmp/project/.demongrep.db".to_string(), local_store, meta("jina-code", 4))
        .add_database("/home/u/.demongrep/stores/abc".to_string(), global_store, meta("jina-code", 4))
        .with_model_type(ModelType::default())
        .with_dimensions(4)
        .build(None)
        .ok()
        .unwrap();
    assert_eq!(manager.databases()[0].db_type, DatabaseType::Local);
    assert_eq!(manager.databases()[1].db_type, DatabaseType::Global);
    let page = manager.search_all(vec![Some(local), Some(global)], 2, 1).ok().unwrap();
    assert_eq!(paths(&page), vec!["b.rs".to_string(), "c.rs".to_string()]);
}

#[test]
fn pagination_is_a_slice_of_the_first_page() {
    let lists = vec![
        vec![hit(1, "a.rs", 1, 2, 90), hit(2, "c.rs", 1, 2, 50), hit(5, "e.rs", 1, 2, 10)],
        vec![hit(3, "b.rs", 1, 2, 70), hit(4, "d.rs", 1, 2, 30)],
    ];
    let full = search_all(&lists, 5, 0);
    assert_eq!(paths(&full), vec!["a.rs", "b.rs", "c.rs", "d.rs", "e.rs"]);
    let page = search_all(&lists, 2, 2);
    assert_eq!(paths(&page), paths(&full[2..4]));
    assert_eq!(search_all(&lists, 3, 4).len(), 1);
    assert_eq!(search_all(&lists, 3, 9).len(), 0);
    assert_eq!(fetch_size(2, 1), 3);
    assert_eq!(fetch_size(usize::MAX, 1), usize::MAX);
}

#[test]
fn federation_deduplicates_spans_keeping_best() {
    let lists = vec![
        vec![hit(1, "x.rs", 10, 20, 40), hit(2, "y.rs", 1, 5, 30)],
        vec![hit(7, "x.rs", 10, 20, 95)],
    ];
    let r = search_all(&lists, 10, 0);
    assert_eq!(r.len(), 2);
    assert_eq!(r[0].chunk_id, 7);
    assert_eq!(r[0].score, 95);
    assert_eq!(r[1].path, "y.rs");
}

#[test]
fn federation_breaks_ties_by_place() {
    let lists = vec![vec![hit(1, "p.rs", 1, 1, 50)], vec![hit(2, "q.rs", 1, 1, 50)]];
    let r = search_all(&lists, 10, 0);
    assert_eq!(paths(&r), vec!["p.rs", "q.rs"]);
}

#[test]
fn rrf_scores_items_in_both_lists_exactly() {
    let v = vec![RankedId { chunk_id: 10, score: 9 }, RankedId { chunk_id: 11, score: 8 }];
    let f = vec![RankedId { chunk_id: 11, score: 5 }, RankedId { chunk_id: 12, score: 4 }];
    let r = rrf_fusion(&v, &f, DEFAULT_RRF_K);
    assert_eq!(r.len(), 3);
    // 11 is at rank 2 in V and rank 1 in F: 1/22 + 1/21 = 43/462.
    assert_eq!(r[0].chunk_id, 11);
    assert_eq!((r[0].rrf_num, r[0].rrf_den), (43, 462));
    assert_eq!(r[0].vector_rank, Some(2));
    assert_eq!(r[0].fts_rank, Some(1));
    // 10 (1/21, with a vector score) comes before 12 (1/22).
    assert_eq!(r[1].chunk_id, 10);
    assert_eq!((r[1].rrf_num, r[1].rrf_den), (1, 21));
    assert_eq!(r[2].chunk_id, 12);
    assert_eq!((r[2].rrf_num, r[2].rrf_den), (1, 22));
    assert_eq!(r[2].vector_score, None);
    assert_eq!(r[2].fts_score, Some(4));
}

#[test]
fn rrf_is_symmetric_in_scores() {
    let v = vec![RankedId { chunk_id: 1, score: 3 }, RankedId { chunk_id: 2, score: 2 }, RankedId { chunk_id: 3, score: 1 }];
    let f = vec![RankedId { chunk_id: 3, score: 7 }, RankedId { chunk_id: 4, score: 6 }];
    let a = rrf_fusion(&v, &f, 20);
    let b = rrf_fusion(&f, &v, 20);
    assert_eq!(a.len(), b.len());
    for x in &a {
        let y = b.iter().find(|y| y.chunk_id == x.chunk_id).unwrap();
        assert_eq!(x.rrf_num * y.rrf_den, y.rrf_num * x.rrf_den);
    }
}

#[test]
fn rrf_ties_break_by_vector_score_then_id() {
    let v = vec![RankedId { chunk_id: 5, score: 1 }];
    let f = vec![RankedId { chunk_id: 4, score: 1 }];
    let r = rrf_fusion(&v, &f, 0);
    assert_eq!(r[0].chunk_id, 5);
    let empty: Vec<RankedId> = Vec::new();
    assert!(rrf_fusion(&empty, &empty, 20).is_empty());
}

#[test]
fn diversify_caps_hits_per_file_in_order() {
    let hits = vec![
        hit(1, "a.rs", 1, 2, 9),
        hit(2, "a.rs", 3, 4, 8),
        hit(3, "b.rs", 1, 2, 7),
        hit(4, "a.rs", 5, 6, 6),
        hit(5, "b.rs", 3, 4, 5),
    ];
    let r = diversify(&hits, 1);
    assert_eq!(r.iter().map(|h| h.chunk_id).collect::<Vec<_>>(), vec![1, 3]);
    let r2 = diversify(&hits, 2);
    assert_eq!(r2.iter().map(|h| h.chunk_id).collect::<Vec<_>>(), vec![1, 2, 3, 5]);
    assert!(diversify(&hits, 0).is_empty());
}

#[test]
fn filter_path_keeps_prefix_matches() {
    let hits = vec![hit(1, "src/cache.rs", 1, 2, 9), hit(2, "tests/x.rs", 1, 2, 8), hit(3, "src/db.rs", 1, 2, 7)];
    let r = filter_path(&hits, "src/");
    assert_eq!(r.iter().map(|h| h.chunk_id).collect::<Vec<_>>(), vec![1, 3]);
    assert_eq!(filter_path(&hits, "").len(), 3);
}

#[test]
fn failing_store_is_skipped() {
    let ok = search_answered(vec![None, Some(vec![hit(1, "a.rs", 1, 1, 5)])], 10, 0).ok().unwrap();
    assert_eq!(paths(&ok), vec!["a.rs"]);
    assert!(matches!(search_answered(vec![None, None], 10, 0), Err(DemongrepError::SearchError { .. })));
    assert!(matches!(search_answered(vec![], 10, 0), Err(DemongrepError::NoDatabases)));
    let empty = search_answered(vec![Some(vec![])], 10, 0).ok().unwrap();
    assert!(empty.is_empty());
}

#[test]
fn manager_skips_failed_stores_and_dead_chunks() {
    let mut a = IndexCatalog::new("jina-code".to_string(), 4);
    a.update_file("a.rs".to_string(), 1, vec![1], 2);
    a.remove_file("a.rs");
    a.update_file("a.rs".to_string(), 2, vec![9], 1);
    let b = IndexCatalog::new("jina-code".to_string(), 4);
    let m = DatabaseManagerBuilder::new()
        .add_database("/p/.demongrep.db".to_string(), a, meta("jina-code", 4))
        .add_database("/g".to_string(), b, meta("jina-code", 4))
        .with_model_type(ModelType::default())
        .with_dimensions(4)
        .build(None)
        .ok()
        .unwrap();
    // Ids 0 and 1 were deleted from the first store; id 2 is live there.
    let hits = vec![hit(0, "a.rs", 1, 1, 9), hit(2, "a.rs", 2, 2, 8), hit(1, "a.rs", 3, 3, 7)];
    let r = m.search_all(vec![Some(hits), None], 10, 0).ok().unwrap();
    assert_eq!(r.iter().map(|h| h.chunk_id).collect::<Vec<_>>(), vec![2]);
    assert!(matches!(m.search_all(vec![None, None], 10, 0), Err(DemongrepError::SearchError { .. })));
}
