use demongrep::results::SearchHit;
use demongrep::database::StoreStats;
use demongrep::model::ModelType;
use demongrep::tools::{GetFileChunksRequest, IndexStatusResponse, SemanticSearchRequest};

#[test]
fn semantic_search_limit_defaults_to_ten() {
    let r = SemanticSearchRequest { query: "q".to_string(), limit: None };
    assert_eq!(r.effective_limit(), 10);
    let r = SemanticSearchRequest { query: "q".to_string(), limit: Some(3) };
    assert_eq!(r.effective_limit(), 3);
}

#[test]
fn file_chunks_path_matching() {
    let req = GetFileChunksRequest { path: "./src/main.rs".to_string() };
    assert!(req.matches_path("src/main.rs"));
    assert!(req.matches_path("././src/main.rs"));
    assert!(!req.matches_path("src/lib.rs"));
}

#[test]
fn index_status_values() {
    let m = IndexStatusResponse::missing("/p/.demongrep.db".to_string());
    assert!(!m.indexed);
    assert_eq!(m.model, "none");
    let s = StoreStats { total_chunks: 12, total_files: 3, dimensions: 768, indexed: true };
    let r = IndexStatusResponse::from_stats(s, ModelType::JinaEmbeddingsV2BaseCode, "/p/.demongrep.db".to_string());
    assert_eq!((r.total_chunks, r.total_files, r.dimensions), (12, 3, 768));
    assert_eq!(r.model, "jina-code");
    assert!(r.indexed);
}

#[test]
fn file_chunks_are_selected_and_ordered_by_line() {
    let hit = |id: u32, path: &str, start: u32| SearchHit {
        chunk_id: id,
        path: path.to_string(),
        start_line: start,
        end_line: start + 1,
        kind: "Function".to_string(),
        content: String::new(),
        score: 0,
    };
    let hits = vec![hit(1, "src/a.rs", 30), hit(2, "src/b.rs", 1), hit(3, "./src/a.rs", 5), hit(4, "src/a.rs", 5)];
    let req = GetFileChunksRequest { path: "src/a.rs".to_string() };
    let ids: Vec<u32> = req.file_chunks(&hits).iter().map(|h| h.chunk_id).collect();
    assert_eq!(ids, vec![3, 4, 1]);
}
