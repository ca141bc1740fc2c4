use demongrep::fusion::RankedId;
use demongrep::pipeline::{apply_rerank, candidate_limit, filter_kind, finish, hybrid_rank, materialize, ResultOptions};
use demongrep::results::SearchHit;

fn hit(id: u32, path: &str, kind: &str) -> SearchHit {
    SearchHit {
        chunk_id: id,
        path: path.to_string(),
        start_line: id,
        end_line: id + 1,
        kind: kind.to_string(),
        content: String::new(),
        score: 0,
    }
}

fn ids(v: &[SearchHit]) -> Vec<u32> {
    v.iter().map(|h| h.chunk_id).collect()
}

#[test]
fn hybrid_ranks_lexical_match_first() {
    // The vector ranking puts the related struct first; the lexical ranking
    // holds only config.rs, which wins after fusion.
    let records = vec![hit(1, "other.rs", "Struct"), hit(2, "config.rs", "Struct")];
    let v = vec![RankedId { chunk_id: 1, score: 90 }, RankedId { chunk_id: 2, score: 80 }];
    let f = vec![RankedId { chunk_id: 2, score: 12 }];
    let r = hybrid_rank(&v, &f, 20, &records);
    assert_eq!(ids(&r), vec![2, 1]);
}

#[test]
fn materialize_drops_unknown_candidates() {
    let records = vec![hit(1, "a.rs", "Function"), hit(3, "c.rs", "Function")];
    let fused = demongrep::fusion::rrf_fusion(
        &vec![RankedId { chunk_id: 3, score: 5 }, RankedId { chunk_id: 2, score: 4 }, RankedId { chunk_id: 1, score: 3 }],
        &vec![],
        20,
    );
    assert_eq!(ids(&materialize(&fused, &records)), vec![3, 1]);
}

#[test]
fn kind_filter_ignores_case() {
    let hits = vec![hit(1, "a.rs", "Function"), hit(2, "b.rs", "Struct"), hit(3, "c.rs", "Method")];
    assert_eq!(ids(&filter_kind(&hits, "FUNC")), vec![1]);
    assert_eq!(ids(&filter_kind(&hits, "U")), vec![1, 2]);
    assert_eq!(ids(&filter_kind(&hits, "")), vec![1, 2, 3]);
}

#[test]
fn finish_applies_filters_diversity_and_page() {
    let hits = vec![
        hit(1, "src/a.rs", "Function"),
        hit(2, "src/a.rs", "Function"),
        hit(3, "tests/t.rs", "Function"),
        hit(4, "src/b.rs", "Struct"),
        hit(5, "src/c.rs", "Function"),
    ];
    let opts = ResultOptions {
        filter_path: Some("src/".to_string()),
        kind_filter: Some("function".to_string()),
        per_file: Some(1),
        offset: 1,
        limit: 5,
    };
    assert_eq!(ids(&finish(&hits, &opts)), vec![5]);
    let all = ResultOptions { filter_path: None, kind_filter: None, per_file: None, offset: 0, limit: 3 };
    assert_eq!(ids(&finish(&hits, &all)), vec![1, 2, 3]);
}

#[test]
fn rerank_reorders_head_and_keeps_tail() {
    let hits = vec![hit(1, "a.rs", "F"), hit(2, "b.rs", "F"), hit(3, "c.rs", "F"), hit(4, "d.rs", "F")];
    assert_eq!(ids(&apply_rerank(&hits, &vec![1, 0])), vec![2, 1, 3, 4]);
    assert_eq!(ids(&apply_rerank(&hits, &vec![2, 0, 1])), vec![3, 1, 2, 4]);
    // A failed reranker keeps the fused order.
    assert_eq!(ids(&apply_rerank(&hits, &vec![0, 0])), vec![1, 2, 3, 4]);
    assert_eq!(ids(&apply_rerank(&hits, &vec![5])), vec![1, 2, 3, 4]);
    assert_eq!(ids(&apply_rerank(&hits, &vec![])), vec![1, 2, 3, 4]);
}

#[test]
fn candidate_limit_covers_page_and_rerank() {
    assert_eq!(candidate_limit(50, 10, 5), 50);
    assert_eq!(candidate_limit(50, 40, 20), 60);
    assert_eq!(candidate_limit(0, usize::MAX, 1), usize::MAX);
}
