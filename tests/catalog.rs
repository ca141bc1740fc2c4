use demongrep::catalog::VectorIds;
use demongrep::filemeta::{IndexCatalog, ObservedFile};
use demongrep::results::SearchHit;

fn hit(id: u32) -> SearchHit {
    SearchHit {
        chunk_id: id,
        path: format!("f{}.rs", id),
        start_line: 1,
        end_line: 1,
        kind: "Function".to_string(),
        content: String::new(),
        score: 100 - id,
    }
}

#[test]
fn deleted_ids_are_never_returned() {
    let mut v = VectorIds::new();
    let ids = v.insert_chunks(4);
    assert_eq!(ids, vec![0, 1, 2, 3]);
    v.delete_chunks(&vec![1, 3]);
    let found = v.search_live(&vec![hit(0), hit(1), hit(2), hit(3)]);
    assert_eq!(found.iter().map(|h| h.chunk_id).collect::<Vec<_>>(), vec![0, 2]);
    let more = v.insert_chunks(2);
    assert_eq!(more, vec![4, 5]);
    assert!(!v.contains(1));
    assert!(v.contains(5));
}

#[test]
fn incremental_update_replaces_ids() {
    let mut c = IndexCatalog::new("jina-code".to_string(), 768);
    let a = c.update_file("/p/a.rs".to_string(), 10, vec![1, 2, 3], 2);
    let b = c.update_file("/p/b.rs".to_string(), 20, vec![4, 5, 6], 3);
    assert_eq!(a, vec![0, 1]);
    assert_eq!(b, vec![2, 3, 4]);
    assert_eq!(c.vectors.live.len(), 5);

    let (needs, old) = c.check_file("/p/a.rs", 10, &vec![1, 2, 3]);
    assert!(!needs);
    assert_eq!(old, vec![0, 1]);
    let (needs, _) = c.check_file("/p/a.rs", 11, &vec![1, 2, 3]);
    assert!(needs);
    let (needs, old) = c.check_file("/p/new.rs", 1, &vec![]);
    assert!(needs);
    assert!(old.is_empty());

    let a2 = c.update_file("/p/a.rs".to_string(), 11, vec![9], 1);
    assert_eq!(a2, vec![5]);
    assert!(!c.vectors.contains(0));
    assert!(!c.vectors.contains(1));
    assert!(c.vectors.contains(5));
    assert_eq!(c.files.len(), 2);
    assert_eq!(c.fts.len(), 4);
}

#[test]
fn deleted_file_leaves_no_ids() {
    let mut c = IndexCatalog::new("jina-code".to_string(), 768);
    c.update_file("/p/a.rs".to_string(), 1, vec![1], 2);
    c.update_file("/p/b.rs".to_string(), 1, vec![2], 1);
    let gone = c.find_deleted_files(&vec!["/p/a.rs".to_string()]);
    assert_eq!(gone, vec![1]);
    let removed = c.remove_file("/p/b.rs");
    assert_eq!(removed, vec![2]);
    assert_eq!(c.files.len(), 1);
    assert_eq!(c.vectors.live, vec![0, 1]);
    assert!(c.remove_file("/p/zzz.rs").is_empty());
}

#[test]
fn unchanged_tree_needs_no_reindex() {
    let mut c = IndexCatalog::new("jina-code".to_string(), 768);
    c.update_file("/p/a.rs".to_string(), 7, vec![1, 1], 1);
    c.update_file("/p/b.rs".to_string(), 8, vec![2, 2], 1);
    let observed = vec![
        ObservedFile { path: "/p/a.rs".to_string(), mtime_ns: 7, content_hash: vec![1, 1] },
        ObservedFile { path: "/p/b.rs".to_string(), mtime_ns: 8, content_hash: vec![2, 2] },
    ];
    assert_eq!(c.plan_sync(&observed), vec![false, false]);
    let changed = vec![ObservedFile { path: "/p/b.rs".to_string(), mtime_ns: 8, content_hash: vec![3] }];
    assert_eq!(c.plan_sync(&changed), vec![true]);
}

#[test]
fn model_change_forces_reindex() {
    let mut c = IndexCatalog::new("jina-code".to_string(), 768);
    c.update_file("/p/a.rs".to_string(), 7, vec![1], 1);
    let mut d = IndexCatalog::new("bge-small-q".to_string(), 384);
    d.files = c.files;
    let (needs, old) = d.check_file("/p/a.rs", 7, &vec![1]);
    assert!(needs);
    assert_eq!(old, vec![0]);
}
