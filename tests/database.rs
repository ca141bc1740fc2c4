use demongrep::database::{database_type_for, CombinedStats, Database, DatabaseManagerBuilder, DatabaseType, DbMetadata};
use demongrep::error::DemongrepError;
use demongrep::filemeta::IndexCatalog;
use demongrep::model::ModelType;

fn meta(model: &str, dims: u32) -> DbMetadata {
    DbMetadata {
        model_id: model.to_string(),
        model_display_name: String::new(),
        dimensions: dims,
        created_at: 0,
        last_full_index_at: 0,
    }
}

#[test]
fn test_database_type() {
    assert_eq!(DatabaseType::Local.name(), "Local");
    assert_eq!(DatabaseType::Global.name(), "Global");
}

#[test]
fn test_combined_stats_default() {
    let stats = CombinedStats::default();
    assert_eq!(stats.total_chunks, 0);
    assert_eq!(stats.total_files, 0);
}

#[test]
fn type_follows_last_path_component() {
    assert_eq!(database_type_for("/home/me/proj/.demongrep.db"), DatabaseType::Local);
    assert_eq!(database_type_for(".demongrep.db"), DatabaseType::Local);
    assert_eq!(database_type_for("/home/me/.demongrep/stores/1234"), DatabaseType::Global);
    assert_eq!(database_type_for("/x/.demongrep.db/sub"), DatabaseType::Global);
}

#[test]
fn combined_stats_sum_by_kind() {
    let mut local = IndexCatalog::new("jina-code".to_string(), 768);
    local.update_file("/p/a.rs".to_string(), 1, vec![1], 3);
    let mut global = IndexCatalog::new("jina-code".to_string(), 768);
    global.update_file("/q/b.rs".to_string(), 1, vec![2], 2);
    global.update_file("/q/c.rs".to_string(), 1, vec![3], 1);
    let m = DatabaseManagerBuilder::new()
        .add_database("/p/.demongrep.db".to_string(), local, meta("jina-code", 384))
        .add_database("/home/u/global".to_string(), global, meta("jina-code", 384))
        .build(None)
        .ok()
        .unwrap();
    let s = m.combined_stats();
    assert_eq!(s.total_chunks, 6);
    assert_eq!(s.total_files, 3);
    assert_eq!((s.local_chunks, s.local_files), (3, 1));
    assert_eq!((s.global_chunks, s.global_files), (3, 2));
    assert!(s.indexed);
    assert_eq!(s.dimensions, 768);
    assert!(m.has_local() && m.has_global());
    assert_eq!(m.database_count(), 2);
    assert_eq!(m.database_paths(), vec!["/p/.demongrep.db".to_string(), "/home/u/global".to_string()]);
    assert_eq!(m.local_database().unwrap().path, "/p/.demongrep.db");
    assert_eq!(m.model_type(), ModelType::JinaEmbeddingsV2BaseCode);
    assert_eq!(m.dimensions(), 384);
}

#[test]
fn build_without_databases_fails() {
    let r = DatabaseManagerBuilder::new().with_model_type(ModelType::BGESmallENV15Q).build(None);
    match r {
        Err(e) => {
            assert!(matches!(e, DemongrepError::NoDatabases));
            assert_eq!(e.message(), "No databases available for search");
        }
        Ok(_) => panic!("expected an error"),
    }
}

#[test]
fn build_takes_metadata_unless_both_set() {
    let c = IndexCatalog::new("m".to_string(), 4);
    let m = DatabaseManagerBuilder::new()
        .add_database("/g".to_string(), c, meta("bge-small-q", 384))
        .with_model_type(ModelType::MxbaiEmbedLargeV1)
        .build(Some((ModelType::BGESmallENV15Q, 384)))
        .ok()
        .unwrap();
    assert_eq!(m.model_type(), ModelType::BGESmallENV15Q);
    assert!(!m.has_local());
    let c2 = IndexCatalog::new("m".to_string(), 4);
    let m2 = DatabaseManagerBuilder::new()
        .add_database("/g".to_string(), c2, meta("mxbai-large", 1024))
        .with_model_type(ModelType::MxbaiEmbedLargeV1)
        .with_dimensions(1024)
        .build(Some((ModelType::BGESmallENV15Q, 384)))
        .ok()
        .unwrap();
    assert_eq!((m2.model_type(), m2.dimensions()), (ModelType::MxbaiEmbedLargeV1, 1024));
    let d = Database::new("/x".to_string(), DatabaseType::Global, IndexCatalog::new("m".to_string(), 4), &meta("m", 4), "m", 4)
        .ok()
        .unwrap();
    assert_eq!(d.stats().total_chunks, 0);
    assert!(!d.stats().indexed);
    let bad = Database::new("/x".to_string(), DatabaseType::Global, IndexCatalog::new("m".to_string(), 4), &meta("m", 4), "m", 8);
    assert!(matches!(bad, Err(DemongrepError::DatabaseError { .. })));
}

#[test]
fn build_skips_stores_of_another_model() {
    let m = DatabaseManagerBuilder::new()
        .add_database("/p/.demongrep.db".to_string(), IndexCatalog::new("a".to_string(), 4), meta("bge-small-q", 384))
        .add_database("/g".to_string(), IndexCatalog::new("b".to_string(), 4), meta("jina-code", 768))
        .with_model_type(ModelType::JinaEmbeddingsV2BaseCode)
        .with_dimensions(768)
        .build(None)
        .ok()
        .unwrap();
    assert_eq!(m.database_count(), 1);
    assert!(!m.has_local());
    let none = DatabaseManagerBuilder::new()
        .add_database("/g".to_string(), IndexCatalog::new("b".to_string(), 4), meta("jina-code", 768))
        .build(None);
    assert!(matches!(none, Err(DemongrepError::DatabaseError { .. })));
}
