use demongrep::bench::{models_for_profile, select_models, BenchProfile};
use demongrep::config::{batch_size_for, ChunkingConfig, DatabaseConfig, EmbeddingConfig, ServerConfig};
use demongrep::error::DemongrepError;
use demongrep::model::ModelType;

#[test]
fn test_profile_model_selection() {
    let smoke = select_models(None, BenchProfile::Smoke).ok().unwrap();
    assert_eq!(smoke, vec![ModelType::AllMiniLML6V2Q, ModelType::BGESmallENV15Q]);

    let standard = select_models(None, BenchProfile::Standard).ok().unwrap();
    assert!(standard.contains(&ModelType::AllMiniLML6V2Q));
    assert!(standard.contains(&ModelType::JinaEmbeddingsV2BaseCode));
    assert!(standard.contains(&ModelType::BGESmallENV15Q));
    assert_eq!(standard.len(), 3);

    let full = select_models(None, BenchProfile::Full).ok().unwrap();
    assert_eq!(full.len(), ModelType::all().len());
}

#[test]
fn test_models_filter_precedence() {
    let selected = select_models(Some("minilm-l6-q,jina-code"), BenchProfile::Full).ok().unwrap();
    assert_eq!(selected, vec![ModelType::AllMiniLML6V2Q, ModelType::JinaEmbeddingsV2BaseCode]);
}

#[test]
fn test_invalid_profile() {
    let err = BenchProfile::from_str("fastest").err().unwrap().message();
    assert!(err.contains("Invalid profile"));
}

#[test]
fn profile_names_round_trip() {
    for p in [BenchProfile::Smoke, BenchProfile::Standard, BenchProfile::Full] {
        assert_eq!(BenchProfile::from_str(p.as_str()).ok(), Some(p));
    }
    assert_eq!(BenchProfile::from_str("FULL").ok(), Some(BenchProfile::Full));
    assert_eq!(models_for_profile(BenchProfile::Full), ModelType::all());
}

#[test]
fn filter_skips_unknown_and_trims() {
    let selected = select_models(Some(" bge-small , nope ,mxbai-large"), BenchProfile::Smoke).ok().unwrap();
    assert_eq!(selected, vec![ModelType::BGESmallENV15Q, ModelType::MxbaiEmbedLargeV1]);
    match select_models(Some("nope,,x"), BenchProfile::Smoke) {
        Err(DemongrepError::ConfigError { .. }) => {}
        _ => panic!("expected a configuration error"),
    }
}

#[test]
fn config_defaults() {
    let e = EmbeddingConfig::default();
    assert_eq!(e.model, "mxbai-embed-xsmall-v1");
    assert_eq!((e.batch_size, e.cache_size_mb), (32, 512));
    let c = ChunkingConfig::default();
    assert_eq!((c.max_lines, c.max_chars, c.overlap_lines, c.context_lines), (75, 2000, 10, 3));
    assert_eq!(DatabaseConfig::default().max_size_gb, 10);
    let s = ServerConfig::default();
    assert_eq!((s.port, s.debounce_ms), (4444, 300));
}

#[test]
fn batch_size_by_width() {
    assert_eq!(batch_size_for(384, None), 256);
    assert_eq!(batch_size_for(768, None), 128);
    assert_eq!(batch_size_for(1024, None), 64);
    assert_eq!(batch_size_for(1024, Some(7)), 7);
}

#[test]
fn error_messages() {
    let e = DemongrepError::DatabaseNotFound { path: "/x".to_string() };
    assert_eq!(e.message(), "Database not found: /x");
    let e = DemongrepError::ChunkingError { path: "a.rs".to_string(), message: "bad".to_string() };
    assert_eq!(e.message(), "Chunking failed for a.rs: bad");
}

#[test]
fn from_lower_name_is_exact() {
    assert_eq!(BenchProfile::from_lower_name("smoke").ok(), Some(BenchProfile::Smoke));
    assert!(BenchProfile::from_lower_name("SMOKE").is_err());
    let e = BenchProfile::from_str("Fastest").err().unwrap().message();
    assert_eq!(e, "Invalid configuration: Invalid profile 'Fastest'. Available: smoke, standard, full");
}
