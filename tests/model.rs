use demongrep::model::ModelType;

#[test]
fn test_model_type_dimensions() {
    assert_eq!(ModelType::BGESmallENV15Q.dimensions(), 384);
    assert_eq!(ModelType::AllMiniLML6V2Q.dimensions(), 384);
    assert_eq!(ModelType::MxbaiEmbedXSmallV1.dimensions(), 384);
    assert_eq!(ModelType::JinaEmbeddingsV2BaseCode.dimensions(), 768);
    assert_eq!(ModelType::MxbaiEmbedLargeV1.dimensions(), 1024);
}

#[test]
fn test_model_type_names() {
    assert_eq!(ModelType::BGESmallENV15Q.name(), "BAAI/bge-small-en-v1.5 (quantized)");
    assert_eq!(
        ModelType::AllMiniLML6V2Q.name(),
        "sentence-transformers/all-MiniLM-L6-v2 (quantized)"
    );
}

#[test]
fn test_default_model() {
    let model = ModelType::default();
    assert_eq!(model, ModelType::JinaEmbeddingsV2BaseCode);
    assert_eq!(model.dimensions(), 768);
}

#[test]
fn test_all_models() {
    let all = ModelType::all();
    assert_eq!(all.len(), 5);
}

#[test]
fn test_from_str() {
    assert_eq!(ModelType::from_str("bge-small"), Some(ModelType::BGESmallENV15Q));
    assert_eq!(ModelType::from_str("jina-code"), Some(ModelType::JinaEmbeddingsV2BaseCode));
    assert_eq!(ModelType::from_str("minilm-l6-q"), Some(ModelType::AllMiniLML6V2Q));
    assert_eq!(ModelType::from_str("e5-multilingual"), Some(ModelType::BGESmallENV15Q));
    assert_eq!(ModelType::from_str("mxbai-large"), Some(ModelType::MxbaiEmbedLargeV1));
    assert_eq!(ModelType::from_str("mxbai-xsmall"), Some(ModelType::MxbaiEmbedXSmallV1));
    assert_eq!(ModelType::from_str("unknown"), None);
}

#[test]
fn test_is_quantized() {
    assert!(ModelType::AllMiniLML6V2Q.is_quantized());
    assert!(ModelType::BGESmallENV15Q.is_quantized());
    assert!(!ModelType::JinaEmbeddingsV2BaseCode.is_quantized());
    assert!(!ModelType::MxbaiEmbedLargeV1.is_quantized());
    assert!(!ModelType::MxbaiEmbedXSmallV1.is_quantized());
}

#[test]
fn test_model_specific_formatting() {
    let query = "find auth";
    let passage = "Code:\nfn auth() {}";

    let bge_query = ModelType::BGESmallENV15Q.format_query(query);
    assert!(bge_query.starts_with("Represent this sentence for searching relevant code: "));
    assert_eq!(ModelType::BGESmallENV15Q.format_passage(passage), passage);

    let mxbai_query = ModelType::MxbaiEmbedLargeV1.format_query(query);
    assert!(mxbai_query.starts_with("Represent this sentence for searching relevant passages: "));
    assert_eq!(ModelType::MxbaiEmbedLargeV1.format_passage(passage), passage);
    let mxbai_xs_query = ModelType::MxbaiEmbedXSmallV1.format_query(query);
    assert!(mxbai_xs_query.starts_with("Represent this sentence for searching relevant passages: "));
    assert_eq!(ModelType::MxbaiEmbedXSmallV1.format_passage(passage), passage);

    assert_eq!(ModelType::AllMiniLML6V2Q.format_query(query), query);
    assert_eq!(ModelType::AllMiniLML6V2Q.format_passage(passage), passage);
}

#[test]
fn from_str_ignores_case_and_maps_aliases() {
    assert_eq!(ModelType::from_str("BGE-Small"), Some(ModelType::BGESmallENV15Q));
    assert_eq!(ModelType::from_str("NOMIC-V1.5"), Some(ModelType::JinaEmbeddingsV2BaseCode));
    assert_eq!(ModelType::from_str("Mixedbread-AI/mxbai-embed-xsmall-v1"), Some(ModelType::MxbaiEmbedXSmallV1));
    assert_eq!(ModelType::from_str(""), None);
}

#[test]
fn format_query_prefix_exact() {
    assert_eq!(
        ModelType::BGESmallENV15Q.format_query("q"),
        "Represent this sentence for searching relevant code: q"
    );
    assert_eq!(ModelType::JinaEmbeddingsV2BaseCode.format_query("q"), "q");
    assert!(!ModelType::MxbaiEmbedLargeV1.has_special_passage_format());
}

#[test]
fn short_names_round_trip() {
    for m in ModelType::all() {
        assert_eq!(ModelType::from_str(m.short_name()), Some(m));
    }
}

#[test]
fn code_mode_embeds_the_query_as_a_passage() {
    assert_eq!(ModelType::BGESmallENV15Q.format_search_text("fn a()", true), "fn a()");
    assert_eq!(
        ModelType::BGESmallENV15Q.format_search_text("fn a()", false),
        "Represent this sentence for searching relevant code: fn a()"
    );
}
