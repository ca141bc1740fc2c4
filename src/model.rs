//! Embedding model identities and their per-model conventions.
use vstd::prelude::*;
use crate::text::{concat_str, str_equal};

verus! {

/// The embedding models the engine knows how to load.
#[derive(Debug, Clone, Copy, PartialEq, Eq, Structural)]
pub enum ModelType {
    /// Quantized all-MiniLM-L6-v2, 384 dimensions.
    AllMiniLML6V2Q,
    /// Quantized BGE small English v1.5, 384 dimensions.
    BGESmallENV15Q,
    /// Jina embeddings v2 base code, 768 dimensions.
    JinaEmbeddingsV2BaseCode,
    /// Mixedbread embed large v1, 1024 dimensions.
    MxbaiEmbedLargeV1,
    /// Mixedbread embed xsmall v1, 384 dimensions.
    MxbaiEmbedXSmallV1,
}

/// Vector width produced by each model.
pub open spec fn spec_dimensions(m: ModelType) -> nat {
    match m {
        ModelType::AllMiniLML6V2Q => 384,
        ModelType::BGESmallENV15Q => 384,
        ModelType::MxbaiEmbedXSmallV1 => 384,
        ModelType::JinaEmbeddingsV2BaseCode => 768,
        ModelType::MxbaiEmbedLargeV1 => 1024,
    }
}

/// Human-readable model name.
pub open spec fn spec_name(m: ModelType) -> Seq<char> {
    match m {
        ModelType::AllMiniLML6V2Q => "sentence-transformers/all-MiniLM-L6-v2 (quantized)"@,
        ModelType::BGESmallENV15Q => "BAAI/bge-small-en-v1.5 (quantized)"@,
        ModelType::JinaEmbeddingsV2BaseCode => "jinaai/jina-embeddings-v2-base-code"@,
        ModelType::MxbaiEmbedLargeV1 => "mixedbread-ai/mxbai-embed-large-v1"@,
        ModelType::MxbaiEmbedXSmallV1 => "mixedbread-ai/mxbai-embed-xsmall-v1"@,
    }
}

/// Short identifier of a model, used in file names and stored metadata.
pub open spec fn spec_short_name(m: ModelType) -> Seq<char> {
    match m {
        ModelType::AllMiniLML6V2Q => "minilm-l6-q"@,
        ModelType::BGESmallENV15Q => "bge-small-q"@,
        ModelType::JinaEmbeddingsV2BaseCode => "jina-code"@,
        ModelType::MxbaiEmbedLargeV1 => "mxbai-large"@,
        ModelType::MxbaiEmbedXSmallV1 => "mxbai-xsmall"@,
    }
}

/// Instruction prefix put in front of a search query for the model.
pub open spec fn query_prefix(m: ModelType) -> Seq<char> {
    match m {
        ModelType::BGESmallENV15Q => "Represent this sentence for searching relevant code: "@,
        ModelType::MxbaiEmbedLargeV1 => "Represent this sentence for searching relevant passages: "@,
        ModelType::MxbaiEmbedXSmallV1 => "Represent this sentence for searching relevant passages: "@,
        _ => Seq::empty(),
    }
}

/// The model that an already lowercased name selects, if any.
pub open spec fn model_for_name(n: Seq<char>) -> Option<ModelType> {
    if n == "minilm-l6"@ || n == "allminiml6v2"@ || n == "minilm-l6-q"@ || n == "allminiml6v2q"@ {
        Some(ModelType::AllMiniLML6V2Q)
    } else if n == "minilm-l12"@ || n == "allminiml12v2"@ || n == "minilm-l12-q"@
        || n == "allminiml12v2q"@ || n == "paraphrase-minilm"@ || n == "bge-small"@
        || n == "bgesmallenv15"@ || n == "bge-small-q"@ || n == "bgesmallenv15q"@
        || n == "e5-multilingual"@ || n == "multilinguale5small"@ {
        Some(ModelType::BGESmallENV15Q)
    } else if n == "bge-base"@ || n == "bgebaseenv15"@ || n == "bge-large"@
        || n == "bgelargeenv15"@ || n == "nomic-v1"@ || n == "nomicembedtextv1"@
        || n == "nomic-v1.5"@ || n == "nomicembedtextv15"@ || n == "nomic-v1.5-q"@
        || n == "nomicembedtextv15q"@ || n == "jina-code"@ || n == "jinaembeddingsv2basecode"@
        || n == "modernbert-large"@ || n == "modernbertembedlarge"@ {
        Some(ModelType::JinaEmbeddingsV2BaseCode)
    } else if n == "mxbai-large"@ || n == "mxbaiembedlargev1"@ {
        Some(ModelType::MxbaiEmbedLargeV1)
    } else if n == "mxbai-xsmall"@ || n == "mxbaiembedxsmallv1"@
        || n == "mixedbread-ai/mxbai-embed-xsmall-v1"@ || n == "mxbai-embed-xsmall-v1"@ {
        Some(ModelType::MxbaiEmbedXSmallV1)
    } else {
        None
    }
}

/// What `str::to_lowercase` returns for a string.
pub uninterp spec fn lowercase_of(s: Seq<char>) -> Seq<char>;

/// Relies on `str::to_lowercase`: its result depends on the characters alone.
#[verifier::external_body]
pub(crate) fn lowercase(s: &str) -> (r: String)
    ensures
        r@ == lowercase_of(s@),
{
    s.to_lowercase()
}

/// Tests the name against each alternative in turn.
fn name_is_one_of(n: &str, alts: &[&str]) -> (r: bool)
    ensures
        r == exists|i: int| 0 <= i < alts@.len() && n@ == alts@[i]@,
{
    let mut i: usize = 0;
    while i < alts.len()
        invariant
            i <= alts@.len(),
            forall|j: int| 0 <= j < i ==> n@ != alts@[j]@,
        decreases alts@.len() - i,
    {
        if str_equal(n, alts[i]) {
            return true;
        }
        i = i + 1;
    }
    false
}

impl ModelType {
    /// Vector width produced by the model.
    pub fn dimensions(&self) -> (r: usize)
        ensures
            r == spec_dimensions(*self),
    {
        match self {
            ModelType::AllMiniLML6V2Q | ModelType::BGESmallENV15Q | ModelType::MxbaiEmbedXSmallV1 => 384,
            ModelType::JinaEmbeddingsV2BaseCode => 768,
            ModelType::MxbaiEmbedLargeV1 => 1024,
        }
    }

    /// Human-readable model name.
    pub fn name(&self) -> (r: &'static str)
        ensures
            r@ == spec_name(*self),
    {
        match self {
            ModelType::AllMiniLML6V2Q => "sentence-transformers/all-MiniLM-L6-v2 (quantized)",
            ModelType::BGESmallENV15Q => "BAAI/bge-small-en-v1.5 (quantized)",
            ModelType::JinaEmbeddingsV2BaseCode => "jinaai/jina-embeddings-v2-base-code",
            ModelType::MxbaiEmbedLargeV1 => "mixedbread-ai/mxbai-embed-large-v1",
            ModelType::MxbaiEmbedXSmallV1 => "mixedbread-ai/mxbai-embed-xsmall-v1",
        }
    }

    /// Whether the model is a quantized variant.
    pub fn is_quantized(&self) -> (r: bool)
        ensures
            r == (*self == ModelType::AllMiniLML6V2Q || *self == ModelType::BGESmallENV15Q),
    {
        match self {
            ModelType::AllMiniLML6V2Q | ModelType::BGESmallENV15Q => true,
            _ => false,
        }
    }

    /// Puts the model's query instruction in front of `query`.
    pub fn format_query(&self, query: &str) -> (r: String)
        ensures
            r@ == query_prefix(*self) + query@,
    {
        match self {
            ModelType::BGESmallENV15Q => {
                concat_str("Represent this sentence for searching relevant code: ", query)
            },
            ModelType::MxbaiEmbedLargeV1 | ModelType::MxbaiEmbedXSmallV1 => {
                concat_str("Represent this sentence for searching relevant passages: ", query)
            },
            _ => {
                let r = String::from_str(query);
                proof {
                    assert(r@ =~= query_prefix(*self) + query@);
                }
                r
            },
        }
    }

    /// Passages are embedded as they are, for every model.
    pub fn format_passage(&self, passage: &str) -> (r: String)
        ensures
            r@ == passage@,
    {
        String::from_str(passage)
    }

    /// The text embedded for a search: the query in the model's query
    /// format, or, for code-to-code search, in its passage format.
    pub fn format_search_text(&self, query: &str, code_mode: bool) -> (r: String)
        ensures
            r@ == if code_mode { query@ } else { query_prefix(*self) + query@ },
    {
        if code_mode {
            self.format_passage(query)
        } else {
            self.format_query(query)
        }
    }

    /// No model applies a passage format of its own.
    pub fn has_special_passage_format(&self) -> (r: bool)
        ensures
            !r,
    {
        false
    }

    /// Short identifier of the model.
    pub fn short_name(&self) -> (r: &'static str)
        ensures
            r@ == spec_short_name(*self),
    {
        match self {
            ModelType::AllMiniLML6V2Q => "minilm-l6-q",
            ModelType::BGESmallENV15Q => "bge-small-q",
            ModelType::JinaEmbeddingsV2BaseCode => "jina-code",
            ModelType::MxbaiEmbedLargeV1 => "mxbai-large",
            ModelType::MxbaiEmbedXSmallV1 => "mxbai-xsmall",
        }
    }

    /// Every known model, each once.
    pub fn all() -> (r: Vec<ModelType>)
        ensures
            r@ == seq![
                ModelType::AllMiniLML6V2Q,
                ModelType::BGESmallENV15Q,
                ModelType::JinaEmbeddingsV2BaseCode,
                ModelType::MxbaiEmbedLargeV1,
                ModelType::MxbaiEmbedXSmallV1,
            ],
    {
        vec![
            ModelType::AllMiniLML6V2Q,
            ModelType::BGESmallENV15Q,
            ModelType::JinaEmbeddingsV2BaseCode,
            ModelType::MxbaiEmbedLargeV1,
            ModelType::MxbaiEmbedXSmallV1,
        ]
    }

    /// Selects a model by an already lowercased name.
    pub fn from_lower_name(n: &str) -> (r: Option<ModelType>)
        ensures
            r == model_for_name(n@),
    {
        if name_is_one_of(n, &["minilm-l6", "allminiml6v2", "minilm-l6-q", "allminiml6v2q"]) {
            Some(ModelType::AllMiniLML6V2Q)
        } else if name_is_one_of(
            n,
            &[
                "minilm-l12", "allminiml12v2", "minilm-l12-q", "allminiml12v2q",
                "paraphrase-minilm", "bge-small", "bgesmallenv15", "bge-small-q",
                "bgesmallenv15q", "e5-multilingual", "multilinguale5small",
            ],
        ) {
            Some(ModelType::BGESmallENV15Q)
        } else if name_is_one_of(
            n,
            &[
                "bge-base", "bgebaseenv15", "bge-large", "bgelargeenv15", "nomic-v1",
                "nomicembedtextv1", "nomic-v1.5", "nomicembedtextv15", "nomic-v1.5-q",
                "nomicembedtextv15q", "jina-code", "jinaembeddingsv2basecode",
                "modernbert-large", "modernbertembedlarge",
            ],
        ) {
            Some(ModelType::JinaEmbeddingsV2BaseCode)
        } else if name_is_one_of(n, &["mxbai-large", "mxbaiembedlargev1"]) {
            Some(ModelType::MxbaiEmbedLargeV1)
        } else if name_is_one_of(
            n,
            &[
                "mxbai-xsmall", "mxbaiembedxsmallv1", "mixedbread-ai/mxbai-embed-xsmall-v1",
                "mxbai-embed-xsmall-v1",
            ],
        ) {
            Some(ModelType::MxbaiEmbedXSmallV1)
        } else {
            None
        }
    }

    /// Selects a model by name, ignoring case.
    pub fn from_str(s: &str) -> (r: Option<ModelType>)
        ensures
            r == model_for_name(lowercase_of(s@)),
    {
        let lower = lowercase(s);
        ModelType::from_lower_name(lower.as_str())
    }
}

impl Default for ModelType {
    /// The code-specialised model.
    fn default() -> (r: ModelType)
        ensures
            r == ModelType::JinaEmbeddingsV2BaseCode,
    {
        ModelType::JinaEmbeddingsV2BaseCode
    }
}

} // verus!
