//! The closed set of errors the core reports.
use vstd::prelude::*;
use crate::text::concat_str;

verus! {

/// An error of the search engine.
pub enum DemongrepError {
    /// The embedding model could not be loaded.
    ModelLoadError { model: String, message: String },
    /// Inference failed.
    EmbeddingError { message: String },
    /// No store at the path.
    DatabaseNotFound { path: String },
    /// A store could not be read or written.
    DatabaseError { message: String },
    /// A query could not be answered.
    SearchError { reason: String },
    /// There is no store to search.
    NoDatabases,
    /// A file could not be chunked.
    ChunkingError { path: String, message: String },
    /// The configuration is invalid.
    ConfigError { details: String },
    /// A lock was poisoned.
    LockError { context: String },
    /// Reranking failed.
    RerankError { message: String },
    /// An I/O error.
    Io { message: String },
    /// Any other failure.
    Other { message: String },
}

/// The message of an error.
pub open spec fn error_message(e: DemongrepError) -> Seq<char> {
    match e {
        DemongrepError::ModelLoadError { model, message } => "Failed to load embedding model '"@ + model@ + "': "@ + message@,
        DemongrepError::EmbeddingError { message } => "Embedding failed: "@ + message@,
        DemongrepError::DatabaseNotFound { path } => "Database not found: "@ + path@,
        DemongrepError::DatabaseError { message } => "Database error: "@ + message@,
        DemongrepError::SearchError { reason } => "Search failed: "@ + reason@,
        DemongrepError::NoDatabases => "No databases available for search"@,
        DemongrepError::ChunkingError { path, message } => "Chunking failed for "@ + path@ + ": "@ + message@,
        DemongrepError::ConfigError { details } => "Invalid configuration: "@ + details@,
        DemongrepError::LockError { context } => "Mutex lock failed (poisoned): "@ + context@,
        DemongrepError::RerankError { message } => "Reranking failed: "@ + message@,
        DemongrepError::Io { message } => message@,
        DemongrepError::Other { message } => message@,
    }
}

impl DemongrepError {
    /// The human-readable message.
    pub fn message(&self) -> (r: String)
        ensures
            r@ == error_message(*self),
    {
        match self {
            DemongrepError::ModelLoadError { model, message } => {
                let a = concat_str("Failed to load embedding model '", model.as_str());
                let b = a.concat("': ");
                b.concat(message.as_str())
            },
            DemongrepError::EmbeddingError { message } => concat_str("Embedding failed: ", message.as_str()),
            DemongrepError::DatabaseNotFound { path } => concat_str("Database not found: ", path.as_str()),
            DemongrepError::DatabaseError { message } => concat_str("Database error: ", message.as_str()),
            DemongrepError::SearchError { reason } => concat_str("Search failed: ", reason.as_str()),
            DemongrepError::NoDatabases => String::from_str("No databases available for search"),
            DemongrepError::ChunkingError { path, message } => {
                let a = concat_str("Chunking failed for ", path.as_str());
                let b = a.concat(": ");
                b.concat(message.as_str())
            },
            DemongrepError::ConfigError { details } => concat_str("Invalid configuration: ", details.as_str()),
            DemongrepError::LockError { context } => concat_str("Mutex lock failed (poisoned): ", context.as_str()),
            DemongrepError::RerankError { message } => concat_str("Reranking failed: ", message.as_str()),
            DemongrepError::Io { message } => message.clone(),
            DemongrepError::Other { message } => message.clone(),
        }
    }
}

} // verus!
