//! A local hybrid code-search engine: the verified core.
//!
//! The modules hold the logic of the retrieval pipeline: model identities,
//! code-aware tokenization, the language adapters and line chunking, rank
//! fusion, result federation, filtering and diversification, the chunk-id
//! bookkeeping of a store and its incremental-index decisions, and the keys
//! of the embedding cache. Storage, inference and the lexical index engine
//! run around it and hand it plain values.
pub mod text;
pub mod model;
pub mod fusion;
pub mod results;
pub mod tokenizer;
pub mod catalog;
pub mod filemeta;
pub mod cachekey;
pub mod config;
pub mod error;
pub mod database;
pub mod extractor;
pub mod chunking;
pub mod bench;
pub mod watch;
pub mod pipeline;
pub mod tools;
pub mod batching;
