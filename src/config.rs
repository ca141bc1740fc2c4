//! Configuration sections and their defaults.
use vstd::prelude::*;

verus! {

/// Embedding settings.
pub struct EmbeddingConfig {
    /// Model short name.
    pub model: String,
    /// Texts per inference batch.
    pub batch_size: usize,
    /// In-memory cache cap in MB.
    pub cache_size_mb: usize,
}

impl Default for EmbeddingConfig {
    fn default() -> (r: EmbeddingConfig)
        ensures
            r.model@ == "mxbai-embed-xsmall-v1"@,
            r.batch_size == 32,
            r.cache_size_mb == 512,
    {
        EmbeddingConfig { model: String::from_str("mxbai-embed-xsmall-v1"), batch_size: 32, cache_size_mb: 512 }
    }
}

/// Chunk size policy.
pub struct ChunkingConfig {
    /// Largest chunk, in lines.
    pub max_lines: usize,
    /// Largest chunk, in characters.
    pub max_chars: usize,
    /// Lines shared by consecutive sub-chunks.
    pub overlap_lines: usize,
    /// Lines of surrounding context kept with a chunk.
    pub context_lines: usize,
}

impl Default for ChunkingConfig {
    fn default() -> (r: ChunkingConfig)
        ensures
            r.max_lines == 75,
            r.max_chars == 2000,
            r.overlap_lines == 10,
            r.context_lines == 3,
    {
        ChunkingConfig { max_lines: 75, max_chars: 2000, overlap_lines: 10, context_lines: 3 }
    }
}

/// Store size settings.
pub struct DatabaseConfig {
    /// Soft cap over the store files, in GB.
    pub max_size_gb: usize,
}

impl Default for DatabaseConfig {
    fn default() -> (r: DatabaseConfig)
        ensures
            r.max_size_gb == 10,
    {
        DatabaseConfig { max_size_gb: 10 }
    }
}

/// Server settings.
pub struct ServerConfig {
    /// Port of the server.
    pub port: u16,
    /// Debounce of file-change events, in milliseconds.
    pub debounce_ms: u64,
}

impl Default for ServerConfig {
    fn default() -> (r: ServerConfig)
        ensures
            r.port == 4444,
            r.debounce_ms == 300,
    {
        ServerConfig { port: 4444, debounce_ms: 300 }
    }
}

/// Inference batch size for a model width: 256 up to 384 dimensions, 128
/// up to 768, 64 above; an explicit override wins.
pub fn batch_size_for(dimensions: usize, override_size: Option<usize>) -> (r: usize)
    ensures
        r == match override_size {
            Some(n) => n as int,
            None => if dimensions <= 384 { 256 } else if dimensions <= 768 { 128 } else { 64 },
        },
{
    match override_size {
        Some(n) => n,
        None => if dimensions <= 384 { 256 } else if dimensions <= 768 { 128 } else { 64 },
    }
}

} // verus!
