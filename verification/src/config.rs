//! Configuration types shared by the emitter and its sinks, and their defaults.

use crate::sink::dashboard::DashboardConfig;
use crate::sink::elasticsearch::ElasticSearchConfig;
use crate::sink::pgvector::PgvectorConfig;
use crate::sink::qdrant::QdrantConfig;
use vstd::prelude::*;

verus! {

/// Default number of unique messages generated at startup.
pub fn default_message_pool_size() -> (n: usize)
    ensures
        n == 10_000,
{
    10_000
}

/// Default number of entries per batch.
pub fn default_buffer_size() -> (n: usize)
    ensures
        n == 1000,
{
    1000
}

/// Default flush interval, in milliseconds.
pub fn default_flush_interval_ms() -> (ms: u64)
    ensures
        ms == 5000,
{
    5000
}

/// Default run length, in seconds.
pub fn default_run_duration_secs() -> (secs: u64)
    ensures
        secs == 30,
{
    30
}

/// Default embedding model.
pub fn default_embedding_model() -> (m: String)
    ensures
        m@ == "text-embedding-3-small"@,
{
    String::from_str("text-embedding-3-small")
}

/// Default embedding dimension.
pub fn default_embedding_dimensions() -> (d: u32)
    ensures
        d == 1536,
{
    1536
}

/// How the embedding service is reached and which model it uses.
#[derive(Debug)]
pub struct EmbeddingConfig {
    pub api_key: String,
    pub model: String,
    pub dimensions: u32,
}

impl EmbeddingConfig {
    /// The default model and dimension with the given API key.
    pub fn with_api_key(api_key: String) -> (c: Self)
        ensures
            c.api_key@ == api_key@,
            c.model@ == "text-embedding-3-small"@,
            c.dimensions == 1536,
    {
        EmbeddingConfig {
            api_key,
            model: default_embedding_model(),
            dimensions: default_embedding_dimensions(),
        }
    }
}

/// Which kinds of search an index or table is built for.
#[derive(Clone, Copy, Debug, PartialEq, Eq, Structural)]
pub enum IndexMode {
    /// Dense-vector similarity search only.
    Vector,
    /// Full-text keyword search only.
    Keyword,
    /// Both vector and keyword search.
    Hybrid,
}

/// Whether documents carry their embedding in this mode.
pub open spec fn mode_needs_embeddings(mode: IndexMode) -> bool {
    mode is Vector || mode is Hybrid
}

/// Whether the store keeps a keyword (full-text) index in this mode.
pub open spec fn mode_needs_keyword_index(mode: IndexMode) -> bool {
    mode is Keyword || mode is Hybrid
}

impl IndexMode {
    /// Whether documents carry their embedding: in `Vector` and `Hybrid` mode.
    pub fn needs_embeddings(&self) -> (b: bool)
        ensures
            b == mode_needs_embeddings(*self),
    {
        match self {
            IndexMode::Vector | IndexMode::Hybrid => true,
            IndexMode::Keyword => false,
        }
    }

    /// Whether a keyword index is kept: in `Keyword` and `Hybrid` mode.
    pub fn needs_keyword_index(&self) -> (b: bool)
        ensures
            b == mode_needs_keyword_index(*self),
    {
        match self {
            IndexMode::Keyword | IndexMode::Hybrid => true,
            IndexMode::Vector => false,
        }
    }
}

impl Default for IndexMode {
    /// Vector search.
    fn default() -> (m: Self)
        ensures
            m == IndexMode::Vector,
    {
        IndexMode::Vector
    }
}

/// Every mode needs embeddings, a keyword index, or both.
pub proof fn law_every_mode_indexes_something(mode: IndexMode)
    ensures
        mode_needs_embeddings(mode) || mode_needs_keyword_index(mode),
        mode_needs_embeddings(mode) && mode_needs_keyword_index(mode) <==> mode == IndexMode::Hybrid,
{
}

/// One configured destination for batches of log entries.
#[derive(Debug)]
pub enum SinkConfig {
    Stdout {},
    Qdrant(QdrantConfig),
    ElasticSearch(ElasticSearchConfig),
    Pgvector(PgvectorConfig),
    Dashboard(DashboardConfig),
}

/// The sinks used when no configuration file is given: standard output only.
pub fn default_sinks() -> (sinks: Vec<SinkConfig>)
    ensures
        sinks.len() == 1,
        sinks@[0] is Stdout,
{
    let mut sinks = Vec::new();
    sinks.push(SinkConfig::Stdout {});
    sinks
}

} // verus!
