//! Elasticsearch sink: configuration and the index that it creates.

use super::{DEFAULT_INDEX_NAME, DENSE_EMBEDDING_NAME};
use crate::text::{decimal, decimal_string};
use vstd::prelude::*;

verus! {

/// Default index name.
pub fn default_index_name() -> (name: String)
    ensures
        name@ == DEFAULT_INDEX_NAME@,
{
    String::from_str(DEFAULT_INDEX_NAME)
}

/// Where the cluster is and which index receives the entries.
#[derive(Debug)]
pub struct ElasticSearchConfig {
    pub url: String,
    pub user: String,
    pub password: String,
    pub index_name: String,
}

/// The index definition: typed fields for the entry and an HNSW-indexed dense
/// vector of dimension `dim` for the embedding, as compact JSON.
pub open spec fn index_body(dim: nat) -> Seq<char> {
    "{\"mappings\":{\"properties\":{\"timestamp\":{\"type\":\"date\"},\"service\":{\"type\":\"keyword\"},\"level\":{\"type\":\"keyword\"},\"message\":{\"type\":\"text\"},\""@
        + DENSE_EMBEDDING_NAME@
        + "\":{\"type\":\"dense_vector\",\"dims\":"@
        + decimal(dim)
        + ",\"index\":true,\"index_options\":{\"type\":\"hnsw\"}}}}}"@
}

/// Builds the index definition for embeddings of dimension `dim`.
pub fn build_index_body(dim: usize) -> (body: String)
    ensures
        body@ == index_body(dim as nat),
{
    let mut body = String::from_str(
        "{\"mappings\":{\"properties\":{\"timestamp\":{\"type\":\"date\"},\"service\":{\"type\":\"keyword\"},\"level\":{\"type\":\"keyword\"},\"message\":{\"type\":\"text\"},\"",
    );
    body.append(DENSE_EMBEDDING_NAME);
    body.append("\":{\"type\":\"dense_vector\",\"dims\":");
    let digits = decimal_string(dim as u64);
    body.append(digits.as_str());
    body.append(",\"index\":true,\"index_options\":{\"type\":\"hnsw\"}}}}}");
    body
}

/// The index to create at startup: the definition when the index does not
/// exist yet, nothing when it does.
pub fn index_to_create(dim: usize, index_exists: bool) -> (body: Option<String>)
    ensures
        index_exists ==> body is None,
        !index_exists ==> (body matches Some(b) && b@ == index_body(dim as nat)),
{
    if index_exists {
        None
    } else {
        Some(build_index_body(dim))
    }
}

} // verus!
