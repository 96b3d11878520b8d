//! OpenSearch sink: configuration, the index that it creates, and what its
//! documents carry.

use super::{DEFAULT_INDEX_NAME, DENSE_EMBEDDING_NAME};
use crate::config::{mode_needs_embeddings, IndexMode};
use crate::text::{decimal, decimal_string};
use vstd::prelude::*;

verus! {

/// Default index name.
pub fn default_index_name() -> (name: String)
    ensures
        name@ == DEFAULT_INDEX_NAME@,
{
    String::from_str(DEFAULT_INDEX_NAME)
}

/// Certificates are validated unless the configuration says otherwise.
pub fn default_skip_cert() -> (skip: bool)
    ensures
        !skip,
{
    false
}

/// Where the cluster is, which index receives the entries, and how it is searched.
#[derive(Debug)]
pub struct OpenSearchConfig {
    pub url: String,
    pub user: String,
    pub password: String,
    pub index_name: String,
    pub index_mode: IndexMode,
    pub skip_cert: bool,
}

/// The typed fields every document has, as the members of a JSON object.
pub open spec fn base_properties() -> Seq<char> {
    "\"timestamp\":{\"type\":\"date\"},\"service\":{\"type\":\"keyword\"},\"level\":{\"type\":\"keyword\"},\"message\":{\"type\":\"text\"}"@
}

/// The k-NN vector field for embeddings of dimension `dim`, as a JSON member.
pub open spec fn vector_property(dim: nat) -> Seq<char> {
    "\""@ + DENSE_EMBEDDING_NAME@
        + "\":{\"type\":\"knn_vector\",\"dimension\":"@
        + decimal(dim)
        + ",\"method\":{\"name\":\"hnsw\",\"space_type\":\"cosinesimil\",\"engine\":\"nmslib\"}}"@
}

/// The index definition as compact JSON: k-NN enabled, the typed fields, and the
/// vector field when the mode needs embeddings.
pub open spec fn index_body(mode: IndexMode, dim: nat) -> Seq<char> {
    "{\"settings\":{\"index\":{\"knn\":true}},\"mappings\":{\"properties\":{"@
        + base_properties()
        + (if mode_needs_embeddings(mode) {
        ","@ + vector_property(dim)
    } else {
        Seq::empty()
    })
        + "}}}"@
}

/// Builds the index definition for the mode and embedding dimension.
pub fn build_index_body(mode: IndexMode, dim: usize) -> (body: String)
    ensures
        body@ == index_body(mode, dim as nat),
{
    let mut body = String::from_str("{\"settings\":{\"index\":{\"knn\":true}},\"mappings\":{\"properties\":{");
    body.append(
        "\"timestamp\":{\"type\":\"date\"},\"service\":{\"type\":\"keyword\"},\"level\":{\"type\":\"keyword\"},\"message\":{\"type\":\"text\"}",
    );
    let ghost before = body@;
    if mode.needs_embeddings() {
        body.append(",");
        body.append("\"");
        body.append(DENSE_EMBEDDING_NAME);
        body.append("\":{\"type\":\"knn_vector\",\"dimension\":");
        let digits = decimal_string(dim as u64);
        body.append(digits.as_str());
        body.append(",\"method\":{\"name\":\"hnsw\",\"space_type\":\"cosinesimil\",\"engine\":\"nmslib\"}}");
        assert(body@ =~= before + (","@ + vector_property(dim as nat)));
    } else {
        assert(body@ =~= before + Seq::<char>::empty());
    }
    body.append("}}}");
    body
}

impl OpenSearchConfig {
    /// Whether the server's certificate is validated: unless `skip_cert` is set.
    pub fn validates_certificates(&self) -> (b: bool)
        ensures
            b == !self.skip_cert,
    {
        !self.skip_cert
    }

    /// Whether documents written to the index carry their embedding.
    pub fn includes_embedding(&self) -> (b: bool)
        ensures
            b == mode_needs_embeddings(self.index_mode),
    {
        self.index_mode.needs_embeddings()
    }

    /// The index to create at startup: the definition when the index does not
    /// exist yet, nothing when it does.
    pub fn index_to_create(&self, dim: usize, index_exists: bool) -> (body: Option<String>)
        ensures
            index_exists ==> body is None,
            !index_exists ==> (body matches Some(b) && b@ == index_body(self.index_mode, dim as nat)),
    {
        if index_exists {
            None
        } else {
            Some(build_index_body(self.index_mode, dim))
        }
    }
}

/// `part` occurs in `text` starting at position `at`.
pub open spec fn occurs_at(text: Seq<char>, part: Seq<char>, at: int) -> bool {
    0 <= at && at + part.len() <= text.len() && text.subrange(at, at + part.len()) == part
}

/// Whenever the mode needs embeddings (so documents carry their embedding), the
/// index definition declares the k-NN vector field for the embedding, with the
/// given dimension, inside the mapping's properties; and in every mode the four
/// typed fields are declared first.
pub proof fn law_vector_field_follows_mode(mode: IndexMode, dim: nat)
    ensures
        mode_needs_embeddings(mode) ==> occurs_at(
            index_body(mode, dim),
            vector_property(dim),
            ("{\"settings\":{\"index\":{\"knn\":true}},\"mappings\":{\"properties\":{"@ + base_properties()
                + ","@).len() as int,
        ),
        occurs_at(
            index_body(mode, dim),
            base_properties(),
            "{\"settings\":{\"index\":{\"knn\":true}},\"mappings\":{\"properties\":{"@.len() as int,
        ),
{
    let head = "{\"settings\":{\"index\":{\"knn\":true}},\"mappings\":{\"properties\":{"@;
    let body = index_body(mode, dim);
    assert(body.subrange(head.len() as int, (head + base_properties()).len() as int) =~= base_properties());
    if mode_needs_embeddings(mode) {
        let pre = head + base_properties() + ","@;
        assert(body.subrange(pre.len() as int, (pre.len() + vector_property(dim).len()) as int) =~= vector_property(dim));
    }
}

/// The modes this sink supports: all of them.
pub fn supported_modes() -> (modes: Vec<IndexMode>)
    ensures
        modes@ == seq![IndexMode::Vector, IndexMode::Keyword, IndexMode::Hybrid],
{
    let mut modes = Vec::new();
    modes.push(IndexMode::Vector);
    modes.push(IndexMode::Keyword);
    modes.push(IndexMode::Hybrid);
    modes
}

} // verus!
