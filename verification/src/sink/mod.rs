//! Names shared by the sinks, the standard-output sink, and the modules of the
//! individual sinks.

use crate::log_entry::LogRecord;
use vstd::prelude::*;

pub mod dashboard;
pub mod elasticsearch;
pub mod opensearch;
pub mod pgvector;
pub mod qdrant;

verus! {

/// Default name of the index, collection or table that a sink writes to.
pub const DEFAULT_INDEX_NAME: &'static str = "logs";

/// Name of the dense embedding field or vector.
pub const DENSE_EMBEDDING_NAME: &'static str = "embedding";

/// Name of the sparse (BM25) vector.
pub const SPARSE_EMBEDDING_NAME: &'static str = "bm25";

/// Writes each entry to the process log at the entry's level.
pub struct StdoutSink;

impl StdoutSink {
    /// The line logged for an entry: `service: message`.
    pub fn entry_line(&self, record: &LogRecord) -> (line: String)
        ensures
            line@ == record.service@ + ": "@ + record.message@,
    {
        let mut line = record.service.clone();
        line.append(": ");
        line.append(record.message.as_str());
        line
    }
}

} // verus!
