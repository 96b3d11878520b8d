//! Qdrant sink: configuration and the decision to create the collection.

use super::DEFAULT_INDEX_NAME;
use vstd::prelude::*;

verus! {

/// Default collection name.
pub fn default_collection_name() -> (name: String)
    ensures
        name@ == DEFAULT_INDEX_NAME@,
{
    String::from_str(DEFAULT_INDEX_NAME)
}

/// Where the server is, how to authenticate, and which collection receives the entries.
#[derive(Debug)]
pub struct QdrantConfig {
    pub url: String,
    pub api_key: Option<String>,
    pub collection_name: String,
}

/// Whether one of the listed collection names is `name`.
pub open spec fn listed(names: Seq<String>, name: Seq<char>) -> bool {
    exists|i: int| 0 <= i < names.len() && #[trigger] names[i]@ == name
}

/// Whether the collection is among those the server listed.
pub fn collection_exists(names: &Vec<String>, name: &String) -> (found: bool)
    ensures
        found == listed(names@, name@),
{
    let mut i: usize = 0;
    while i < names.len()
        invariant
            i <= names.len(),
            forall|j: int| 0 <= j < i ==> names@[j]@ != name@,
        decreases names.len() - i,
    {
        if names[i] == *name {
            return true;
        }
        i = i + 1;
    }
    false
}

/// The payload fields indexed as keywords when the collection is created, in order.
pub fn payload_index_fields() -> (fields: Vec<&'static str>)
    ensures
        fields.len() == 2,
        fields@[0]@ == "level"@,
        fields@[1]@ == "service"@,
{
    let mut fields = Vec::new();
    fields.push("level");
    fields.push("service");
    fields
}

} // verus!
