//! The message record and index of the first version of the store.
use vstd::prelude::*;

verus! {

/// A chat message as the first version of the store keeps it.
#[derive(Debug, Clone)]
pub struct RawMessage {
    pub id: u64,
    pub user: u64,
    pub user_name: String,
    pub timestamp: i64,
    pub user_image: String,
    pub message: String,
}

/// The indexes of the first version of the store.
pub enum DBIndexes {
    RawMessage,
}

impl DBIndexes {
    /// The name of the index in the search backend.
    pub fn as_str(&self) -> (name: &'static str)
        ensures
            name@ == "messages"@,
    {
        match self {
            DBIndexes::RawMessage => "messages",
        }
    }
}

} // verus!
