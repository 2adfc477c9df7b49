use vstd::prelude::*;

verus! {

/// Errors of the storage and memory layer (the search backend's own error is carried as it came).
#[derive(Debug)]
pub enum UtilsError {
    MeiliSearchError(meilisearch_sdk::errors::Error),
    ChannelIsNSFW,
    PrivateChannelUserIsNotOwner,
    Generic,
    NoTopicsFound,
    NoMemoriesToBeSaved,
    NoMemoriesFound,
    NoMessagesFound,
    NoReferencedMessageFound(String),
}

/// The indexes of the search backend.
pub enum DBIndexes {
    RawMessage,
    InputMemory,
}

impl DBIndexes {
    /// The name of the index in the search backend.
    pub fn as_str(&self) -> (name: &'static str)
        ensures
            name@ == (match self {
                DBIndexes::RawMessage => "messages"@,
                DBIndexes::InputMemory => "memories"@,
            }),
    {
        match self {
            DBIndexes::RawMessage => "messages",
            DBIndexes::InputMemory => "memories",
        }
    }
}

} // verus!
