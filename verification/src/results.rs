//! Outcomes of the bot's storage commands.
use vstd::prelude::*;

verus! {

/// Why a storage command was refused.
#[derive(Debug)]
pub enum ResultsError {
    ChannelIsNSFW,
    PrivateChannelUserIsNotOwner,
    Generic,
    CouldntConvertToJSON,
    NothingUsefulToBeSaved,
}

/// What a storage command stored.
#[derive(Debug)]
pub enum DatabaseResult {
    SavedMessagesFromChannel(SavedMessagesFromChannel),
    SavedMemories(SavedMemories),
}

/// How many messages were stored from a channel, by the channel's name.
#[derive(Debug)]
pub struct SavedMessagesFromChannel {
    pub channel_name: String,
    pub quantity: usize,
}

/// The memory that was stored.
#[derive(Debug)]
pub struct SavedMemories {
    pub memory: String,
}

} // verus!
