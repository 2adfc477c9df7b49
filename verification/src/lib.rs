//! Core decision and text logic of a chat companion bot: how chat logs become
//! prompts, how topics and memories are extracted, and how the bot decides when
//! to speak.
#![allow(unused_imports)]

pub mod ai;
pub mod baichat_rs;
pub mod bot;
pub mod chat_logs;
pub mod database;
pub mod memory_core;
pub mod results;
pub mod search_backend;
pub mod text;
pub mod topics;
pub mod utils;
