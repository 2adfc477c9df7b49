//! A client of a chat-completion service: the request it sends, the replies it
//! reads, and the conversation it continues.
use vstd::prelude::*;
use crate::text::{json_string, json_string_text, last_non_empty_line, last_non_empty_line_spec,
    non_empty, lines, non_empty_lines, views};

verus! {

/// A request to the service.
#[derive(Debug)]
pub struct Input {
    pub prompt: String,
    pub options: Options,
}

/// The options of a request: the message the conversation continues from.
#[derive(Debug)]
pub struct Options {
    pub parent_message_id: String,
}

/// One streamed piece of the service's answer.
#[derive(Debug)]
pub struct Delta {
    pub role: String,
    pub id: String,
    pub parent_message_id: String,
    pub text: String,
    pub delta: String,
    pub detail: Detail,
}

#[derive(Debug)]
pub struct Detail {
    pub id: String,
    pub object: String,
    pub created: i64,
    pub model: String,
    pub choices: Vec<Choice>,
}

#[derive(Debug)]
pub struct Choice {
    pub delta: DeltaChoice,
    pub index: i64,
    pub finish_reason: Option<String>,
}

#[derive(Debug)]
pub struct DeltaChoice {
    pub content: String,
}

/// The client: the message its conversation continues from.
pub struct ThebAI {
    pub parent_message_id: Option<String>,
}

/// The conversation a client starts from when none is given.
pub const DEFAULT_PARENT_MESSAGE_ID: &'static str = "8c00bd29-75b0-42c7-9d4f-05a94ac8b2de";

/// The reply carried no usable piece.
#[derive(Debug)]
pub enum AskError {
    WrongFormat,
}

impl ThebAI {
    /// A client continuing from the given message, or from
    /// `DEFAULT_PARENT_MESSAGE_ID` when none is given.
    pub fn new(parent_message_id: Option<&str>) -> (client: ThebAI)
        ensures
            client.parent_message_id matches Some(p) && p@ == (match parent_message_id {
                Some(given) => given@,
                None => DEFAULT_PARENT_MESSAGE_ID@,
            }),
    {
        if let Some(parent_message_id) = parent_message_id {
            return ThebAI { parent_message_id: Some(String::from_str(parent_message_id)) };
        } else {
            return ThebAI {
                parent_message_id: Some(String::from_str(DEFAULT_PARENT_MESSAGE_ID)),
            };
        }
    }

    /// The message a request continues from: the one given, else the
    /// client's own.
    pub fn request_parent_id(&self, parent_message_id: Option<String>) -> (id: String)
        requires
            parent_message_id is None ==> self.parent_message_id is Some,
        ensures
            id@ == (match parent_message_id {
                Some(p) => p@,
                None => self.parent_message_id->0@,
            }),
    {
        match parent_message_id {
            Some(p) => p,
            None => match &self.parent_message_id {
                Some(p) => p.clone(),
                None => String::new(),
            },
        }
    }

    /// The request for a prompt: the prompt as a JSON string text, and the
    /// message it continues from.
    pub fn request_input(&self, prompt: &str, parent_message_id: Option<String>) -> (input: Input)
        requires
            parent_message_id is None ==> self.parent_message_id is Some,
        ensures
            input.prompt@ == json_string(prompt@),
            input.options.parent_message_id@ == (match parent_message_id {
                Some(p) => p@,
                None => self.parent_message_id->0@,
            }),
    {
        let parent_message_id = self.request_parent_id(parent_message_id);
        Input { prompt: json_string_text(prompt), options: Options { parent_message_id } }
    }

    /// After a streamed reply was read: with at least one piece, the client
    /// continues from the last piece's id and the pieces are handed back;
    /// with none, the reply is refused and the client stays as it was.
    pub fn finish_ask(&mut self, deltas: Vec<Delta>) -> (res: Result<Vec<Delta>, AskError>)
        ensures
            deltas@.len() > 0 ==> (res matches Ok(d) && d@ == deltas@),
            deltas@.len() > 0 ==> (final(self).parent_message_id matches Some(p) && p@
                == deltas@.last().id@),
            deltas@.len() == 0 ==> (res matches Err(AskError::WrongFormat)),
            deltas@.len() == 0 ==> final(self).parent_message_id == old(self).parent_message_id,
    {
        let n = deltas.len();
        if n == 0 {
            return Err(AskError::WrongFormat);
        }
        self.parent_message_id = Some(deltas[n - 1].id.clone());
        Ok(deltas)
    }
}

/// The line of a streamed reply that holds its final state: the last line
/// that is not empty.
pub fn reply_target_line(result: &str) -> (line: String)
    ensures
        line@ == last_non_empty_line_spec(result@),
{
    last_non_empty_line(result)
}

/// The lines of a streamed reply that hold pieces: those that are not empty.
pub fn reply_piece_lines(result: &str) -> (pieces: Vec<String>)
    ensures
        views(pieces@) == non_empty(lines(result@)),
{
    non_empty_lines(result)
}

/// The text of the last piece.
pub fn deltas_to_string(delta: Vec<Delta>) -> (text: String)
    requires
        delta@.len() > 0,
    ensures
        text@ == delta@.last().text@,
{
    delta[delta.len() - 1].text.clone()
}

} // verus!
