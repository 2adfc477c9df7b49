//! The bot's moods and its decision, message by message, whether to speak.
//!
//! The bot is `Active`, in `Standby` after a long silence, or waiting for a
//! particular user's answer to a question it asked. The surrounding program
//! performs what these decisions ask for (storing messages, reading the chat,
//! asking the model, sending the reply) and hands the results back.
use vstd::prelude::*;
use crate::ai::ResponseMessage;
use crate::text::{
    contains_text, decimal_text, law_parse_inverts_u64_text, lowercase, parse_u64, parse_u64_spec,
    text_contains, to_lowercase_text, u64_text,
};

verus! {

/// Whom the bot waits for, and the message that asked.
#[derive(Clone, Debug)]
pub struct WaitingAnswerArgs {
    pub user_id: String,
    pub message: u64,
}

/// The bot's mood.
#[derive(Clone, Debug)]
pub enum BotState {
    Standby,
    Active,
    WaitingAnswer(WaitingAnswerArgs),
}

/// The mood, with texts as char sequences.
pub enum StateView {
    Standby,
    Active,
    WaitingAnswer { user_id: Seq<char>, message: u64 },
}

impl View for BotState {
    type V = StateView;

    open spec fn view(&self) -> StateView {
        match self {
            BotState::Standby => StateView::Standby,
            BotState::Active => StateView::Active,
            BotState::WaitingAnswer(args) => StateView::WaitingAnswer {
                user_id: args.user_id@,
                message: args.message,
            },
        }
    }
}

/// How many unanswered messages the bot lets pass in a mood before it
/// speaks up on its own.
pub open spec fn cap_of(state: StateView) -> u64 {
    match state {
        StateView::Standby => 2000,
        _ => 100,
    }
}

impl BotState {
    /// The number of messages the bot lets pass in this mood (2000 in
    /// standby, 100 when active); there is none while it waits for an answer.
    pub fn get_cap(&self) -> (cap: u64)
        requires
            !(self is WaitingAnswer),
        ensures
            cap == cap_of(self@),
    {
        match self {
            BotState::Standby => 2000,
            _ => 100,
        }
    }
}

/// What the bot keeps between messages.
pub struct BotCore {
    pub state: BotState,
    pub message_counter: u64,
    pub message_cap: u64,
    pub last_activity_time: i64,
}

pub struct CoreModel {
    pub state: StateView,
    pub message_counter: u64,
    pub message_cap: u64,
    pub last_activity_time: i64,
}

impl View for BotCore {
    type V = CoreModel;

    open spec fn view(&self) -> CoreModel {
        CoreModel {
            state: self.state@,
            message_counter: self.message_counter,
            message_cap: self.message_cap,
            last_activity_time: self.last_activity_time,
        }
    }
}

/// The bot waits only for users it can recognise again: their id is the
/// decimal text of a number.
pub open spec fn core_wf(core: CoreModel) -> bool {
    core.state matches StateView::WaitingAnswer { user_id, .. } ==> parse_u64_spec(user_id) is Some
}

/// A chat message as the decisions need it.
pub struct IncomingMessage {
    pub channel_id: u64,
    pub id: u64,
    pub author_id: u64,
    pub author_name: String,
    pub content: String,
    /// The author of the message this one replies to, if any.
    pub replied_author_id: Option<u64>,
    /// The message this one replies to, if any.
    pub replied_id: Option<u64>,
}

/// What to do with a message that just arrived.
pub enum Intake {
    /// It is not in the bot's channel.
    Ignore,
    /// Store it, as a reply to `reference_id` if that is given.
    Store { reference_id: Option<u64> },
}

/// What to do once the message is stored.
pub enum Plan {
    /// Do nothing more.
    Stay,
    /// Read the recent chat and answer it; afterwards the bot lets fewer than
    /// `max_cap` messages pass.
    ReadRecentChat { max_cap: u64 },
    /// Read the conversation that led to message `target` and answer it.
    ReadConversation { target: u64, max_cap: u64 },
}

impl BotCore {
    /// The bot as it starts: active, with nothing counted and no activity yet.
    pub fn new() -> (core: BotCore)
        ensures
            core@ == (CoreModel {
                state: StateView::Active,
                message_counter: 0,
                message_cap: 100,
                last_activity_time: 0,
            }),
    {
        BotCore { state: BotState::Active, message_counter: 0, message_cap: 100, last_activity_time: 0 }
    }
}

/// A message that arrives: outside the bot's channel it is ignored; inside,
/// a reply to one of the bot's own messages makes the bot wait for its author,
/// and it is to be stored with the message it replies to.
pub open spec fn intake_spec(core: CoreModel, msg: IncomingMessage, bot_id: u64, channel: u64) -> (CoreModel, Intake) {
    if msg.channel_id != channel {
        (core, Intake::Ignore)
    } else {
        let state = if msg.replied_author_id == Some(bot_id) {
            StateView::WaitingAnswer { user_id: decimal_text(msg.author_id as nat), message: msg.id }
        } else {
            core.state
        };
        (CoreModel { state, ..core }, Intake::Store { reference_id: msg.replied_id })
    }
}

/// The bot is called: by a mention of its id, in either form, or by its name
/// in any case.
pub open spec fn calls_bot(content: Seq<char>, bot_id: u64) -> bool {
    ||| text_contains(content, "<@"@ + decimal_text(bot_id as nat) + ">"@)
    ||| text_contains(content, "<@!"@ + decimal_text(bot_id as nat) + ">"@)
    ||| text_contains(lowercase(content), "chell"@)
}

/// After a message is stored, at time `now`. Active or in standby: a long
/// silence (the last activity more than 900 s after `now`) sends the bot to
/// standby; a message by someone else that calls the bot, or that comes when
/// more messages than the cap went unanswered, is answered from the recent
/// chat; any other message is counted. Waiting: after more than 60 s the bot
/// is active again; a message by the awaited user is answered from its
/// conversation; others are passed over.
pub open spec fn decide_spec(core: CoreModel, msg: IncomingMessage, bot_id: u64, now: i64) -> (CoreModel, Plan) {
    match core.state {
        StateView::WaitingAnswer { user_id, message } => {
            if core.last_activity_time - now > 60 {
                (CoreModel { state: StateView::Active, ..core }, Plan::Stay)
            } else if parse_u64_spec(user_id) != Some(msg.author_id) {
                (core, Plan::Stay)
            } else {
                (core, Plan::ReadConversation { target: msg.id, max_cap: 2 })
            }
        },
        _ => {
            if core.last_activity_time - now > 900 {
                (CoreModel { state: StateView::Standby, ..core }, Plan::Stay)
            } else if (calls_bot(msg.content@, bot_id) || core.message_counter > core.message_cap)
                && msg.author_id != bot_id {
                (core, Plan::ReadRecentChat { max_cap: cap_of(core.state) })
            } else {
                (CoreModel { message_counter: (core.message_counter + 1) as u64, ..core }, Plan::Stay)
            }
        },
    }
}

/// After the bot answered a message by `author_id`: it waits for that user
/// when its answer was a question, else it is active; the count restarts and
/// the new cap is `new_cap`.
pub open spec fn after_reply_spec(
    core: CoreModel,
    question: bool,
    author_id: u64,
    message_id: u64,
    new_cap: u64,
) -> CoreModel {
    CoreModel {
        state: if question {
            StateView::WaitingAnswer { user_id: decimal_text(author_id as nat), message: message_id }
        } else {
            StateView::Active
        },
        message_counter: 0,
        message_cap: new_cap,
        last_activity_time: core.last_activity_time,
    }
}

fn mention_text(opening: &str, bot_id: u64) -> (mention: String)
    ensures
        mention@ == opening@ + decimal_text(bot_id as nat) + ">"@,
{
    let mut mention = String::from_str(opening);
    let digits = u64_text(bot_id);
    mention.append(digits.as_str());
    mention.append(">");
    mention
}

/// Whether a message calls the bot (see `calls_bot`).
pub fn is_calling_bot(content: &str, bot_id: u64) -> (res: bool)
    ensures
        res == calls_bot(content@, bot_id),
{
    let plain = mention_text("<@", bot_id);
    if contains_text(content, plain.as_str()) {
        return true;
    }
    let nick = mention_text("<@!", bot_id);
    if contains_text(content, nick.as_str()) {
        return true;
    }
    let lower = to_lowercase_text(content);
    contains_text(lower.as_str(), "chell")
}

impl BotCore {
    /// A message arrives (see `intake_spec`).
    pub fn intake(&mut self, msg: &IncomingMessage, bot_id: u64, whitelisted_channel: u64) -> (intake: Intake)
        requires
            core_wf(old(self)@),
        ensures
            (final(self)@, intake) == intake_spec(old(self)@, *msg, bot_id, whitelisted_channel),
            core_wf(final(self)@),
    {
        if msg.channel_id != whitelisted_channel {
            return Intake::Ignore;
        }
        if msg.replied_author_id == Some(bot_id) {
            self.state = BotState::WaitingAnswer(
                WaitingAnswerArgs { user_id: u64_text(msg.author_id), message: msg.id },
            );
            proof { law_parse_inverts_u64_text(msg.author_id); }
        }
        Intake::Store { reference_id: msg.replied_id }
    }

    /// The message is stored; decide at time `now` whether to answer (see
    /// `decide_spec`).
    pub fn decide(&mut self, msg: &IncomingMessage, bot_id: u64, now: i64) -> (plan: Plan)
        requires
            core_wf(old(self)@),
            old(self).message_counter < u64::MAX,
            i64::MIN <= old(self).last_activity_time - now <= i64::MAX,
        ensures
            (final(self)@, plan) == decide_spec(old(self)@, *msg, bot_id, now),
            core_wf(final(self)@),
    {
        let idle = self.last_activity_time - now;
        let waited_user = match &self.state {
            BotState::WaitingAnswer(args) => Some(parse_u64(args.user_id.as_str())),
            _ => None,
        };
        match waited_user {
            Some(user) => {
                if idle > 60 {
                    self.state = BotState::Active;
                    return Plan::Stay;
                }
                if user != Some(msg.author_id) {
                    return Plan::Stay;
                }
                Plan::ReadConversation { target: msg.id, max_cap: 2 }
            },
            None => {
                if idle > 900 {
                    self.state = BotState::Standby;
                    return Plan::Stay;
                }
                if (is_calling_bot(msg.content.as_str(), bot_id) || self.message_counter
                    > self.message_cap) && msg.author_id != bot_id {
                    let max_cap = self.state.get_cap();
                    return Plan::ReadRecentChat { max_cap };
                }
                self.message_counter = self.message_counter + 1;
                Plan::Stay
            },
        }
    }

    /// The bot is about to answer: this is its latest activity.
    pub fn record_activity(&mut self, now: i64)
        ensures
            final(self)@ == (CoreModel { last_activity_time: now, ..old(self)@ }),
    {
        self.last_activity_time = now;
    }

    /// The bot answered (see `after_reply_spec`); `new_cap` is drawn from
    /// `1..max_cap`.
    pub fn after_reply(&mut self, question: bool, author_id: u64, message_id: u64, max_cap: u64, new_cap: u64)
        requires
            1 <= new_cap < max_cap,
        ensures
            final(self)@ == after_reply_spec(old(self)@, question, author_id, message_id, new_cap),
            core_wf(final(self)@),
    {
        if question {
            self.state = BotState::WaitingAnswer(
                WaitingAnswerArgs { user_id: u64_text(author_id), message: message_id },
            );
            proof { law_parse_inverts_u64_text(author_id); }
        } else {
            self.state = BotState::Active;
        }
        self.message_counter = 0;
        self.message_cap = new_cap;
    }
}

/// The text the bot sends: the model's message, and, when it is a question,
/// a pointer to the user it is for.
pub open spec fn outgoing_text_spec(response: ResponseMessage, author_name: Seq<char>) -> Seq<char> {
    if response.question {
        response.message@ + " | ⤵️ ("@ + author_name + ")"@
    } else {
        response.message@
    }
}

/// The text to send for the model's answer (see `outgoing_text_spec`).
pub fn outgoing_text(response: &ResponseMessage, author_name: &str) -> (text: String)
    ensures
        text@ == outgoing_text_spec(*response, author_name@),
{
    let mut text = response.message.clone();
    if response.question {
        text.append(" | ⤵️ (");
        text.append(author_name);
        text.append(")");
    }
    text
}

/// The message the model chose to answer, by id.
pub fn reply_target(response: &ResponseMessage) -> (target: Option<u64>)
    requires
        response.reply matches Some(r) ==> parse_u64_spec(r@) is Some,
    ensures
        target == (match response.reply {
            Some(r) => parse_u64_spec(r@),
            None => None,
        }),
{
    match &response.reply {
        Some(r) => parse_u64(r.as_str()),
        None => None,
    }
}

/// When the bot's answer was a question, the next message of the user it
/// asked, arriving in time, is answered from that user's conversation.
pub proof fn law_asked_user_is_answered(
    core: CoreModel,
    author_id: u64,
    message_id: u64,
    new_cap: u64,
    msg: IncomingMessage,
    bot_id: u64,
    now: i64,
)
    requires
        msg.author_id == author_id,
        core.last_activity_time - now <= 60,
    ensures
        decide_spec(after_reply_spec(core, true, author_id, message_id, new_cap), msg, bot_id, now).1
            == (Plan::ReadConversation { target: msg.id, max_cap: 2 }),
{
    law_parse_inverts_u64_text(author_id);
}

/// Active or in standby, the bot never answers its own messages.
pub proof fn law_bot_ignores_itself(core: CoreModel, msg: IncomingMessage, bot_id: u64, now: i64)
    requires
        !(core.state is WaitingAnswer),
        msg.author_id == bot_id,
    ensures
        decide_spec(core, msg, bot_id, now).1 == Plan::Stay,
{
}

/// Active or in standby and not idle, the bot answers a message by someone
/// else when the message calls it or when more messages than its cap went
/// unanswered before it.
pub proof fn law_bot_answers_when_called(core: CoreModel, msg: IncomingMessage, bot_id: u64, now: i64)
    requires
        !(core.state is WaitingAnswer),
        core.last_activity_time - now <= 900,
        msg.author_id != bot_id,
        calls_bot(msg.content@, bot_id) || core.message_counter > core.message_cap,
    ensures
        decide_spec(core, msg, bot_id, now) == (core, Plan::ReadRecentChat { max_cap: cap_of(core.state) }),
{
}


/// Only a reply to one of the bot's own messages changes what the bot keeps:
/// any other message that arrives, in its channel or not, whether it replies
/// to nobody or to another user, leaves the mood, the count, the cap and the
/// time of the last activity as they were.
pub proof fn law_intake_keeps_state_unless_reply_to_bot(
    core: CoreModel,
    msg: IncomingMessage,
    bot_id: u64,
    channel: u64,
)
    requires
        msg.replied_author_id != Some(bot_id),
    ensures
        intake_spec(core, msg, bot_id, channel).0 == core,
{
}

/// A message in the bot's channel that replies to one of the bot's own
/// messages makes the bot wait for that message's author, and nothing else
/// changes; the message is stored as a reply to the message it answers.
pub proof fn law_reply_to_bot_makes_it_wait(core: CoreModel, msg: IncomingMessage, bot_id: u64, channel: u64)
    requires
        msg.channel_id == channel,
        msg.replied_author_id == Some(bot_id),
    ensures
        intake_spec(core, msg, bot_id, channel).0.state matches StateView::WaitingAnswer { user_id, message }
            && parse_u64_spec(user_id) == Some(msg.author_id) && message == msg.id,
        intake_spec(core, msg, bot_id, channel).0.message_counter == core.message_counter,
        intake_spec(core, msg, bot_id, channel).0.message_cap == core.message_cap,
        intake_spec(core, msg, bot_id, channel).0.last_activity_time == core.last_activity_time,
        intake_spec(core, msg, bot_id, channel).1 == (Intake::Store { reference_id: msg.replied_id }),
{
    law_parse_inverts_u64_text(msg.author_id);
}

/// A message outside the bot's channel is ignored and changes nothing.
pub proof fn law_other_channels_are_ignored(core: CoreModel, msg: IncomingMessage, bot_id: u64, channel: u64)
    requires
        msg.channel_id != channel,
    ensures
        intake_spec(core, msg, bot_id, channel) == (core, Intake::Ignore),
{
}

/// A text that holds the bot's name in any mix of letter cases calls the bot
/// (its lower-cased form holds `chell`).
pub proof fn law_name_in_any_case_calls_bot(content: Seq<char>, bot_id: u64)
    requires
        text_contains(lowercase(content), "chell"@),
    ensures
        calls_bot(content, bot_id),
{
}

/// A text that mentions the bot's id, as `<@id>` or `<@!id>`, calls the bot.
pub proof fn law_mention_calls_bot(content: Seq<char>, bot_id: u64)
    requires
        text_contains(content, "<@"@ + decimal_text(bot_id as nat) + ">"@) || text_contains(
            content,
            "<@!"@ + decimal_text(bot_id as nat) + ">"@,
        ),
    ensures
        calls_bot(content, bot_id),
{
}

/// A text calls the bot only by a mention of its id or by its name.
pub proof fn law_calls_bot_only_by_mention_or_name(content: Seq<char>, bot_id: u64)
    requires
        calls_bot(content, bot_id),
    ensures
        text_contains(content, "<@"@ + decimal_text(bot_id as nat) + ">"@) || text_contains(
            content,
            "<@!"@ + decimal_text(bot_id as nat) + ">"@,
        ) || text_contains(lowercase(content), "chell"@),
{
}

} // verus!
