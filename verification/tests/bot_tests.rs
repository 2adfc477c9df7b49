use chell::ai::ResponseMessage;
use chell::bot::{is_calling_bot, outgoing_text, reply_target, BotCore, BotState, IncomingMessage, Intake, Plan};
use chell::database;
use chell::utils::DBIndexes;

const BOT: u64 = 99;
const CHANNEL: u64 = 7;

fn incoming(author: u64, content: &str) -> IncomingMessage {
    IncomingMessage {
        channel_id: CHANNEL,
        id: 500,
        author_id: author,
        author_name: "Ana".to_string(),
        content: content.to_string(),
        replied_author_id: None,
        replied_id: None,
    }
}

#[test]
fn caps_by_mood() {
    assert_eq!(BotState::Standby.get_cap(), 2000);
    assert_eq!(BotState::Active.get_cap(), 100);
}

#[test]
fn calling_the_bot() {
    assert!(is_calling_bot("oi <@99>!", BOT));
    assert!(is_calling_bot("<@!99>", BOT));
    assert!(is_calling_bot("e aí CHELL?", BOT));
    assert!(!is_calling_bot("<@9>", BOT));
    assert!(!is_calling_bot("bom dia", BOT));
}

#[test]
fn other_channels_are_ignored() {
    let mut core = BotCore::new();
    let mut msg = incoming(5, "oi");
    msg.channel_id = 8;
    assert!(matches!(core.intake(&msg, BOT, CHANNEL), Intake::Ignore));
    assert!(matches!(core.state, BotState::Active));
}

#[test]
fn a_reply_to_the_bot_makes_it_wait() {
    let mut core = BotCore::new();
    let mut msg = incoming(5, "sim");
    msg.replied_author_id = Some(BOT);
    msg.replied_id = Some(321);
    match core.intake(&msg, BOT, CHANNEL) {
        Intake::Store { reference_id } => assert_eq!(reference_id, Some(321)),
        Intake::Ignore => panic!("the message is in the channel"),
    }
    match &core.state {
        BotState::WaitingAnswer(args) => {
            assert_eq!(args.user_id, "5");
            assert_eq!(args.message, 500);
        },
        _ => panic!("the bot waits"),
    }
    assert!(matches!(core.decide(&msg, BOT, 0), Plan::ReadConversation { target: 500, max_cap: 2 }));
}

#[test]
fn quiet_messages_are_counted() {
    let mut core = BotCore::new();
    assert!(matches!(core.decide(&incoming(5, "bom dia"), BOT, 0), Plan::Stay));
    assert_eq!(core.message_counter, 1);
}

#[test]
fn a_call_is_answered_from_the_chat() {
    let mut core = BotCore::new();
    assert!(matches!(core.decide(&incoming(5, "chell, oi"), BOT, 0), Plan::ReadRecentChat { max_cap: 100 }));
    assert_eq!(core.message_counter, 0);
}

#[test]
fn the_bot_does_not_answer_itself() {
    let mut core = BotCore::new();
    assert!(matches!(core.decide(&incoming(BOT, "chell!"), BOT, 0), Plan::Stay));
}

#[test]
fn too_many_unanswered_messages_make_it_speak() {
    let mut core = BotCore::new();
    core.message_counter = 101;
    assert!(matches!(core.decide(&incoming(5, "nada"), BOT, 0), Plan::ReadRecentChat { max_cap: 100 }));
}

#[test]
fn long_idle_means_standby() {
    let mut core = BotCore::new();
    core.last_activity_time = 1000;
    assert!(matches!(core.decide(&incoming(5, "chell"), BOT, 0), Plan::Stay));
    assert!(matches!(core.state, BotState::Standby));
    core.last_activity_time = 0;
    assert!(matches!(core.decide(&incoming(5, "chell"), BOT, 0), Plan::ReadRecentChat { max_cap: 2000 }));
}

#[test]
fn waiting_for_someone_else() {
    let mut core = BotCore::new();
    core.after_reply(true, 5, 77, 100, 3);
    assert!(matches!(core.decide(&incoming(6, "chell"), BOT, 0), Plan::Stay));
    assert!(matches!(core.decide(&incoming(5, "é isso"), BOT, 0), Plan::ReadConversation { target: 500, max_cap: 2 }));
    core.last_activity_time = 61;
    assert!(matches!(core.decide(&incoming(5, "é isso"), BOT, 0), Plan::Stay));
    assert!(matches!(core.state, BotState::Active));
}

#[test]
fn after_a_plain_reply() {
    let mut core = BotCore::new();
    core.message_counter = 40;
    core.record_activity(1234);
    core.after_reply(false, 5, 77, 100, 42);
    assert!(matches!(core.state, BotState::Active));
    assert_eq!(core.message_counter, 0);
    assert_eq!(core.message_cap, 42);
    assert_eq!(core.last_activity_time, 1234);
}

#[test]
fn questions_point_at_the_user() {
    let mut r = ResponseMessage { message: "Gosta de pizza?".to_string(), reply: None, learned: None, question: true };
    assert_eq!(outgoing_text(&r, "Ana"), "Gosta de pizza? | ⤵️ (Ana)");
    r.question = false;
    assert_eq!(outgoing_text(&r, "Ana"), "Gosta de pizza?");
}

#[test]
fn reply_targets() {
    let mut r = ResponseMessage { message: "x".to_string(), reply: Some("1234".to_string()), learned: None, question: false };
    assert_eq!(reply_target(&r), Some(1234));
    r.reply = None;
    assert_eq!(reply_target(&r), None);
}

#[test]
fn index_names() {
    assert_eq!(DBIndexes::RawMessage.as_str(), "messages");
    assert_eq!(DBIndexes::InputMemory.as_str(), "memories");
    assert_eq!(database::DBIndexes::RawMessage.as_str(), "messages");
}
