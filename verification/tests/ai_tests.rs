use chell::ai::{reply_prompt, reply_step, AiError, ReplyStep, ResponseMessage, REPLY_ATTEMPTS, REPLY_INSTRUCTIONS};
use chell::baichat_rs::{
    deltas_to_string, reply_piece_lines, reply_target_line, AskError, Delta, Detail, ThebAI,
    DEFAULT_PARENT_MESSAGE_ID,
};

#[test]
fn prompt_with_memories() {
    let request = reply_prompt("conversa".to_string(), Some("lembrança".to_string()), "abc");
    assert_eq!(request, format!("abc{}\nSuas memórias são: lembrança\nconversa", REPLY_INSTRUCTIONS));
}

#[test]
fn prompt_without_memories() {
    let request = reply_prompt("conversa".to_string(), None, "abc");
    assert_eq!(request, format!("abc{}conversa", REPLY_INSTRUCTIONS));
    assert!(REPLY_INSTRUCTIONS.starts_with("\nLeia as mensagens"));
    assert!(REPLY_INSTRUCTIONS.ends_with("'surprise' \n "));
}

fn response() -> ResponseMessage {
    ResponseMessage { message: "oi".to_string(), reply: None, learned: None, question: false }
}

#[test]
fn three_failures_give_up() {
    assert_eq!(REPLY_ATTEMPTS, 3);
    assert!(matches!(reply_step(0, None), ReplyStep::Retry));
    assert!(matches!(reply_step(1, None), ReplyStep::Retry));
    assert!(matches!(reply_step(2, None), ReplyStep::GaveUp(AiError::CouldntGenerateResponseFromAI)));
    match reply_step(2, Some(response())) {
        ReplyStep::Answered(r) => assert_eq!(r.message, "oi"),
        _ => panic!("an answer ends the exchange"),
    }
}

#[test]
fn client_defaults() {
    assert_eq!(ThebAI::new(None).parent_message_id.as_deref(), Some(DEFAULT_PARENT_MESSAGE_ID));
    assert_eq!(ThebAI::new(Some("p1")).parent_message_id.as_deref(), Some("p1"));
}

#[test]
fn request_quotes_the_prompt() {
    let client = ThebAI::new(Some("p1"));
    let input = client.request_input("diz \"oi\"\n\\", None);
    assert_eq!(input.prompt, "\"diz \\\"oi\\\"\\n\\\\\"");
    assert_eq!(input.options.parent_message_id, "p1");
    let input = client.request_input("\u{1}é", Some("p2".to_string()));
    assert_eq!(input.prompt, "\"\\u0001é\"");
    assert_eq!(input.options.parent_message_id, "p2");
}

fn delta(id: &str, text: &str) -> Delta {
    Delta {
        role: "assistant".to_string(),
        id: id.to_string(),
        parent_message_id: "p".to_string(),
        text: text.to_string(),
        delta: String::new(),
        detail: Detail { id: String::new(), object: String::new(), created: 0, model: String::new(), choices: vec![] },
    }
}

#[test]
fn conversation_continues_from_last_piece() {
    let mut client = ThebAI::new(None);
    let pieces = client.finish_ask(vec![delta("a", "O"), delta("b", "Oi")]).unwrap();
    assert_eq!(client.parent_message_id.as_deref(), Some("b"));
    assert_eq!(client.request_parent_id(None), "b");
    assert_eq!(deltas_to_string(pieces), "Oi");
}

#[test]
fn reply_without_pieces_is_refused() {
    let mut client = ThebAI::new(Some("keep"));
    assert!(matches!(client.finish_ask(vec![]), Err(AskError::WrongFormat)));
    assert_eq!(client.parent_message_id.as_deref(), Some("keep"));
}

#[test]
fn streamed_reply_lines() {
    let body = "{\"id\":1}\n\n{\"id\":2}\n";
    assert_eq!(reply_piece_lines(body), vec!["{\"id\":1}", "{\"id\":2}"]);
    assert_eq!(reply_target_line(body), "{\"id\":2}");
    assert_eq!(reply_target_line(""), "");
}
