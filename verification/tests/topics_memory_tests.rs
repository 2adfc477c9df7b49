use chell::ai::ResponseMessage;
use chell::chat_logs::{ChatLogs, RawMessage};
use chell::memory_core::{memories_before_filter, memory_id, prepare_memory, LoadedMemories, Memory};
use chell::topics::Topics;
use chell::utils::UtilsError;

fn said(text: &str) -> RawMessage {
    RawMessage {
        id: 1,
        user: 2,
        user_name: "Ana".to_string(),
        timestamp: 0,
        user_image: String::new(),
        message: text.to_string(),
        reference_id: None,
        read: false,
    }
}

#[test]
fn topics_leave_out_stop_words_latest_first() {
    let logs = ChatLogs(vec![said("Eu gosto de Pizza"), said("e de comer")]);
    let topics = Topics::from_logs(&logs).unwrap();
    assert_eq!(topics.to_query(), "comer or Pizza or gosto or ");
}

#[test]
fn each_message_gives_its_own_words() {
    let logs = ChatLogs(vec![said("gato preto"), said("cachorro")]);
    let topics = Topics::from_logs(&logs).unwrap();
    assert_eq!(topics.to_query(), "cachorro or preto or gato or ");
}

#[test]
fn topics_of_joined_logs() {
    let a = vec![said("Eu gosto de Pizza"), said("gato preto")];
    let b = vec![said("cachorro"), said("e de comer")];
    let ta = Topics::from_logs(&ChatLogs(a.clone())).unwrap().to_query();
    let tb = Topics::from_logs(&ChatLogs(b.clone())).unwrap().to_query();
    let joined: Vec<RawMessage> = a.into_iter().chain(b).collect();
    let tab = Topics::from_logs(&ChatLogs(joined)).unwrap().to_query();
    assert_eq!(tab, format!("{}{}", tb, ta));
    assert_eq!(tab, "comer or cachorro or preto or gato or Pizza or gosto or ");
}

#[test]
fn stop_words_in_any_case_are_left_out() {
    let logs = ChatLogs(vec![said("EU MUITO Você")]);
    assert_eq!(Topics::from_logs(&logs).unwrap().to_query(), "");
}

#[test]
fn no_messages_no_topics() {
    assert_eq!(Topics::from_logs(&ChatLogs(vec![])).unwrap().to_query(), "");
}

#[test]
fn memory_ids_are_initials() {
    assert_eq!(memory_id("gosta de pizza"), "gdp");
    assert_eq!(memory_id("  dois  espaços "), "de");
    assert_eq!(memory_id(""), "");
    assert_eq!(memory_id("Ótimo\tdia"), "Ó");
    let s = "a bc  def ";
    let expected: String = s.split(" ").flat_map(|p| p.chars().nth(0)).collect();
    assert_eq!(memory_id(s), expected);
}

fn answer(learned: Option<&str>) -> ResponseMessage {
    ResponseMessage {
        message: "ok".to_string(),
        reply: None,
        learned: learned.map(|l| l.to_string()),
        question: false,
    }
}

#[test]
fn learned_text_becomes_a_memory() {
    let m = prepare_memory(&answer(Some("Ana gosta de pizza")), 1700000000).unwrap();
    assert_eq!(m.id, "Agdp");
    assert_eq!(m.content, "Ana gosta de pizza");
    assert_eq!(m.timestamp, 1700000000);
}

#[test]
fn nothing_learned_is_refused() {
    assert!(matches!(prepare_memory(&answer(None), 1), Err(UtilsError::NoMemoriesToBeSaved)));
    assert!(matches!(prepare_memory(&answer(Some("null")), 1), Err(UtilsError::NoMemoriesToBeSaved)));
    assert!(matches!(prepare_memory(&answer(Some("NuLL")), 1), Err(UtilsError::NoMemoriesToBeSaved)));
    assert!(prepare_memory(&answer(Some("null!")), 1).is_ok());
}

#[test]
fn memory_filters() {
    assert_eq!(memories_before_filter(Some(5), 9), "timestamp < 5");
    assert_eq!(memories_before_filter(None, 1700000000), "timestamp < 1700000000");
}

#[test]
fn memories_as_lines() {
    let loaded = LoadedMemories(vec![
        Memory { id: "a".to_string(), timestamp: 1, content: "Ana gosta de pizza".to_string() },
        Memory { id: "b".to_string(), timestamp: 2, content: "Bia odeia chuva".to_string() },
    ]);
    assert_eq!(loaded.to_string(), "Ana gosta de pizza\nBia odeia chuva\n");
    assert_eq!(LoadedMemories(vec![]).to_string(), "");
}
