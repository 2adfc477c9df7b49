use chell::chat_logs::{
    conversation_step, logs_in_time_order, mark_read, message_reference, new_raw_message,
    sort_by_timestamp, ChatLogs, RawMessage, MAX_UNIX_SECS, MIN_UNIX_SECS,
};

fn msg(id: u64, user: u64, name: &str, ts: i64, text: &str, read: bool) -> RawMessage {
    RawMessage {
        id,
        user,
        user_name: name.to_string(),
        timestamp: ts,
        user_image: "NO AVATAR".to_string(),
        message: text.to_string(),
        reference_id: None,
        read,
    }
}

const TS: i64 = 1462015105;

#[test]
fn unread_lines_carry_ids() {
    let logs = ChatLogs(vec![msg(11, 5, "Ana", TS, "oi", false)]);
    assert_eq!(
        logs.build(99, None),
        "ID DA MENSAGEM: 11 | TEMPO: 2016-04-30T11:18:25.000Z - NOME DE USUÁRIO:'Ana' disse = oi\n"
    );
}

#[test]
fn read_lines_are_context() {
    let logs = ChatLogs(vec![msg(11, 5, "Ana", TS, "oi", true)]);
    assert_eq!(
        logs.build(99, None),
        "MENSAGEM PARA CONTEXTO | TEMPO: 2016-04-30T11:18:25.000Z - NOME DE USUÁRIO:'Ana' disse = oi\n"
    );
}

#[test]
fn own_lines_are_answers() {
    let logs = ChatLogs(vec![msg(12, 99, "Chell", TS, "olá!", false)]);
    assert_eq!(
        logs.build(99, Some(12)),
        "SUA MENSAGEM! | TEMPO: 2016-04-30T11:18:25.000Z - Você respondeu = olá!\n"
    );
}

#[test]
fn target_is_the_message_to_answer() {
    let logs = ChatLogs(vec![
        msg(1, 5, "Ana", TS, "a", false),
        msg(2, 6, "Bia", TS + 1, "b", true),
        msg(3, 99, "Chell", TS + 2, "c", false),
    ]);
    let expected = format!(
        "MENSAGEM PARA CONTEXTO | TEMPO: {} - NOME DE USUÁRIO:'Ana' disse = a\n\
         ID DA MENSAGEM QUE PRECISA SER RESPONDIDO: 2 | TEMPO: {} - NOME DE USUÁRIO:'Bia' disse = b\n\
         SUA MENSAGEM! | TEMPO: {} - Você respondeu = c\n",
        serenity::model::Timestamp::from_unix_timestamp(TS).unwrap(),
        serenity::model::Timestamp::from_unix_timestamp(TS + 1).unwrap(),
        serenity::model::Timestamp::from_unix_timestamp(TS + 2).unwrap(),
    );
    assert_eq!(logs.build(99, Some(2)), expected);
}

#[test]
fn empty_log_builds_nothing() {
    assert_eq!(ChatLogs(vec![]).build(1, None), "");
}

#[test]
fn extreme_timestamps_are_formatted() {
    let logs = ChatLogs(vec![
        msg(1, 5, "Ana", MIN_UNIX_SECS, "a", true),
        msg(2, 5, "Ana", MAX_UNIX_SECS, "b", true),
    ]);
    let text = logs.build(99, None);
    assert!(text.contains("-262143-01-01T00:00:00.000Z"), "{}", text);
    assert!(text.contains("+262142-12-31T23:59:59.000Z"), "{}", text);
}

#[test]
fn timestamps_just_outside_have_no_date() {
    assert!(serenity::model::Timestamp::from_unix_timestamp(MIN_UNIX_SECS - 1).is_err());
    assert!(serenity::model::Timestamp::from_unix_timestamp(MAX_UNIX_SECS + 1).is_err());
}

#[test]
fn filter_read_keeps_unread_in_order() {
    let mut logs = ChatLogs(vec![
        msg(1, 5, "Ana", TS, "a", false),
        msg(2, 5, "Ana", TS, "b", true),
        msg(3, 5, "Ana", TS, "c", false),
    ]);
    logs.filter_read();
    assert_eq!(logs.get_ids(), vec![1, 3]);
}

#[test]
fn ids_in_order() {
    let logs = ChatLogs(vec![msg(7, 5, "Ana", TS, "a", false), msg(3, 5, "Ana", TS, "b", true)]);
    assert_eq!(logs.get_ids(), vec![7, 3]);
    assert_eq!(ChatLogs(vec![]).get_ids(), Vec::<u64>::new());
}

#[test]
fn marked_messages_are_all_read() {
    let logs = ChatLogs(vec![msg(1, 5, "Ana", TS, "a", false), msg(2, 5, "Ana", TS, "b", true)]);
    let marked = mark_read(logs);
    assert_eq!(marked.len(), 2);
    assert!(marked.iter().all(|m| m.read));
    assert_eq!(marked[0].id, 1);
    assert_eq!(marked[1].message, "b");
    let mut again = ChatLogs(marked);
    again.filter_read();
    assert!(again.0.is_empty());
}

#[test]
fn sorting_is_by_time_and_stable() {
    let sorted = sort_by_timestamp(vec![
        msg(1, 5, "Ana", 30, "a", false),
        msg(2, 5, "Ana", 10, "b", false),
        msg(3, 5, "Ana", 30, "c", false),
        msg(4, 5, "Ana", -5, "d", false),
        msg(5, 5, "Ana", 10, "e", false),
    ]);
    let ids: Vec<u64> = sorted.iter().map(|m| m.id).collect();
    assert_eq!(ids, vec![4, 2, 5, 1, 3]);
}

#[test]
fn sorting_agrees_with_std_stable_sort() {
    let mut input = Vec::new();
    for i in 0..40u64 {
        input.push(msg(i, 1, "x", ((i * 7919) % 13) as i64, "m", false));
    }
    let mut expected = input.clone();
    expected.sort_by(|a, b| a.timestamp.cmp(&b.timestamp));
    let logs = logs_in_time_order(input);
    let got: Vec<u64> = logs.0.iter().map(|m| m.id).collect();
    let want: Vec<u64> = expected.iter().map(|m| m.id).collect();
    assert_eq!(got, want);
}

#[test]
fn new_messages_are_unread_with_default_avatar() {
    let m = new_raw_message(1, 2, "Ana".to_string(), TS, None, "oi".to_string(), Some(9));
    assert_eq!(m.user_image, "NO AVATAR");
    assert!(!m.read);
    assert_eq!(m.reference_id, Some(9));
    let m = new_raw_message(1, 2, "Ana".to_string(), TS, Some("http://a/b.png".to_string()), "oi".to_string(), None);
    assert_eq!(m.user_image, "http://a/b.png");
}

#[test]
fn given_reference_wins() {
    assert_eq!(message_reference(Some(1), Some(2)), Some(1));
    assert_eq!(message_reference(None, Some(2)), Some(2));
    assert_eq!(message_reference(None, None), None);
}

#[test]
fn following_a_reply_chain() {
    let mut conversation = Vec::new();
    let mut first = msg(3, 5, "Ana", 30, "c", false);
    first.reference_id = Some(2);
    assert_eq!(conversation_step(&mut conversation, Some(first)), Some(2));
    let second = msg(2, 6, "Bia", 20, "b", false);
    assert_eq!(conversation_step(&mut conversation, Some(second)), None);
    assert_eq!(conversation_step(&mut conversation, None), None);
    assert_eq!(conversation.len(), 2);
    let logs = logs_in_time_order(conversation);
    assert_eq!(logs.get_ids(), vec![2, 3]);
}
