//! Chat messages as the bot stores them, and the chat log that becomes the
//! language model's prompt.
use vstd::prelude::*;
use crate::text::{decimal_text, u64_text};

verus! {

/// A chat message as it is stored.
#[derive(Debug, Clone)]
pub struct RawMessage {
    pub id: u64,
    pub user: u64,
    pub user_name: String,
    pub timestamp: i64,
    pub user_image: String,
    pub message: String,
    pub reference_id: Option<u64>,
    pub read: bool,
}

/// How many messages were stored from a channel.
#[derive(Debug)]
pub struct SavedMessagesFromChannel {
    pub channel_id: u64,
    pub quantity: usize,
}

/// The text of a message that was stored.
#[derive(Debug)]
pub struct SavedMessage(pub String);

/// A chat log: messages in the order they are to be read.
#[derive(Clone, Debug)]
pub struct ChatLogs(pub Vec<RawMessage>);

// ---------------------------------------------------------------------------
// Timestamps
// ---------------------------------------------------------------------------

/// The earliest UNIX time (in seconds) that has a calendar date.
pub const MIN_UNIX_SECS: i64 = -8334601228800;

/// The latest UNIX time (in seconds) that has a calendar date.
pub const MAX_UNIX_SECS: i64 = 8210266876799;

pub open spec fn timestamp_in_range(secs: i64) -> bool {
    MIN_UNIX_SECS <= secs <= MAX_UNIX_SECS
}

/// The RFC 3339 text, in UTC with milliseconds, of a UNIX time in seconds.
pub uninterp spec fn rfc3339_millis_text(secs: i64) -> Seq<char>;

/// Calls `serenity::model::Timestamp::from_unix_timestamp` and its `Display`
/// (`to_rfc3339_opts(SecondsFormat::Millis, true)` of chrono). The contract
/// claims that every time in `MIN_UNIX_SECS..=MAX_UNIX_SECS` (years -262143
/// to 262142, chrono's calendar range) is accepted, and names the text,
/// a function of `secs` alone; the calendar arithmetic is not stated.
#[verifier::external_body]
fn timestamp_text(secs: i64) -> (text: String)
    requires
        timestamp_in_range(secs),
    ensures
        text@ == rfc3339_millis_text(secs),
{
    serenity::model::Timestamp::from_unix_timestamp(secs).unwrap().to_string()
}

// ---------------------------------------------------------------------------
// The prompt text of a chat log
// ---------------------------------------------------------------------------

/// The part of a line after the message's label: when it was sent, who sent
/// it, and what it says.
pub open spec fn sender_part(m: RawMessage) -> Seq<char> {
    " | TEMPO: "@ + rfc3339_millis_text(m.timestamp) + " - NOME DE USUÁRIO:'"@ + m.user_name@
        + "' disse = "@ + m.message@ + "\n"@
}

/// The line of a message that only gives context.
pub open spec fn context_line(m: RawMessage) -> Seq<char> {
    "MENSAGEM PARA CONTEXTO"@ + sender_part(m)
}

/// The line of a message labelled with its id.
pub open spec fn id_line(label: Seq<char>, m: RawMessage) -> Seq<char> {
    label + decimal_text(m.id as nat) + sender_part(m)
}

/// The line of one message of the log: the bot's own messages are marked as
/// its answers; with a target, the target is labelled as the message to
/// answer and the others are context; without one, unread messages are
/// labelled with their ids and read ones are context.
pub open spec fn message_line(m: RawMessage, bot_id: u64, target: Option<u64>) -> Seq<char> {
    if m.user == bot_id {
        "SUA MENSAGEM! | TEMPO: "@ + rfc3339_millis_text(m.timestamp) + " - Você respondeu = "@
            + m.message@ + "\n"@
    } else {
        match target {
            Some(t) => if m.id == t {
                id_line("ID DA MENSAGEM QUE PRECISA SER RESPONDIDO: "@, m)
            } else {
                context_line(m)
            },
            None => if m.read {
                context_line(m)
            } else {
                id_line("ID DA MENSAGEM: "@, m)
            },
        }
    }
}

/// The lines of all messages, in order, one after the other.
pub open spec fn log_text(msgs: Seq<RawMessage>, bot_id: u64, target: Option<u64>) -> Seq<char>
    decreases msgs.len(),
{
    if msgs.len() == 0 {
        Seq::empty()
    } else {
        log_text(msgs.drop_last(), bot_id, target) + message_line(msgs.last(), bot_id, target)
    }
}

pub open spec fn timestamps_in_range(msgs: Seq<RawMessage>) -> bool {
    forall|i: int| 0 <= i < msgs.len() ==> timestamp_in_range(#[trigger] msgs[i].timestamp)
}

fn sender_part_text(m: &RawMessage) -> (part: String)
    requires
        timestamp_in_range(m.timestamp),
    ensures
        part@ == sender_part(*m),
{
    let mut part = String::from_str(" | TEMPO: ");
    let ts = timestamp_text(m.timestamp);
    part.append(ts.as_str());
    part.append(" - NOME DE USUÁRIO:'");
    part.append(m.user_name.as_str());
    part.append("' disse = ");
    part.append(m.message.as_str());
    part.append("\n");
    part
}

fn message_line_text(m: &RawMessage, bot_id: u64, target: Option<u64>) -> (line: String)
    requires
        timestamp_in_range(m.timestamp),
    ensures
        line@ == message_line(*m, bot_id, target),
{
    if m.user == bot_id {
        let mut line = String::from_str("SUA MENSAGEM! | TEMPO: ");
        let ts = timestamp_text(m.timestamp);
        line.append(ts.as_str());
        line.append(" - Você respondeu = ");
        line.append(m.message.as_str());
        line.append("\n");
        return line;
    }
    let labelled = match target {
        Some(t) => m.id == t,
        None => !m.read,
    };
    if labelled {
        let mut line = match target {
            Some(_) => String::from_str("ID DA MENSAGEM QUE PRECISA SER RESPONDIDO: "),
            None => String::from_str("ID DA MENSAGEM: "),
        };
        let id = u64_text(m.id);
        line.append(id.as_str());
        let part = sender_part_text(m);
        line.append(part.as_str());
        line
    } else {
        let mut line = String::from_str("MENSAGEM PARA CONTEXTO");
        let part = sender_part_text(m);
        line.append(part.as_str());
        line
    }
}

impl ChatLogs {
    /// The prompt text of the log: one line per message, in order (see
    /// `message_line`). The bot's id and the message to answer, if any, are
    /// given by the caller.
    pub fn build(&self, bot_id: u64, target_message_id: Option<u64>) -> (messages: String)
        requires
            timestamps_in_range(self.0@),
        ensures
            messages@ == log_text(self.0@, bot_id, target_message_id),
    {
        let mut messages = String::new();
        let n = self.0.len();
        let mut i: usize = 0;
        while i < n
            invariant
                n == self.0@.len(),
                i <= n,
                timestamps_in_range(self.0@),
                messages@ == log_text(self.0@.take(i as int), bot_id, target_message_id),
            decreases n - i,
        {
            let m = &self.0[i];
            assert(timestamp_in_range(self.0@[i as int].timestamp));
            let line = message_line_text(m, bot_id, target_message_id);
            messages.append(line.as_str());
            assert(self.0@.take(i + 1).drop_last() =~= self.0@.take(i as int));
            i = i + 1;
        }
        assert(self.0@.take(n as int) =~= self.0@);
        messages
    }
}

proof fn lemma_log_text_append(a: Seq<RawMessage>, b: Seq<RawMessage>, bot_id: u64, target: Option<u64>)
    ensures
        log_text(a + b, bot_id, target) == log_text(a, bot_id, target) + log_text(b, bot_id, target),
    decreases b.len(),
{
    if b.len() == 0 {
        assert(a + b =~= a);
        assert(log_text(a, bot_id, target) + log_text(b, bot_id, target) =~= log_text(a, bot_id, target));
    } else {
        lemma_log_text_append(a, b.drop_last(), bot_id, target);
        assert((a + b).drop_last() =~= a + b.drop_last());
        assert((a + b).last() == b.last());
        assert(log_text(a, bot_id, target) + log_text(b.drop_last(), bot_id, target) + message_line(
            b.last(),
            bot_id,
            target,
        ) =~= log_text(a, bot_id, target) + (log_text(b.drop_last(), bot_id, target) + message_line(
            b.last(),
            bot_id,
            target,
        )));
    }
}

/// The prompt text of a log is the text of its first `i` messages, then the
/// line of message `i`, then the text of the messages after it.
pub proof fn law_log_text_splits_at(msgs: Seq<RawMessage>, i: int, bot_id: u64, target: Option<u64>)
    requires
        0 <= i < msgs.len(),
    ensures
        log_text(msgs, bot_id, target) == log_text(msgs.take(i), bot_id, target) + message_line(
            msgs[i],
            bot_id,
            target,
        ) + log_text(msgs.skip(i + 1), bot_id, target),
{
    lemma_log_text_append(msgs.take(i), msgs.skip(i), bot_id, target);
    assert(msgs.take(i) + msgs.skip(i) =~= msgs);
    lemma_log_text_append(seq![msgs[i]], msgs.skip(i + 1), bot_id, target);
    assert(seq![msgs[i]] + msgs.skip(i + 1) =~= msgs.skip(i));
    let one = seq![msgs[i]];
    assert(one.drop_last() =~= Seq::<RawMessage>::empty());
    assert(one.last() == msgs[i]);
    assert(log_text(one.drop_last(), bot_id, target) == Seq::<char>::empty());
    assert(log_text(one, bot_id, target) =~= message_line(msgs[i], bot_id, target));
}

/// A message that the bot itself sent is shown as the bot's answer, whatever
/// message is targeted (or none): its line starts with
/// `SUA MENSAGEM! | TEMPO: `, carries its time and its text, and is the same
/// for every target.
pub proof fn law_own_message_is_marked_as_answer(
    m: RawMessage,
    bot_id: u64,
    target: Option<u64>,
    other_target: Option<u64>,
)
    requires
        m.user == bot_id,
    ensures
        message_line(m, bot_id, target) == message_line(m, bot_id, other_target),
        "SUA MENSAGEM! | TEMPO: "@.is_prefix_of(message_line(m, bot_id, target)),
        message_line(m, bot_id, target) == "SUA MENSAGEM! | TEMPO: "@ + rfc3339_millis_text(
            m.timestamp,
        ) + " - Você respondeu = "@ + m.message@ + "\n"@,
{
    let line = message_line(m, bot_id, target);
    let label = "SUA MENSAGEM! | TEMPO: "@;
    assert(line =~= label + (rfc3339_millis_text(m.timestamp) + " - Você respondeu = "@ + m.message@
        + "\n"@));
    assert(line.subrange(0, label.len() as int) =~= label);
}

/// A user's message (not the bot's) is labelled with its id exactly when it
/// is the target, or, with no target, when it was not read yet; otherwise it
/// is shown as context. Its time, its sender's name and its text follow the
/// label.
pub proof fn law_user_message_lines(m: RawMessage, bot_id: u64, target: Option<u64>)
    requires
        m.user != bot_id,
    ensures
        target == Some(m.id) ==> message_line(m, bot_id, target)
            == "ID DA MENSAGEM QUE PRECISA SER RESPONDIDO: "@ + decimal_text(m.id as nat)
            + " | TEMPO: "@ + rfc3339_millis_text(m.timestamp) + " - NOME DE USUÁRIO:'"@
            + m.user_name@ + "' disse = "@ + m.message@ + "\n"@,
        (target is Some && target != Some(m.id)) || (target is None && m.read) ==> message_line(
            m,
            bot_id,
            target,
        ) == "MENSAGEM PARA CONTEXTO | TEMPO: "@ + rfc3339_millis_text(m.timestamp)
            + " - NOME DE USUÁRIO:'"@ + m.user_name@ + "' disse = "@ + m.message@ + "\n"@,
        target is None && !m.read ==> message_line(m, bot_id, target) == "ID DA MENSAGEM: "@
            + decimal_text(m.id as nat) + " | TEMPO: "@ + rfc3339_millis_text(m.timestamp)
            + " - NOME DE USUÁRIO:'"@ + m.user_name@ + "' disse = "@ + m.message@ + "\n"@,
{
    let tail = rfc3339_millis_text(m.timestamp) + " - NOME DE USUÁRIO:'"@ + m.user_name@
        + "' disse = "@ + m.message@ + "\n"@;
    reveal_strlit("MENSAGEM PARA CONTEXTO | TEMPO: ");
    reveal_strlit("MENSAGEM PARA CONTEXTO");
    reveal_strlit(" | TEMPO: ");
    assert("MENSAGEM PARA CONTEXTO | TEMPO: "@ =~= "MENSAGEM PARA CONTEXTO"@ + " | TEMPO: "@);
    assert(context_line(m) =~= "MENSAGEM PARA CONTEXTO | TEMPO: "@ + tail);
    assert("MENSAGEM PARA CONTEXTO | TEMPO: "@ + rfc3339_millis_text(m.timestamp)
        + " - NOME DE USUÁRIO:'"@ + m.user_name@ + "' disse = "@ + m.message@ + "\n"@
        =~= "MENSAGEM PARA CONTEXTO | TEMPO: "@ + tail);
    let l1 = "ID DA MENSAGEM QUE PRECISA SER RESPONDIDO: "@;
    let l2 = "ID DA MENSAGEM: "@;
    assert(id_line(l1, m) =~= l1 + decimal_text(m.id as nat) + " | TEMPO: "@ + rfc3339_millis_text(
        m.timestamp,
    ) + " - NOME DE USUÁRIO:'"@ + m.user_name@ + "' disse = "@ + m.message@ + "\n"@);
    assert(id_line(l2, m) =~= l2 + decimal_text(m.id as nat) + " | TEMPO: "@ + rfc3339_millis_text(
        m.timestamp,
    ) + " - NOME DE USUÁRIO:'"@ + m.user_name@ + "' disse = "@ + m.message@ + "\n"@);
}

/// In the prompt of any log, each message that the bot itself sent stands,
/// in its place, as the bot's answer, whatever message is targeted: the
/// same text as with no target at all.
pub proof fn law_own_messages_ignore_target(msgs: Seq<RawMessage>, i: int, bot_id: u64, target: Option<u64>)
    requires
        0 <= i < msgs.len(),
        msgs[i].user == bot_id,
    ensures
        log_text(msgs, bot_id, target) == log_text(msgs.take(i), bot_id, target)
            + "SUA MENSAGEM! | TEMPO: "@ + rfc3339_millis_text(msgs[i].timestamp)
            + " - Você respondeu = "@ + msgs[i].message@ + "\n"@ + log_text(
            msgs.skip(i + 1),
            bot_id,
            target,
        ),
        message_line(msgs[i], bot_id, target) == message_line(msgs[i], bot_id, None),
{
    law_log_text_splits_at(msgs, i, bot_id, target);
    law_own_message_is_marked_as_answer(msgs[i], bot_id, target, None);
}

/// A log of the bot's own messages only gives the same prompt whatever
/// message is targeted.
pub proof fn law_own_log_ignores_target(msgs: Seq<RawMessage>, bot_id: u64, target: Option<u64>, other_target: Option<u64>)
    requires
        forall|i: int| 0 <= i < msgs.len() ==> (#[trigger] msgs[i]).user == bot_id,
    ensures
        log_text(msgs, bot_id, target) == log_text(msgs, bot_id, other_target),
    decreases msgs.len(),
{
    if msgs.len() > 0 {
        let d = msgs.drop_last();
        assert forall|i: int| 0 <= i < d.len() implies (#[trigger] d[i]).user == bot_id by {
            assert(d[i] == msgs[i]);
        }
        law_own_log_ignores_target(d, bot_id, target, other_target);
        law_own_message_is_marked_as_answer(msgs.last(), bot_id, target, other_target);
    }
}

/// The messages not read yet, in order.
pub open spec fn unread_messages(msgs: Seq<RawMessage>) -> Seq<RawMessage> {
    msgs.filter(|m: RawMessage| !m.read)
}

impl ChatLogs {
    /// Keeps only the messages that were not read yet, in order.
    pub fn filter_read(&mut self)
        ensures
            final(self).0@ == unread_messages(old(self).0@),
    {
        let mut all: Vec<RawMessage> = Vec::new();
        std::mem::swap(&mut all, &mut self.0);
        let ghost whole = all@;
        let mut kept: Vec<RawMessage> = Vec::new();
        for m in it: all.into_iter()
            invariant
                it.seq() == whole,
                kept@ == unread_messages(whole.take(it.index() as int)),
        {
            proof {
                let i = it.index();
                reveal(Seq::filter);
                assert(whole.take(i + 1).drop_last() =~= whole.take(i as int));
                assert(whole.take(i + 1).last() == m);
            }
            if !m.read {
                kept.push(m);
            }
        }
        assert(whole.take(whole.len() as int) =~= whole);
        self.0 = kept;
    }

    /// The ids of the messages, in order.
    pub fn get_ids(&self) -> (ids: Vec<u64>)
        ensures
            ids@ == self.0@.map_values(|m: RawMessage| m.id),
    {
        let mut ids: Vec<u64> = Vec::new();
        let n = self.0.len();
        for i in 0..n
            invariant
                n == self.0@.len(),
                ids@ == self.0@.take(i as int).map_values(|m: RawMessage| m.id),
        {
            ids.push(self.0[i].id);
            assert(self.0@.take(i + 1).map_values(|m: RawMessage| m.id) =~= self.0@.take(
                i as int,
            ).map_values(|m: RawMessage| m.id).push(self.0@[i as int].id));
        }
        assert(self.0@.take(n as int) =~= self.0@);
        ids
    }
}

/// A message marked as read.
pub open spec fn as_read(m: RawMessage) -> RawMessage {
    RawMessage { read: true, ..m }
}

/// The messages of the log, each marked as read, in order: what is written
/// back to the store once the bot has answered them.
pub fn mark_read(logs: ChatLogs) -> (marked: Vec<RawMessage>)
    ensures
        marked@ == logs.0@.map_values(|m: RawMessage| as_read(m)),
{
    let ghost all = logs.0@;
    let mut marked: Vec<RawMessage> = Vec::new();
    for m in it: logs.0.into_iter()
        invariant
            it.seq() == all,
            marked@ == all.take(it.index() as int).map_values(|m: RawMessage| as_read(m)),
    {
        let ghost i = it.index();
        marked.push(RawMessage { read: true, ..m });
        assert(all.take(i + 1).map_values(|m: RawMessage| as_read(m)) =~= all.take(
            i as int,
        ).map_values(|m: RawMessage| as_read(m)).push(as_read(all[i as int])));
    }
    assert(all.take(all.len() as int) =~= all);
    marked
}

/// Once the messages of a log are marked as read, none of them is unread.
pub proof fn law_marked_messages_are_read(msgs: Seq<RawMessage>)
    ensures
        unread_messages(msgs.map_values(|m: RawMessage| as_read(m))) == Seq::<RawMessage>::empty(),
    decreases msgs.len(),
{
    let marked = msgs.map_values(|m: RawMessage| as_read(m));
    reveal(Seq::filter);
    if msgs.len() > 0 {
        law_marked_messages_are_read(msgs.drop_last());
        assert(marked.drop_last() =~= msgs.drop_last().map_values(|m: RawMessage| as_read(m)));
        assert(marked.last().read);
    }
    assert(unread_messages(marked) =~= Seq::<RawMessage>::empty());
}

/// Marking messages as read keeps them, in order, with their ids.
pub proof fn law_marking_read_keeps_ids(msgs: Seq<RawMessage>)
    ensures
        msgs.map_values(|m: RawMessage| as_read(m)).map_values(|m: RawMessage| m.id)
            == msgs.map_values(|m: RawMessage| m.id),
{
    assert(msgs.map_values(|m: RawMessage| as_read(m)).map_values(|m: RawMessage| m.id)
        =~= msgs.map_values(|m: RawMessage| m.id));
}

// ---------------------------------------------------------------------------
// Ordering by time
// ---------------------------------------------------------------------------

/// `m` placed into `sorted` right after the last message whose time is not
/// later than its own.
pub open spec fn insert_by_time(sorted: Seq<RawMessage>, m: RawMessage) -> Seq<RawMessage>
    decreases sorted.len(),
{
    if sorted.len() == 0 {
        seq![m]
    } else if sorted.last().timestamp <= m.timestamp {
        sorted.push(m)
    } else {
        insert_by_time(sorted.drop_last(), m).push(sorted.last())
    }
}

/// The messages ordered by time, oldest first; messages of the same time keep
/// the order they had (a stable sort, as `slice::sort_by` is).
pub open spec fn sorted_by_time(msgs: Seq<RawMessage>) -> Seq<RawMessage>
    decreases msgs.len(),
{
    if msgs.len() == 0 {
        Seq::empty()
    } else {
        insert_by_time(sorted_by_time(msgs.drop_last()), msgs.last())
    }
}

pub open spec fn time_ordered(msgs: Seq<RawMessage>) -> bool {
    forall|i: int, j: int|
        0 <= i < j < msgs.len() ==> #[trigger] msgs[i].timestamp <= #[trigger] msgs[j].timestamp
}

proof fn lemma_insert_at(s: Seq<RawMessage>, m: RawMessage, p: int)
    requires
        0 <= p <= s.len(),
        p == 0 || s[p - 1].timestamp <= m.timestamp,
        forall|k: int| p <= k < s.len() ==> #[trigger] s[k].timestamp > m.timestamp,
    ensures
        insert_by_time(s, m) == s.take(p).push(m) + s.skip(p),
    decreases s.len(),
{
    if s.len() == 0 {
        assert(s.take(p).push(m) + s.skip(p) =~= seq![m]);
    } else if s.last().timestamp <= m.timestamp {
        assert(p == s.len());
        assert(s.take(p).push(m) + s.skip(p) =~= s.push(m));
    } else {
        assert(p < s.len());
        let d = s.drop_last();
        lemma_insert_at(d, m, p);
        assert(d.take(p).push(m) + d.skip(p) + seq![s.last()] =~= s.take(p).push(m) + s.skip(p));
        assert(insert_by_time(d, m).push(s.last()) =~= insert_by_time(d, m) + seq![s.last()]);
    }
}

proof fn lemma_insert_multiset(s: Seq<RawMessage>, m: RawMessage)
    ensures
        insert_by_time(s, m).to_multiset() == s.to_multiset().insert(m),
    decreases s.len(),
{
    broadcast use vstd::seq_lib::group_to_multiset_ensures;

    if s.len() == 0 {
        assert(seq![m] =~= s.push(m));
    } else if s.last().timestamp <= m.timestamp {
    } else {
        let d = s.drop_last();
        lemma_insert_multiset(d, m);
        assert(d.push(s.last()) =~= s);
        assert(insert_by_time(s, m).to_multiset() =~= s.to_multiset().insert(m));
    }
}

proof fn lemma_insert_ordered(s: Seq<RawMessage>, m: RawMessage)
    requires
        time_ordered(s),
    ensures
        time_ordered(insert_by_time(s, m)),
    decreases s.len(),
{
    broadcast use vstd::seq_lib::group_to_multiset_ensures;

    if s.len() == 0 {
    } else if s.last().timestamp <= m.timestamp {
        let r = s.push(m);
        assert forall|i: int, j: int| 0 <= i < j < r.len() implies #[trigger] r[i].timestamp
            <= #[trigger] r[j].timestamp by {
            if j == s.len() && i < s.len() - 1 {
                assert(s[i].timestamp <= s[s.len() - 1].timestamp);
            }
        }
    } else {
        let d = s.drop_last();
        let last = s.last();
        assert(time_ordered(d));
        lemma_insert_ordered(d, m);
        lemma_insert_multiset(d, m);
        let r0 = insert_by_time(d, m);
        let r = r0.push(last);
        assert forall|k: int| 0 <= k < r0.len() implies #[trigger] r0[k].timestamp
            <= last.timestamp by {
            let x = r0[k];
            assert(r0.to_multiset().count(x) > 0);
            if x != m {
                assert(d.to_multiset().count(x) > 0);
                assert(d.contains(x));
                let j = choose|j: int| 0 <= j < d.len() && d[j] == x;
                assert(s[j] == x);
                assert(s[j].timestamp <= s[s.len() - 1].timestamp);
            }
        }
        assert forall|i: int, j: int| 0 <= i < j < r.len() implies #[trigger] r[i].timestamp
            <= #[trigger] r[j].timestamp by {
            if j == r0.len() {
                assert(r[i] == r0[i]);
            } else {
                assert(r[i] == r0[i]);
                assert(r[j] == r0[j]);
            }
        }
    }
}

/// Ordering by time gives messages in time order.
pub proof fn law_sorted_by_time_is_ordered(msgs: Seq<RawMessage>)
    ensures
        time_ordered(sorted_by_time(msgs)),
    decreases msgs.len(),
{
    if msgs.len() > 0 {
        law_sorted_by_time_is_ordered(msgs.drop_last());
        lemma_insert_ordered(sorted_by_time(msgs.drop_last()), msgs.last());
    }
}

/// Ordering by time neither adds, drops nor changes a message.
pub proof fn law_sorted_by_time_keeps_messages(msgs: Seq<RawMessage>)
    ensures
        sorted_by_time(msgs).to_multiset() == msgs.to_multiset(),
    decreases msgs.len(),
{
    broadcast use vstd::seq_lib::group_to_multiset_ensures;

    if msgs.len() == 0 {
        assert(sorted_by_time(msgs) =~= msgs);
    } else {
        let d = msgs.drop_last();
        law_sorted_by_time_keeps_messages(d);
        lemma_insert_multiset(sorted_by_time(d), msgs.last());
        assert(d.push(msgs.last()) =~= msgs);
    }
}

/// Orders messages by time, oldest first, keeping the order of messages of
/// the same time.
pub fn sort_by_timestamp(messages: Vec<RawMessage>) -> (sorted: Vec<RawMessage>)
    ensures
        sorted@ == sorted_by_time(messages@),
{
    let ghost whole = messages@;
    let mut sorted: Vec<RawMessage> = Vec::new();
    for m in it: messages.into_iter()
        invariant
            it.seq() == whole,
            sorted@ == sorted_by_time(whole.take(it.index() as int)),
    {
        let ghost i = it.index();
        let mut p = sorted.len();
        while p > 0 && sorted[p - 1].timestamp > m.timestamp
            invariant
                p <= sorted@.len(),
                forall|k: int| p <= k < sorted@.len() ==> #[trigger] sorted@[k].timestamp
                    > m.timestamp,
            decreases p,
        {
            p = p - 1;
        }
        proof {
            lemma_insert_at(sorted@, m, p as int);
            assert(whole.take(i + 1).drop_last() =~= whole.take(i as int));
            assert(whole.take(i + 1).last() == m);
            assert(sorted@.insert(p as int, m) =~= sorted@.take(p as int).push(m) + sorted@.skip(
                p as int,
            ));
        }
        sorted.insert(p, m);
    }
    assert(whole.take(whole.len() as int) =~= whole);
    sorted
}

/// A chat log of the given messages in time order.
pub fn logs_in_time_order(messages: Vec<RawMessage>) -> (logs: ChatLogs)
    ensures
        logs.0@ == sorted_by_time(messages@),
{
    ChatLogs(sort_by_timestamp(messages))
}

// ---------------------------------------------------------------------------
// Storing messages and following replies
// ---------------------------------------------------------------------------

/// A chat message as it is first stored: not read yet, and with the text
/// `NO AVATAR` in place of a missing avatar.
pub fn new_raw_message(
    id: u64,
    user: u64,
    user_name: String,
    timestamp: i64,
    avatar_url: Option<String>,
    message: String,
    reference_id: Option<u64>,
) -> (m: RawMessage)
    ensures
        m.id == id,
        m.user == user,
        m.user_name == user_name,
        m.timestamp == timestamp,
        m.user_image@ == (match avatar_url {
            Some(url) => url@,
            None => "NO AVATAR"@,
        }),
        m.message == message,
        m.reference_id == reference_id,
        !m.read,
{
    let user_image = match avatar_url {
        Some(url) => url,
        None => String::from_str("NO AVATAR"),
    };
    RawMessage { id, user, user_name, timestamp, user_image, message, reference_id, read: false }
}

/// The message a new message refers to: the one given by the caller, else the
/// one the chat says it replies to.
pub fn message_reference(pre_defined: Option<u64>, replied_to: Option<u64>) -> (reference: Option<u64>)
    ensures
        reference == (match pre_defined {
            Some(r) => Some(r),
            None => replied_to,
        }),
{
    match pre_defined {
        Some(r) => Some(r),
        None => replied_to,
    }
}

/// One step of following a chain of replies back through the store: a
/// message that was found joins the conversation and the step answers the
/// message it replies to, which is the next to look up; when the lookup failed
/// the conversation stays as it is and the walk ends.
pub fn conversation_step(conversation: &mut Vec<RawMessage>, found: Option<RawMessage>) -> (next: Option<u64>)
    ensures
        match found {
            Some(m) => final(conversation)@ == old(conversation)@.push(m) && next == m.reference_id,
            None => final(conversation)@ == old(conversation)@ && next is None,
        },
{
    match found {
        Some(m) => {
            let next = m.reference_id;
            conversation.push(m);
            next
        },
        None => None,
    }
}

} // verus!
