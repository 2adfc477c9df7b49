//! Topics: the words of a chat log that are not stop words, which the bot
//! uses to look up its memories.
use vstd::prelude::*;
use crate::chat_logs::{ChatLogs, RawMessage};
use crate::text::{
    flush_piece, is_white_space, json_string, json_string_text, lowercase, split_whitespace,
    to_lowercase_text, views, words, words_from,
};
use crate::utils::UtilsError;

verus! {

/// The topics of a chat log, the most recent word first.
#[derive(Debug, Clone)]
pub struct Topics(Vec<String>);

/// The stop-word list of a language, as the stop-word crate hands it out
/// (each word in its JSON text, quotes included).
pub uninterp spec fn stop_word_list(language: Seq<char>) -> Seq<Seq<char>>;

/// Calls `stop_words::get` with a two-letter language code. The contract names
/// the list, a function of the code alone (the crate reads it from data built
/// into it); it admits only `"pt"`, the code this library asks for, since the
/// crate panics on codes it does not know.
#[verifier::external_body]
fn stop_words_for(language: &str) -> (list: Vec<String>)
    requires
        language@ == "pt"@,
    ensures
        views(list@) == stop_word_list(language@),
{
    stop_words::get(language)
}

/// The whitespace-separated words of each message of the log, message by
/// message, in order; no word spans two messages.
pub open spec fn log_words(msgs: Seq<RawMessage>) -> Seq<Seq<char>>
    decreases msgs.len(),
{
    if msgs.len() == 0 {
        Seq::empty()
    } else {
        log_words(msgs.drop_last()) + words(msgs.last().message@)
    }
}

/// A word is a stop word when the JSON text of its lower-case form is on the
/// stop-word list.
pub open spec fn is_stop_word(word: Seq<char>, stop: Seq<Seq<char>>) -> bool {
    stop.contains(json_string(lowercase(word)))
}

/// The words that are not stop words, in order.
pub open spec fn content_words(ws: Seq<Seq<char>>, stop: Seq<Seq<char>>) -> Seq<Seq<char>>
    decreases ws.len(),
{
    if ws.len() == 0 {
        Seq::empty()
    } else {
        let rest = content_words(ws.drop_last(), stop);
        if is_stop_word(ws.last(), stop) {
            rest
        } else {
            rest.push(ws.last())
        }
    }
}

/// The topics of a log: the words of its messages (see `log_words`),
/// without the stop words, last word first.
pub open spec fn topic_words(msgs: Seq<RawMessage>, stop: Seq<Seq<char>>) -> Seq<Seq<char>> {
    content_words(log_words(msgs), stop).reverse()
}

/// The Portuguese stop words.
pub open spec fn portuguese_stop_words() -> Seq<Seq<char>> {
    stop_word_list("pt"@)
}

fn is_listed(list: &Vec<String>, item: &String) -> (res: bool)
    ensures
        res == views(list@).contains(item@),
{
    let n = list.len();
    for i in 0..n
        invariant
            n == list@.len(),
            forall|k: int| 0 <= k < i ==> views(list@)[k] != item@,
    {
        if list[i] == *item {
            assert(views(list@)[i as int] == item@);
            return true;
        }
    }
    false
}

proof fn lemma_content_words_append(a: Seq<Seq<char>>, b: Seq<Seq<char>>, stop: Seq<Seq<char>>)
    ensures
        content_words(a + b, stop) == content_words(a, stop) + content_words(b, stop),
    decreases b.len(),
{
    if b.len() == 0 {
        assert(a + b =~= a);
        assert(content_words(a, stop) + content_words(b, stop) =~= content_words(a, stop));
    } else {
        lemma_content_words_append(a, b.drop_last(), stop);
        assert((a + b).drop_last() =~= a + b.drop_last());
        assert((a + b).last() == b.last());
        if is_stop_word(b.last(), stop) {
        } else {
            assert(content_words(a, stop) + content_words(b.drop_last(), stop).push(b.last())
                =~= (content_words(a, stop) + content_words(b.drop_last(), stop)).push(b.last()));
        }
    }
}

/// Appends to `kept` the words of `ws` that are not stop words, in order.
fn keep_content_words(kept: &mut Vec<String>, ws: Vec<String>, stopwords: &Vec<String>)
    ensures
        views(final(kept)@) == views(old(kept)@) + content_words(views(ws@), views(stopwords@)),
{
    let ghost start = views(kept@);
    let ghost all_words = views(ws@);
    let ghost stop = views(stopwords@);
    assert(all_words.take(0) =~= Seq::<Seq<char>>::empty());
    assert(start + content_words(Seq::<Seq<char>>::empty(), stop) =~= start);
    for w in it: ws.into_iter()
        invariant
            views(it.seq()) == all_words,
            views(stopwords@) == stop,
            views(kept@) == start + content_words(all_words.take(it.index() as int), stop),
    {
        let ghost i = it.index();
        assert(all_words.take(i + 1).drop_last() =~= all_words.take(i as int));
        assert(all_words[i as int] == w@);
        let lower = to_lowercase_text(w.as_str());
        let quoted = json_string_text(lower.as_str());
        let ghost before = views(kept@);
        if !is_listed(stopwords, &quoted) {
            kept.push(w);
            assert(views(kept@) =~= before.push(all_words[i as int]));
            assert(start + content_words(all_words.take(i as int), stop).push(all_words[i as int])
                =~= (start + content_words(all_words.take(i as int), stop)).push(all_words[i as int]));
        }
    }
    assert(all_words.take(all_words.len() as int) =~= all_words);
}

impl Topics {
    /// The topics, in order.
    pub closed spec fn view_words(&self) -> Seq<Seq<char>> {
        views(self.0@)
    }

    /// The topics of a chat log (see `topic_words`), with the Portuguese stop
    /// words left out. It never fails.
    pub fn from_logs(logs: &ChatLogs) -> (res: Result<Topics, UtilsError>)
        ensures
            res matches Ok(t) && t.view_words() == topic_words(logs.0@, portuguese_stop_words()),
    {
        proof { reveal_strlit("pt"); }
        let stopwords = stop_words_for("pt");
        let ghost stop = views(stopwords@);
        let mut kept: Vec<String> = Vec::new();
        let n = logs.0.len();
        for i in 0..n
            invariant
                n == logs.0@.len(),
                views(stopwords@) == stop,
                views(kept@) == content_words(log_words(logs.0@.take(i as int)), stop),
        {
            let ws = split_whitespace(logs.0[i].message.as_str());
            let ghost before = log_words(logs.0@.take(i as int));
            keep_content_words(&mut kept, ws, &stopwords);
            proof {
                assert(logs.0@.take(i + 1).drop_last() =~= logs.0@.take(i as int));
                assert(logs.0@.take(i + 1).last() == logs.0@[i as int]);
                lemma_content_words_append(before, words(logs.0@[i as int].message@), stop);
            }
        }
        assert(logs.0@.take(n as int) =~= logs.0@);
        let ghost content = views(kept@);
        let mut topics: Vec<String> = Vec::new();
        let mut k = kept.len();
        while k > 0
            invariant
                k == kept@.len(),
                k <= content.len(),
                views(kept@) == content.take(k as int),
                views(topics@) == content.skip(k as int).reverse(),
            decreases k,
        {
            let ghost before = views(topics@);
            let ghost old_kept = kept@;
            let w = kept.pop().unwrap();
            k = k - 1;
            assert(views(old_kept)[k as int] == w@);
            assert(content.take(k + 1)[k as int] == content[k as int]);
            topics.push(w);
            assert(views(topics@) =~= before.push(w@));
            assert(views(kept@) =~= content.take(k as int));
            assert(content.skip(k as int).reverse() =~= before.push(content[k as int]));
        }
        assert(content.skip(0) =~= content);
        Ok(Topics(topics))
    }
}

/// The search query for a list of topics: each topic followed by ` or `.
pub open spec fn query_text(topics: Seq<Seq<char>>) -> Seq<char>
    decreases topics.len(),
{
    if topics.len() == 0 {
        Seq::empty()
    } else {
        query_text(topics.drop_last()) + topics.last() + " or "@
    }
}

impl Topics {
    /// The search query of the topics (see `query_text`).
    pub fn to_query(&self) -> (topics_query_text: String)
        ensures
            topics_query_text@ == query_text(self.view_words()),
    {
        let mut topics_query_text = String::new();
        let n = self.0.len();
        for i in 0..n
            invariant
                n == self.0@.len(),
                topics_query_text@ == query_text(views(self.0@).take(i as int)),
        {
            topics_query_text.append(self.0[i].as_str());
            topics_query_text.append(" or ");
            assert(views(self.0@).take(i + 1).drop_last() =~= views(self.0@).take(i as int));
            assert(views(self.0@).take(i + 1).last() == self.0@[i as int]@);
        }
        assert(views(self.0@).take(n as int) =~= views(self.0@));
        topics_query_text
    }
}

/// A word: some chars, none of them whitespace.
pub open spec fn is_word(w: Seq<char>) -> bool {
    w.len() > 0 && forall|k: int| 0 <= k < w.len() ==> !is_white_space(#[trigger] w[k])
}

proof fn lemma_words_from_are_words(s: Seq<char>, cur: Seq<char>)
    requires
        forall|k: int| 0 <= k < cur.len() ==> !is_white_space(#[trigger] cur[k]),
    ensures
        forall|i: int| 0 <= i < words_from(s, cur).len() ==> is_word(#[trigger] words_from(s, cur)[i]),
    decreases s.len(),
{
    let f = flush_piece(cur);
    assert(forall|i: int| 0 <= i < f.len() ==> #[trigger] f[i] == cur && cur.len() > 0);
    if s.len() == 0 {
        assert(words_from(s, cur) == f);
        if cur.len() > 0 {
            assert(is_word(cur));
        }
    } else if is_white_space(s[0]) {
        lemma_words_from_are_words(s.drop_first(), Seq::empty());
        let r = words_from(s.drop_first(), Seq::empty());
        assert(words_from(s, cur) == f + r);
        assert forall|i: int| 0 <= i < (f + r).len() implies is_word(#[trigger] (f + r)[i]) by {
            if i >= f.len() {
                assert((f + r)[i] == r[i - f.len()]);
            } else {
                assert((f + r)[i] == f[i]);
            }
        }
    } else {
        let c2 = cur.push(s[0]);
        assert forall|k: int| 0 <= k < c2.len() implies !is_white_space(#[trigger] c2[k]) by {
            if k < cur.len() {
                assert(c2[k] == cur[k]);
            }
        }
        lemma_words_from_are_words(s.drop_first(), c2);
        assert(words_from(s, cur) == words_from(s.drop_first(), c2));
    }
}

proof fn lemma_content_words(ws: Seq<Seq<char>>, stop: Seq<Seq<char>>)
    ensures
        forall|i: int| 0 <= i < content_words(ws, stop).len() ==> {
            &&& ws.contains(#[trigger] content_words(ws, stop)[i])
            &&& !is_stop_word(content_words(ws, stop)[i], stop)
        },
    decreases ws.len(),
{
    if ws.len() > 0 {
        let d = ws.drop_last();
        lemma_content_words(d, stop);
        let c = content_words(ws, stop);
        assert forall|i: int| 0 <= i < c.len() implies ws.contains(#[trigger] c[i])
            && !is_stop_word(c[i], stop) by {
            if i < content_words(d, stop).len() {
                assert(c[i] == content_words(d, stop)[i]);
                let j = choose|j: int| 0 <= j < d.len() && d[j] == c[i];
                assert(ws[j] == d[j]);
            } else {
                assert(c[i] == ws[ws.len() - 1]);
            }
        }
    }
}

proof fn lemma_log_words_are_words(msgs: Seq<RawMessage>)
    ensures
        forall|i: int| 0 <= i < log_words(msgs).len() ==> is_word(#[trigger] log_words(msgs)[i]),
    decreases msgs.len(),
{
    if msgs.len() > 0 {
        let d = log_words(msgs.drop_last());
        let w = words(msgs.last().message@);
        lemma_log_words_are_words(msgs.drop_last());
        lemma_words_from_are_words(msgs.last().message@, Seq::empty());
        assert forall|i: int| 0 <= i < (d + w).len() implies is_word(#[trigger] (d + w)[i]) by {
            if i < d.len() {
                assert((d + w)[i] == d[i]);
            } else {
                assert((d + w)[i] == w[i - d.len()]);
            }
        }
    }
}

proof fn lemma_log_words_append(a: Seq<RawMessage>, b: Seq<RawMessage>)
    ensures
        log_words(a + b) == log_words(a) + log_words(b),
    decreases b.len(),
{
    if b.len() == 0 {
        assert(a + b =~= a);
        assert(log_words(a) + log_words(b) =~= log_words(a));
    } else {
        lemma_log_words_append(a, b.drop_last());
        assert((a + b).drop_last() =~= a + b.drop_last());
        assert((a + b).last() == b.last());
        assert(log_words(a) + log_words(b.drop_last()) + words(b.last().message@) =~= log_words(a)
            + (log_words(b.drop_last()) + words(b.last().message@)));
    }
}

/// The topics of two logs one after the other are the later log's topics
/// followed by the earlier log's: each message gives its own words and no
/// topic spans two messages.
pub proof fn law_topics_of_joined_logs(a: Seq<RawMessage>, b: Seq<RawMessage>, stop: Seq<Seq<char>>)
    ensures
        topic_words(a + b, stop) == topic_words(b, stop) + topic_words(a, stop),
{
    lemma_log_words_append(a, b);
    lemma_content_words_append(log_words(a), log_words(b), stop);
    let ca = content_words(log_words(a), stop);
    let cb = content_words(log_words(b), stop);
    assert((ca + cb).reverse() =~= cb.reverse() + ca.reverse());
}

/// Every topic is a word of the log's messages (some chars, no whitespace)
/// and none is a stop word.
pub proof fn law_topics_are_content_words(msgs: Seq<RawMessage>, stop: Seq<Seq<char>>)
    ensures
        forall|i: int| 0 <= i < topic_words(msgs, stop).len() ==> {
            &&& is_word(#[trigger] topic_words(msgs, stop)[i])
            &&& !is_stop_word(topic_words(msgs, stop)[i], stop)
        },
{
    let ws = log_words(msgs);
    lemma_log_words_are_words(msgs);
    lemma_content_words(ws, stop);
    let c = content_words(ws, stop);
    let t = topic_words(msgs, stop);
    assert forall|i: int| 0 <= i < t.len() implies is_word(#[trigger] t[i]) && !is_stop_word(
        t[i],
        stop,
    ) by {
        assert(t[i] == c[c.len() - 1 - i]);
        assert(ws.contains(c[c.len() - 1 - i]));
        let j = choose|j: int| 0 <= j < ws.len() && ws[j] == c[c.len() - 1 - i];
        assert(is_word(ws[j]));
    }
}


proof fn lemma_kept_word_is_content_word(ws: Seq<Seq<char>>, j: int, stop: Seq<Seq<char>>)
    requires
        0 <= j < ws.len(),
        !is_stop_word(ws[j], stop),
    ensures
        content_words(ws, stop).contains(ws[j]),
    decreases ws.len(),
{
    let c = content_words(ws, stop);
    if j == ws.len() - 1 {
        assert(c[c.len() - 1] == ws[j]);
    } else {
        let d = ws.drop_last();
        assert(d[j] == ws[j]);
        lemma_kept_word_is_content_word(d, j, stop);
        let cd = content_words(d, stop);
        let k = choose|k: int| 0 <= k < cd.len() && cd[k] == ws[j];
        assert(c[k] == cd[k]);
    }
}

/// Every word of every message of the log, read or not, that is not a stop
/// word is one of the log's topics.
pub proof fn law_every_content_word_is_a_topic(msgs: Seq<RawMessage>, stop: Seq<Seq<char>>, i: int, j: int)
    requires
        0 <= i < msgs.len(),
        0 <= j < words(msgs[i].message@).len(),
        !is_stop_word(words(msgs[i].message@)[j], stop),
    ensures
        topic_words(msgs, stop).contains(words(msgs[i].message@)[j]),
{
    let w = words(msgs[i].message@)[j];
    let before = msgs.take(i);
    let one = seq![msgs[i]];
    let after = msgs.skip(i + 1);
    assert(before + one + after =~= msgs);
    lemma_log_words_append(before + one, after);
    lemma_log_words_append(before, one);
    assert(one.drop_last() =~= Seq::<RawMessage>::empty());
    assert(one.last() == msgs[i]);
    assert(log_words(one.drop_last()) == Seq::<Seq<char>>::empty());
    assert(log_words(one) =~= words(msgs[i].message@));
    let lw = log_words(msgs);
    let p = log_words(before).len() + j;
    assert(lw == log_words(before) + words(msgs[i].message@) + log_words(after));
    assert(lw[p] == w);
    lemma_kept_word_is_content_word(lw, p, stop);
    let c = content_words(lw, stop);
    let k = choose|k: int| 0 <= k < c.len() && c[k] == w;
    assert(c.reverse()[c.len() - 1 - k] == w);
}

/// The topics of a log depend only on the texts of its messages: two logs
/// whose messages have the same texts, in the same order, have the same
/// topics, whoever sent them and whether they were read or not.
pub proof fn law_topics_depend_only_on_texts(a: Seq<RawMessage>, b: Seq<RawMessage>, stop: Seq<Seq<char>>)
    requires
        a.len() == b.len(),
        forall|i: int| 0 <= i < a.len() ==> (#[trigger] a[i]).message@ == b[i].message@,
    ensures
        topic_words(a, stop) == topic_words(b, stop),
{
    lemma_log_words_same_texts(a, b);
}

proof fn lemma_log_words_same_texts(a: Seq<RawMessage>, b: Seq<RawMessage>)
    requires
        a.len() == b.len(),
        forall|i: int| 0 <= i < a.len() ==> (#[trigger] a[i]).message@ == b[i].message@,
    ensures
        log_words(a) == log_words(b),
    decreases a.len(),
{
    if a.len() > 0 {
        let da = a.drop_last();
        let db = b.drop_last();
        assert forall|i: int| 0 <= i < da.len() implies (#[trigger] da[i]).message@ == db[i].message@ by {
            assert(da[i] == a[i]);
            assert(db[i] == b[i]);
        }
        lemma_log_words_same_texts(da, db);
        assert(a.last().message@ == b.last().message@);
    }
}


/// The query of a single topic is that topic followed by ` or `.
pub proof fn law_query_of_one_topic(t: Seq<char>)
    ensures
        query_text(seq![t]) == t + " or "@,
{
    let one = seq![t];
    assert(one.drop_last() =~= Seq::<Seq<char>>::empty());
    assert(query_text(one.drop_last()) == Seq::<char>::empty());
    assert(query_text(one) =~= t + " or "@);
}

/// The query of two lists of topics, one after the other, is the query of
/// the first followed by the query of the second: every topic is kept, in
/// order.
pub proof fn law_query_joins(a: Seq<Seq<char>>, b: Seq<Seq<char>>)
    ensures
        query_text(a + b) == query_text(a) + query_text(b),
    decreases b.len(),
{
    if b.len() == 0 {
        assert(a + b =~= a);
        assert(query_text(a) + query_text(b) =~= query_text(a));
    } else {
        law_query_joins(a, b.drop_last());
        assert((a + b).drop_last() =~= a + b.drop_last());
        assert((a + b).last() == b.last());
        assert(query_text(a) + query_text(b.drop_last()) + b.last() + " or "@ =~= query_text(a) + (
        query_text(b.drop_last()) + b.last() + " or "@));
    }
}

} // verus!
