//! The bot's memories: what it learned from a conversation, stored for later.
use vstd::prelude::*;
use crate::ai::ResponseMessage;
use crate::text::{decimal_text, lowercase, to_lowercase_text, u64_text};
use crate::utils::UtilsError;

verus! {

/// A memory as it is stored.
#[derive(Debug, Clone)]
pub struct Memory {
    pub id: String,
    pub timestamp: u64,
    pub content: String,
}

/// The text of a memory that was stored.
#[derive(Debug)]
pub struct SavedMemories(pub String);

/// Memories found in the store.
#[derive(Debug)]
pub struct LoadedMemories(pub Vec<Memory>);

/// The memories' contents, each on a line of its own.
pub open spec fn memories_text(memories: Seq<Memory>) -> Seq<char>
    decreases memories.len(),
{
    if memories.len() == 0 {
        Seq::empty()
    } else {
        memories_text(memories.drop_last()) + memories.last().content@ + "\n"@
    }
}

impl LoadedMemories {
    /// The memories as prompt text (see `memories_text`).
    pub fn to_string(&self) -> (memories: String)
        ensures
            memories@ == memories_text(self.0@),
    {
        let mut memories = String::new();
        let n = self.0.len();
        for i in 0..n
            invariant
                n == self.0@.len(),
                memories@ == memories_text(self.0@.take(i as int)),
        {
            memories.append(self.0[i].content.as_str());
            memories.append("\n");
            assert(self.0@.take(i + 1).drop_last() =~= self.0@.take(i as int));
        }
        assert(self.0@.take(n as int) =~= self.0@);
        memories
    }
}

/// One memory alone is its content on a line of its own.
pub proof fn law_single_memory_text(m: Memory)
    ensures
        memories_text(seq![m]) == m.content@ + "\n"@,
{
    let one = seq![m];
    assert(one.drop_last() =~= Seq::<Memory>::empty());
    assert(memories_text(one.drop_last()) == Seq::<char>::empty());
    assert(memories_text(one) =~= m.content@ + "\n"@);
}

/// The text of two lists of memories, one after the other, is the text of
/// the first followed by the text of the second: no memory is dropped,
/// however many there are.
pub proof fn law_memories_text_joins(a: Seq<Memory>, b: Seq<Memory>)
    ensures
        memories_text(a + b) == memories_text(a) + memories_text(b),
    decreases b.len(),
{
    if b.len() == 0 {
        assert(a + b =~= a);
        assert(memories_text(a) + memories_text(b) =~= memories_text(a));
    } else {
        law_memories_text_joins(a, b.drop_last());
        assert((a + b).drop_last() =~= a + b.drop_last());
        assert((a + b).last() == b.last());
        assert(memories_text(a) + memories_text(b.drop_last()) + b.last().content@ + "\n"@
            =~= memories_text(a) + (memories_text(b.drop_last()) + b.last().content@ + "\n"@));
    }
}

/// Adding a memory at the end adds its content and a newline at the end of
/// the text, whatever came before.
pub proof fn law_memory_added_last(ms: Seq<Memory>, m: Memory)
    ensures
        memories_text(ms.push(m)) == memories_text(ms) + m.content@ + "\n"@,
{
    law_memories_text_joins(ms, seq![m]);
    law_single_memory_text(m);
    assert(ms + seq![m] =~= ms.push(m));
    assert(memories_text(ms) + (m.content@ + "\n"@) =~= memories_text(ms) + m.content@ + "\n"@);
}

/// The length of the memories' text: each memory's content and its newline.
pub open spec fn memories_text_len(ms: Seq<Memory>) -> int
    decreases ms.len(),
{
    if ms.len() == 0 {
        0
    } else {
        memories_text_len(ms.drop_last()) + ms.last().content@.len() + 1
    }
}

/// The text is as long as all the memories' contents together, plus one
/// newline for each memory.
pub proof fn law_memories_text_length(ms: Seq<Memory>)
    ensures
        memories_text(ms).len() == memories_text_len(ms),
    decreases ms.len(),
{
    if ms.len() > 0 {
        law_memories_text_length(ms.drop_last());
        law_memory_added_last(ms.drop_last(), ms.last());
        assert(ms.drop_last().push(ms.last()) =~= ms);
        reveal_strlit("\n");
        assert("\n"@.len() == 1);
    }
}

/// Every memory, at position `i`, stands in the text as its content followed
/// by a newline, after the text of the memories before it and before the
/// text of those after it.
pub proof fn law_each_memory_is_a_line(ms: Seq<Memory>, i: int)
    requires
        0 <= i < ms.len(),
    ensures
        memories_text(ms) == memories_text(ms.take(i)) + ms[i].content@ + "\n"@ + memories_text(
            ms.skip(i + 1),
        ),
{
    assert(ms.take(i).push(ms[i]) + ms.skip(i + 1) =~= ms);
    law_memories_text_joins(ms.take(i).push(ms[i]), ms.skip(i + 1));
    law_memory_added_last(ms.take(i), ms[i]);
}

/// Reading `s` left to right, `at_start` telling whether the next char begins
/// a piece: the first char of every piece between single spaces; empty pieces
/// give nothing.
pub open spec fn initials_from(s: Seq<char>, at_start: bool) -> Seq<char>
    decreases s.len(),
{
    if s.len() == 0 {
        Seq::empty()
    } else if s[0] == ' ' {
        initials_from(s.drop_first(), true)
    } else if at_start {
        seq![s[0]] + initials_from(s.drop_first(), false)
    } else {
        initials_from(s.drop_first(), false)
    }
}

/// The id of a memory: the first char of each piece of `split(" ")`.
pub open spec fn memory_id_spec(learned: Seq<char>) -> Seq<char> {
    initials_from(learned, true)
}

/// The id under which a memory is stored (see `memory_id_spec`).
pub fn memory_id(learned: &str) -> (id: String)
    ensures
        id@ == memory_id_spec(learned@),
{
    let v = crate::text::chars_of(learned);
    let n = v.len();
    let mut id = String::new();
    let mut at_start = true;
    let mut i: usize = 0;
    assert(learned@.skip(0) =~= learned@);
    while i < n
        invariant
            v@ == learned@,
            n == v@.len(),
            i <= n,
            id@ + initials_from(learned@.skip(i as int), at_start) == memory_id_spec(learned@),
        decreases n - i,
    {
        let ghost rest = learned@.skip(i as int);
        assert(rest[0] == v@[i as int]);
        assert(rest.drop_first() =~= learned@.skip(i + 1));
        let ghost before = id@;
        if v[i] == ' ' {
            at_start = true;
        } else if at_start {
            id.append(learned.substring_char(i, i + 1));
            assert(learned@.subrange(i as int, i + 1) =~= seq![v@[i as int]]);
            assert(id@ + initials_from(rest.drop_first(), false) =~= before + (seq![rest[0]]
                + initials_from(rest.drop_first(), false)));
            at_start = false;
        }
        i = i + 1;
    }
    assert(learned@.skip(n as int) =~= Seq::<char>::empty());
    assert(id@ + Seq::<char>::empty() =~= id@);
    id
}

/// What the model learned, as it will be stored: nothing when it learned
/// nothing (no text, or a text that is `null` in any case).
pub open spec fn learned_text(input: ResponseMessage) -> Option<Seq<char>> {
    match input.learned {
        Some(l) => if lowercase(l@) == "null"@ {
            None
        } else {
            Some(l@)
        },
        None => None,
    }
}

/// The memory to store for a model's answer at time `now`: its id from the
/// learned text's initials, its content the learned text; `NoMemoriesToBeSaved`
/// when nothing was learned.
pub fn prepare_memory(input_memory: &ResponseMessage, now: u64) -> (res: Result<Memory, UtilsError>)
    ensures
        match learned_text(*input_memory) {
            Some(l) => res matches Ok(m) && m.content@ == l && m.id@ == memory_id_spec(l)
                && m.timestamp == now,
            None => res matches Err(UtilsError::NoMemoriesToBeSaved),
        },
{
    let learned = match &input_memory.learned {
        Some(learned) => {
            let lower = to_lowercase_text(learned.as_str());
            if lower == String::from_str("null") {
                return Err(UtilsError::NoMemoriesToBeSaved);
            }
            learned.clone()
        },
        None => {
            return Err(UtilsError::NoMemoriesToBeSaved);
        },
    };
    let id = memory_id(learned.as_str());
    Ok(Memory { id, timestamp: now, content: learned })
}

/// The filter of a search for memories stored before `max_timestamp`, or
/// before `now` when no bound is given.
pub fn memories_before_filter(max_timestamp: Option<u64>, now: u64) -> (filter: String)
    ensures
        filter@ == "timestamp < "@ + decimal_text(
            match max_timestamp {
                Some(t) => t,
                None => now,
            } as nat,
        ),
{
    let bound = match max_timestamp {
        Some(t) => t,
        None => now,
    };
    let mut filter = String::from_str("timestamp < ");
    let digits = u64_text(bound);
    filter.append(digits.as_str());
    filter
}

} // verus!
