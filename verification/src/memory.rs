//! Memories: what is extracted from an assistant reply, and how retrieved memories are
//! presented before the user's message. Storing and searching memories stay with the
//! caller's storage.

use vstd::prelude::*;
use crate::message::{Message, MessageView, views};
use crate::skill::{inject_before_first_user, last_user_query, spec_inject, spec_last_user_query};
use crate::text::{concat2, concat3, join, spec_join, texts};

verus! {

/// A memory to save.
#[derive(Debug)]
pub struct NewMemory {
    pub title: String,
    pub content: String,
    pub tags: Option<String>,
}

/// Settings of the memory system.
#[derive(Debug, Clone, Copy)]
pub struct MemoryConfig {
    /// Most memories injected per model call.
    pub max_injected: usize,
    /// Extract memories from assistant replies.
    pub auto_extract: bool,
}

impl Default for MemoryConfig {
    fn default() -> (c: MemoryConfig)
        ensures
            c.max_injected == 5,
            c.auto_extract,
    {
        MemoryConfig { max_injected: 5, auto_extract: true }
    }
}

/// The UTF-8 length of a text.
pub open spec fn utf8_len(s: Seq<char>) -> nat {
    vstd::utf8::encode_utf8(s).len()
}

/// The byte length of a title: the reply's first 100 bytes, or all of it when shorter.
pub open spec fn spec_title_len(reply: Seq<char>) -> int {
    if utf8_len(reply) < 100 {
        utf8_len(reply) as int
    } else {
        100
    }
}

/// Can the reply's title be cut: does its title length fall on a character boundary?
pub open spec fn spec_title_cut_ok(reply: Seq<char>) -> bool {
    vstd::utf8::is_char_boundary(vstd::utf8::encode_utf8(reply), spec_title_len(reply))
}

/// Is a reply worth remembering: extraction is on and the reply has at least 50 bytes.
pub open spec fn spec_worth_keeping(auto_extract: bool, reply: Seq<char>) -> bool {
    auto_extract && utf8_len(reply) >= 50
}

/// The memory the default strategy extracts: none when extraction is off or the reply is
/// shorter than 50 bytes; otherwise the whole reply, titled by its first 100 bytes and
/// tagged `auto-extracted`.
pub fn extract_memory(auto_extract: bool, reply: &str) -> (r: Option<NewMemory>)
    requires
        utf8_len(reply@) <= usize::MAX,
        spec_worth_keeping(auto_extract, reply@) ==> spec_title_cut_ok(reply@),
    ensures
        !spec_worth_keeping(auto_extract, reply@) ==> r is None,
        spec_worth_keeping(auto_extract, reply@) ==> (r matches Some(m)
            && vstd::utf8::encode_utf8(m.title@) == vstd::utf8::encode_utf8(reply@).subrange(0, spec_title_len(reply@))
            && m.content@ == reply@
            && (m.tags matches Some(t) && t@ == "auto-extracted"@)),
{
    let n = reply.len();
    if !auto_extract || n < 50 {
        return None;
    }
    let cut = if n < 100 { n } else { 100 };
    let (head, _) = reply.split_at(cut);
    Some(NewMemory {
        title: head.to_owned(),
        content: reply.to_owned(),
        tags: Some("auto-extracted".to_owned()),
    })
}

/// The default memory strategy over a storage `S`.
pub struct DefaultMemory<S> {
    storage: S,
    auto_extract: bool,
}

impl<S> DefaultMemory<S> {
    pub closed spec fn spec_storage(&self) -> S {
        self.storage
    }

    pub closed spec fn spec_auto_extract(&self) -> bool {
        self.auto_extract
    }

    /// Extraction on.
    pub fn new(storage: S) -> (m: Self)
        ensures
            m.spec_storage() == storage,
            m.spec_auto_extract(),
    {
        DefaultMemory { storage, auto_extract: true }
    }

    /// Turns extraction on or off.
    pub fn auto_extract(self, enabled: bool) -> (m: Self)
        ensures
            m.spec_storage() == self.spec_storage(),
            m.spec_auto_extract() == enabled,
    {
        DefaultMemory { auto_extract: enabled, ..self }
    }

    /// The storage.
    pub fn storage(&self) -> (s: &S)
        ensures
            *s == self.spec_storage(),
    {
        &self.storage
    }

    /// Is extraction on?
    pub fn extracts(&self) -> (b: bool)
        ensures
            b == self.spec_auto_extract(),
    {
        self.auto_extract
    }

    /// The memory to save from an assistant reply, if any.
    pub fn extract(&self, reply: &str) -> (r: Option<NewMemory>)
        requires
            utf8_len(reply@) <= usize::MAX,
            spec_worth_keeping(self.spec_auto_extract(), reply@) ==> spec_title_cut_ok(reply@),
        ensures
            !spec_worth_keeping(self.spec_auto_extract(), reply@) ==> r is None,
            spec_worth_keeping(self.spec_auto_extract(), reply@) ==> (r matches Some(m)
                && vstd::utf8::encode_utf8(m.title@) == vstd::utf8::encode_utf8(reply@).subrange(0, spec_title_len(reply@))
                && m.content@ == reply@
                && (m.tags matches Some(t) && t@ == "auto-extracted"@)),
    {
        extract_memory(self.auto_extract, reply)
    }
}

/// The query memories are retrieved for: the last user message, when it is not empty.
pub fn memory_query(messages: &Vec<Message>) -> (q: Option<String>)
    ensures
        spec_last_user_query(views(messages@)).len() == 0 ==> q is None,
        spec_last_user_query(views(messages@)).len() > 0 ==> (q matches Some(s) && s@ == spec_last_user_query(
            views(messages@),
        )),
{
    let q = last_user_query(messages);
    if q.as_str().is_empty() {
        None
    } else {
        Some(q)
    }
}

/// One presented memory: `- content (weight: w)`, the weight already written out.
pub open spec fn spec_memory_line(m: (Seq<char>, Seq<char>)) -> Seq<char> {
    "- "@ + m.0 + " (weight: "@ + m.1 + ")"@
}

/// The block that presents retrieved memories.
pub open spec fn spec_memory_block(ms: Seq<(Seq<char>, Seq<char>)>) -> Seq<char> {
    "<relevant-memories>\n"@ + spec_join(ms.map_values(|m: (Seq<char>, Seq<char>)| spec_memory_line(m)), "\n"@)
        + "\n</relevant-memories>"@
}

/// Injects retrieved memories, given as content and written-out weight, before the first
/// user message; nothing happens when none was retrieved.
pub fn inject_memories(messages: &mut Vec<Message>, memories: &Vec<(String, String)>)
    ensures
        memories@.len() == 0 ==> final(messages)@ == old(messages)@,
        memories@.len() > 0 ==> views(final(messages)@) == spec_inject(
            views(old(messages)@),
            spec_memory_block(memories@.map_values(|m: (String, String)| (m.0@, m.1@))),
        ),
{
    if memories.len() == 0 {
        return;
    }
    let ghost ms = memories@.map_values(|m: (String, String)| (m.0@, m.1@));
    let ghost target = ms.map_values(|m: (Seq<char>, Seq<char>)| spec_memory_line(m));
    let mut lines: Vec<String> = Vec::new();
    let mut i: usize = 0;
    while i < memories.len()
        invariant
            i <= memories@.len(),
            ms == memories@.map_values(|m: (String, String)| (m.0@, m.1@)),
            target == ms.map_values(|m: (Seq<char>, Seq<char>)| spec_memory_line(m)),
            texts(lines@) == target.subrange(0, i as int),
        decreases memories.len() - i,
    {
        let a = concat3("- ", memories[i].0.as_str(), " (weight: ");
        let line = concat3(a.as_str(), memories[i].1.as_str(), ")");
        let ghost before = lines@;
        lines.push(line);
        assert(texts(lines@) =~= texts(before).push(line@));
        assert(target.subrange(0, i + 1) =~= target.subrange(0, i as int).push(target[i as int]));
        i += 1;
    }
    assert(target.subrange(0, i as int) =~= target);
    let body = join(&lines, "\n");
    let block = concat3("<relevant-memories>\n", body.as_str(), "\n</relevant-memories>");
    inject_before_first_user(messages, block.as_str());
}

/// Law: the block for one more retrieved memory: a single memory is presented as its
/// own `- content (weight: w)` line; each further memory adds its line after those of the
/// memories before it.
pub proof fn lemma_memory_block_extends(ms: Seq<(Seq<char>, Seq<char>)>, m: (Seq<char>, Seq<char>))
    ensures
        spec_memory_block(seq![m]) == "<relevant-memories>\n"@ + ("- "@ + m.0 + " (weight: "@ + m.1 + ")"@)
            + "\n</relevant-memories>"@,
        ms.len() > 0 ==> spec_memory_block(ms.push(m)) == ({
            let b = spec_memory_block(ms);
            b.subrange(0, b.len() - "\n</relevant-memories>"@.len()) + "\n"@ + ("- "@ + m.0 + " (weight: "@ + m.1
                + ")"@) + "\n</relevant-memories>"@
        }),
{
    let f = |x: (Seq<char>, Seq<char>)| spec_memory_line(x);
    assert(seq![m].map_values(f) =~= seq![spec_memory_line(m)]);
    let cur = ms.push(m);
    assert(cur.map_values(f) =~= ms.map_values(f).push(spec_memory_line(m)));
    assert(cur.map_values(f).drop_last() =~= ms.map_values(f));
    if ms.len() > 0 {
        let head = "<relevant-memories>\n"@ + spec_join(ms.map_values(f), "\n"@);
        let b = head + "\n</relevant-memories>"@;
        assert(b.subrange(0, b.len() - "\n</relevant-memories>"@.len()) =~= head);
    }
}

} // verus!
