//! Conversation history and named sessions.

use vstd::prelude::*;
use crate::message::{Message, MessageView, Role, copy_messages, lemma_views_add, views};
use crate::sys::{is_hyphenated_uuid, new_uuid_v4, utc_now_millis};

verus! {

/// What an agent is doing right now.
#[derive(Debug, Clone)]
pub enum AgentState {
    Idle,
    Thinking,
    Streaming { partial: String },
    UsingTool { tool_name: String },
    Error { message: String },
}

impl Default for AgentState {
    fn default() -> (s: AgentState)
        ensures
            s is Idle,
    {
        AgentState::Idle
    }
}

/// A conversation history with an optional system prompt.
#[derive(Debug, Clone)]
pub struct Conversation {
    pub messages: Vec<Message>,
    system_prompt: Option<String>,
}

/// The messages sent to the model for history `msgs` under system prompt `system`:
/// the prompt as a leading system message, when there is one, then the history.
pub open spec fn spec_with_system(system: Option<Seq<char>>, msgs: Seq<MessageView>) -> Seq<MessageView> {
    match system {
        Some(p) => seq![MessageView::plain(Role::System, p)] + msgs,
        None => msgs,
    }
}

/// The last `max` elements of `s` (all of `s` when it is not longer than `max`).
pub open spec fn spec_keep_last<T>(s: Seq<T>, max: nat) -> Seq<T> {
    if s.len() > max {
        s.subrange(s.len() - max, s.len() as int)
    } else {
        s
    }
}

impl Conversation {
    /// The message history, without the system prompt: the public field `messages`.
    pub closed spec fn msgs(&self) -> Seq<Message> {
        self.messages@
    }

    /// The system prompt, if one is set.
    pub closed spec fn system(&self) -> Option<Seq<char>> {
        match self.system_prompt {
            Some(p) => Some(p@),
            None => None,
        }
    }

    /// An empty conversation without a system prompt.
    pub fn new() -> (c: Conversation)
        ensures
            c.msgs().len() == 0,
            c.system() is None,
    {
        Conversation { messages: Vec::new(), system_prompt: None }
    }

    /// An empty conversation with a system prompt.
    pub fn with_system(prompt: &str) -> (c: Conversation)
        ensures
            c.msgs().len() == 0,
            c.system() == Some(prompt@),
    {
        Conversation { messages: Vec::new(), system_prompt: Some(prompt.to_owned()) }
    }

    /// Sets or replaces the system prompt.
    pub fn set_system(&mut self, prompt: &str)
        ensures
            final(self).system() == Some(prompt@),
            final(self).msgs() == old(self).msgs(),
    {
        self.system_prompt = Some(prompt.to_owned());
    }

    /// The system prompt, if set.
    pub fn system_prompt(&self) -> (r: Option<&str>)
        ensures
            match r {
                Some(p) => self.system() == Some(p@),
                None => self.system() is None,
            },
    {
        match &self.system_prompt {
            Some(p) => Some(p.as_str()),
            None => None,
        }
    }

    /// All messages, with the system prompt first when one is set; ready for the model.
    pub fn messages_with_system(&self) -> (r: Vec<Message>)
        ensures
            views(r@) == spec_with_system(self.system(), views(self.msgs())),
    {
        match &self.system_prompt {
            Some(prompt) => {
                let mut msgs: Vec<Message> = Vec::new();
                let sys = Message::system(prompt.as_str());
                msgs.push(sys);
                let mut rest = copy_messages(&self.messages);
                let ghost first = msgs@;
                let ghost rest_v = rest@;
                msgs.append(&mut rest);
                proof {
                    lemma_views_add(first, rest_v);
                    assert(views(first) =~= seq![MessageView::plain(Role::System, prompt@)]);
                }
                msgs
            },
            None => copy_messages(&self.messages),
        }
    }

    /// Appends a message.
    pub fn push(&mut self, message: Message)
        ensures
            final(self).msgs() == old(self).msgs().push(message),
            final(self).system() == old(self).system(),
    {
        self.messages.push(message);
    }

    /// Appends a user message.
    pub fn add_user(&mut self, content: &str)
        ensures
            final(self).msgs().len() == old(self).msgs().len() + 1,
            final(self).msgs().drop_last() == old(self).msgs(),
            final(self).msgs().last()@ == MessageView::plain(Role::User, content@),
            final(self).system() == old(self).system(),
    {
        self.messages.push(Message::user(content));
        assert(self.messages@.drop_last() =~= old(self).messages@);
    }

    /// Appends an assistant message.
    pub fn add_assistant(&mut self, content: &str)
        ensures
            final(self).msgs().len() == old(self).msgs().len() + 1,
            final(self).msgs().drop_last() == old(self).msgs(),
            final(self).msgs().last()@ == MessageView::plain(Role::Assistant, content@),
            final(self).system() == old(self).system(),
    {
        self.messages.push(Message::assistant(content));
        assert(self.messages@.drop_last() =~= old(self).messages@);
    }

    /// The last message, if any.
    pub fn last(&self) -> (r: Option<&Message>)
        ensures
            self.msgs().len() == 0 ==> r is None,
            self.msgs().len() > 0 ==> (r matches Some(m) && *m == self.msgs().last()),
    {
        if self.messages.len() == 0 {
            None
        } else {
            Some(&self.messages[self.messages.len() - 1])
        }
    }

    /// Number of messages, not counting the system prompt.
    pub fn len(&self) -> (n: usize)
        ensures
            n == self.msgs().len(),
    {
        self.messages.len()
    }

    pub fn is_empty(&self) -> (b: bool)
        ensures
            b == (self.msgs().len() == 0),
    {
        self.messages.is_empty()
    }

    /// Keeps only the last `max_messages` messages.
    pub fn truncate(&mut self, max_messages: usize)
        ensures
            final(self).msgs() == spec_keep_last(old(self).msgs(), max_messages as nat),
            final(self).system() == old(self).system(),
    {
        if self.messages.len() > max_messages {
            let drain_count = self.messages.len() - max_messages;
            let kept = self.messages.split_off(drain_count);
            self.messages = kept;
        }
    }

    /// Removes every message but keeps the system prompt.
    pub fn clear(&mut self)
        ensures
            final(self).msgs().len() == 0,
            final(self).system() == old(self).system(),
    {
        self.messages.clear();
    }
}

impl Default for Conversation {
    fn default() -> (c: Conversation)
        ensures
            c.msgs().len() == 0,
            c.system() is None,
    {
        Conversation::new()
    }
}

/// The value stored under `key` in the key-value list `s`: the first pair with that key.
pub open spec fn spec_lookup(s: Seq<(String, String)>, key: Seq<char>) -> Option<Seq<char>>
    decreases s.len(),
{
    if s.len() == 0 {
        None
    } else if s[0].0@ == key {
        Some(s[0].1@)
    } else {
        spec_lookup(s.drop_first(), key)
    }
}

/// A named session: a conversation plus metadata.
#[derive(Debug, Clone)]
pub struct Session {
    pub id: String,
    pub conversation: Conversation,
    /// Creation time, in milliseconds since the Unix epoch (UTC).
    pub created_at: i64,
    /// Metadata as key-value pairs; a key is looked up by its first pair.
    pub metadata: Vec<(String, String)>,
}

impl Session {
    /// A session with the given id and creation time, an empty conversation and no
    /// metadata.
    pub fn with_id(id: String, created_at: i64) -> (s: Session)
        ensures
            s.id@ == id@,
            s.created_at == created_at,
            s.conversation.msgs().len() == 0,
            s.conversation.system() is None,
            s.metadata@.len() == 0,
    {
        Session { id, conversation: Conversation::new(), created_at, metadata: Vec::new() }
    }

    /// A new session with a fresh random id, created now, with an empty conversation and
    /// no metadata; `None` when no random id or no current time can be had.
    pub fn new() -> (r: Option<Session>)
        ensures
            r matches Some(s) ==> {
                &&& is_hyphenated_uuid(s.id@)
                &&& s.created_at >= 0
                &&& s.conversation.msgs().len() == 0
                &&& s.conversation.system() is None
                &&& s.metadata@.len() == 0
            },
    {
        let id = match new_uuid_v4() {
            Some(id) => id,
            None => return None,
        };
        let created_at = match utc_now_millis() {
            Some(t) => t,
            None => return None,
        };
        Some(Session::with_id(id, created_at))
    }

    /// A new session with a system prompt; `None` when no random id or no current time
    /// can be had.
    pub fn with_system(prompt: &str) -> (r: Option<Session>)
        ensures
            r matches Some(s) ==> {
                &&& is_hyphenated_uuid(s.id@)
                &&& s.created_at >= 0
                &&& s.conversation.msgs().len() == 0
                &&& s.conversation.system() == Some(prompt@)
                &&& s.metadata@.len() == 0
            },
    {
        match Session::new() {
            Some(mut s) => {
                s.set_system(prompt);
                Some(s)
            },
            None => None,
        }
    }

    pub fn set_system(&mut self, prompt: &str)
        ensures
            final(self).conversation.system() == Some(prompt@),
            final(self).conversation.msgs() == old(self).conversation.msgs(),
            final(self).metadata@ == old(self).metadata@,
            final(self).id == old(self).id,
            final(self).created_at == old(self).created_at,
    {
        self.conversation.set_system(prompt);
    }

    pub fn add_user(&mut self, content: &str)
        ensures
            final(self).conversation.msgs().drop_last() == old(self).conversation.msgs(),
            final(self).conversation.msgs().len() == old(self).conversation.msgs().len() + 1,
            final(self).conversation.msgs().last()@ == MessageView::plain(Role::User, content@),
            final(self).conversation.system() == old(self).conversation.system(),
            final(self).metadata@ == old(self).metadata@,
    {
        self.conversation.add_user(content);
    }

    pub fn add_assistant(&mut self, content: &str)
        ensures
            final(self).conversation.msgs().drop_last() == old(self).conversation.msgs(),
            final(self).conversation.msgs().len() == old(self).conversation.msgs().len() + 1,
            final(self).conversation.msgs().last()@ == MessageView::plain(Role::Assistant, content@),
            final(self).conversation.system() == old(self).conversation.system(),
            final(self).metadata@ == old(self).metadata@,
    {
        self.conversation.add_assistant(content);
    }

    pub fn messages_with_system(&self) -> (r: Vec<Message>)
        ensures
            views(r@) == spec_with_system(
                self.conversation.system(),
                views(self.conversation.msgs()),
            ),
    {
        self.conversation.messages_with_system()
    }

    pub fn len(&self) -> (n: usize)
        ensures
            n == self.conversation.msgs().len(),
    {
        self.conversation.len()
    }

    pub fn is_empty(&self) -> (b: bool)
        ensures
            b == (self.conversation.msgs().len() == 0),
    {
        self.conversation.is_empty()
    }

    pub fn truncate(&mut self, max_messages: usize)
        ensures
            final(self).conversation.msgs() == spec_keep_last(
                old(self).conversation.msgs(),
                max_messages as nat,
            ),
            final(self).conversation.system() == old(self).conversation.system(),
            final(self).metadata@ == old(self).metadata@,
    {
        self.conversation.truncate(max_messages);
    }

    /// Clears the messages; keeps the system prompt and the metadata.
    pub fn clear(&mut self)
        ensures
            final(self).conversation.msgs().len() == 0,
            final(self).conversation.system() == old(self).conversation.system(),
            final(self).metadata@ == old(self).metadata@,
    {
        self.conversation.clear();
    }

    /// Sets `key` to `value`, replacing an earlier value of that key.
    pub fn set_metadata(&mut self, key: &str, value: &str)
        ensures
            spec_lookup(final(self).metadata@, key@) == Some(value@),
            forall|k: Seq<char>|
                k != key@ ==> spec_lookup(final(self).metadata@, k) == spec_lookup(
                    old(self).metadata@,
                    k,
                ),
            final(self).conversation == old(self).conversation,
    {
        let mut i: usize = 0;
        while i < self.metadata.len()
            invariant
                i <= self.metadata.len(),
                self.metadata@ == old(self).metadata@,
                self.conversation == old(self).conversation,
                forall|j: int| 0 <= j < i ==> self.metadata@[j].0@ != key@,
            decreases self.metadata.len() - i,
        {
            if crate::text::str_eq(self.metadata[i].0.as_str(), key) {
                let ghost before = self.metadata@;
                let pair = (key.to_owned(), value.to_owned());
                let _old = self.metadata.remove(i);
                self.metadata.insert(i, pair);
                proof {
                    assert(self.metadata@ == before.update(i as int, pair));
                    lemma_lookup_update(before, i as int, pair);
                }
                return;
            }
            i += 1;
        }
        let ghost before = self.metadata@;
        let pair = (key.to_owned(), value.to_owned());
        self.metadata.push(pair);
        proof {
            lemma_lookup_push_absent(before, pair);
        }
    }

    /// The value stored under `key`, if any.
    pub fn get_metadata(&self, key: &str) -> (r: Option<&str>)
        ensures
            match r {
                Some(v) => spec_lookup(self.metadata@, key@) == Some(v@),
                None => spec_lookup(self.metadata@, key@) is None,
            },
    {
        let mut i: usize = 0;
        assert(self.metadata@.subrange(0, self.metadata@.len() as int) =~= self.metadata@);
        while i < self.metadata.len()
            invariant
                i <= self.metadata.len(),
                spec_lookup(self.metadata@, key@) == spec_lookup(self.metadata@.subrange(i as int, self.metadata@.len() as int), key@),
            decreases self.metadata.len() - i,
        {
            let ghost rest = self.metadata@.subrange(i as int, self.metadata@.len() as int);
            assert(rest.drop_first() =~= self.metadata@.subrange(i + 1, self.metadata@.len() as int));
            if crate::text::str_eq(self.metadata[i].0.as_str(), key) {
                return Some(self.metadata[i].1.as_str());
            }
            i += 1;
        }
        None
    }
}

/// Replacing the pair at index `i`, whose key no earlier pair shares, by a pair with the
/// same key makes that key map to the new value and leaves other keys alone.
proof fn lemma_lookup_update(s: Seq<(String, String)>, i: int, pair: (String, String))
    requires
        0 <= i < s.len(),
        s[i].0@ == pair.0@,
        forall|j: int| 0 <= j < i ==> s[j].0@ != pair.0@,
    ensures
        spec_lookup(s.update(i, pair), pair.0@) == Some(pair.1@),
        forall|k: Seq<char>| k != pair.0@ ==> spec_lookup(s.update(i, pair), k) == spec_lookup(s, k),
    decreases s.len(),
{
    let u = s.update(i, pair);
    if i == 0 {
        assert(u[0] == pair);
        assert(u.drop_first() =~= s.drop_first());
    } else {
        lemma_lookup_update(s.drop_first(), i - 1, pair);
        assert(u.drop_first() =~= s.drop_first().update(i - 1, pair));
        assert(u[0] == s[0]);
        assert(s[0].0@ != pair.0@);
    }
    assert forall|k: Seq<char>| k != pair.0@ implies spec_lookup(u, k) == spec_lookup(s, k) by {
        assert(spec_lookup(u, k) == if u[0].0@ == k { Some(u[0].1@) } else { spec_lookup(u.drop_first(), k) });
        assert(spec_lookup(s, k) == if s[0].0@ == k { Some(s[0].1@) } else { spec_lookup(s.drop_first(), k) });
    }
}

/// Appending a pair whose key is absent makes that key map to the new value.
proof fn lemma_lookup_push_absent(s: Seq<(String, String)>, pair: (String, String))
    requires
        forall|j: int| 0 <= j < s.len() ==> s[j].0@ != pair.0@,
    ensures
        spec_lookup(s.push(pair), pair.0@) == Some(pair.1@),
        forall|k: Seq<char>| k != pair.0@ ==> spec_lookup(s.push(pair), k) == spec_lookup(s, k),
    decreases s.len(),
{
    let p = s.push(pair);
    if s.len() > 0 {
        lemma_lookup_push_absent(s.drop_first(), pair);
        assert(p.drop_first() =~= s.drop_first().push(pair));
        assert(p[0] == s[0]);
        assert(s[0].0@ != pair.0@);
    } else {
        assert(p[0] == pair);
        assert(p.drop_first().len() == 0);
    }
    assert forall|k: Seq<char>| k != pair.0@ implies spec_lookup(p, k) == spec_lookup(s, k) by {
        assert(spec_lookup(p, k) == if p[0].0@ == k { Some(p[0].1@) } else { spec_lookup(p.drop_first(), k) });
        if s.len() > 0 {
            assert(spec_lookup(s, k) == if s[0].0@ == k { Some(s[0].1@) } else { spec_lookup(s.drop_first(), k) });
        }
    }
}

} // verus!
