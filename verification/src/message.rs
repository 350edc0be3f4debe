//! Chat messages, tool calls and tool definitions exchanged with a model.

use vstd::prelude::*;

verus! {

/// Author of a chat message.
#[derive(Debug, Clone, Copy, PartialEq, Eq, Structural)]
pub enum Role {
    System,
    User,
    Assistant,
    Tool,
}

/// A request from the model to run one tool.
///
/// `arguments` holds the call's arguments as JSON text.
#[derive(Debug, Clone)]
pub struct ToolCall {
    pub id: String,
    pub name: String,
    pub arguments: String,
}

/// A tool offered to the model; `parameters` is its JSON schema as text.
#[derive(Debug, Clone)]
pub struct ToolDefinition {
    pub name: String,
    pub description: String,
    pub parameters: String,
}

/// One message of a conversation.
#[derive(Debug, Clone)]
pub struct Message {
    pub role: Role,
    pub content: String,
    pub tool_calls: Option<Vec<ToolCall>>,
    pub tool_call_id: Option<String>,
    pub reasoning_content: Option<String>,
}

/// Exact copy of an optional string.
pub fn copy_opt_string(s: &Option<String>) -> (r: Option<String>)
    ensures
        r == *s,
{
    match s {
        Some(x) => Some(x.clone()),
        None => None,
    }
}

/// Exact copy of a list of strings.
pub fn copy_strings(v: &Vec<String>) -> (r: Vec<String>)
    ensures
        r@ == v@,
{
    let mut r: Vec<String> = Vec::new();
    let mut i: usize = 0;
    while i < v.len()
        invariant
            i <= v.len(),
            r@ == v@.subrange(0, i as int),
        decreases v.len() - i,
    {
        r.push(v[i].clone());
        i += 1;
    }
    assert(r@ =~= v@);
    r
}

impl ToolCall {
    /// Exact copy of this call.
    pub fn duplicate(&self) -> (r: ToolCall)
        ensures
            r == *self,
    {
        ToolCall { id: self.id.clone(), name: self.name.clone(), arguments: self.arguments.clone() }
    }
}

impl ToolDefinition {
    /// Exact copy of this definition.
    pub fn duplicate(&self) -> (r: ToolDefinition)
        ensures
            r == *self,
    {
        ToolDefinition {
            name: self.name.clone(),
            description: self.description.clone(),
            parameters: self.parameters.clone(),
        }
    }
}

/// Exact copy of a list of tool calls.
pub fn copy_calls(v: &Vec<ToolCall>) -> (r: Vec<ToolCall>)
    ensures
        r@ == v@,
{
    let mut r: Vec<ToolCall> = Vec::new();
    let mut i: usize = 0;
    while i < v.len()
        invariant
            i <= v.len(),
            r@ == v@.subrange(0, i as int),
        decreases v.len() - i,
    {
        r.push(v[i].duplicate());
        i += 1;
    }
    assert(r@ =~= v@);
    r
}

/// Abstract value of a [`Message`].
pub struct MessageView {
    pub role: Role,
    pub content: Seq<char>,
    pub tool_calls: Option<Seq<ToolCall>>,
    pub tool_call_id: Option<Seq<char>>,
    pub reasoning_content: Option<Seq<char>>,
}

impl MessageView {
    /// A plain message of `role` with text `content` and nothing else.
    pub open spec fn plain(role: Role, content: Seq<char>) -> MessageView {
        MessageView {
            role,
            content,
            tool_calls: None,
            tool_call_id: None,
            reasoning_content: None,
        }
    }

    /// The tool result `content` answering call `call_id`.
    pub open spec fn tool_result(call_id: Seq<char>, content: Seq<char>) -> MessageView {
        MessageView {
            role: Role::Tool,
            content,
            tool_calls: None,
            tool_call_id: Some(call_id),
            reasoning_content: None,
        }
    }

    /// An assistant message that only carries the tool calls `calls`.
    pub open spec fn tool_request(calls: Seq<ToolCall>) -> MessageView {
        MessageView {
            role: Role::Assistant,
            content: Seq::empty(),
            tool_calls: Some(calls),
            tool_call_id: None,
            reasoning_content: None,
        }
    }
}

impl View for Message {
    type V = MessageView;

    open spec fn view(&self) -> MessageView {
        MessageView {
            role: self.role,
            content: self.content@,
            tool_calls: match self.tool_calls {
                Some(c) => Some(c@),
                None => None,
            },
            tool_call_id: match self.tool_call_id {
                Some(s) => Some(s@),
                None => None,
            },
            reasoning_content: match self.reasoning_content {
                Some(s) => Some(s@),
                None => None,
            },
        }
    }
}

/// Abstract values of a sequence of messages.
pub open spec fn views(s: Seq<Message>) -> Seq<MessageView> {
    s.map_values(|m: Message| m@)
}

/// Appending a message appends its view.
pub proof fn lemma_views_push(s: Seq<Message>, m: Message)
    ensures
        views(s.push(m)) == views(s).push(m@),
{
    assert(views(s.push(m)) =~= views(s).push(m@));
}

/// Concatenation distributes over views.
pub proof fn lemma_views_add(a: Seq<Message>, b: Seq<Message>)
    ensures
        views(a + b) == views(a) + views(b),
{
    assert(views(a + b) =~= views(a) + views(b));
}

impl Message {
    /// A plain message with the given role and text.
    pub fn new_plain(role: Role, content: &str) -> (m: Message)
        ensures
            m@ == MessageView::plain(role, content@),
    {
        Message {
            role,
            content: content.to_owned(),
            tool_calls: None,
            tool_call_id: None,
            reasoning_content: None,
        }
    }

    /// A system message.
    pub fn system(content: &str) -> (m: Message)
        ensures
            m@ == MessageView::plain(Role::System, content@),
    {
        Message::new_plain(Role::System, content)
    }

    /// A user message.
    pub fn user(content: &str) -> (m: Message)
        ensures
            m@ == MessageView::plain(Role::User, content@),
    {
        Message::new_plain(Role::User, content)
    }

    /// An assistant message.
    pub fn assistant(content: &str) -> (m: Message)
        ensures
            m@ == MessageView::plain(Role::Assistant, content@),
    {
        Message::new_plain(Role::Assistant, content)
    }

    /// An assistant message that requests the given tool calls.
    pub fn assistant_tool_calls(calls: Vec<ToolCall>) -> (m: Message)
        ensures
            m@ == MessageView::tool_request(calls@),
    {
        Message {
            role: Role::Assistant,
            content: String::new(),
            tool_calls: Some(calls),
            tool_call_id: None,
            reasoning_content: None,
        }
    }

    /// The result of the tool call `call_id`.
    pub fn tool_result(call_id: &str, content: &str) -> (m: Message)
        ensures
            m@ == MessageView::tool_result(call_id@, content@),
    {
        Message {
            role: Role::Tool,
            content: content.to_owned(),
            tool_calls: None,
            tool_call_id: Some(call_id.to_owned()),
            reasoning_content: None,
        }
    }

    /// Exact copy of this message.
    pub fn duplicate(&self) -> (r: Message)
        ensures
            r@ == self@,
    {
        let tool_calls = match &self.tool_calls {
            Some(c) => Some(copy_calls(c)),
            None => None,
        };
        Message {
            role: self.role,
            content: self.content.clone(),
            tool_calls,
            tool_call_id: copy_opt_string(&self.tool_call_id),
            reasoning_content: copy_opt_string(&self.reasoning_content),
        }
    }
}

/// Exact copy of a list of messages.
pub fn copy_messages(v: &Vec<Message>) -> (r: Vec<Message>)
    ensures
        views(r@) == views(v@),
{
    let mut r: Vec<Message> = Vec::new();
    let mut i: usize = 0;
    while i < v.len()
        invariant
            i <= v.len(),
            views(r@) == views(v@.subrange(0, i as int)),
        decreases v.len() - i,
    {
        let ghost before = r@;
        let m = v[i].duplicate();
        r.push(m);
        proof {
            lemma_views_push(before, m);
            lemma_views_push(v@.subrange(0, i as int), v@[i as int]);
            assert(v@.subrange(0, i as int).push(v@[i as int]) =~= v@.subrange(0, i + 1));
        }
        i += 1;
    }
    assert(v@.subrange(0, v.len() as int) =~= v@);
    r
}

} // verus!
