//! What a model call returns: a final message or tool calls, with token usage.

use vstd::prelude::*;
use crate::message::{Message, ToolCall};

verus! {

/// Token usage reported by the model API.
#[derive(Debug, Clone, Copy, PartialEq, Eq, Structural)]
pub struct Usage {
    pub prompt_tokens: u64,
    pub completion_tokens: u64,
    pub total_tokens: u64,
    /// Input tokens served from the provider's cache.
    pub cached_input_tokens: u64,
}

impl Default for Usage {
    fn default() -> (u: Usage)
        ensures
            u == (Usage { prompt_tokens: 0, completion_tokens: 0, total_tokens: 0, cached_input_tokens: 0 }),
    {
        Usage { prompt_tokens: 0, completion_tokens: 0, total_tokens: 0, cached_input_tokens: 0 }
    }
}

/// The content of a model reply.
#[derive(Debug)]
pub enum AgentResponseKind {
    /// A final text reply, without tool calls.
    MessageComplete(Message),
    /// A request to run one or more tools.
    ToolCalls(Vec<ToolCall>),
}

/// A model reply with its token usage, when the API reported one.
#[derive(Debug)]
pub struct AgentResponse {
    pub kind: AgentResponseKind,
    pub usage: Option<Usage>,
}

impl AgentResponse {
    /// A final reply without usage.
    pub fn message_complete(msg: Message) -> (r: AgentResponse)
        ensures
            r.kind == AgentResponseKind::MessageComplete(msg),
            r.usage is None,
    {
        AgentResponse { kind: AgentResponseKind::MessageComplete(msg), usage: None }
    }

    /// A tool-call reply without usage.
    pub fn tool_calls(calls: Vec<ToolCall>) -> (r: AgentResponse)
        ensures
            r.kind == AgentResponseKind::ToolCalls(calls),
            r.usage is None,
    {
        AgentResponse { kind: AgentResponseKind::ToolCalls(calls), usage: None }
    }

    /// The same reply, carrying `usage`.
    pub fn with_usage(self, usage: Usage) -> (r: AgentResponse)
        ensures
            r.kind == self.kind,
            r.usage == Some(usage),
    {
        AgentResponse { kind: self.kind, usage: Some(usage) }
    }
}

} // verus!
