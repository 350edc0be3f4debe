//! Events an agent reports while it runs, and the listeners that receive them.

use vstd::prelude::*;
use crate::message::{Message, ToolCall};

verus! {

/// Status of a managed subprocess.
#[derive(Debug, Clone)]
pub enum ProcessStatus {
    Running,
    Exited(i32),
    Killed,
    Error(String),
}

/// Something that happened during a run.
#[derive(Debug, Clone)]
pub enum AgentEvent {
    /// The agent started a model call.
    Thinking,
    /// Streamed text from the model.
    Delta(String),
    /// Streamed reasoning text from the model.
    ThinkingDelta(String),
    /// A complete message.
    MessageComplete(Message),
    /// The model asked for a tool call.
    ToolCallStart(ToolCall),
    /// A tool returned a result.
    ToolCallResult { call_id: String, result: String },
    /// Output line of a managed subprocess.
    ProcessOutput { call_id: String, line: String },
    /// Status change of a managed subprocess.
    ProcessStatus { call_id: String, status: ProcessStatus },
    /// The agent hit an error.
    Error(String),
    /// The agent finished.
    Done,
    /// A new session was created (its id).
    SessionCreated(String),
    /// The current session changed (its id).
    SessionSwitched(String),
    /// Messages of a session were loaded.
    MessagesLoaded { session_id: String, messages: Vec<Message> },
    /// More messages of a session were loaded.
    MoreMessagesLoaded { session_id: String, messages: Vec<Message>, has_more: bool },
}

/// Receives the events of a run (streamed text, tool calls, completion).
pub trait EventListener: Send + Sync {
    fn on_event(&self, event: &AgentEvent);
}

/// A listener that ignores every event.
pub struct NullListener;

impl EventListener for NullListener {
    fn on_event(&self, _event: &AgentEvent) {
    }
}

} // verus!
