//! What a sub-agent returns, and the error of a lookup by name.

use vstd::prelude::*;
use crate::text::concat3;

verus! {

#[verifier::external_type_specification]
#[verifier::external_body]
pub struct ExJsonValue(serde_json::Value);

/// How a sub-agent's run ended.
#[derive(Debug, Clone, PartialEq, Eq)]
pub enum SubAgentStatus {
    Success,
    /// Some work done, but incomplete.
    Partial,
    /// Failed with this error.
    Failed(String),
}

impl Default for SubAgentStatus {
    fn default() -> (s: SubAgentStatus)
        ensures
            s is Success,
    {
        SubAgentStatus::Success
    }
}

/// The result of a sub-agent's run.
#[derive(Debug)]
pub struct SubAgentResult {
    /// The text output.
    pub output: String,
    pub status: SubAgentStatus,
    /// Optional structured details.
    pub metadata: Option<serde_json::Value>,
}

impl SubAgentResult {
    /// A successful result.
    pub fn success(output: &str) -> (r: SubAgentResult)
        ensures
            r.output@ == output@,
            r.status is Success,
            r.metadata is None,
    {
        SubAgentResult { output: output.to_owned(), status: SubAgentStatus::Success, metadata: None }
    }

    /// A partial result.
    pub fn partial(output: &str) -> (r: SubAgentResult)
        ensures
            r.output@ == output@,
            r.status is Partial,
            r.metadata is None,
    {
        SubAgentResult { output: output.to_owned(), status: SubAgentStatus::Partial, metadata: None }
    }

    /// A failure with an empty output.
    pub fn failed(error: &str) -> (r: SubAgentResult)
        ensures
            r.output@.len() == 0,
            r.status matches SubAgentStatus::Failed(e) && e@ == error@,
            r.metadata is None,
    {
        SubAgentResult { output: String::new(), status: SubAgentStatus::Failed(error.to_owned()), metadata: None }
    }
}

/// A lookup of a sub-agent failed.
#[derive(Debug, Clone, PartialEq, Eq)]
pub enum SubAgentError {
    /// No sub-agent has this name.
    NotFound(String),
}

impl SubAgentError {
    /// The error's text.
    pub fn message(&self) -> (s: String)
        ensures
            match self {
                SubAgentError::NotFound(n) => s@ == "sub-agent '"@ + n@ + "' not found"@,
            },
    {
        match self {
            SubAgentError::NotFound(n) => concat3("sub-agent '", n.as_str(), "' not found"),
        }
    }
}

/// What a sub-agent receives besides its input. `G` is the registry of the sub-agents.
pub struct SubAgentContext<'a, G> {
    pub session_id: &'a str,
    pub message_history: &'a [crate::message::Message],
    /// The registry the sub-agent was run from, for delegating further.
    pub registry: Option<&'a G>,
    pub app_config: &'a crate::config::AppConfig,
}

} // verus!
