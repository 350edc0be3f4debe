//! Results of lifecycle hooks, their context, and how two hooks chain.

use vstd::prelude::*;
use crate::config::ModelProvider;

verus! {

/// What a hook decided.
#[derive(Debug)]
pub enum HookResult {
    /// Go on normally.
    Continue,
    /// Skip this operation (for example one tool call).
    Skip,
    /// Refuse this operation softly: report it as the tool result and keep looping.
    Denied(String),
    /// Stop the loop with this error.
    Abort(String),
}

/// Run-time information a hook receives.
pub struct HookContext<'a> {
    pub provider: &'a ModelProvider,
    pub round: usize,
    pub session_id: &'a str,
}

/// What a chain of two hooks does after the first one ran.
#[derive(Debug)]
pub enum ChainStep {
    /// Run the second hook; its result is the chain's result.
    RunSecond,
    /// The chain's result is the first hook's result.
    Stop(HookResult),
}

/// The first hook of a chain takes precedence unless it returned `Continue`.
pub fn chain_after_first(first: HookResult) -> (s: ChainStep)
    ensures
        first is Continue ==> s is RunSecond,
        !(first is Continue) ==> s == ChainStep::Stop(first),
{
    match first {
        HookResult::Continue => ChainStep::RunSecond,
        other => ChainStep::Stop(other),
    }
}

/// Two hooks run as one: `first` runs first, and `second` runs only when `first`
/// returned `Continue` (see [`chain_after_first`]).
pub struct ComposedHook<H> {
    pub first: H,
    pub second: H,
}

} // verus!
