//! The decisions of the base agent's tool-use loop.
//!
//! The loop alternates model calls, tool executions and hook calls, all of which happen
//! outside the library. [`AgentRun`] holds the loop's state; after each outside step the
//! caller reports what happened and receives the events to emit and the next action.

use vstd::prelude::*;
use crate::adapter::{AgentResponse, AgentResponseKind};
use crate::event::AgentEvent;
use crate::hook::HookResult;
use crate::message::{Message, MessageView, ToolCall, copy_calls};
use crate::text::concat2;

verus! {

/// What the caller must do next.
#[derive(Debug)]
pub enum LoopAction {
    /// Run the `before_llm_call` hook on the messages, then call [`AgentRun::on_before_llm`].
    BeforeLlmHook,
    /// Call the model with the messages, then call [`AgentRun::on_llm_reply`]
    /// (a failed call ends the run with that error).
    CallLlm,
    /// Run the `after_llm_call` hook on this reply, then call [`AgentRun::on_after_llm`].
    AfterLlmHook(AgentResponse),
    /// Run the `before_tool_call` hook for this call, then call [`AgentRun::on_before_tool`].
    BeforeToolHook(ToolCall),
    /// Run this tool, then call [`AgentRun::on_tool_output`] with its output text.
    ExecuteTool(ToolCall),
    /// Run the `after_tool_call` hook, which may edit the output, then call
    /// [`AgentRun::on_after_tool`] with the (edited) output.
    AfterToolHook(ToolCall, String),
    /// The run is over: the final reply, or the reason it was aborted.
    Finish(Result<String, String>),
}

/// Events to emit, in order, and then the action to perform.
#[derive(Debug)]
pub struct LoopStep {
    pub events: Vec<AgentEvent>,
    pub action: LoopAction,
}

/// Where the loop stands.
#[derive(Debug, Clone, Copy, PartialEq, Eq, Structural)]
pub enum Phase {
    /// Waiting for the `before_llm_call` hook.
    BeforeLlm,
    /// Waiting for the model's reply.
    AwaitLlm,
    /// Waiting for the `after_llm_call` hook.
    AfterLlm,
    /// Waiting for the `before_tool_call` hook of the current call.
    ToolHook,
    /// Waiting for the output of the current call.
    ToolExec,
    /// Waiting for the `after_tool_call` hook of the current call.
    ToolAfterHook,
    /// The run is over.
    Finished,
}

/// The state of one run of the tool-use loop.
pub struct AgentRun {
    max_rounds: usize,
    round: usize,
    has_hooks: bool,
    phase: Phase,
    calls: Vec<ToolCall>,
    idx: usize,
}

/// Text of the tool result recorded when a hook skips a call.
pub open spec fn spec_skipped_text() -> Seq<char> {
    "[skipped by hook]"@
}

/// Text of the tool result recorded when a hook denies a call.
pub open spec fn spec_denied_text(reason: Seq<char>) -> Seq<char> {
    "[denied] "@ + reason
}

/// Text a tool call yields when no tool registry is configured.
pub open spec fn spec_unavailable_text(name: Seq<char>) -> Seq<char> {
    "Tool '"@ + name + "' not available"@
}

/// Text a tool call yields when the tool failed with `error`.
pub open spec fn spec_tool_error_text(error: Seq<char>) -> Seq<char> {
    "Tool error: "@ + error
}

/// The tool result recorded when no tool registry is configured.
pub fn tool_unavailable_text(name: &str) -> (s: String)
    ensures
        s@ == spec_unavailable_text(name@),
{
    crate::text::concat3("Tool '", name, "' not available")
}

/// The tool result recorded when a tool failed with `error`.
pub fn tool_error_text(error: &str) -> (s: String)
    ensures
        s@ == spec_tool_error_text(error@),
{
    concat2("Tool error: ", error)
}

/// Lexicographic order on progress measures.
pub open spec fn lex_lt(a: (int, int, int), b: (int, int, int)) -> bool {
    a.0 < b.0 || (a.0 == b.0 && (a.1 < b.1 || (a.1 == b.1 && a.2 < b.2)))
}

impl AgentRun {
    pub closed spec fn spec_max_rounds(&self) -> nat {
        self.max_rounds as nat
    }

    /// Index of the current round.
    pub closed spec fn spec_round(&self) -> nat {
        self.round as nat
    }

    pub closed spec fn spec_has_hooks(&self) -> bool {
        self.has_hooks
    }

    pub closed spec fn spec_phase(&self) -> Phase {
        self.phase
    }

    /// The tool calls of the current batch.
    pub closed spec fn spec_calls(&self) -> Seq<ToolCall> {
        self.calls@
    }

    /// Index of the current tool call within the batch.
    pub closed spec fn spec_idx(&self) -> nat {
        self.idx as nat
    }

    /// The current tool call.
    pub open spec fn spec_current_call(&self) -> ToolCall {
        self.spec_calls()[self.spec_idx() as int]
    }

    /// The state is consistent: rounds stay below the limit until the run ends, and the
    /// tool phases point at a call of the batch.
    pub open spec fn wf(&self) -> bool {
        &&& (self.spec_phase() != Phase::Finished ==> self.spec_round() < self.spec_max_rounds())
        &&& (self.spec_phase() == Phase::ToolHook || self.spec_phase() == Phase::ToolExec
            || self.spec_phase() == Phase::ToolAfterHook) ==> self.spec_idx()
            < self.spec_calls().len()
        &&& (self.spec_phase() == Phase::ToolHook || self.spec_phase() == Phase::ToolAfterHook)
            ==> self.spec_has_hooks()
        &&& (self.spec_phase() == Phase::BeforeLlm || self.spec_phase() == Phase::AwaitLlm
            || self.spec_phase() == Phase::AfterLlm) ==> self.spec_calls().len() == 0
        &&& (self.spec_phase() == Phase::BeforeLlm || self.spec_phase() == Phase::AfterLlm)
            ==> self.spec_has_hooks()
    }

    /// Stage of the phase within a round; later stages rank lower.
    pub open spec fn stage(&self) -> int {
        match self.spec_phase() {
            Phase::BeforeLlm => 3,
            Phase::AwaitLlm => 2,
            Phase::AfterLlm => 1,
            _ => 0,
        }
    }

    /// Steps left in the current tool batch.
    pub open spec fn tool_steps_left(&self) -> int {
        match self.spec_phase() {
            Phase::ToolHook => 3 * (self.spec_calls().len() - self.spec_idx()) + 1,
            Phase::ToolExec => 3 * (self.spec_calls().len() - self.spec_idx()),
            Phase::ToolAfterHook => 3 * (self.spec_calls().len() - self.spec_idx()) - 1,
            _ => 0,
        }
    }

    /// How far the run is from its end: rounds left, then the stage within the round,
    /// then the steps left in the tool batch. Every step of the loop makes it smaller in
    /// the lexicographic order, so the loop always ends.
    pub open spec fn progress(&self) -> (int, int, int) {
        if self.spec_phase() == Phase::Finished {
            (-1, 0, 0)
        } else {
            (self.spec_max_rounds() - self.spec_round(), self.stage(), self.tool_steps_left())
        }
    }

    /// The action that opens a round.
    pub open spec fn opens_round(&self, events: Seq<AgentEvent>, action: LoopAction) -> bool {
        if self.spec_has_hooks() {
            &&& self.spec_phase() == Phase::BeforeLlm
            &&& events.len() == 0
            &&& action is BeforeLlmHook
        } else {
            &&& self.spec_phase() == Phase::AwaitLlm
            &&& events.len() == 1
            &&& events[0] is Thinking
            &&& action is CallLlm
        }
    }

    /// The run ended after its last round without a final reply.
    pub open spec fn out_of_rounds(&self, events: Seq<AgentEvent>, action: LoopAction) -> bool {
        &&& self.spec_phase() == Phase::Finished
        &&& events.len() == 1
        &&& events[0] is Done
        &&& action matches LoopAction::Finish(Ok(s)) && s@ == Seq::<char>::empty()
    }

    /// The run was aborted with `reason`.
    pub open spec fn aborted(&self, events: Seq<AgentEvent>, action: LoopAction, reason: Seq<char>) -> bool {
        &&& self.spec_phase() == Phase::Finished
        &&& events.len() == 1
        &&& events[0] matches AgentEvent::Error(r) && r@ == reason
        &&& action matches LoopAction::Finish(Err(r)) && r@ == reason
    }

    /// The state after moving on to round `round` (or ending when none is left).
    pub open spec fn next_round_state(&self, old_run: &AgentRun, events: Seq<AgentEvent>, action: LoopAction) -> bool {
        &&& self.spec_max_rounds() == old_run.spec_max_rounds()
        &&& self.spec_has_hooks() == old_run.spec_has_hooks()
        &&& self.spec_round() == old_run.spec_round() + 1
        &&& if self.spec_round() < self.spec_max_rounds() {
            self.opens_round(events, action)
        } else {
            self.out_of_rounds(events, action)
        }
    }

    /// The action that starts tool call `idx` of the batch.
    pub open spec fn starts_call(&self, events: Seq<AgentEvent>, action: LoopAction) -> bool {
        &&& events.len() == 1
        &&& events[0] == AgentEvent::ToolCallStart(self.spec_current_call())
        &&& if self.spec_has_hooks() {
            &&& self.spec_phase() == Phase::ToolHook
            &&& action == LoopAction::BeforeToolHook(self.spec_current_call())
        } else {
            &&& self.spec_phase() == Phase::ToolExec
            &&& action == LoopAction::ExecuteTool(self.spec_current_call())
        }
    }

    /// The state after the current call of `old_run` was recorded: the next call starts,
    /// or the next round begins when the batch is done.
    pub open spec fn next_call_state(&self, old_run: &AgentRun, events: Seq<AgentEvent>, action: LoopAction) -> bool {
        if old_run.spec_idx() + 1 < old_run.spec_calls().len() {
            &&& self.spec_max_rounds() == old_run.spec_max_rounds()
            &&& self.spec_has_hooks() == old_run.spec_has_hooks()
            &&& self.spec_round() == old_run.spec_round()
            &&& self.spec_calls() == old_run.spec_calls()
            &&& self.spec_idx() == old_run.spec_idx() + 1
            &&& self.starts_call(events, action)
        } else {
            self.next_round_state(old_run, events, action)
        }
    }

    /// A run of at most `max_rounds` rounds; `has_hooks` tells whether hooks are installed.
    pub fn start(max_rounds: usize, has_hooks: bool) -> (r: (AgentRun, LoopStep))
        ensures
            r.0.wf(),
            r.0.spec_max_rounds() == max_rounds,
            r.0.spec_has_hooks() == has_hooks,
            r.0.spec_round() == 0,
            max_rounds == 0 ==> r.0.out_of_rounds(r.1.events@, r.1.action),
            max_rounds > 0 ==> r.0.opens_round(r.1.events@, r.1.action),
    {
        let mut run = AgentRun {
            max_rounds,
            round: 0,
            has_hooks,
            phase: Phase::Finished,
            calls: Vec::new(),
            idx: 0,
        };
        let step = run.open_round();
        (run, step)
    }

    /// Opens the current round, or ends the run when no round is left.
    fn open_round(&mut self) -> (step: LoopStep)
        ensures
            final(self).spec_max_rounds() == old(self).spec_max_rounds(),
            final(self).spec_has_hooks() == old(self).spec_has_hooks(),
            final(self).spec_round() == old(self).spec_round(),
            final(self).wf(),
            old(self).spec_round() < old(self).spec_max_rounds() ==> final(self).opens_round(step.events@, step.action),
            old(self).spec_round() >= old(self).spec_max_rounds() ==> final(self).out_of_rounds(step.events@, step.action),
    {
        self.calls = Vec::new();
        self.idx = 0;
        if self.round < self.max_rounds {
            if self.has_hooks {
                self.phase = Phase::BeforeLlm;
                LoopStep { events: Vec::new(), action: LoopAction::BeforeLlmHook }
            } else {
                self.phase = Phase::AwaitLlm;
                let mut events: Vec<AgentEvent> = Vec::new();
                events.push(AgentEvent::Thinking);
                LoopStep { events, action: LoopAction::CallLlm }
            }
        } else {
            self.phase = Phase::Finished;
            let mut events: Vec<AgentEvent> = Vec::new();
            events.push(AgentEvent::Done);
            LoopStep { events, action: LoopAction::Finish(Ok(String::new())) }
        }
    }

    /// Moves on to the next round.
    fn next_round(&mut self) -> (step: LoopStep)
        requires
            old(self).spec_round() < old(self).spec_max_rounds(),
        ensures
            final(self).wf(),
            final(self).next_round_state(old(self), step.events@, step.action),
    {
        self.round = self.round + 1;
        self.open_round()
    }

    /// Ends the run with `reason` as its error.
    fn abort(&mut self, reason: String) -> (step: LoopStep)
        ensures
            final(self).wf(),
            final(self).aborted(step.events@, step.action, reason@),
            final(self).spec_round() == old(self).spec_round(),
            final(self).spec_max_rounds() == old(self).spec_max_rounds(),
    {
        self.phase = Phase::Finished;
        let mut events: Vec<AgentEvent> = Vec::new();
        events.push(AgentEvent::Error(reason.clone()));
        LoopStep { events, action: LoopAction::Finish(Err(reason)) }
    }

    /// Starts the current call of the batch.
    fn start_call(&mut self) -> (step: LoopStep)
        requires
            old(self).spec_idx() < old(self).spec_calls().len(),
            old(self).spec_round() < old(self).spec_max_rounds(),
        ensures
            final(self).wf(),
            final(self).spec_max_rounds() == old(self).spec_max_rounds(),
            final(self).spec_has_hooks() == old(self).spec_has_hooks(),
            final(self).spec_round() == old(self).spec_round(),
            final(self).spec_calls() == old(self).spec_calls(),
            final(self).spec_idx() == old(self).spec_idx(),
            final(self).starts_call(step.events@, step.action),
    {
        let call = self.calls[self.idx].duplicate();
        let mut events: Vec<AgentEvent> = Vec::new();
        events.push(AgentEvent::ToolCallStart(call.duplicate()));
        if self.has_hooks {
            self.phase = Phase::ToolHook;
            LoopStep { events, action: LoopAction::BeforeToolHook(call) }
        } else {
            self.phase = Phase::ToolExec;
            LoopStep { events, action: LoopAction::ExecuteTool(call) }
        }
    }

    /// Moves past the current call.
    fn next_call(&mut self) -> (step: LoopStep)
        requires
            old(self).spec_idx() < old(self).spec_calls().len(),
            old(self).spec_round() < old(self).spec_max_rounds(),
        ensures
            final(self).wf(),
            final(self).next_call_state(old(self), step.events@, step.action),
    {
        assert(self.calls@.len() == self.calls.len());
        if self.idx + 1 < self.calls.len() {
            self.idx = self.idx + 1;
            self.start_call()
        } else {
            self.next_round()
        }
    }

    /// Reports the result of the `before_llm_call` hook.
    ///
    /// `Abort` ends the run with its reason; `Skip` and `Denied` skip the round;
    /// `Continue` goes on to the model call.
    pub fn on_before_llm(&mut self, result: HookResult) -> (step: LoopStep)
        requires
            old(self).wf(),
            old(self).spec_phase() == Phase::BeforeLlm,
        ensures
            final(self).wf(),
            lex_lt(final(self).progress(), old(self).progress()),
            match result {
                HookResult::Abort(reason) => final(self).aborted(step.events@, step.action, reason@),
                HookResult::Continue => {
                    &&& final(self).spec_phase() == Phase::AwaitLlm
                    &&& final(self).spec_round() == old(self).spec_round()
                    &&& final(self).spec_max_rounds() == old(self).spec_max_rounds()
                    &&& final(self).spec_has_hooks() == old(self).spec_has_hooks()
                    &&& final(self).spec_calls().len() == 0
                    &&& step.events@.len() == 1
                    &&& step.events@[0] is Thinking
                    &&& step.action is CallLlm
                },
                _ => final(self).next_round_state(old(self), step.events@, step.action),
            },
    {
        match result {
            HookResult::Abort(reason) => self.abort(reason),
            HookResult::Continue => {
                self.phase = Phase::AwaitLlm;
                let mut events: Vec<AgentEvent> = Vec::new();
                events.push(AgentEvent::Thinking);
                LoopStep { events, action: LoopAction::CallLlm }
            },
            _ => self.next_round(),
        }
    }

    /// Reports the model's reply. With hooks installed the reply goes to the
    /// `after_llm_call` hook first; without, it is handled at once.
    pub fn on_llm_reply(&mut self, response: AgentResponse, messages: &mut Vec<Message>) -> (step: LoopStep)
        requires
            old(self).wf(),
            old(self).spec_phase() == Phase::AwaitLlm,
        ensures
            final(self).wf(),
            lex_lt(final(self).progress(), old(self).progress()),
            old(self).spec_has_hooks() ==> {
                &&& final(self).spec_phase() == Phase::AfterLlm
                &&& final(self).spec_round() == old(self).spec_round()
                &&& final(self).spec_max_rounds() == old(self).spec_max_rounds()
                &&& final(self).spec_has_hooks()
                &&& final(self).spec_calls() == old(self).spec_calls()
                &&& step.events@.len() == 0
                &&& step.action == LoopAction::AfterLlmHook(response)
                &&& final(messages)@ == old(messages)@
            },
            !old(self).spec_has_hooks() ==> final(self).handled_reply(
                old(self),
                response.kind,
                old(messages)@,
                final(messages)@,
                step,
            ),
    {
        if self.has_hooks {
            self.phase = Phase::AfterLlm;
            LoopStep { events: Vec::new(), action: LoopAction::AfterLlmHook(response) }
        } else {
            self.handle_reply(response, messages)
        }
    }

    /// How a reply is handled: a final message is appended and returned; tool calls are
    /// recorded as an assistant message and run one by one; an empty batch ends the round.
    pub open spec fn handled_reply(
        &self,
        old_run: &AgentRun,
        kind: AgentResponseKind,
        old_msgs: Seq<Message>,
        new_msgs: Seq<Message>,
        step: LoopStep,
    ) -> bool {
        match kind {
            AgentResponseKind::MessageComplete(msg) => {
                &&& new_msgs == old_msgs.push(msg)
                &&& self.spec_phase() == Phase::Finished
                &&& step.events@.len() == 1
                &&& step.events@[0] is Done
                &&& step.action matches LoopAction::Finish(Ok(s)) && s@ == msg.content@
            },
            AgentResponseKind::ToolCalls(calls) => {
                &&& new_msgs.len() == old_msgs.len() + 1
                &&& new_msgs.drop_last() == old_msgs
                &&& new_msgs.last()@ == MessageView::tool_request(calls@)
                &&& if calls@.len() == 0 {
                    self.next_round_state(old_run, step.events@, step.action)
                } else {
                    &&& self.spec_max_rounds() == old_run.spec_max_rounds()
                    &&& self.spec_has_hooks() == old_run.spec_has_hooks()
                    &&& self.spec_round() == old_run.spec_round()
                    &&& self.spec_calls() == calls@
                    &&& self.spec_idx() == 0
                    &&& self.starts_call(step.events@, step.action)
                }
            },
        }
    }

    fn handle_reply(&mut self, response: AgentResponse, messages: &mut Vec<Message>) -> (step: LoopStep)
        requires
            old(self).wf(),
            old(self).spec_phase() == Phase::AwaitLlm || old(self).spec_phase() == Phase::AfterLlm,
        ensures
            final(self).wf(),
            lex_lt(final(self).progress(), old(self).progress()),
            final(self).handled_reply(old(self), response.kind, old(messages)@, final(messages)@, step),
    {
        match response.kind {
            AgentResponseKind::MessageComplete(msg) => {
                let content = msg.content.clone();
                messages.push(msg);
                self.phase = Phase::Finished;
                let mut events: Vec<AgentEvent> = Vec::new();
                events.push(AgentEvent::Done);
                LoopStep { events, action: LoopAction::Finish(Ok(content)) }
            },
            AgentResponseKind::ToolCalls(calls) => {
                let batch = copy_calls(&calls);
                let ghost old_msgs = messages@;
                messages.push(Message::assistant_tool_calls(calls));
                assert(messages@.drop_last() =~= old_msgs);
                if batch.len() == 0 {
                    self.next_round()
                } else {
                    self.calls = batch;
                    self.idx = 0;
                    self.start_call()
                }
            },
        }
    }

    /// Reports the result of the `after_llm_call` hook and hands back the (possibly edited)
    /// reply. `Abort` ends the run; `Skip` and `Denied` skip the round; `Continue` handles
    /// the reply.
    pub fn on_after_llm(
        &mut self,
        result: HookResult,
        response: AgentResponse,
        messages: &mut Vec<Message>,
    ) -> (step: LoopStep)
        requires
            old(self).wf(),
            old(self).spec_phase() == Phase::AfterLlm,
        ensures
            final(self).wf(),
            lex_lt(final(self).progress(), old(self).progress()),
            match result {
                HookResult::Abort(reason) => final(self).aborted(step.events@, step.action, reason@) && final(messages)@
                    == old(messages)@,
                HookResult::Continue => final(self).handled_reply(
                    old(self),
                    response.kind,
                    old(messages)@,
                    final(messages)@,
                    step,
                ),
                _ => final(self).next_round_state(old(self), step.events@, step.action) && final(messages)@
                    == old(messages)@,
            },
    {
        match result {
            HookResult::Abort(reason) => self.abort(reason),
            HookResult::Continue => self.handle_reply(response, messages),
            _ => self.next_round(),
        }
    }

    /// Reports the result of the `before_tool_call` hook for the current call.
    ///
    /// `Abort` ends the run; `Skip` records `[skipped by hook]` as the call's result and
    /// `Denied` records `[denied] <reason>`, then the next call starts; `Continue` runs
    /// the tool.
    pub fn on_before_tool(&mut self, result: HookResult, messages: &mut Vec<Message>) -> (step: LoopStep)
        requires
            old(self).wf(),
            old(self).spec_phase() == Phase::ToolHook,
        ensures
            final(self).wf(),
            lex_lt(final(self).progress(), old(self).progress()),
            match result {
                HookResult::Abort(reason) => final(self).aborted(step.events@, step.action, reason@) && final(messages)@
                    == old(messages)@,
                HookResult::Continue => {
                    &&& final(self).spec_phase() == Phase::ToolExec
                    &&& final(self).spec_round() == old(self).spec_round()
                    &&& final(self).spec_max_rounds() == old(self).spec_max_rounds()
                    &&& final(self).spec_has_hooks() == old(self).spec_has_hooks()
                    &&& final(self).spec_calls() == old(self).spec_calls()
                    &&& final(self).spec_idx() == old(self).spec_idx()
                    &&& step.events@.len() == 0
                    &&& step.action == LoopAction::ExecuteTool(old(self).spec_current_call())
                    &&& final(messages)@ == old(messages)@
                },
                HookResult::Skip => {
                    &&& final(messages)@.len() == old(messages)@.len() + 1
                    &&& final(messages)@.drop_last() == old(messages)@
                    &&& final(messages)@.last()@ == MessageView::tool_result(
                        old(self).spec_current_call().id@,
                        spec_skipped_text(),
                    )
                    &&& final(self).next_call_state(old(self), step.events@, step.action)
                },
                HookResult::Denied(reason) => {
                    &&& final(messages)@.len() == old(messages)@.len() + 1
                    &&& final(messages)@.drop_last() == old(messages)@
                    &&& final(messages)@.last()@ == MessageView::tool_result(
                        old(self).spec_current_call().id@,
                        spec_denied_text(reason@),
                    )
                    &&& final(self).next_call_state(old(self), step.events@, step.action)
                },
            },
    {
        match result {
            HookResult::Abort(reason) => self.abort(reason),
            HookResult::Continue => {
                self.phase = Phase::ToolExec;
                let call = self.calls[self.idx].duplicate();
                LoopStep { events: Vec::new(), action: LoopAction::ExecuteTool(call) }
            },
            HookResult::Skip => {
                let ghost old_msgs = messages@;
                messages.push(Message::tool_result(self.calls[self.idx].id.as_str(), "[skipped by hook]"));
                assert(messages@.drop_last() =~= old_msgs);
                self.next_call()
            },
            HookResult::Denied(reason) => {
                let ghost old_msgs = messages@;
                let text = concat2("[denied] ", reason.as_str());
                messages.push(Message::tool_result(self.calls[self.idx].id.as_str(), text.as_str()));
                assert(messages@.drop_last() =~= old_msgs);
                self.next_call()
            },
        }
    }

    /// Records `output` as the current call's result: emits `ToolCallResult`, appends the
    /// tool message and moves on.
    fn record_output(&mut self, output: String, messages: &mut Vec<Message>) -> (step: LoopStep)
        requires
            old(self).wf(),
            old(self).spec_phase() == Phase::ToolExec || old(self).spec_phase() == Phase::ToolAfterHook,
        ensures
            final(self).wf(),
            lex_lt(final(self).progress(), old(self).progress()),
            final(self).recorded(old(self), output@, old(messages)@, final(messages)@, step),
    {
        let ghost old_msgs = messages@;
        let id = self.calls[self.idx].id.clone();
        messages.push(Message::tool_result(id.as_str(), output.as_str()));
        assert(messages@.drop_last() =~= old_msgs);
        let mut next = self.next_call();
        let mut events: Vec<AgentEvent> = Vec::new();
        events.push(AgentEvent::ToolCallResult { call_id: id, result: output });
        events.append(&mut next.events);
        LoopStep { events, action: next.action }
    }

    /// The current call's `output` was recorded: `ToolCallResult` is emitted first, the
    /// tool message appended, and the loop moves on to the next call or round.
    pub open spec fn recorded(
        &self,
        old_run: &AgentRun,
        output: Seq<char>,
        old_msgs: Seq<Message>,
        new_msgs: Seq<Message>,
        step: LoopStep,
    ) -> bool {
        &&& new_msgs.len() == old_msgs.len() + 1
        &&& new_msgs.drop_last() == old_msgs
        &&& new_msgs.last()@ == MessageView::tool_result(old_run.spec_current_call().id@, output)
        &&& step.events@.len() >= 1
        &&& step.events@[0] matches AgentEvent::ToolCallResult { call_id, result }
            && call_id@ == old_run.spec_current_call().id@ && result@ == output
        &&& self.next_call_state(old_run, step.events@.drop_first(), step.action)
    }

    /// Reports the output of the current tool call. With hooks installed it goes to the
    /// `after_tool_call` hook first; without, it is recorded at once.
    pub fn on_tool_output(&mut self, output: String, messages: &mut Vec<Message>) -> (step: LoopStep)
        requires
            old(self).wf(),
            old(self).spec_phase() == Phase::ToolExec,
        ensures
            final(self).wf(),
            lex_lt(final(self).progress(), old(self).progress()),
            old(self).spec_has_hooks() ==> {
                &&& final(self).spec_phase() == Phase::ToolAfterHook
                &&& final(self).spec_round() == old(self).spec_round()
                &&& final(self).spec_max_rounds() == old(self).spec_max_rounds()
                &&& final(self).spec_has_hooks()
                &&& final(self).spec_calls() == old(self).spec_calls()
                &&& final(self).spec_idx() == old(self).spec_idx()
                &&& step.events@.len() == 0
                &&& step.action == LoopAction::AfterToolHook(old(self).spec_current_call(), output)
                &&& final(messages)@ == old(messages)@
            },
            !old(self).spec_has_hooks() ==> final(self).recorded(
                old(self),
                output@,
                old(messages)@,
                final(messages)@,
                step,
            ),
    {
        if self.has_hooks {
            self.phase = Phase::ToolAfterHook;
            let call = self.calls[self.idx].duplicate();
            LoopStep { events: Vec::new(), action: LoopAction::AfterToolHook(call, output) }
        } else {
            self.record_output(output, messages)
        }
    }

    /// Reports the output after the `after_tool_call` hook ran (its decision is not used).
    pub fn on_after_tool(&mut self, output: String, messages: &mut Vec<Message>) -> (step: LoopStep)
        requires
            old(self).wf(),
            old(self).spec_phase() == Phase::ToolAfterHook,
        ensures
            final(self).wf(),
            lex_lt(final(self).progress(), old(self).progress()),
            final(self).recorded(old(self), output@, old(messages)@, final(messages)@, step),
    {
        self.record_output(output, messages)
    }

    /// Index of the current round (for the hook context).
    pub fn round(&self) -> (r: usize)
        ensures
            r == self.spec_round(),
    {
        self.round
    }

    /// Is the run over?
    pub fn is_finished(&self) -> (b: bool)
        ensures
            b == (self.spec_phase() == Phase::Finished),
    {
        self.phase == Phase::Finished
    }
}

} // verus!
