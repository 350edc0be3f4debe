//! The OpenAI-compatible chat-completions protocol: the request body, the lines of
//! the server-sent event stream, and the accumulation of streamed deltas into a reply.
//! Sending the request and reading the stream stay with the caller.

use vstd::prelude::*;
use crate::message::{Message, MessageView, Role, ToolCall, ToolDefinition};
use crate::config::{ApiStyle, ModelProvider, ThinkingParam};
use crate::adapter::{AgentResponse, AgentResponseKind, Usage};
use crate::event::AgentEvent;
use crate::json::{json_normalize, spec_json_normal};
use crate::text::{
    concat2, concat3, from_chars, spec_starts_with, spec_trim, spec_trim_char_end, starts_with,
    sub_chars, to_chars, trim_char_end, trim_chars,
};

verus! {

/// A tool call as the API receives it back in an assistant message.
#[derive(Debug, Clone)]
pub struct ChatToolCall {
    pub id: String,
    /// Always `function`.
    pub call_type: String,
    pub function: ChatFunctionCall,
}

/// Name and JSON arguments of a called function.
#[derive(Debug, Clone)]
pub struct ChatFunctionCall {
    pub name: String,
    pub arguments: String,
}

/// A message in the request body.
#[derive(Debug, Clone)]
pub struct ChatMessage {
    pub role: String,
    pub content: Option<String>,
    pub tool_calls: Option<Vec<ChatToolCall>>,
    pub tool_call_id: Option<String>,
}

/// A tool offered in the request body.
#[derive(Debug, Clone)]
pub struct ChatTool {
    /// Always `function`.
    pub tool_type: String,
    pub function: ChatFunction,
}

/// Name, description and JSON schema of an offered function.
#[derive(Debug, Clone)]
pub struct ChatFunction {
    pub name: String,
    pub description: String,
    pub parameters: String,
}

/// `stream_options` of the request body.
#[derive(Debug, Clone, Copy)]
pub struct StreamOptions {
    pub include_usage: bool,
}

/// The body of a streaming chat-completions request.
#[derive(Debug)]
pub struct ChatRequest {
    pub model: String,
    pub messages: Vec<ChatMessage>,
    pub max_tokens: Option<u32>,
    /// Absent when no tool is offered.
    pub tools: Option<Vec<ChatTool>>,
    pub stream: bool,
    pub stream_options: Option<StreamOptions>,
    /// OpenAI style: `low`, `medium` or `high`.
    pub reasoning_effort: Option<String>,
    /// The `thinking` object.
    pub thinking: Option<ThinkingParam>,
}

/// The API's name of a role.
pub open spec fn spec_role_name(role: Role) -> Seq<char> {
    match role {
        Role::User => "user"@,
        Role::Assistant => "assistant"@,
        Role::System => "system"@,
        Role::Tool => "tool"@,
    }
}

/// The API's name of a role.
pub fn role_name(role: Role) -> (s: &'static str)
    ensures
        s@ == spec_role_name(role),
{
    match role {
        Role::User => "user",
        Role::Assistant => "assistant",
        Role::System => "system",
        Role::Tool => "tool",
    }
}

/// `c` carries the call `t`.
pub open spec fn spec_call_sent(c: ChatToolCall, t: ToolCall) -> bool {
    &&& c.id@ == t.id@
    &&& c.call_type@ == "function"@
    &&& c.function.name@ == t.name@
    &&& c.function.arguments@ == t.arguments@
}

/// `c` carries the message `m`.
pub open spec fn spec_message_sent(c: ChatMessage, m: Message) -> bool {
    &&& c.role@ == spec_role_name(m.role)
    &&& c.content matches Some(t) && t@ == m.content@
    &&& match m.tool_calls {
        Some(calls) => c.tool_calls matches Some(sent) && sent@.len() == calls@.len() && forall|i: int|
            0 <= i < calls@.len() ==> spec_call_sent(#[trigger] sent@[i], calls@[i]),
        None => c.tool_calls is None,
    }
    &&& match m.tool_call_id {
        Some(id) => c.tool_call_id matches Some(t) && t@ == id@,
        None => c.tool_call_id is None,
    }
}

/// `c` offers the tool `t`.
pub open spec fn spec_tool_sent(c: ChatTool, t: ToolDefinition) -> bool {
    &&& c.tool_type@ == "function"@
    &&& c.function.name@ == t.name@
    &&& c.function.description@ == t.description@
    &&& c.function.parameters@ == t.parameters@
}

fn send_call(t: &ToolCall) -> (c: ChatToolCall)
    ensures
        spec_call_sent(c, *t),
{
    ChatToolCall {
        id: t.id.clone(),
        call_type: "function".to_owned(),
        function: ChatFunctionCall { name: t.name.clone(), arguments: t.arguments.clone() },
    }
}

fn send_message(m: &Message) -> (c: ChatMessage)
    ensures
        spec_message_sent(c, *m),
{
    let tool_calls = match &m.tool_calls {
        Some(calls) => {
            let mut sent: Vec<ChatToolCall> = Vec::new();
            let mut i: usize = 0;
            while i < calls.len()
                invariant
                    i <= calls@.len(),
                    sent@.len() == i,
                    forall|k: int| 0 <= k < i ==> spec_call_sent(#[trigger] sent@[k], calls@[k]),
                decreases calls.len() - i,
            {
                sent.push(send_call(&calls[i]));
                i += 1;
            }
            Some(sent)
        },
        None => None,
    };
    let tool_call_id = match &m.tool_call_id {
        Some(id) => Some(id.clone()),
        None => None,
    };
    ChatMessage {
        role: role_name(m.role).to_owned(),
        content: Some(m.content.clone()),
        tool_calls,
        tool_call_id,
    }
}

/// The messages of a request: one per message, in order.
pub fn build_messages(messages: &Vec<Message>) -> (r: Vec<ChatMessage>)
    ensures
        r@.len() == messages@.len(),
        forall|i: int| 0 <= i < messages@.len() ==> spec_message_sent(#[trigger] r@[i], messages@[i]),
{
    let mut r: Vec<ChatMessage> = Vec::new();
    let mut i: usize = 0;
    while i < messages.len()
        invariant
            i <= messages@.len(),
            r@.len() == i,
            forall|k: int| 0 <= k < i ==> spec_message_sent(#[trigger] r@[k], messages@[k]),
        decreases messages.len() - i,
    {
        r.push(send_message(&messages[i]));
        i += 1;
    }
    r
}

/// The tools of a request: one per definition, in order.
pub fn build_tools(tools: &Vec<ToolDefinition>) -> (r: Vec<ChatTool>)
    ensures
        r@.len() == tools@.len(),
        forall|i: int| 0 <= i < tools@.len() ==> spec_tool_sent(#[trigger] r@[i], tools@[i]),
{
    let mut r: Vec<ChatTool> = Vec::new();
    let mut i: usize = 0;
    while i < tools.len()
        invariant
            i <= tools@.len(),
            r@.len() == i,
            forall|k: int| 0 <= k < i ==> spec_tool_sent(#[trigger] r@[k], tools@[k]),
        decreases tools.len() - i,
    {
        let t = &tools[i];
        r.push(ChatTool {
            tool_type: "function".to_owned(),
            function: ChatFunction {
                name: t.name.clone(),
                description: t.description.clone(),
                parameters: t.parameters.clone(),
            },
        });
        i += 1;
    }
    r
}

/// The endpoint of chat completions under `base_url`: trailing slashes dropped, then
/// `/chat/completions`.
pub open spec fn spec_chat_url(base_url: Seq<char>) -> Seq<char> {
    spec_trim_char_end(base_url, '/') + "/chat/completions"@
}

/// The endpoint of chat completions under `base_url`.
pub fn chat_url(base_url: &str) -> (s: String)
    ensures
        s@ == spec_chat_url(base_url@),
{
    let v = to_chars(base_url);
    let t = trim_char_end(v.as_slice(), '/');
    let base = from_chars(t.as_slice());
    concat2(base.as_str(), "/chat/completions")
}

/// The `Authorization` header's value for an API key.
pub fn bearer(api_key: &str) -> (s: String)
    ensures
        s@ == "Bearer "@ + api_key@,
{
    concat2("Bearer ", api_key)
}

/// The error reported for a response whose status is not a success.
pub fn api_error_text(status: &str, body: &str) -> (s: String)
    ensures
        s@ == "OpenAI API error "@ + status@ + ": "@ + body@,
{
    let head = concat3("OpenAI API error ", status, ": ");
    concat2(head.as_str(), body)
}

/// The request body for `provider`: its model and output limit, the messages, the tools
/// when there are any, streaming with usage, and the thinking settings of its API style.
pub fn build_request(provider: &ModelProvider, messages: &Vec<Message>, tools: &Vec<ToolDefinition>) -> (r: ChatRequest)
    ensures
        r.model@ == provider.model@,
        r.messages@.len() == messages@.len(),
        forall|i: int| 0 <= i < messages@.len() ==> spec_message_sent(#[trigger] r.messages@[i], messages@[i]),
        r.max_tokens == Some(provider.max_output),
        tools@.len() == 0 ==> r.tools is None,
        tools@.len() > 0 ==> (r.tools matches Some(t) && t@.len() == tools@.len() && forall|i: int|
            0 <= i < tools@.len() ==> spec_tool_sent(#[trigger] t@[i], tools@[i])),
        r.stream,
        r.stream_options == Some(StreamOptions { include_usage: true }),
        provider.style == ApiStyle::Openai ==> (match provider.thinking.spec_reasoning_effort() {
            Some(e) => r.reasoning_effort matches Some(x) && x@ == e,
            None => r.reasoning_effort is None,
        }) && r.thinking == provider.thinking.spec_openai_thinking(),
        provider.style == ApiStyle::Anthropic ==> r.reasoning_effort is None
            && r.thinking == provider.thinking.spec_anthropic_thinking(),
{
    let chat_messages = build_messages(messages);
    let chat_tools = if tools.len() == 0 {
        None
    } else {
        Some(build_tools(tools))
    };
    let (reasoning_effort, thinking) = match provider.style {
        ApiStyle::Openai => {
            let effort = match provider.thinking.to_reasoning_effort() {
                Some(e) => Some(e.to_owned()),
                None => None,
            };
            (effort, provider.thinking.to_openai_thinking())
        },
        ApiStyle::Anthropic => (None, provider.thinking.to_anthropic_thinking()),
    };
    ChatRequest {
        model: provider.model.clone(),
        messages: chat_messages,
        max_tokens: Some(provider.max_output),
        tools: chat_tools,
        stream: true,
        stream_options: Some(StreamOptions { include_usage: true }),
        reasoning_effort,
        thinking,
    }
}

/// What a line of the event stream means.
#[derive(Debug)]
pub enum SseLine {
    /// Blank, a comment, or not a data line: ignore it.
    Skip,
    /// `data: [DONE]`: the stream is over.
    Done,
    /// The JSON payload of a data line.
    Data(String),
}

/// The meaning of a stream line, after trimming white space.
pub open spec fn spec_sse_kind(line: Seq<char>) -> Option<Option<Seq<char>>> {
    let t = spec_trim(line);
    if t.len() == 0 || t[0] == ':' {
        None
    } else if t == "data: [DONE]"@ {
        Some(None)
    } else if spec_starts_with(t, "data: "@) {
        Some(Some(t.skip(6)))
    } else {
        None
    }
}

/// Classifies one line of the event stream.
pub fn classify_sse_line(line: &str) -> (r: SseLine)
    ensures
        match spec_sse_kind(line@) {
            None => r is Skip,
            Some(None) => r is Done,
            Some(Some(d)) => r matches SseLine::Data(x) && x@ == d,
        },
{
    let v = to_chars(line);
    let t = trim_chars(v.as_slice());
    if t.len() == 0 || t[0] == ':' {
        return SseLine::Skip;
    }
    let done = to_chars("data: [DONE]");
    let prefix = to_chars("data: ");
    proof {
        reveal_strlit("data: ");
        reveal_strlit("data: [DONE]");
    }
    if crate::text::chars_eq(t.as_slice(), done.as_slice()) {
        return SseLine::Done;
    }
    if starts_with(t.as_slice(), prefix.as_slice()) {
        let rest = sub_chars(t.as_slice(), 6, t.len());
        assert(rest@ =~= t@.skip(6));
        return SseLine::Data(from_chars(rest.as_slice()));
    }
    SseLine::Skip
}

/// Token counts of the final stream chunk; absent counts count as zero.
#[derive(Debug, Clone, Copy, PartialEq, Eq, Structural)]
pub struct StreamUsage {
    pub prompt_tokens: Option<u64>,
    pub completion_tokens: Option<u64>,
    pub total_tokens: Option<u64>,
    /// `prompt_tokens_details.cached_tokens`.
    pub cached_tokens: Option<u64>,
}

/// The count, zero when absent.
pub open spec fn spec_count(c: Option<u64>) -> u64 {
    match c {
        Some(n) => n,
        None => 0,
    }
}

fn count(c: Option<u64>) -> (n: u64)
    ensures
        n == spec_count(c),
{
    match c {
        Some(n) => n,
        None => 0,
    }
}

/// The usage a stream reported.
pub open spec fn spec_usage_of(u: StreamUsage) -> Usage {
    Usage {
        prompt_tokens: spec_count(u.prompt_tokens),
        completion_tokens: spec_count(u.completion_tokens),
        total_tokens: spec_count(u.total_tokens),
        cached_input_tokens: spec_count(u.cached_tokens),
    }
}

/// The usage a stream reported.
pub fn usage_of(u: StreamUsage) -> (r: Usage)
    ensures
        r == spec_usage_of(u),
{
    Usage {
        prompt_tokens: count(u.prompt_tokens),
        completion_tokens: count(u.completion_tokens),
        total_tokens: count(u.total_tokens),
        cached_input_tokens: count(u.cached_tokens),
    }
}

/// A fragment of the tool call at position `index` of the reply.
#[derive(Debug)]
pub struct ToolCallDelta {
    pub index: usize,
    pub id: Option<String>,
    /// `function.name`.
    pub name: Option<String>,
    /// `function.arguments`: a piece of the JSON text.
    pub arguments: Option<String>,
}

/// A fragment of one choice of the reply.
#[derive(Debug)]
pub struct ChoiceDelta {
    pub content: Option<String>,
    pub reasoning_content: Option<String>,
    pub tool_calls: Option<Vec<ToolCallDelta>>,
}

/// One parsed chunk of the stream.
#[derive(Debug)]
pub struct StreamChunk {
    pub choices: Vec<ChoiceDelta>,
    pub usage: Option<StreamUsage>,
}

/// The text of an optional string.
pub open spec fn opt_text(o: Option<String>) -> Option<Seq<char>> {
    match o {
        Some(s) => Some(s@),
        None => None,
    }
}

/// Abstract value of a [`ToolCallDelta`].
pub struct ToolDeltaView {
    pub index: int,
    pub id: Option<Seq<char>>,
    pub name: Option<Seq<char>>,
    pub arguments: Option<Seq<char>>,
}

impl View for ToolCallDelta {
    type V = ToolDeltaView;

    open spec fn view(&self) -> ToolDeltaView {
        ToolDeltaView {
            index: self.index as int,
            id: opt_text(self.id),
            name: opt_text(self.name),
            arguments: opt_text(self.arguments),
        }
    }
}

/// Abstract value of a [`ChoiceDelta`].
pub struct ChoiceView {
    pub content: Option<Seq<char>>,
    pub reasoning: Option<Seq<char>>,
    pub tool_calls: Option<Seq<ToolDeltaView>>,
}

impl View for ChoiceDelta {
    type V = ChoiceView;

    open spec fn view(&self) -> ChoiceView {
        ChoiceView {
            content: opt_text(self.content),
            reasoning: opt_text(self.reasoning_content),
            tool_calls: match self.tool_calls {
                Some(v) => Some(v@.map_values(|d: ToolCallDelta| d@)),
                None => None,
            },
        }
    }
}

/// A tool call being assembled from its fragments.
#[derive(Debug)]
pub struct ToolCallAccumulator {
    pub id: String,
    pub name: String,
    pub arguments: String,
}

/// Abstract value of a [`ToolCallAccumulator`].
pub struct AccView {
    pub id: Seq<char>,
    pub name: Seq<char>,
    pub arguments: Seq<char>,
}

impl View for ToolCallAccumulator {
    type V = AccView;

    open spec fn view(&self) -> AccView {
        AccView { id: self.id@, name: self.name@, arguments: self.arguments@ }
    }
}

/// An accumulator that has received nothing.
pub open spec fn empty_acc() -> AccView {
    AccView { id: Seq::empty(), name: Seq::empty(), arguments: Seq::empty() }
}

/// The accumulators, grown with empty ones so that position `index` exists.
pub open spec fn spec_grow(accs: Seq<AccView>, index: int) -> Seq<AccView> {
    if index < accs.len() {
        accs
    } else {
        accs + Seq::new((index + 1 - accs.len()) as nat, |_i: int| empty_acc())
    }
}

/// The accumulators after one fragment: its id and name replace the old ones, its
/// arguments are appended.
pub open spec fn spec_apply_tool_delta(accs: Seq<AccView>, d: ToolDeltaView) -> Seq<AccView> {
    let g = spec_grow(accs, d.index);
    let a = g[d.index];
    g.update(
        d.index,
        AccView {
            id: match d.id {
                Some(x) => x,
                None => a.id,
            },
            name: match d.name {
                Some(x) => x,
                None => a.name,
            },
            arguments: match d.arguments {
                Some(x) => a.arguments + x,
                None => a.arguments,
            },
        },
    )
}

/// The accumulators after the fragments, in order.
pub open spec fn spec_apply_tool_deltas(accs: Seq<AccView>, ds: Seq<ToolDeltaView>) -> Seq<AccView>
    decreases ds.len(),
{
    if ds.len() == 0 {
        accs
    } else {
        spec_apply_tool_delta(spec_apply_tool_deltas(accs, ds.drop_last()), ds.last())
    }
}

/// Streamed output, as the events of a stream report it.
pub enum StreamPiece {
    Text(Seq<char>),
    Reasoning(Seq<char>),
}

/// The streamed output an event reports.
pub open spec fn stream_piece(e: AgentEvent) -> Option<StreamPiece> {
    match e {
        AgentEvent::Delta(s) => Some(StreamPiece::Text(s@)),
        AgentEvent::ThinkingDelta(s) => Some(StreamPiece::Reasoning(s@)),
        _ => None,
    }
}

/// Everything received so far.
pub struct StreamView {
    pub content: Seq<char>,
    pub reasoning: Seq<char>,
    pub tools: Seq<AccView>,
    pub has_tool_calls: bool,
    pub usage: Option<StreamUsage>,
}

/// The state after one choice fragment.
pub open spec fn spec_apply_choice(v: StreamView, c: ChoiceView) -> StreamView {
    StreamView {
        content: match c.content {
            Some(x) => v.content + x,
            None => v.content,
        },
        reasoning: match c.reasoning {
            Some(x) => v.reasoning + x,
            None => v.reasoning,
        },
        tools: match c.tool_calls {
            Some(ds) => spec_apply_tool_deltas(v.tools, ds),
            None => v.tools,
        },
        has_tool_calls: v.has_tool_calls || c.tool_calls is Some,
        usage: v.usage,
    }
}

/// The events one choice fragment emits: its text, then its reasoning.
pub open spec fn spec_choice_pieces(c: ChoiceView) -> Seq<StreamPiece> {
    (match c.content {
        Some(x) => seq![StreamPiece::Text(x)],
        None => Seq::empty(),
    }) + (match c.reasoning {
        Some(x) => seq![StreamPiece::Reasoning(x)],
        None => Seq::empty(),
    })
}

/// The state after the choice fragments, in order.
pub open spec fn spec_apply_choices(v: StreamView, cs: Seq<ChoiceView>) -> StreamView
    decreases cs.len(),
{
    if cs.len() == 0 {
        v
    } else {
        spec_apply_choice(spec_apply_choices(v, cs.drop_last()), cs.last())
    }
}

/// The events of the choice fragments, in order.
pub open spec fn spec_choices_pieces(cs: Seq<ChoiceView>) -> Seq<StreamPiece>
    decreases cs.len(),
{
    if cs.len() == 0 {
        Seq::empty()
    } else {
        spec_choices_pieces(cs.drop_last()) + spec_choice_pieces(cs.last())
    }
}

/// The state after a chunk: a reported usage replaces the last one, then the choices apply.
pub open spec fn spec_apply_chunk(v: StreamView, usage: Option<StreamUsage>, cs: Seq<ChoiceView>) -> StreamView {
    let u = StreamView {
        usage: match usage {
            Some(x) => Some(x),
            None => v.usage,
        },
        ..v
    };
    spec_apply_choices(u, cs)
}

/// The accumulated state of a streamed reply.
pub struct StreamState {
    content: String,
    reasoning: String,
    tools: Vec<ToolCallAccumulator>,
    has_tool_calls: bool,
    usage: Option<StreamUsage>,
}

/// The tool call an accumulator yields: arguments that do not parse as JSON become `{}`.
pub open spec fn spec_finished_call(a: AccView, c: ToolCall) -> bool {
    &&& c.id@ == a.id
    &&& c.name@ == a.name
    &&& c.arguments@ == match spec_json_normal(a.arguments) {
        Some(n) => n,
        None => "{}"@,
    }
}

impl View for StreamState {
    type V = StreamView;

    closed spec fn view(&self) -> StreamView {
        StreamView {
            content: self.content@,
            reasoning: self.reasoning@,
            tools: self.tools@.map_values(|a: ToolCallAccumulator| a@),
            has_tool_calls: self.has_tool_calls,
            usage: self.usage,
        }
    }
}

impl StreamState {
    /// Nothing received yet.
    pub fn new() -> (s: StreamState)
        ensures
            s@ == (StreamView {
                content: Seq::empty(),
                reasoning: Seq::empty(),
                tools: Seq::empty(),
                has_tool_calls: false,
                usage: None,
            }),
    {
        let s = StreamState {
            content: String::new(),
            reasoning: String::new(),
            tools: Vec::new(),
            has_tool_calls: false,
            usage: None,
        };
        assert(s@.tools =~= Seq::<AccView>::empty());
        s
    }

    fn apply_tool_delta(&mut self, d: &ToolCallDelta)
        ensures
            final(self)@ == (StreamView {
                tools: spec_apply_tool_delta(old(self)@.tools, d@),
                ..old(self)@
            }),
    {
        let ghost before = self@.tools;
        while self.tools.len() <= d.index
            invariant
                self@.content == old(self)@.content,
                self@.reasoning == old(self)@.reasoning,
                self@.has_tool_calls == old(self)@.has_tool_calls,
                self@.usage == old(self)@.usage,
                before == old(self)@.tools,
                self@.tools.len() <= before.len() || self@.tools.len() <= d.index + 1,
                before.len() <= self@.tools.len(),
                self@.tools.subrange(0, before.len() as int) == before,
                forall|k: int| before.len() <= k < self@.tools.len() ==> #[trigger] self@.tools[k] == empty_acc(),
            decreases d.index + 1 - self.tools.len(),
        {
            let ghost prev = self@.tools;
            self.tools.push(ToolCallAccumulator {
                id: String::new(),
                name: String::new(),
                arguments: String::new(),
            });
            assert(self@.tools =~= prev.push(empty_acc()));
            assert(self@.tools.subrange(0, before.len() as int) =~= prev.subrange(0, before.len() as int));
        }
        let ghost grown = self@.tools;
        assert(grown == spec_grow(before, d@.index)) by {
            if d@.index >= before.len() {
                assert(grown =~= before + Seq::new((d@.index + 1 - before.len()) as nat, |_i: int| empty_acc()));
            } else {
                assert(grown =~= before);
            }
        }
        let i = d.index;
        let mut acc = ToolCallAccumulator {
            id: self.tools[i].id.clone(),
            name: self.tools[i].name.clone(),
            arguments: self.tools[i].arguments.clone(),
        };
        if let Some(id) = &d.id {
            acc.id = id.clone();
        }
        if let Some(name) = &d.name {
            acc.name = name.clone();
        }
        if let Some(args) = &d.arguments {
            acc.arguments.append(args.as_str());
        }
        let ghost accv = acc@;
        self.tools.set(i, acc);
        assert(self@.tools =~= grown.update(i as int, accv));
    }

    fn apply_choice(&mut self, c: &ChoiceDelta, events: &mut Vec<AgentEvent>)
        ensures
            final(self)@ == spec_apply_choice(old(self)@, c@),
            final(events)@.len() == old(events)@.len() + spec_choice_pieces(c@).len(),
            forall|k: int| 0 <= k < old(events)@.len() ==> #[trigger] final(events)@[k] == old(events)@[k],
            forall|k: int| 0 <= k < spec_choice_pieces(c@).len() ==> stream_piece(
                #[trigger] final(events)@[old(events)@.len() + k],
            ) == Some(spec_choice_pieces(c@)[k]),
    {
        if let Some(text) = &c.content {
            self.content.append(text.as_str());
            events.push(AgentEvent::Delta(text.clone()));
        }
        let ghost mid = events@;
        if let Some(text) = &c.reasoning_content {
            self.reasoning.append(text.as_str());
            events.push(AgentEvent::ThinkingDelta(text.clone()));
        }
        if let Some(deltas) = &c.tool_calls {
            self.has_tool_calls = true;
            let ghost start = self@.tools;
            let ghost dv = deltas@.map_values(|d: ToolCallDelta| d@);
            let mut j: usize = 0;
            assert(dv.subrange(0, 0) =~= Seq::<ToolDeltaView>::empty());
            while j < deltas.len()
                invariant
                    j <= deltas@.len(),
                    dv == deltas@.map_values(|d: ToolCallDelta| d@),
                    self@.content == spec_apply_choice(old(self)@, c@).content,
                    self@.reasoning == spec_apply_choice(old(self)@, c@).reasoning,
                    self@.has_tool_calls,
                    self@.usage == old(self)@.usage,
                    start == old(self)@.tools,
                    self@.tools == spec_apply_tool_deltas(start, dv.subrange(0, j as int)),
                decreases deltas.len() - j,
            {
                self.apply_tool_delta(&deltas[j]);
                assert(dv.subrange(0, j + 1).drop_last() =~= dv.subrange(0, j as int));
                j += 1;
            }
            assert(dv.subrange(0, j as int) =~= dv);
        }
    }

    /// Takes in one chunk: its usage, if any, replaces the last one; each choice appends
    /// its text and reasoning and feeds its tool-call fragments. Returns the events to
    /// emit, in order: for each choice, its text, then its reasoning.
    pub fn apply_chunk(&mut self, chunk: &StreamChunk) -> (events: Vec<AgentEvent>)
        ensures
            final(self)@ == spec_apply_chunk(
                old(self)@,
                chunk.usage,
                chunk.choices@.map_values(|c: ChoiceDelta| c@),
            ),
            events@.len() == spec_choices_pieces(chunk.choices@.map_values(|c: ChoiceDelta| c@)).len(),
            forall|k: int| 0 <= k < events@.len() ==> stream_piece(#[trigger] events@[k]) == Some(
                spec_choices_pieces(chunk.choices@.map_values(|c: ChoiceDelta| c@))[k],
            ),
    {
        if let Some(u) = chunk.usage {
            self.usage = Some(u);
        }
        let ghost start = self@;
        let ghost cv = chunk.choices@.map_values(|c: ChoiceDelta| c@);
        let mut events: Vec<AgentEvent> = Vec::new();
        let mut i: usize = 0;
        assert(cv.subrange(0, 0) =~= Seq::<ChoiceView>::empty());
        while i < chunk.choices.len()
            invariant
                i <= chunk.choices@.len(),
                cv == chunk.choices@.map_values(|c: ChoiceDelta| c@),
                start == (StreamView {
                    usage: match chunk.usage {
                        Some(x) => Some(x),
                        None => old(self)@.usage,
                    },
                    ..old(self)@
                }),
                self@ == spec_apply_choices(start, cv.subrange(0, i as int)),
                events@.len() == spec_choices_pieces(cv.subrange(0, i as int)).len(),
                forall|k: int| 0 <= k < events@.len() ==> stream_piece(#[trigger] events@[k]) == Some(
                    spec_choices_pieces(cv.subrange(0, i as int))[k],
                ),
            decreases chunk.choices.len() - i,
        {
            let ghost prev_pieces = spec_choices_pieces(cv.subrange(0, i as int));
            self.apply_choice(&chunk.choices[i], &mut events);
            assert(cv.subrange(0, i + 1).drop_last() =~= cv.subrange(0, i as int));
            assert(cv.subrange(0, i + 1).last() == cv[i as int]);
            let ghost next = spec_choices_pieces(cv.subrange(0, i + 1));
            assert(next =~= prev_pieces + spec_choice_pieces(cv[i as int]));
            assert forall|k: int| 0 <= k < events@.len() implies stream_piece(#[trigger] events@[k]) == Some(
                next[k],
            ) by {
                if k >= prev_pieces.len() {
                    assert(events@[k] == events@[prev_pieces.len() + (k - prev_pieces.len())]);
                }
            }
            i += 1;
        }
        assert(cv.subrange(0, i as int) =~= cv);
        events
    }

    /// The reply the stream amounts to. When tool-call fragments arrived and assembled at
    /// least one call, the reply is those calls; otherwise it is an assistant message with
    /// the text, and the reasoning when there was some. The usage is the last one reported,
    /// zero when none was.
    pub fn finish(self) -> (r: AgentResponse)
        ensures
            r.usage == Some(
                match self@.usage {
                    Some(u) => spec_usage_of(u),
                    None => Usage { prompt_tokens: 0, completion_tokens: 0, total_tokens: 0, cached_input_tokens: 0 },
                },
            ),
            self@.has_tool_calls && self@.tools.len() > 0 ==> (r.kind matches AgentResponseKind::ToolCalls(calls)
                && calls@.len() == self@.tools.len() && forall|i: int| 0 <= i < calls@.len()
                ==> spec_finished_call(self@.tools[i], #[trigger] calls@[i])),
            !(self@.has_tool_calls && self@.tools.len() > 0) ==> (r.kind matches AgentResponseKind::MessageComplete(m)
                && m@ == MessageView {
                    role: Role::Assistant,
                    content: self@.content,
                    tool_calls: None,
                    tool_call_id: None,
                    reasoning_content: if self@.reasoning.len() == 0 {
                        None
                    } else {
                        Some(self@.reasoning)
                    },
                }),
    {
        let ghost v = self@;
        let usage = match self.usage {
            Some(u) => usage_of(u),
            None => Usage::default(),
        };
        if self.has_tool_calls && self.tools.len() > 0 {
            let mut calls: Vec<ToolCall> = Vec::new();
            let mut i: usize = 0;
            while i < self.tools.len()
                invariant
                    i <= self.tools@.len(),
                    v == self@,
                    calls@.len() == i,
                    forall|k: int| 0 <= k < i ==> spec_finished_call(v.tools[k], #[trigger] calls@[k]),
                decreases self.tools.len() - i,
            {
                let a = &self.tools[i];
                let arguments = match json_normalize(a.arguments.as_str()) {
                    Some(n) => n,
                    None => "{}".to_owned(),
                };
                proof {
                    reveal_strlit("{}");
                }
                calls.push(ToolCall { id: a.id.clone(), name: a.name.clone(), arguments });
                i += 1;
            }
            AgentResponse::tool_calls(calls).with_usage(usage)
        } else {
            let reasoning = if self.reasoning.as_str().is_empty() {
                None
            } else {
                Some(self.reasoning)
            };
            let msg = Message {
                role: Role::Assistant,
                content: self.content,
                tool_calls: None,
                tool_call_id: None,
                reasoning_content: reasoning,
            };
            AgentResponse::message_complete(msg).with_usage(usage)
        }
    }
}

/// Bytes received from the network that the line reader has not taken yet.
pub struct ByteQueue {
    buffer: Vec<u8>,
    pos: usize,
}

impl ByteQueue {
    /// The bytes still waiting, in order.
    pub closed spec fn pending(&self) -> Seq<u8> {
        self.buffer@.skip(self.pos as int)
    }

    /// The queue's position lies within its buffer.
    pub closed spec fn wf(&self) -> bool {
        self.pos <= self.buffer@.len()
    }

    /// An empty queue.
    pub fn new() -> (q: ByteQueue)
        ensures
            q.wf(),
            q.pending() == Seq::<u8>::empty(),
    {
        let q = ByteQueue { buffer: Vec::new(), pos: 0 };
        assert(q.pending() =~= Seq::<u8>::empty());
        q
    }

    /// Are bytes waiting?
    pub fn has_pending(&self) -> (b: bool)
        requires
            self.wf(),
        ensures
            b == (self.pending().len() > 0),
    {
        self.pos < self.buffer.len()
    }

    /// Hands out the first waiting bytes, as many as fit in `room`; the rest keep waiting.
    pub fn take(&mut self, room: usize) -> (out: Vec<u8>)
        requires
            old(self).wf(),
        ensures
            final(self).wf(),
            out@.len() == if old(self).pending().len() < room { old(self).pending().len() } else { room as nat },
            out@ + final(self).pending() == old(self).pending(),
    {
        let avail = self.buffer.len() - self.pos;
        let n = if avail < room { avail } else { room };
        let out = sub_bytes(self.buffer.as_slice(), self.pos, self.pos + n);
        let ghost before = self.pending();
        self.pos = self.pos + n;
        assert(out@ + self.pending() =~= before);
        if self.pos >= self.buffer.len() {
            self.buffer = Vec::new();
            self.pos = 0;
            assert(self.pending() =~= Seq::<u8>::empty());
            assert(out@ + self.pending() =~= before);
        }
        out
    }

    /// Stores a newly received block, when nothing was waiting, and hands out its first
    /// bytes as `take` does.
    pub fn refill(&mut self, bytes: Vec<u8>, room: usize) -> (out: Vec<u8>)
        requires
            old(self).wf(),
            old(self).pending().len() == 0,
        ensures
            final(self).wf(),
            out@.len() == if bytes@.len() < room { bytes@.len() } else { room as nat },
            out@ + final(self).pending() == bytes@,
    {
        self.buffer = bytes;
        self.pos = 0;
        assert(self.pending() =~= self.buffer@);
        self.take(room)
    }
}

/// The bytes of `s` from `a` to `b`.
fn sub_bytes(s: &[u8], a: usize, b: usize) -> (r: Vec<u8>)
    requires
        a <= b <= s@.len(),
    ensures
        r@ == s@.subrange(a as int, b as int),
{
    let mut r: Vec<u8> = Vec::new();
    let mut i: usize = a;
    while i < b
        invariant
            a <= i <= b <= s@.len(),
            r@ == s@.subrange(a as int, i as int),
        decreases b - i,
    {
        r.push(s[i]);
        i += 1;
        assert(r@ =~= s@.subrange(a as int, i as int));
    }
    r
}

/// The text the `Delta` events carry, concatenated.
pub open spec fn spec_streamed_text(pieces: Seq<StreamPiece>) -> Seq<char>
    decreases pieces.len(),
{
    if pieces.len() == 0 {
        Seq::empty()
    } else {
        spec_streamed_text(pieces.drop_last()) + match pieces.last() {
            StreamPiece::Text(t) => t,
            StreamPiece::Reasoning(_) => Seq::empty(),
        }
    }
}

proof fn lemma_streamed_one(p: StreamPiece)
    ensures
        spec_streamed_text(seq![p]) == match p {
            StreamPiece::Text(t) => t,
            StreamPiece::Reasoning(_) => Seq::<char>::empty(),
        },
{
    let s = seq![p];
    assert(s.drop_last() =~= Seq::<StreamPiece>::empty());
    assert(s.last() == p);
    assert(spec_streamed_text(s.drop_last()) == Seq::<char>::empty());
    match p {
        StreamPiece::Text(t) => assert(Seq::<char>::empty() + t =~= t),
        StreamPiece::Reasoning(_) => assert(Seq::<char>::empty() + Seq::<char>::empty() =~= Seq::<char>::empty()),
    }
}

proof fn lemma_streamed_text_add(a: Seq<StreamPiece>, b: Seq<StreamPiece>)
    ensures
        spec_streamed_text(a + b) == spec_streamed_text(a) + spec_streamed_text(b),
    decreases b.len(),
{
    if b.len() == 0 {
        assert(a + b =~= a);
    } else {
        lemma_streamed_text_add(a, b.drop_last());
        assert((a + b).drop_last() =~= a + b.drop_last());
        assert((a + b).last() == b.last());
    }
}

/// Law: the text accumulated from a run of choice fragments is the text before them
/// followed by exactly the text of the `Delta` events they emit, so a listener that
/// prints the deltas prints the final reply.
pub proof fn lemma_stream_text(v: StreamView, cs: Seq<ChoiceView>)
    ensures
        spec_apply_choices(v, cs).content == v.content + spec_streamed_text(spec_choices_pieces(cs)),
    decreases cs.len(),
{
    if cs.len() == 0 {
        assert(v.content + spec_streamed_text(Seq::<StreamPiece>::empty()) =~= v.content);
    } else {
        lemma_stream_text(v, cs.drop_last());
        let c = cs.last();
        lemma_streamed_text_add(spec_choices_pieces(cs.drop_last()), spec_choice_pieces(c));
        let tp: Seq<StreamPiece> = match c.content {
            Some(x) => seq![StreamPiece::Text(x)],
            None => Seq::empty(),
        };
        let rp: Seq<StreamPiece> = match c.reasoning {
            Some(x) => seq![StreamPiece::Reasoning(x)],
            None => Seq::empty(),
        };
        lemma_streamed_text_add(tp, rp);
        match c.reasoning {
            Some(x) => lemma_streamed_one(StreamPiece::Reasoning(x)),
            None => assert(rp =~= Seq::<StreamPiece>::empty()),
        }
        match c.content {
            Some(x) => lemma_streamed_one(StreamPiece::Text(x)),
            None => assert(tp =~= Seq::<StreamPiece>::empty()),
        }
        assert(spec_choice_pieces(c) == tp + rp);
    }
}

} // verus!
