//! Team members: their contact books, builder, prompts and reply handling, and the
//! coordinator's routing of questions between them.

use vstd::prelude::*;
use crate::config::ModelProvider;
use crate::message::{Message, MessageView, Role, ToolCall, ToolDefinition, views};
use crate::text::{concat2, concat3, join, spec_join, texts};
use crate::json::{json_string_array, json_string_field, spec_json_string_array, spec_json_string_field};
use crate::adapter::AgentResponseKind;

verus! {

/// Message sent between agents over the message bus.
#[derive(Debug, Clone)]
pub struct AgentMessage {
    pub from: String,
    pub to: String,
    pub msg_type: MessageType,
    pub content: String,
    pub conversation_id: String,
}

/// Kind of a bus message.
#[derive(Debug, Clone, Copy, PartialEq, Eq, Hash, Structural)]
pub enum MessageType {
    Query,
    Task,
    Response,
    Collaboration,
    Status,
}

/// An agent's answer to the coordinator.
#[derive(Debug)]
pub struct AgentResponseMessage {
    pub from: String,
    pub content: String,
    pub success: bool,
}

/// One entry of a contact book.
#[derive(Debug, Clone)]
pub struct AgentContact {
    pub name: String,
    pub role: String,
    pub capabilities: Vec<String>,
    pub description: String,
}

/// Abstract value of an [`AgentContact`].
pub struct ContactView {
    pub name: Seq<char>,
    pub role: Seq<char>,
    pub capabilities: Seq<Seq<char>>,
    pub description: Seq<char>,
}

impl View for AgentContact {
    type V = ContactView;

    open spec fn view(&self) -> ContactView {
        ContactView {
            name: self.name@,
            role: self.role@,
            capabilities: texts(self.capabilities@),
            description: self.description@,
        }
    }
}

/// Abstract values of a sequence of contacts.
pub open spec fn contact_views(s: Seq<AgentContact>) -> Seq<ContactView> {
    s.map_values(|c: AgentContact| c@)
}

/// Index of the first contact named `name`.
pub open spec fn spec_contact_index(s: Seq<ContactView>, name: Seq<char>) -> Option<int>
    decreases s.len(),
{
    if s.len() == 0 {
        None
    } else {
        match spec_contact_index(s.drop_last(), name) {
            Some(i) => Some(i),
            None => if s.last().name == name {
                Some(s.len() - 1)
            } else {
                None
            },
        }
    }
}

/// Where the first contact named `name` is, if any.
pub proof fn lemma_contact_index(s: Seq<ContactView>, name: Seq<char>)
    ensures
        match spec_contact_index(s, name) {
            Some(i) => 0 <= i < s.len() && s[i].name == name && forall|j: int|
                0 <= j < i ==> s[j].name != name,
            None => forall|j: int| 0 <= j < s.len() ==> s[j].name != name,
        },
    decreases s.len(),
{
    if s.len() > 0 {
        lemma_contact_index(s.drop_last(), name);
        assert(forall|j: int| 0 <= j < s.len() - 1 ==> s.drop_last()[j] == s[j]);
    }
}

/// The book after adding `c`: it replaces the contact with the same name, or is appended.
pub open spec fn spec_add_contact(s: Seq<ContactView>, c: ContactView) -> Seq<ContactView> {
    match spec_contact_index(s, c.name) {
        Some(i) => s.update(i, c),
        None => s.push(c),
    }
}

/// One line of a rendered contact book.
pub open spec fn spec_contact_line(c: ContactView) -> Seq<char> {
    let caps = if c.capabilities.len() == 0 {
        Seq::<char>::empty()
    } else {
        " ["@ + spec_join(c.capabilities, ", "@) + "]"@
    };
    "- "@ + c.name + " ("@ + c.role + "): "@ + c.description + caps
}

/// The rendered contact book: one line per contact.
pub open spec fn spec_render(s: Seq<ContactView>) -> Seq<char> {
    spec_join(s.map_values(|c: ContactView| spec_contact_line(c)), "\n"@)
}

/// Names of the agents a member can reach, for routing decisions.
#[derive(Debug, Clone)]
pub struct ContactBook {
    /// The contacts; a name is looked up by its first entry.
    pub contacts: Vec<AgentContact>,
}

impl ContactBook {
    /// The contacts' abstract values.
    pub open spec fn spec_contacts(&self) -> Seq<ContactView> {
        contact_views(self.contacts@)
    }

    /// An empty book.
    pub fn new() -> (b: ContactBook)
        ensures
            b.spec_contacts().len() == 0,
    {
        ContactBook { contacts: Vec::new() }
    }

    /// Adds a contact, replacing the one with the same name.
    pub fn add(&mut self, name: String, role: String, capabilities: Vec<String>, description: String)
        ensures
            final(self).spec_contacts() == spec_add_contact(
                old(self).spec_contacts(),
                ContactView {
                    name: name@,
                    role: role@,
                    capabilities: texts(capabilities@),
                    description: description@,
                },
            ),
    {
        let ghost expected = ContactView {
            name: name@,
            role: role@,
            capabilities: texts(capabilities@),
            description: description@,
        };
        let contact = AgentContact { name, role, capabilities, description };
        let ghost cv = contact@;
        assert(cv == expected);
        let ghost before = self.contacts@;
        let mut i: usize = 0;
        let mut found = false;
        while i < self.contacts.len()
            invariant
                i <= self.contacts.len(),
                self.contacts@ == before,
                cv == contact@,
                found ==> i < self.contacts.len() && before[i as int].name@ == cv.name,
                forall|j: int| 0 <= j < i ==> before[j].name@ != cv.name,
            ensures
                found ==> i < self.contacts.len() && before[i as int].name@ == cv.name,
                !found ==> i == self.contacts.len(),
                forall|j: int| 0 <= j < i ==> before[j].name@ != cv.name,
            decreases self.contacts.len() - i,
        {
            if crate::text::str_eq(self.contacts[i].name.as_str(), contact.name.as_str()) {
                found = true;
                break;
            }
            i += 1;
        }
        proof {
            lemma_contact_index(contact_views(before), cv.name);
            assert(forall|j: int| 0 <= j < before.len() ==> contact_views(before)[j] == before[j]@);
        }
        if found {
            proof {
                assert(contact_views(before)[i as int].name == cv.name);
                assert(spec_contact_index(contact_views(before), cv.name) == Some(i as int));
            }
            self.contacts.set(i, contact);
            assert(contact_views(self.contacts@) =~= contact_views(before).update(i as int, cv));
        } else {
            assert(spec_contact_index(contact_views(before), cv.name) is None);
            self.contacts.push(contact);
            assert(contact_views(self.contacts@) =~= contact_views(before).push(cv));
        }
    }

    /// All contacts, one line each: `- name (role): description [cap, cap]`.
    pub fn render(&self) -> (s: String)
        ensures
            s@ == spec_render(self.spec_contacts()),
    {
        let mut lines: Vec<String> = Vec::new();
        let mut i: usize = 0;
        while i < self.contacts.len()
            invariant
                i <= self.contacts.len(),
                texts(lines@) == self.spec_contacts().subrange(0, i as int).map_values(
                    |c: ContactView| spec_contact_line(c),
                ),
            decreases self.contacts.len() - i,
        {
            let line = contact_line(&self.contacts[i]);
            let ghost before = lines@;
            lines.push(line);
            assert(texts(lines@) =~= texts(before).push(line@));
            assert(self.spec_contacts().subrange(0, i + 1) =~= self.spec_contacts().subrange(
                0,
                i as int,
            ).push(self.spec_contacts()[i as int]));
            assert(self.spec_contacts().subrange(0, i + 1).map_values(
                |c: ContactView| spec_contact_line(c),
            ) =~= self.spec_contacts().subrange(0, i as int).map_values(
                |c: ContactView| spec_contact_line(c),
            ).push(spec_contact_line(self.spec_contacts()[i as int])));
            i += 1;
        }
        assert(self.spec_contacts().subrange(0, i as int) =~= self.spec_contacts());
        join(&lines, "\n")
    }
}

impl Default for ContactBook {
    fn default() -> (b: ContactBook)
        ensures
            b.spec_contacts().len() == 0,
    {
        ContactBook::new()
    }
}

/// One rendered contact line.
fn contact_line(c: &AgentContact) -> (s: String)
    ensures
        s@ == spec_contact_line(c@),
{
    let mut s = concat2("- ", c.name.as_str());
    s.append(" (");
    s.append(c.role.as_str());
    s.append("): ");
    s.append(c.description.as_str());
    if c.capabilities.len() > 0 {
        s.append(" [");
        let caps = join(&c.capabilities, ", ");
        s.append(caps.as_str());
        s.append("]");
    }
    s
}

/// What a member wants to do next.
#[derive(Debug)]
pub enum AgentStep {
    /// It called `report_result`: its work is done.
    Done(String),
    /// It called `ask_peer`: the coordinator must route the question.
    AskPeer { peer: String, question: String },
    /// The model answered in text without tools; empty text means "go on".
    TextOutput(String),
    /// Something failed.
    Error(String),
}

/// Builder of a [`CollaborativeAgent`]; `R` is the handle of the member's tool registry.
pub struct CollaborativeAgentBuilder<R> {
    name: Option<String>,
    role: Option<String>,
    system_prompt: Option<String>,
    capabilities: Vec<String>,
    description: Option<String>,
    provider: Option<ModelProvider>,
    tools: Option<R>,
}

/// Text of an optional string.
pub open spec fn opt_text(s: Option<String>) -> Option<Seq<char>> {
    match s {
        Some(x) => Some(x@),
        None => None,
    }
}

impl<R> CollaborativeAgentBuilder<R> {
    pub closed spec fn spec_name(&self) -> Option<Seq<char>> {
        opt_text(self.name)
    }

    pub closed spec fn spec_role(&self) -> Option<Seq<char>> {
        opt_text(self.role)
    }

    pub closed spec fn spec_system_prompt(&self) -> Option<Seq<char>> {
        opt_text(self.system_prompt)
    }

    pub closed spec fn spec_capabilities(&self) -> Seq<Seq<char>> {
        texts(self.capabilities@)
    }

    pub closed spec fn spec_description(&self) -> Option<Seq<char>> {
        opt_text(self.description)
    }

    pub closed spec fn spec_provider(&self) -> Option<ModelProvider> {
        self.provider
    }

    pub closed spec fn spec_tools(&self) -> Option<R> {
        self.tools
    }

    /// Everything but the name, role, prompt, capabilities and description is unchanged.
    pub open spec fn same_except_text(&self, other: &Self) -> bool {
        &&& self.spec_provider() == other.spec_provider()
        &&& self.spec_tools() == other.spec_tools()
    }

    /// A builder with nothing set.
    pub fn new() -> (b: Self)
        ensures
            b.spec_name() is None,
            b.spec_role() is None,
            b.spec_system_prompt() is None,
            b.spec_capabilities().len() == 0,
            b.spec_description() is None,
            b.spec_provider() is None,
            b.spec_tools() is None,
    {
        CollaborativeAgentBuilder {
            name: None,
            role: None,
            system_prompt: None,
            capabilities: Vec::new(),
            description: None,
            provider: None,
            tools: None,
        }
    }

    pub fn name(self, name: &str) -> (b: Self)
        ensures
            b.spec_name() == Some(name@),
            b.spec_role() == self.spec_role(),
            b.spec_system_prompt() == self.spec_system_prompt(),
            b.spec_capabilities() == self.spec_capabilities(),
            b.spec_description() == self.spec_description(),
            b.same_except_text(&self),
    {
        CollaborativeAgentBuilder { name: Some(name.to_owned()), ..self }
    }

    pub fn role(self, role: &str) -> (b: Self)
        ensures
            b.spec_role() == Some(role@),
            b.spec_name() == self.spec_name(),
            b.spec_system_prompt() == self.spec_system_prompt(),
            b.spec_capabilities() == self.spec_capabilities(),
            b.spec_description() == self.spec_description(),
            b.same_except_text(&self),
    {
        CollaborativeAgentBuilder { role: Some(role.to_owned()), ..self }
    }

    pub fn system_prompt(self, prompt: &str) -> (b: Self)
        ensures
            b.spec_system_prompt() == Some(prompt@),
            b.spec_name() == self.spec_name(),
            b.spec_role() == self.spec_role(),
            b.spec_capabilities() == self.spec_capabilities(),
            b.spec_description() == self.spec_description(),
            b.same_except_text(&self),
    {
        CollaborativeAgentBuilder { system_prompt: Some(prompt.to_owned()), ..self }
    }

    /// Adds one capability tag.
    pub fn capability(self, cap: &str) -> (b: Self)
        ensures
            b.spec_capabilities() == self.spec_capabilities().push(cap@),
            b.spec_name() == self.spec_name(),
            b.spec_role() == self.spec_role(),
            b.spec_system_prompt() == self.spec_system_prompt(),
            b.spec_description() == self.spec_description(),
            b.same_except_text(&self),
    {
        let mut caps = self.capabilities;
        let ghost before = caps@;
        caps.push(cap.to_owned());
        assert(texts(caps@) =~= texts(before).push(cap@));
        CollaborativeAgentBuilder { capabilities: caps, ..self }
    }

    /// Adds several capability tags, in order.
    pub fn capabilities(self, caps: Vec<String>) -> (b: Self)
        ensures
            b.spec_capabilities() == self.spec_capabilities() + texts(caps@),
            b.spec_name() == self.spec_name(),
            b.spec_role() == self.spec_role(),
            b.spec_system_prompt() == self.spec_system_prompt(),
            b.spec_description() == self.spec_description(),
            b.same_except_text(&self),
    {
        let mut all = self.capabilities;
        let mut more = caps;
        let ghost a = all@;
        let ghost m = more@;
        all.append(&mut more);
        assert(texts(all@) =~= texts(a) + texts(m));
        CollaborativeAgentBuilder { capabilities: all, ..self }
    }

    pub fn description(self, desc: &str) -> (b: Self)
        ensures
            b.spec_description() == Some(desc@),
            b.spec_name() == self.spec_name(),
            b.spec_role() == self.spec_role(),
            b.spec_system_prompt() == self.spec_system_prompt(),
            b.spec_capabilities() == self.spec_capabilities(),
            b.same_except_text(&self),
    {
        CollaborativeAgentBuilder { description: Some(desc.to_owned()), ..self }
    }

    pub fn provider(self, provider: ModelProvider) -> (b: Self)
        ensures
            b.spec_provider() == Some(provider),
            b.spec_tools() == self.spec_tools(),
            b.spec_name() == self.spec_name(),
            b.spec_role() == self.spec_role(),
            b.spec_system_prompt() == self.spec_system_prompt(),
            b.spec_capabilities() == self.spec_capabilities(),
            b.spec_description() == self.spec_description(),
    {
        CollaborativeAgentBuilder { provider: Some(provider), ..self }
    }

    pub fn tools(self, tools: R) -> (b: Self)
        ensures
            b.spec_tools() == Some(tools),
            b.spec_provider() == self.spec_provider(),
            b.spec_name() == self.spec_name(),
            b.spec_role() == self.spec_role(),
            b.spec_system_prompt() == self.spec_system_prompt(),
            b.spec_capabilities() == self.spec_capabilities(),
            b.spec_description() == self.spec_description(),
    {
        CollaborativeAgentBuilder { tools: Some(tools), ..self }
    }

    /// Builds the member; its contact book is filled in later by the team.
    /// The role defaults to `general`, the prompt to empty, the description to
    /// `<role> specialist`.
    pub fn build<A>(self, adapter: A) -> (agent: CollaborativeAgent<A, R>)
        requires
            self.spec_name() is Some,
        ensures
            agent.spec_name() == self.spec_name()->0,
            agent.spec_role() == match self.spec_role() {
                Some(r) => r,
                None => "general"@,
            },
            agent.spec_system_prompt() == match self.spec_system_prompt() {
                Some(p) => p,
                None => Seq::<char>::empty(),
            },
            agent.spec_capabilities() == self.spec_capabilities(),
            agent.spec_description() == match self.spec_description() {
                Some(d) => d,
                None => agent.spec_role() + " specialist"@,
            },
            agent.spec_contacts().len() == 0,
            agent.spec_provider() == self.spec_provider(),
            agent.spec_tools() == self.spec_tools(),
            agent.spec_adapter() == adapter,
    {
        let name = match self.name {
            Some(n) => n,
            None => String::new(),
        };
        let role = match self.role {
            Some(r) => r,
            None => "general".to_owned(),
        };
        let system_prompt = match self.system_prompt {
            Some(p) => p,
            None => String::new(),
        };
        let description = match self.description {
            Some(d) => d,
            None => concat2(role.as_str(), " specialist"),
        };
        CollaborativeAgent {
            name,
            role,
            system_prompt,
            capabilities: self.capabilities,
            description,
            adapter,
            contact_book: ContactBook::new(),
            provider: self.provider,
            tools: self.tools,
        }
    }
}

impl<R> Default for CollaborativeAgentBuilder<R> {
    fn default() -> (b: Self)
        ensures
            b.spec_name() is None,
            b.spec_role() is None,
            b.spec_system_prompt() is None,
            b.spec_capabilities().len() == 0,
            b.spec_description() is None,
            b.spec_provider() is None,
            b.spec_tools() is None,
    {
        CollaborativeAgentBuilder::new()
    }
}

/// A member of a team. `A` is its model adapter, `R` the handle of its tool registry.
///
/// Members return work only through the `report_result` tool and ask other members
/// through `ask_peer`.
pub struct CollaborativeAgent<A, R> {
    name: String,
    role: String,
    system_prompt: String,
    capabilities: Vec<String>,
    description: String,
    adapter: A,
    contact_book: ContactBook,
    provider: Option<ModelProvider>,
    tools: Option<R>,
}

/// Description of the `report_result` tool.
pub open spec fn spec_report_description() -> Seq<char> {
    "Submit your final work output to the coordinator. This is the ONLY way to return your result. Call this when you have completed your analysis or task."@
}

/// JSON schema of the `report_result` tool's parameters.
pub open spec fn spec_report_parameters() -> Seq<char> {
    "{\"type\":\"object\",\"properties\":{\"result\":{\"type\":\"string\",\"description\":\"Your complete work output — analysis, findings, or task result.\"}},\"required\":[\"result\"]}"@
}

/// Description of the `ask_peer` tool, naming the peers.
pub open spec fn spec_ask_description(peers: Seq<Seq<char>>) -> Seq<char> {
    "Request information from another team member. Available peers: "@ + spec_join(peers, ", "@)
        + ". The coordinator routes your question and feeds the answer back to you."@
}

/// JSON schema of the `ask_peer` tool's parameters; `peer` must be one of `peers`.
pub open spec fn spec_ask_parameters(peers: Seq<Seq<char>>) -> Seq<char> {
    "{\"type\":\"object\",\"properties\":{\"peer\":{\"type\":\"string\",\"description\":\"Name of the team member to ask.\",\"enum\":"@
        + spec_json_string_array(peers)
        + "},\"question\":{\"type\":\"string\",\"description\":\"Specific question to ask.\"}},\"required\":[\"peer\",\"question\"]}"@
}

/// The tools of `defs` other than `report_result` and `ask_peer`, in order.
pub open spec fn spec_custom_tools(defs: Seq<ToolDefinition>) -> Seq<ToolDefinition>
    decreases defs.len(),
{
    if defs.len() == 0 {
        Seq::empty()
    } else if defs.last().name@ == "report_result"@ || defs.last().name@ == "ask_peer"@ {
        spec_custom_tools(defs.drop_last())
    } else {
        spec_custom_tools(defs.drop_last()).push(defs.last())
    }
}

/// The system prompt of a member given a task.
pub open spec fn spec_task_system(prompt: Seq<char>, name: Seq<char>, role: Seq<char>, contacts: Seq<char>) -> Seq<char> {
    prompt + "\n\nYou are **"@ + name + "**, a **"@ + role
        + "** specialist on a team.\n\n## Your job\nComplete the task using your domain expertise. When done, call `report_result` with your output.\n\n## Rules\n- Only contribute work in YOUR domain ("@
        + role
        + ")\n- Use `ask_peer` if you need information from other specialists\n- Always call `report_result` when finished — this is the ONLY way to submit your work\n- Do NOT attempt to synthesize or summarize other agents' work\n\n## Team members\n"@
        + contacts
}

/// The report carried by the first `report_result` call, if any; a call without a
/// string `result` argument reports `(empty report)`.
pub open spec fn spec_report_result(calls: Seq<ToolCall>) -> Option<Seq<char>>
    decreases calls.len(),
{
    if calls.len() == 0 {
        None
    } else if calls[0].name@ == "report_result"@ {
        Some(
            match spec_json_string_field(calls[0].arguments@, "result"@) {
                Some(r) => r,
                None => "(empty report)"@,
            },
        )
    } else {
        spec_report_result(calls.drop_first())
    }
}

/// A string argument of a call, empty when absent.
pub open spec fn spec_arg_or_empty(call: ToolCall, key: Seq<char>) -> Seq<char> {
    match spec_json_string_field(call.arguments@, key) {
        Some(v) => v,
        None => Seq::empty(),
    }
}

/// Peer and question of the first `ask_peer` call whose `peer` and `question`
/// arguments are both non-empty, if any.
pub open spec fn spec_ask_peer(calls: Seq<ToolCall>) -> Option<(Seq<char>, Seq<char>)>
    decreases calls.len(),
{
    if calls.len() == 0 {
        None
    } else if calls[0].name@ == "ask_peer"@ && spec_arg_or_empty(calls[0], "peer"@).len() > 0
        && spec_arg_or_empty(calls[0], "question"@).len() > 0 {
        Some((spec_arg_or_empty(calls[0], "peer"@), spec_arg_or_empty(calls[0], "question"@)))
    } else {
        spec_ask_peer(calls.drop_first())
    }
}

/// Index of the last assistant message, if any.
pub open spec fn spec_last_assistant(msgs: Seq<MessageView>) -> Option<int>
    decreases msgs.len(),
{
    if msgs.len() == 0 {
        None
    } else if msgs.last().role == Role::Assistant {
        Some(msgs.len() - 1)
    } else {
        spec_last_assistant(msgs.drop_last())
    }
}

/// Index of the first call named `ask_peer`, if any.
pub open spec fn spec_first_ask_call(calls: Seq<ToolCall>) -> Option<int>
    decreases calls.len(),
{
    if calls.len() == 0 {
        None
    } else if calls[0].name@ == "ask_peer"@ {
        Some(0)
    } else {
        match spec_first_ask_call(calls.drop_first()) {
            Some(i) => Some(i + 1),
            None => None,
        }
    }
}

/// The user message that carries a peer's answer when no `ask_peer` call is pending.
pub open spec fn spec_answer_as_user(peer: Seq<char>, answer: Seq<char>) -> MessageView {
    MessageView::plain(Role::User, "[Response from "@ + peer + "]: "@ + answer)
}

/// The message that carries a peer's answer: the result of the pending `ask_peer` call
/// of the last assistant message when there is one, else a user message.
pub open spec fn spec_peer_answer(msgs: Seq<MessageView>, peer: Seq<char>, answer: Seq<char>) -> MessageView {
    match spec_last_assistant(msgs) {
        Some(i) => match msgs[i].tool_calls {
            Some(calls) => match spec_first_ask_call(calls) {
                Some(k) => MessageView::tool_result(calls[k].id@, answer),
                None => spec_answer_as_user(peer, answer),
            },
            None => spec_answer_as_user(peer, answer),
        },
        None => spec_answer_as_user(peer, answer),
    }
}

/// What to do with a model reply in a member's step.
#[derive(Debug)]
pub enum ReplyOutcome {
    /// The step is decided.
    Step(AgentStep),
    /// Run these tools, then report their outputs with [`record_tool_outputs`].
    RunTools(Vec<ToolCall>),
}

/// How one tool call of a member is served.
#[derive(Debug)]
pub enum ToolPlan {
    /// The call yields this text without running anything.
    Text(String),
    /// Check the approval policy, then run the tool from the member's registry.
    Run,
}

/// Tool result when the approval policy refused the call.
pub fn denied_tool_text(name: &str) -> (s: String)
    ensures
        s@ == "[denied] Tool '"@ + name@ + "' denied by user"@,
{
    concat3("[denied] Tool '", name, "' denied by user")
}

/// The step of a member that has no provider to call.
pub fn no_provider_step() -> (s: AgentStep)
    ensures
        s matches AgentStep::Error(e) && e@ == "no available provider"@,
{
    AgentStep::Error("no available provider".to_owned())
}

/// Appends the result of each call, in order, and continues the member's loop.
pub fn record_tool_outputs(messages: &mut Vec<Message>, calls: &Vec<ToolCall>, outputs: &Vec<String>) -> (s: AgentStep)
    requires
        calls@.len() == outputs@.len(),
    ensures
        final(messages)@.len() == old(messages)@.len() + calls@.len(),
        final(messages)@.subrange(0, old(messages)@.len() as int) == old(messages)@,
        forall|k: int|
            0 <= k < calls@.len() ==> #[trigger] final(messages)@[old(messages)@.len() + k]@
                == MessageView::tool_result(calls@[k].id@, outputs@[k]@),
        s matches AgentStep::TextOutput(t) && t@.len() == 0,
{
    let ghost start = messages@;
    let mut i: usize = 0;
    while i < calls.len()
        invariant
            i <= calls@.len(),
            calls@.len() == outputs@.len(),
            messages@.len() == start.len() + i,
            messages@.subrange(0, start.len() as int) == start,
            forall|k: int|
                0 <= k < i ==> #[trigger] messages@[start.len() + k]@ == MessageView::tool_result(
                    calls@[k].id@,
                    outputs@[k]@,
                ),
        decreases calls@.len() - i,
    {
        let ghost before = messages@;
        messages.push(Message::tool_result(calls[i].id.as_str(), outputs[i].as_str()));
        assert(messages@.subrange(0, start.len() as int) =~= before.subrange(0, start.len() as int));
        assert(forall|k: int| 0 <= k < i ==> #[trigger] messages@[start.len() + k] == before[start.len() + k]);
        i += 1;
    }
    AgentStep::TextOutput(String::new())
}

impl<A, R> CollaborativeAgent<A, R> {
    pub closed spec fn spec_name(&self) -> Seq<char> {
        self.name@
    }

    pub closed spec fn spec_role(&self) -> Seq<char> {
        self.role@
    }

    pub closed spec fn spec_system_prompt(&self) -> Seq<char> {
        self.system_prompt@
    }

    pub closed spec fn spec_capabilities(&self) -> Seq<Seq<char>> {
        texts(self.capabilities@)
    }

    pub closed spec fn spec_description(&self) -> Seq<char> {
        self.description@
    }

    /// The member's contacts.
    pub closed spec fn spec_contacts(&self) -> Seq<ContactView> {
        self.contact_book.spec_contacts()
    }

    pub closed spec fn spec_provider(&self) -> Option<ModelProvider> {
        self.provider
    }

    pub closed spec fn spec_tools(&self) -> Option<R> {
        self.tools
    }

    pub closed spec fn spec_adapter(&self) -> A {
        self.adapter
    }

    /// Names of the member's peers, in contact-book order.
    pub open spec fn spec_peer_names(&self) -> Seq<Seq<char>> {
        self.spec_contacts().map_values(|c: ContactView| c.name)
    }

    pub fn name(&self) -> (s: &str)
        ensures
            s@ == self.spec_name(),
    {
        self.name.as_str()
    }

    pub fn role(&self) -> (s: &str)
        ensures
            s@ == self.spec_role(),
    {
        self.role.as_str()
    }

    pub fn capabilities(&self) -> (s: &[String])
        ensures
            texts(s@) == self.spec_capabilities(),
    {
        self.capabilities.as_slice()
    }

    pub fn description_val(&self) -> (s: &str)
        ensures
            s@ == self.spec_description(),
    {
        self.description.as_str()
    }

    /// The model adapter.
    pub fn adapter(&self) -> (a: &A)
        ensures
            *a == self.spec_adapter(),
    {
        &self.adapter
    }

    /// The member's own provider, if it has one.
    pub fn provider(&self) -> (p: Option<&ModelProvider>)
        ensures
            match p {
                Some(x) => self.spec_provider() == Some(*x),
                None => self.spec_provider() is None,
            },
    {
        match &self.provider {
            Some(p) => Some(p),
            None => None,
        }
    }

    /// The member's tool registry, if it has one.
    pub fn tools(&self) -> (t: Option<&R>)
        ensures
            match t {
                Some(x) => self.spec_tools() == Some(*x),
                None => self.spec_tools() is None,
            },
    {
        match &self.tools {
            Some(t) => Some(t),
            None => None,
        }
    }

    /// Replaces the contact book (the team does this once all members are known).
    pub(crate) fn set_contact_book(&mut self, book: ContactBook)
        ensures
            final(self).spec_contacts() == book.spec_contacts(),
            final(self).spec_name() == old(self).spec_name(),
            final(self).spec_role() == old(self).spec_role(),
            final(self).spec_system_prompt() == old(self).spec_system_prompt(),
            final(self).spec_capabilities() == old(self).spec_capabilities(),
            final(self).spec_description() == old(self).spec_description(),
            final(self).spec_provider() == old(self).spec_provider(),
            final(self).spec_tools() == old(self).spec_tools(),
            final(self).spec_adapter() == old(self).spec_adapter(),
    {
        self.contact_book = book;
    }

    /// Names of the peers, in contact-book order.
    fn peer_names(&self) -> (v: Vec<String>)
        ensures
            texts(v@) == self.spec_peer_names(),
    {
        let mut v: Vec<String> = Vec::new();
        let mut i: usize = 0;
        let ghost cs = self.spec_contacts();
        while i < self.contact_book.contacts.len()
            invariant
                i <= self.contact_book.contacts@.len(),
                cs == contact_views(self.contact_book.contacts@),
                texts(v@) == cs.subrange(0, i as int).map_values(|c: ContactView| c.name),
            decreases self.contact_book.contacts@.len() - i,
        {
            let ghost before = v@;
            v.push(self.contact_book.contacts[i].name.clone());
            assert(texts(v@) =~= texts(before).push(cs[i as int].name));
            assert(cs.subrange(0, i + 1).map_values(|c: ContactView| c.name) =~= cs.subrange(
                0,
                i as int,
            ).map_values(|c: ContactView| c.name).push(cs[i as int].name));
            i += 1;
        }
        assert(cs.subrange(0, i as int) =~= cs);
        v
    }

    /// The tools offered to the member: `report_result`, `ask_peer` (listing the peers),
    /// then the registry's own tools (`registry_tools`) except those two names.
    pub fn tool_definitions(&self, registry_tools: Option<Vec<ToolDefinition>>) -> (r: Vec<ToolDefinition>)
        ensures
            r@.len() >= 2,
            r@[0].name@ == "report_result"@,
            r@[0].description@ == spec_report_description(),
            r@[0].parameters@ == spec_report_parameters(),
            r@[1].name@ == "ask_peer"@,
            r@[1].description@ == spec_ask_description(self.spec_peer_names()),
            r@[1].parameters@ == spec_ask_parameters(self.spec_peer_names()),
            r@.subrange(2, r@.len() as int) == match registry_tools {
                Some(defs) => spec_custom_tools(defs@),
                None => Seq::<ToolDefinition>::empty(),
            },
    {
        let peers = self.peer_names();
        let mut tools: Vec<ToolDefinition> = Vec::new();
        tools.push(ToolDefinition {
            name: "report_result".to_owned(),
            description: "Submit your final work output to the coordinator. This is the ONLY way to return your result. Call this when you have completed your analysis or task.".to_owned(),
            parameters: "{\"type\":\"object\",\"properties\":{\"result\":{\"type\":\"string\",\"description\":\"Your complete work output — analysis, findings, or task result.\"}},\"required\":[\"result\"]}".to_owned(),
        });
        let joined = join(&peers, ", ");
        let description = concat3(
            "Request information from another team member. Available peers: ",
            joined.as_str(),
            ". The coordinator routes your question and feeds the answer back to you.",
        );
        let names = json_string_array(&peers);
        let parameters = concat3(
            "{\"type\":\"object\",\"properties\":{\"peer\":{\"type\":\"string\",\"description\":\"Name of the team member to ask.\",\"enum\":",
            names.as_str(),
            "},\"question\":{\"type\":\"string\",\"description\":\"Specific question to ask.\"}},\"required\":[\"peer\",\"question\"]}",
        );
        assert(peers@.map_values(|s: String| s@) =~= texts(peers@));
        tools.push(ToolDefinition { name: "ask_peer".to_owned(), description, parameters });
        let ghost head = tools@;
        if let Some(defs) = registry_tools {
            let mut i: usize = 0;
            while i < defs.len()
                invariant
                    i <= defs@.len(),
                    tools@.len() >= 2,
                    tools@.subrange(0, 2) == head,
                    tools@.subrange(2, tools@.len() as int) == spec_custom_tools(defs@.subrange(0, i as int)),
                decreases defs@.len() - i,
            {
                let ghost pre = defs@.subrange(0, i as int);
                let ghost post = defs@.subrange(0, i + 1);
                assert(post.drop_last() =~= pre);
                assert(post.last() == defs@[i as int]);
                let ghost before = tools@;
                let name = defs[i].name.as_str();
                if !crate::text::str_eq(name, "report_result") && !crate::text::str_eq(name, "ask_peer") {
                    tools.push(defs[i].duplicate());
                    assert(tools@.subrange(2, tools@.len() as int) =~= before.subrange(2, before.len() as int).push(defs@[i as int]));
                    assert(tools@.subrange(0, 2) =~= before.subrange(0, 2));
                }
                i += 1;
            }
            assert(defs@.subrange(0, i as int) =~= defs@);
        } else {
            assert(tools@.subrange(2, tools@.len() as int) =~= Seq::<ToolDefinition>::empty());
        }
        assert(tools@[0] == tools@.subrange(0, 2)[0]);
        assert(tools@[1] == tools@.subrange(0, 2)[1]);
        tools
    }

    /// The system prompt and first user message for `task`.
    pub fn build_task_messages(&self, task: &str) -> (r: Vec<Message>)
        ensures
            r@.len() == 2,
            r@[0]@ == MessageView::plain(
                Role::System,
                spec_task_system(
                    self.spec_system_prompt(),
                    self.spec_name(),
                    self.spec_role(),
                    spec_render(self.spec_contacts()),
                ),
            ),
            r@[1]@ == MessageView::plain(Role::User, task@),
    {
        let contacts = self.contact_book.render();
        let mut system = self.system_prompt.clone();
        system.append("\n\nYou are **");
        system.append(self.name.as_str());
        system.append("**, a **");
        system.append(self.role.as_str());
        system.append("** specialist on a team.\n\n## Your job\nComplete the task using your domain expertise. When done, call `report_result` with your output.\n\n## Rules\n- Only contribute work in YOUR domain (");
        system.append(self.role.as_str());
        system.append(")\n- Use `ask_peer` if you need information from other specialists\n- Always call `report_result` when finished — this is the ONLY way to submit your work\n- Do NOT attempt to synthesize or summarize other agents' work\n\n## Team members\n");
        system.append(contacts.as_str());
        let mut r: Vec<Message> = Vec::new();
        r.push(Message::system(system.as_str()));
        r.push(Message::user(task));
        r
    }

    /// Decides what a model reply means for the member's step. A final text is the
    /// step's output; a `report_result` call ends the work; an `ask_peer` call (recorded
    /// in the messages) asks a peer; other tool calls are recorded and must be run.
    /// A failed call (`Err` with the error's text) is an error step.
    pub fn handle_reply(&self, reply: Result<AgentResponseKind, String>, messages: &mut Vec<Message>) -> (o: ReplyOutcome)
        ensures
            match reply {
                Err(e) => final(messages)@ == old(messages)@ && (o matches ReplyOutcome::Step(AgentStep::Error(x)) && x@ == e@),
                Ok(AgentResponseKind::MessageComplete(m)) => final(messages)@ == old(messages)@
                    && (o matches ReplyOutcome::Step(AgentStep::TextOutput(t)) && t@ == m.content@),
                Ok(AgentResponseKind::ToolCalls(calls)) => match spec_report_result(calls@) {
                    Some(rep) => final(messages)@ == old(messages)@ && (o matches ReplyOutcome::Step(AgentStep::Done(d)) && d@ == rep),
                    None => {
                        &&& final(messages)@.len() == old(messages)@.len() + 1
                        &&& final(messages)@.drop_last() == old(messages)@
                        &&& final(messages)@.last()@ == MessageView::tool_request(calls@)
                        &&& match spec_ask_peer(calls@) {
                            Some(pq) => o matches ReplyOutcome::Step(AgentStep::AskPeer { peer, question })
                                && peer@ == pq.0 && question@ == pq.1,
                            None => o matches ReplyOutcome::RunTools(run) && run@ == calls@,
                        }
                    },
                },
            },
    {
        match reply {
            Err(e) => ReplyOutcome::Step(AgentStep::Error(e)),
            Ok(AgentResponseKind::MessageComplete(m)) => ReplyOutcome::Step(AgentStep::TextOutput(m.content)),
            Ok(AgentResponseKind::ToolCalls(calls)) => {
                let report = find_report_result(&calls);
                match report {
                    Some(result) => ReplyOutcome::Step(AgentStep::Done(result)),
                    None => {
                        let ask = find_ask_peer(&calls);
                        let batch = crate::message::copy_calls(&calls);
                        let ghost before = messages@;
                        messages.push(Message::assistant_tool_calls(calls));
                        assert(messages@.drop_last() =~= before);
                        match ask {
                            Some((peer, question)) => ReplyOutcome::Step(AgentStep::AskPeer { peer, question }),
                            None => ReplyOutcome::RunTools(batch),
                        }
                    },
                }
            },
        }
    }

    /// Adds a peer's answer to the member's messages: as the result of the pending
    /// `ask_peer` call when the last assistant message has one, else as a user message
    /// `[Response from <peer>]: <answer>`.
    pub fn inject_peer_answer(&self, messages: &mut Vec<Message>, peer: &str, answer: &str)
        ensures
            final(messages)@.len() == old(messages)@.len() + 1,
            final(messages)@.drop_last() == old(messages)@,
            final(messages)@.last()@ == spec_peer_answer(views(old(messages)@), peer@, answer@),
    {
        inject_answer(messages, peer, answer)
    }

    /// How one tool call is served: the two coordination tools yield nothing, a member
    /// without a registry reports the tool unknown, anything else runs.
    pub fn tool_plan(&self, call: &ToolCall) -> (p: ToolPlan)
        ensures
            (call.name@ == "report_result"@ || call.name@ == "ask_peer"@) ==> (p matches ToolPlan::Text(t) && t@.len() == 0),
            !(call.name@ == "report_result"@ || call.name@ == "ask_peer"@) ==> match self.spec_tools() {
                None => p matches ToolPlan::Text(t) && t@ == "Unknown tool: "@ + call.name@,
                Some(_) => p is Run,
            },
    {
        if crate::text::str_eq(call.name.as_str(), "report_result") || crate::text::str_eq(call.name.as_str(), "ask_peer") {
            ToolPlan::Text(String::new())
        } else if self.tools.is_none() {
            ToolPlan::Text(concat2("Unknown tool: ", call.name.as_str()))
        } else {
            ToolPlan::Run
        }
    }
}

/// The report of the first `report_result` call, if any.
fn find_report_result(calls: &Vec<ToolCall>) -> (r: Option<String>)
    ensures
        opt_text(r) == spec_report_result(calls@),
{
    assert(calls@.subrange(0, calls@.len() as int) =~= calls@);
    let mut i: usize = 0;
    while i < calls.len()
        invariant
            i <= calls@.len(),
            spec_report_result(calls@) == spec_report_result(calls@.subrange(i as int, calls@.len() as int)),
        decreases calls@.len() - i,
    {
        let ghost rest = calls@.subrange(i as int, calls@.len() as int);
        assert(rest.drop_first() =~= calls@.subrange(i + 1, calls@.len() as int));
        assert(rest[0] == calls@[i as int]);
        if crate::text::str_eq(calls[i].name.as_str(), "report_result") {
            let r = match json_string_field(calls[i].arguments.as_str(), "result") {
                Some(r) => Some(r),
                None => Some("(empty report)".to_owned()),
            };
            return r;
        }
        i += 1;
    }
    None
}

/// Peer and question of the first usable `ask_peer` call, if any.
fn find_ask_peer(calls: &Vec<ToolCall>) -> (r: Option<(String, String)>)
    ensures
        match r {
            Some((p, q)) => spec_ask_peer(calls@) == Some((p@, q@)),
            None => spec_ask_peer(calls@) is None,
        },
{
    assert(calls@.subrange(0, calls@.len() as int) =~= calls@);
    let mut i: usize = 0;
    while i < calls.len()
        invariant
            i <= calls@.len(),
            spec_ask_peer(calls@) == spec_ask_peer(calls@.subrange(i as int, calls@.len() as int)),
        decreases calls@.len() - i,
    {
        let ghost rest = calls@.subrange(i as int, calls@.len() as int);
        assert(rest.drop_first() =~= calls@.subrange(i + 1, calls@.len() as int));
        assert(rest[0] == calls@[i as int]);
        if crate::text::str_eq(calls[i].name.as_str(), "ask_peer") {
            let peer = match json_string_field(calls[i].arguments.as_str(), "peer") {
                Some(p) => p,
                None => String::new(),
            };
            let question = match json_string_field(calls[i].arguments.as_str(), "question") {
                Some(q) => q,
                None => String::new(),
            };
            if !peer.as_str().is_empty() && !question.as_str().is_empty() {
                return Some((peer, question));
            }
        }
        i += 1;
    }
    None
}

/// Index of the last assistant message, if any.
fn last_assistant(messages: &Vec<Message>) -> (r: Option<usize>)
    ensures
        match r {
            Some(i) => spec_last_assistant(views(messages@)) == Some(i as int) && i < messages@.len(),
            None => spec_last_assistant(views(messages@)) is None,
        },
{
    assert(views(messages@.subrange(0, messages@.len() as int)) =~= views(messages@));
    let mut i = messages.len();
    while i > 0
        invariant
            i <= messages@.len(),
            spec_last_assistant(views(messages@)) == spec_last_assistant(views(messages@.subrange(0, i as int))),
        decreases i,
    {
        let ghost pre = views(messages@.subrange(0, i as int));
        assert(pre.drop_last() =~= views(messages@.subrange(0, i - 1)));
        if messages[i - 1].role == Role::Assistant {
            return Some(i - 1);
        }
        i -= 1;
    }
    None
}

/// Index of the first call named `ask_peer`, if any.
fn first_ask_call(calls: &Vec<ToolCall>) -> (r: Option<usize>)
    ensures
        match r {
            Some(k) => spec_first_ask_call(calls@) == Some(k as int) && k < calls@.len(),
            None => spec_first_ask_call(calls@) is None,
        },
{
    let mut i: usize = 0;
    while i < calls.len()
        invariant
            i <= calls@.len(),
            forall|j: int| 0 <= j < i ==> calls@[j].name@ != "ask_peer"@,
        decreases calls@.len() - i,
    {
        if crate::text::str_eq(calls[i].name.as_str(), "ask_peer") {
            proof { lemma_first_ask_call(calls@, i as int); }
            return Some(i);
        }
        i += 1;
    }
    proof { lemma_first_ask_call_none(calls@); }
    None
}

proof fn lemma_first_ask_call(calls: Seq<ToolCall>, i: int)
    requires
        0 <= i < calls.len(),
        calls[i].name@ == "ask_peer"@,
        forall|j: int| 0 <= j < i ==> calls[j].name@ != "ask_peer"@,
    ensures
        spec_first_ask_call(calls) == Some(i),
    decreases i,
{
    if i > 0 {
        lemma_first_ask_call(calls.drop_first(), i - 1);
    }
}

proof fn lemma_first_ask_call_none(calls: Seq<ToolCall>)
    requires
        forall|j: int| 0 <= j < calls.len() ==> calls[j].name@ != "ask_peer"@,
    ensures
        spec_first_ask_call(calls) is None,
    decreases calls.len(),
{
    if calls.len() > 0 {
        lemma_first_ask_call_none(calls.drop_first());
    }
}

/// Adds a peer's answer to `messages` (see [`CollaborativeAgent::inject_peer_answer`]).
pub fn inject_answer(messages: &mut Vec<Message>, peer: &str, answer: &str)
    ensures
        final(messages)@.len() == old(messages)@.len() + 1,
        final(messages)@.drop_last() == old(messages)@,
        final(messages)@.last()@ == spec_peer_answer(views(old(messages)@), peer@, answer@),
{
    let ghost before = messages@;
    let mut target: Option<String> = None;
    let last = last_assistant(messages);
    if let Some(i) = last {
        if let Some(calls) = &messages[i].tool_calls {
            if let Some(k) = first_ask_call(calls) {
                target = Some(calls[k].id.clone());
            }
        }
    }
    match target {
        Some(id) => messages.push(Message::tool_result(id.as_str(), answer)),
        None => {
            let mut text = concat3("[Response from ", peer, "]: ");
            text.append(answer);
            messages.push(Message::user(text.as_str()));
        },
    }
    assert(messages@.drop_last() =~= before);
}

/// Text sent to a member that a teammate asks a question.
pub open spec fn spec_ask_context(task: Seq<char>, question: Seq<char>) -> Seq<char> {
    "A teammate needs your help with a specific question related to the overall task.\n\nOriginal task: "@
        + task + "\n\nTheir question: "@ + question
}

/// The member a name routes to: the last member with that name.
pub open spec fn spec_index_of(names: Seq<Seq<char>>, name: Seq<char>) -> Option<int>
    decreases names.len(),
{
    if names.len() == 0 {
        None
    } else if names.last() == name {
        Some(names.len() - 1)
    } else {
        spec_index_of(names.drop_last(), name)
    }
}

/// The distinct names, in order of first appearance.
pub open spec fn spec_distinct(names: Seq<Seq<char>>) -> Seq<Seq<char>>
    decreases names.len(),
{
    if names.len() == 0 {
        Seq::empty()
    } else {
        let d = spec_distinct(names.drop_last());
        if d.contains(names.last()) {
            d
        } else {
            d.push(names.last())
        }
    }
}

/// Names of the members, in order.
pub open spec fn spec_member_names<A, R>(agents: Seq<CollaborativeAgent<A, R>>) -> Seq<Seq<char>> {
    agents.map_values(|a: CollaborativeAgent<A, R>| a.spec_name())
}

/// The first two messages of member `a` given `task`.
pub open spec fn spec_task_messages<A, R>(a: CollaborativeAgent<A, R>, task: Seq<char>) -> Seq<MessageView> {
    seq![
        MessageView::plain(
            Role::System,
            spec_task_system(a.spec_system_prompt(), a.spec_name(), a.spec_role(), spec_render(a.spec_contacts())),
        ),
        MessageView::plain(Role::User, task),
    ]
}

/// Output of a member that used up its rounds.
pub open spec fn spec_out_of_rounds(name: Seq<char>) -> Seq<char> {
    "["@ + name + ": max rounds exceeded]"@
}

/// Answer of an asked member that used up its rounds.
pub open spec fn spec_answer_out_of_rounds(name: Seq<char>) -> Seq<char> {
    "["@ + name + ": max rounds exceeded answering question]"@
}

/// Output of a member whose step failed.
pub open spec fn spec_member_error(name: Seq<char>, error: Seq<char>) -> Seq<char> {
    "["@ + name + " error: "@ + error + "]"@
}

/// Answer of an asked member whose step failed.
pub open spec fn spec_answer_error(error: Seq<char>) -> Seq<char> {
    "[error: "@ + error + "]"@
}

/// Answer when a member asks for an unknown peer, listing the members.
pub open spec fn spec_unknown_peer_listed(peer: Seq<char>, names: Seq<Seq<char>>) -> Seq<char> {
    "[Error: agent '"@ + peer + "' not found. Available: "@ + spec_join(spec_distinct(names), ", "@) + "]"@
}

/// Answer when an asked member asks for an unknown peer.
pub open spec fn spec_unknown_peer(peer: Seq<char>) -> Seq<char> {
    "[Error: agent '"@ + peer + "' not found]"@
}

/// Answer when an asked member asks a member already on the chain of questions.
pub open spec fn spec_circular(agent: Seq<char>, peer: Seq<char>) -> Seq<char> {
    "[Error: circular ask_peer detected: "@ + agent + " -> "@ + peer + "]"@
}

/// One member working on its task or on a question: which member, its messages, its
/// round, and the name it was asked under.
pub struct FrameView {
    pub agent: int,
    pub msgs: Seq<MessageView>,
    pub round: int,
    pub peer: Seq<char>,
}

/// Abstract state of one member's run: the member's own frame first, then the chain
/// of questions being answered; `visited` holds the names the chain may not ask again.
#[verifier::ext_equal]
pub struct MemberView {
    pub names: Seq<Seq<char>>,
    pub member: int,
    pub max_rounds: int,
    pub task: Seq<char>,
    pub nested_with_provider: bool,
    pub frames: Seq<FrameView>,
    pub visited: Seq<Seq<char>>,
    pub output: Option<Seq<char>>,
}

/// The run with the current frame replaced by `f`.
pub open spec fn mv_set_last(v: MemberView, f: FrameView) -> MemberView {
    MemberView { frames: v.frames.update(v.frames.len() - 1, f), ..v }
}

/// The current frame appends `msg` to its messages.
pub open spec fn mv_append(v: MemberView, msg: MessageView) -> MemberView {
    let f = v.frames.last();
    mv_set_last(v, FrameView { msgs: f.msgs.push(msg), ..f })
}

/// The current frame moves to its next round, or gives up when it has none left.
pub open spec fn mv_next_round(v: MemberView) -> MemberView
    decreases v.frames.len(), 2int,
{
    if v.frames.len() == 0 {
        v
    } else {
        let f = v.frames.last();
        if f.round + 1 < v.max_rounds {
            mv_set_last(v, FrameView { round: f.round + 1, ..f })
        } else {
            mv_exhausted(v)
        }
    }
}

/// The current frame used up its rounds.
pub open spec fn mv_exhausted(v: MemberView) -> MemberView
    decreases v.frames.len(), 1int,
{
    if v.frames.len() <= 1 {
        MemberView { output: Some(spec_out_of_rounds(v.names[v.member])), ..v }
    } else {
        mv_return(v, spec_answer_out_of_rounds(v.names[v.frames.last().agent]))
    }
}

/// The current (asked) frame answers `val`: it is closed, the asker receives the answer
/// and moves to its next round.
pub open spec fn mv_return(v: MemberView, val: Seq<char>) -> MemberView
    decreases v.frames.len(), 0int,
{
    if v.frames.len() < 2 {
        v
    } else {
        let f = v.frames.last();
        let rest = v.frames.drop_last();
        let parent = rest.last();
        let parent2 = FrameView {
            msgs: parent.msgs.push(spec_peer_answer(parent.msgs, f.peer, val)),
            ..parent
        };
        let v2 = MemberView {
            frames: rest.update(rest.len() - 1, parent2),
            visited: if v.frames.len() == 2 {
                Seq::empty()
            } else {
                v.visited.drop_last()
            },
            ..v
        };
        mv_next_round(v2)
    }
}

/// The current frame produced `val`: the member's output (an empty one counts as running
/// out of rounds), or an answer to the asker.
pub open spec fn mv_deliver(v: MemberView, val: Seq<char>) -> MemberView {
    if v.frames.len() <= 1 {
        MemberView {
            output: Some(
                if val.len() == 0 {
                    spec_out_of_rounds(v.names[v.member])
                } else {
                    val
                },
            ),
            ..v
        }
    } else {
        mv_return(v, val)
    }
}

/// The current frame asks `peer` the `question`.
pub open spec fn mv_ask<A, R>(
    v: MemberView,
    agents: Seq<CollaborativeAgent<A, R>>,
    peer: Seq<char>,
    question: Seq<char>,
) -> MemberView {
    let f = v.frames.last();
    if v.frames.len() >= 2 && v.visited.contains(peer) {
        mv_next_round(
            mv_append(v, spec_peer_answer(f.msgs, peer, spec_circular(v.names[f.agent], peer))),
        )
    } else {
        match spec_index_of(v.names, peer) {
            Some(t) => MemberView {
                frames: v.frames.push(
                    FrameView {
                        agent: t,
                        msgs: spec_task_messages(agents[t], spec_ask_context(v.task, question)),
                        round: 0,
                        peer,
                    },
                ),
                visited: if v.frames.len() == 1 {
                    seq![v.names[v.member]]
                } else {
                    v.visited.push(peer)
                },
                ..v
            },
            None => mv_next_round(
                mv_append(
                    v,
                    spec_peer_answer(
                        f.msgs,
                        peer,
                        if v.frames.len() == 1 {
                            spec_unknown_peer_listed(peer, v.names)
                        } else {
                            spec_unknown_peer(peer)
                        },
                    ),
                ),
            ),
        }
    }
}

/// The run after the current frame's step `step`.
pub open spec fn mv_step<A, R>(v: MemberView, agents: Seq<CollaborativeAgent<A, R>>, step: AgentStep) -> MemberView {
    match step {
        AgentStep::Done(r) => mv_deliver(v, r@),
        AgentStep::TextOutput(t) => if t@.len() == 0 {
            mv_next_round(v)
        } else {
            mv_deliver(v, t@)
        },
        AgentStep::Error(e) => if v.frames.len() <= 1 {
            mv_deliver(v, spec_member_error(v.names[v.member], e@))
        } else {
            mv_return(v, spec_answer_error(e@))
        },
        AgentStep::AskPeer { peer, question } => mv_ask(v, agents, peer@, question@),
    }
}

/// The run is consistent: the frames belong to members, rounds are within the limit
/// while the run goes on, and `visited` is the chain of asked names, without repeats.
pub open spec fn mv_wf(v: MemberView) -> bool {
    &&& 0 <= v.member < v.names.len()
    &&& v.frames.len() >= 1
    &&& v.frames[0].agent == v.member
    &&& forall|k: int| 0 <= k < v.frames.len() ==> 0 <= #[trigger] v.frames[k].agent < v.names.len()
    &&& v.output is None ==> forall|k: int| 0 <= k < v.frames.len() ==> 0 <= #[trigger] v.frames[k].round < v.max_rounds
    &&& v.frames.len() == 1 ==> v.visited.len() == 0
    &&& v.frames.len() >= 2 ==> {
        &&& v.visited.len() == v.frames.len() - 1
        &&& v.visited[0] == v.names[v.member]
        &&& forall|k: int| 1 <= k < v.visited.len() ==> #[trigger] v.visited[k] == v.frames[k + 1].peer
    }
    &&& v.visited.no_duplicates()
    &&& forall|k: int| 0 <= k < v.visited.len() ==> v.names.contains(#[trigger] v.visited[k])
}

/// What the coordinator must do next for a member.
#[derive(Debug)]
pub enum MemberAction {
    /// Run one step of member `agent` on `messages` (with the selected provider when
    /// `with_provider` is set), then report it with [`MemberRun::on_step`].
    RunStep { agent: usize, with_provider: bool, messages: Vec<Message> },
    /// The member's final output.
    Finished(String),
}

struct Frame {
    agent: usize,
    messages: Vec<Message>,
    round: usize,
    peer: String,
}

impl Frame {
    spec fn view(&self) -> FrameView {
        FrameView { agent: self.agent as int, msgs: views(self.messages@), round: self.round as int, peer: self.peer@ }
    }
}

/// One member's part of a team task, including the questions it routes to other members.
pub struct MemberRun {
    names: Vec<String>,
    member: usize,
    max_rounds: usize,
    task: String,
    nested_with_provider: bool,
    frames: Vec<Frame>,
    visited: Vec<String>,
    output: Option<String>,
}

impl View for MemberRun {
    type V = MemberView;

    closed spec fn view(&self) -> MemberView {
        MemberView {
            names: texts(self.names@),
            member: self.member as int,
            max_rounds: self.max_rounds as int,
            task: self.task@,
            nested_with_provider: self.nested_with_provider,
            frames: self.frames@.map_values(|f: Frame| f.view()),
            visited: texts(self.visited@),
            output: opt_text(self.output),
        }
    }
}

/// The action that goes with a run's state.
pub open spec fn spec_action(v: MemberView, a: MemberAction) -> bool {
    match v.output {
        Some(o) => a matches MemberAction::Finished(x) && x@ == o,
        None => a matches MemberAction::RunStep { agent, with_provider, messages } && {
            &&& agent == v.frames.last().agent
            &&& with_provider == (v.frames.len() == 1 || v.nested_with_provider)
            &&& views(messages@) == v.frames.last().msgs
        },
    }
}

/// The run with the current frame's messages replaced by `msgs`.
pub open spec fn mv_with_messages(v: MemberView, msgs: Seq<MessageView>) -> MemberView {
    let f = v.frames.last();
    mv_set_last(v, FrameView { msgs, ..f })
}

/// Where `spec_index_of` points, that member has the name.
pub proof fn lemma_index_of(names: Seq<Seq<char>>, name: Seq<char>)
    ensures
        spec_index_of(names, name) matches Some(i) ==> 0 <= i < names.len() && names[i] == name,
        spec_index_of(names, name) is None ==> !names.contains(name),
    decreases names.len(),
{
    if names.len() > 0 {
        lemma_index_of(names.drop_last(), name);
        if names.last() != name && spec_index_of(names.drop_last(), name) is None {
            assert forall|j: int| 0 <= j < names.len() implies names[j] != name by {
                if j < names.len() - 1 {
                    assert(names.drop_last()[j] == names[j]);
                }
            }
        }
    }
}

/// Does the list hold a string equal to `s`?
pub(crate) fn contains_text(v: &Vec<String>, s: &str) -> (b: bool)
    ensures
        b == texts(v@).contains(s@),
{
    let mut i: usize = 0;
    while i < v.len()
        invariant
            i <= v@.len(),
            forall|j: int| 0 <= j < i ==> v@[j]@ != s@,
        decreases v@.len() - i,
    {
        if crate::text::str_eq(v[i].as_str(), s) {
            assert(texts(v@)[i as int] == s@);
            return true;
        }
        i += 1;
    }
    assert forall|j: int| 0 <= j < texts(v@).len() implies texts(v@)[j] != s@ by {
        assert(texts(v@)[j] == v@[j]@);
    }
    false
}

/// The member a name routes to (the last one with that name).
fn index_of(names: &Vec<String>, name: &str) -> (r: Option<usize>)
    ensures
        match r {
            Some(i) => spec_index_of(texts(names@), name@) == Some(i as int) && i < names@.len(),
            None => spec_index_of(texts(names@), name@) is None,
        },
{
    let mut i = names.len();
    assert(texts(names@.subrange(0, names@.len() as int)) =~= texts(names@));
    while i > 0
        invariant
            i <= names@.len(),
            spec_index_of(texts(names@), name@) == spec_index_of(texts(names@.subrange(0, i as int)), name@),
        decreases i,
    {
        let ghost pre = texts(names@.subrange(0, i as int));
        assert(pre.drop_last() =~= texts(names@.subrange(0, i - 1)));
        assert(pre.last() == names@[i - 1]@);
        if crate::text::str_eq(names[i - 1].as_str(), name) {
            return Some(i - 1);
        }
        i -= 1;
    }
    None
}

/// The distinct names, in order of first appearance.
pub(crate) fn distinct_names(names: &Vec<String>) -> (r: Vec<String>)
    ensures
        texts(r@) == spec_distinct(texts(names@)),
{
    let mut r: Vec<String> = Vec::new();
    let mut i: usize = 0;
    while i < names.len()
        invariant
            i <= names@.len(),
            texts(r@) == spec_distinct(texts(names@.subrange(0, i as int))),
        decreases names@.len() - i,
    {
        let ghost pre = texts(names@.subrange(0, i as int));
        let ghost post = texts(names@.subrange(0, i + 1));
        assert(post.drop_last() =~= pre);
        assert(post.last() == names@[i as int]@);
        if !contains_text(&r, names[i].as_str()) {
            let ghost before = r@;
            r.push(names[i].clone());
            assert(texts(r@) =~= texts(before).push(names@[i as int]@));
        }
        i += 1;
    }
    assert(names@.subrange(0, i as int) =~= names@);
    r
}

/// The names of the members, in order.
pub fn member_names<A, R>(agents: &Vec<CollaborativeAgent<A, R>>) -> (r: Vec<String>)
    ensures
        texts(r@) == spec_member_names(agents@),
{
    let mut r: Vec<String> = Vec::new();
    let mut i: usize = 0;
    while i < agents.len()
        invariant
            i <= agents@.len(),
            texts(r@) == spec_member_names(agents@.subrange(0, i as int)),
        decreases agents@.len() - i,
    {
        let ghost before = r@;
        r.push(agents[i].name.clone());
        assert(texts(r@) =~= texts(before).push(agents@[i as int].spec_name()));
        assert(spec_member_names(agents@.subrange(0, i + 1)) =~= spec_member_names(agents@.subrange(0, i as int)).push(agents@[i as int].spec_name()));
        i += 1;
    }
    assert(agents@.subrange(0, i as int) =~= agents@);
    r
}

/// A chain of distinct names drawn from `names` is no longer than `names`.
pub proof fn lemma_distinct_within(visited: Seq<Seq<char>>, names: Seq<Seq<char>>)
    requires
        visited.no_duplicates(),
        forall|k: int| 0 <= k < visited.len() ==> names.contains(#[trigger] visited[k]),
    ensures
        visited.len() <= names.len(),
{
    visited.unique_seq_to_set();
    names.lemma_cardinality_of_set();
    assert(visited.to_set().subset_of(names.to_set())) by {
        assert forall|x: Seq<char>| visited.to_set().contains(x) implies names.to_set().contains(x) by {
            let k = choose|k: int| 0 <= k < visited.len() && visited[k] == x;
            assert(names.contains(visited[k]));
        }
    }
    vstd::set_lib::lemma_len_subset(visited.to_set(), names.to_set());
}

/// Questions nest at most as deep as there are members: the chain of asked members
/// never repeats a name.
pub proof fn lemma_member_depth(v: MemberView)
    requires
        mv_wf(v),
    ensures
        v.frames.len() <= v.names.len() + 1,
{
    lemma_distinct_within(v.visited, v.names);
}

impl MemberRun {
    /// The current frame, taken out of the run.
    fn take_current(&mut self) -> (f: Frame)
        requires
            old(self).frames@.len() >= 1,
        ensures
            f.view() == old(self)@.frames.last(),
            final(self)@ == (MemberView { frames: old(self)@.frames.drop_last(), ..old(self)@ }),
    {
        let ghost before = self.frames@;
        let f = match self.frames.pop() {
            Some(f) => f,
            None => Frame { agent: 0, messages: Vec::new(), round: 0, peer: String::new() },
        };
        assert(self.frames@.map_values(|f: Frame| f.view()) =~= before.map_values(|f: Frame| f.view()).drop_last());
        f
    }

    /// Puts `f` back as the current frame.
    fn put_current(&mut self, f: Frame)
        ensures
            final(self)@ == (MemberView { frames: old(self)@.frames.push(f.view()), ..old(self)@ }),
    {
        let ghost before = self.frames@;
        let ghost fv = f.view();
        self.frames.push(f);
        assert(self.frames@.map_values(|f: Frame| f.view()) =~= before.map_values(|f: Frame| f.view()).push(fv));
    }

    /// The action for the run's state.
    fn action(&self) -> (a: MemberAction)
        requires
            self@.frames.len() >= 1,
        ensures
            spec_action(self@, a),
    {
        match &self.output {
            Some(o) => MemberAction::Finished(o.clone()),
            None => {
                let last = self.frames.len() - 1;
                assert(self@.frames.last() == self.frames@[last as int].view());
                MemberAction::RunStep {
                    agent: self.frames[last].agent,
                    with_provider: self.frames.len() == 1 || self.nested_with_provider,
                    messages: crate::message::copy_messages(&self.frames[last].messages),
                }
            },
        }
    }

    /// Starts member `member` on `task`, with at most `max_rounds` rounds per frame.
    /// `nested_with_provider` tells whether asked members also get the selected provider.
    pub fn start<A, R>(
        agents: &Vec<CollaborativeAgent<A, R>>,
        member: usize,
        task: &str,
        max_rounds: usize,
        nested_with_provider: bool,
    ) -> (r: (MemberRun, MemberAction))
        requires
            member < agents@.len(),
        ensures
            mv_wf(r.0@),
            r.0@.names == spec_member_names(agents@),
            r.0@.member == member,
            r.0@.max_rounds == max_rounds,
            r.0@.task == task@,
            r.0@.nested_with_provider == nested_with_provider,
            r.0@.frames == seq![
                FrameView {
                    agent: member as int,
                    msgs: spec_task_messages(agents@[member as int], task@),
                    round: 0,
                    peer: agents@[member as int].spec_name(),
                },
            ],
            r.0@.visited.len() == 0,
            r.0@.output == if max_rounds == 0 {
                Some(spec_out_of_rounds(agents@[member as int].spec_name()))
            } else {
                None::<Seq<char>>
            },
            spec_action(r.0@, r.1),
    {
        let names = member_names(agents);
        assert(texts(names@)[member as int] == agents@[member as int].spec_name());
        let messages = agents[member].build_task_messages(task);
        assert(views(messages@) =~= spec_task_messages(agents@[member as int], task@));
        let frame = Frame { agent: member, messages, round: 0, peer: agents[member].name.clone() };
        let output = if max_rounds == 0 {
            Some(concat3("[", agents[member].name.as_str(), ": max rounds exceeded]"))
        } else {
            None
        };
        let mut frames: Vec<Frame> = Vec::new();
        let ghost fv = frame.view();
        frames.push(frame);
        let run = MemberRun {
            names,
            member,
            max_rounds,
            task: task.to_owned(),
            nested_with_provider,
            frames,
            visited: Vec::new(),
            output,
        };
        assert(run@.frames =~= seq![fv]);
        assert(run@.visited =~= Seq::<Seq<char>>::empty());
        let a = run.action();
        (run, a)
    }

    /// The current frame moves to its next round, or gives up.
    fn next_round(&mut self)
        requires
            mv_wf(old(self)@),
            old(self)@.output is None,
        ensures
            final(self)@ == mv_next_round(old(self)@),
            mv_wf(final(self)@),
        decreases old(self)@.frames.len(), 2int,
    {
        let mut f = self.take_current();
        if f.round + 1 < self.max_rounds {
            f.round = f.round + 1;
            self.put_current(f);
            assert(self@.frames =~= old(self)@.frames.update(old(self)@.frames.len() - 1, f.view()));
        } else {
            self.put_current(f);
            assert(self@.frames =~= old(self)@.frames);
            self.exhausted();
        }
    }

    /// The current frame used up its rounds.
    fn exhausted(&mut self)
        requires
            mv_wf(old(self)@),
            old(self)@.output is None,
        ensures
            final(self)@ == mv_exhausted(old(self)@),
            mv_wf(final(self)@),
        decreases old(self)@.frames.len(), 1int,
    {
        if self.frames.len() <= 1 {
            let name = self.names[self.member].clone();
            self.output = Some(concat3("[", name.as_str(), ": max rounds exceeded]"));
            assert(self@.frames =~= old(self)@.frames);
        } else {
            let last = self.frames.len() - 1;
            assert(self@.frames.last() == self.frames@[last as int].view());
            let agent = self.frames[last].agent;
            let name = self.names[agent].clone();
            let val = concat3("[", name.as_str(), ": max rounds exceeded answering question]");
            self.return_value(val);
        }
    }

    /// The current (asked) frame answers `val` to its asker.
    fn return_value(&mut self, val: String)
        requires
            mv_wf(old(self)@),
            old(self)@.output is None,
            old(self)@.frames.len() >= 2,
        ensures
            final(self)@ == mv_return(old(self)@, val@),
            mv_wf(final(self)@),
        decreases old(self)@.frames.len(), 0int,
    {
        let ghost v = self@;
        let f = self.take_current();
        let mut parent = self.take_current();
        let ghost pv = parent.view();
        inject_answer(&mut parent.messages, f.peer.as_str(), val.as_str());
        let two = self.frames.len() == 0;
        if !two {
            let _ = self.visited.pop();
        } else {
            self.visited = Vec::new();
        }
        proof {
            crate::message::lemma_views_push(parent.messages@.drop_last(), parent.messages@.last());
            assert(parent.messages@ =~= parent.messages@.drop_last().push(parent.messages@.last()));
            assert(views(parent.messages@) =~= pv.msgs.push(spec_peer_answer(pv.msgs, f.peer@, val@)));
        }
        self.put_current(parent);
        proof {
            let rest = v.frames.drop_last();
            assert(self@.frames =~= rest.update(rest.len() - 1, parent.view()));
            assert(self@.visited =~= if v.frames.len() == 2 { Seq::<Seq<char>>::empty() } else { v.visited.drop_last() });
            let parent2 = FrameView { msgs: pv.msgs.push(spec_peer_answer(pv.msgs, f.peer@, val@)), ..pv };
            assert(parent.view() =~= parent2);
            assert(self@ =~= MemberView {
                frames: rest.update(rest.len() - 1, parent2),
                visited: if v.frames.len() == 2 { Seq::empty() } else { v.visited.drop_last() },
                ..v
            });
            assert(mv_wf(self@)) by {
                assert forall|k: int| 0 <= k < self@.frames.len() implies 0 <= #[trigger] self@.frames[k].agent < self@.names.len() by {
                    assert(self@.frames[k].agent == v.frames[k].agent);
                }
                assert forall|k: int| 0 <= k < self@.frames.len() implies 0 <= #[trigger] self@.frames[k].round < self@.max_rounds by {
                    assert(self@.frames[k].round == v.frames[k].round);
                }
                assert forall|k: int| 0 <= k < self@.visited.len() implies self@.names.contains(#[trigger] self@.visited[k]) by {
                    assert(self@.visited[k] == v.visited[k]);
                }
                if self@.frames.len() >= 2 {
                    assert forall|k: int| 1 <= k < self@.visited.len() implies #[trigger] self@.visited[k] == self@.frames[k + 1].peer by {
                        assert(self@.visited[k] == v.visited[k]);
                        assert(self@.frames[k + 1].peer == v.frames[k + 1].peer);
                    }
                }
            }
        }
        self.next_round();
    }

    /// The current frame produced `val`.
    fn deliver(&mut self, val: String)
        requires
            mv_wf(old(self)@),
            old(self)@.output is None,
        ensures
            final(self)@ == mv_deliver(old(self)@, val@),
            mv_wf(final(self)@),
    {
        if self.frames.len() <= 1 {
            if val.as_str().is_empty() {
                let name = self.names[self.member].clone();
                self.output = Some(concat3("[", name.as_str(), ": max rounds exceeded]"));
            } else {
                self.output = Some(val);
            }
            assert(self@.frames =~= old(self)@.frames);
        } else {
            self.return_value(val);
        }
    }

    /// The current frame receives `answer` from `peer` and moves to its next round.
    fn answer_and_continue(&mut self, peer: &str, answer: &str)
        requires
            mv_wf(old(self)@),
            old(self)@.output is None,
        ensures
            final(self)@ == mv_next_round(
                mv_append(
                    old(self)@,
                    spec_peer_answer(old(self)@.frames.last().msgs, peer@, answer@),
                ),
            ),
            mv_wf(final(self)@),
    {
        let mut f = self.take_current();
        let ghost old_msgs = f.messages@;
        inject_answer(&mut f.messages, peer, answer);
        proof {
            crate::message::lemma_views_push(f.messages@.drop_last(), f.messages@.last());
            assert(f.messages@ =~= f.messages@.drop_last().push(f.messages@.last()));
        }
        self.put_current(f);
        proof {
            let v = old(self)@;
            assert(self@.frames =~= mv_append(v, spec_peer_answer(v.frames.last().msgs, peer@, answer@)).frames);
            assert(views(f.messages@) =~= v.frames.last().msgs.push(spec_peer_answer(v.frames.last().msgs, peer@, answer@)));
            assert(self@ =~= mv_append(v, spec_peer_answer(v.frames.last().msgs, peer@, answer@)));
            assert forall|k: int| 0 <= k < self@.frames.len() implies 0 <= #[trigger] self@.frames[k].agent < self@.names.len() by {
                assert(self@.frames[k].agent == v.frames[k].agent);
            }
            assert forall|k: int| 0 <= k < self@.frames.len() implies 0 <= #[trigger] self@.frames[k].round < self@.max_rounds by {
                assert(self@.frames[k].round == v.frames[k].round);
            }
            if self@.frames.len() >= 2 {
                assert forall|k: int| 1 <= k < self@.visited.len() implies #[trigger] self@.visited[k] == self@.frames[k + 1].peer by {
                    assert(self@.frames[k + 1].peer == v.frames[k + 1].peer);
                }
            }
        }
        self.next_round();
    }

    /// The current frame asks `peer` the `question`.
    fn ask<A, R>(&mut self, agents: &Vec<CollaborativeAgent<A, R>>, peer: String, question: String)
        requires
            mv_wf(old(self)@),
            old(self)@.output is None,
            old(self)@.names == spec_member_names(agents@),
            agents@.len() == old(self)@.names.len(),
        ensures
            final(self)@ == mv_ask(old(self)@, agents@, peer@, question@),
            mv_wf(final(self)@),
    {
        let ghost v = self@;
        let last = self.frames.len() - 1;
        assert(v.frames.last() == self.frames@[last as int].view());
        let nested = self.frames.len() >= 2;
        if nested && contains_text(&self.visited, peer.as_str()) {
            let agent = self.frames[last].agent;
            let mut text = concat3("[Error: circular ask_peer detected: ", self.names[agent].as_str(), " -> ");
            text.append(peer.as_str());
            text.append("]");
            self.answer_and_continue(peer.as_str(), text.as_str());
            return;
        }
        match index_of(&self.names, peer.as_str()) {
            Some(t) => {
                proof { lemma_index_of(v.names, peer@); }
                let mut context = concat3(
                    "A teammate needs your help with a specific question related to the overall task.\n\nOriginal task: ",
                    self.task.as_str(),
                    "\n\nTheir question: ",
                );
                context.append(question.as_str());
                let messages = agents[t].build_task_messages(context.as_str());
                assert(views(messages@) =~= spec_task_messages(agents@[t as int], spec_ask_context(v.task, question@)));
                if nested {
                    self.visited.push(peer.clone());
                } else {
                    let name = self.names[self.member].clone();
                    self.visited = Vec::new();
                    self.visited.push(name);
                }
                let frame = Frame { agent: t, messages, round: 0, peer };
                self.put_current(frame);
                proof {
                    let nv = self@;
                    assert(nv.visited =~= if v.frames.len() == 1 { seq![v.names[v.member]] } else { v.visited.push(peer@) });
                    assert(nv.frames.drop_last() == v.frames);
                    assert forall|k: int| 0 <= k < nv.frames.len() implies 0 <= #[trigger] nv.frames[k].agent < nv.names.len() by {
                        if k < v.frames.len() { assert(nv.frames[k] == v.frames[k]); }
                    }
                    assert forall|k: int| 0 <= k < nv.frames.len() implies 0 <= #[trigger] nv.frames[k].round < nv.max_rounds by {
                        if k < v.frames.len() { assert(nv.frames[k] == v.frames[k]); }
                    }
                    assert forall|k: int| 0 <= k < nv.visited.len() implies nv.names.contains(#[trigger] nv.visited[k]) by {
                        if nested && k < v.visited.len() {
                            assert(nv.visited[k] == v.visited[k]);
                        } else {
                            assert(nv.names[t as int] == nv.visited[k] || nv.names[v.member] == nv.visited[k]);
                        }
                    }
                    if nested {
                        assert forall|k: int| 1 <= k < nv.visited.len() implies #[trigger] nv.visited[k] == nv.frames[k + 1].peer by {
                            if k < v.visited.len() {
                                assert(nv.visited[k] == v.visited[k]);
                                assert(nv.frames[k + 1] == v.frames[k + 1]);
                            }
                        }
                        assert(nv.visited.no_duplicates()) by {
                            assert forall|i: int, j: int| 0 <= i < nv.visited.len() && 0 <= j < nv.visited.len() && i != j implies nv.visited[i] != nv.visited[j] by {
                                if i < v.visited.len() && j < v.visited.len() {
                                    assert(nv.visited[i] == v.visited[i]);
                                    assert(nv.visited[j] == v.visited[j]);
                                } else if i < v.visited.len() {
                                    assert(nv.visited[i] == v.visited[i]);
                                    assert(v.visited.contains(v.visited[i]));
                                } else {
                                    assert(nv.visited[j] == v.visited[j]);
                                    assert(v.visited.contains(v.visited[j]));
                                }
                            }
                        }
                    }
                }
            },
            None => {
                let text = if nested {
                    concat3("[Error: agent '", peer.as_str(), "' not found]")
                } else {
                    let distinct = distinct_names(&self.names);
                    let listed = join(&distinct, ", ");
                    let mut t = concat3("[Error: agent '", peer.as_str(), "' not found. Available: ");
                    t.append(listed.as_str());
                    t.append("]");
                    t
                };
                self.answer_and_continue(peer.as_str(), text.as_str());
            },
        }
    }

    /// Reports the current frame's step, with the messages as the step left them.
    /// Returns what to do next.
    pub fn on_step<A, R>(
        &mut self,
        agents: &Vec<CollaborativeAgent<A, R>>,
        step: AgentStep,
        messages: Vec<Message>,
    ) -> (a: MemberAction)
        requires
            mv_wf(old(self)@),
            old(self)@.output is None,
            old(self)@.names == spec_member_names(agents@),
        ensures
            final(self)@ == mv_step(mv_with_messages(old(self)@, views(messages@)), agents@, step),
            mv_wf(final(self)@),
            spec_action(final(self)@, a),
    {
        proof {
            assert(spec_member_names(agents@).len() == agents@.len());
        }
        let mut f = self.take_current();
        f.messages = messages;
        self.put_current(f);
        proof {
            let v = old(self)@;
            assert(self@.frames =~= mv_with_messages(v, views(messages@)).frames);
            assert forall|k: int| 0 <= k < self@.frames.len() implies 0 <= #[trigger] self@.frames[k].agent < self@.names.len() by {
                assert(self@.frames[k].agent == v.frames[k].agent);
            }
            assert forall|k: int| 0 <= k < self@.frames.len() implies 0 <= #[trigger] self@.frames[k].round < self@.max_rounds by {
                assert(self@.frames[k].round == v.frames[k].round);
            }
            if self@.frames.len() >= 2 {
                assert forall|k: int| 1 <= k < self@.visited.len() implies #[trigger] self@.visited[k] == self@.frames[k + 1].peer by {
                    assert(self@.frames[k + 1].peer == v.frames[k + 1].peer);
                }
            }
        }
        match step {
            AgentStep::Done(r) => self.deliver(r),
            AgentStep::TextOutput(t) => {
                if t.as_str().is_empty() {
                    self.next_round();
                } else {
                    self.deliver(t);
                }
            },
            AgentStep::Error(e) => {
                if self.frames.len() <= 1 {
                    let name = self.names[self.member].clone();
                    let mut text = concat3("[", name.as_str(), " error: ");
                    text.append(e.as_str());
                    text.append("]");
                    self.deliver(text);
                } else {
                    let text = concat3("[error: ", e.as_str(), "]");
                    self.return_value(text);
                }
            },
            AgentStep::AskPeer { peer, question } => self.ask(agents, peer, question),
        }
        self.action()
    }

    /// Is the member done?
    pub fn is_finished(&self) -> (b: bool)
        ensures
            b == (self@.output is Some),
    {
        self.output.is_some()
    }
}

/// Law: the report of a member's reply is the string `result` argument of its first
/// `report_result` call, exactly, or `(empty report)` when that call has no string
/// `result` argument; a reply without a `report_result` call reports nothing.
pub proof fn lemma_report_is_result_argument(calls: Seq<ToolCall>, i: int)
    requires
        0 <= i <= calls.len(),
        forall|j: int| 0 <= j < i ==> (#[trigger] calls[j]).name@ != "report_result"@,
    ensures
        i < calls.len() && calls[i].name@ == "report_result"@ ==> match spec_json_string_field(
            calls[i].arguments@,
            "result"@,
        ) {
            Some(s) => spec_report_result(calls) == Some(s),
            None => spec_report_result(calls) == Some("(empty report)"@),
        },
        i == calls.len() ==> spec_report_result(calls) is None,
    decreases i,
{
    if i > 0 {
        let rest = calls.drop_first();
        assert forall|j: int| 0 <= j < i - 1 implies (#[trigger] rest[j]).name@ != "report_result"@ by {
            assert(rest[j] == calls[j + 1]);
        }
        lemma_report_is_result_argument(rest, i - 1);
        assert(calls[0].name@ != "report_result"@);
        if i < calls.len() {
            assert(rest[i - 1] == calls[i]);
        }
    }
}

} // verus!


