//! The team coordinator: how a team is assembled (each member's contact book lists the
//! other members), and how the members' outputs are summarised and synthesised.

use vstd::prelude::*;
use crate::config::ModelProvider;
use crate::message::{Message, MessageView, Role};
use crate::team::{AgentContact, CollaborativeAgent, ContactBook, ContactView, spec_add_contact};
use crate::text::{concat2, concat3, join, spec_join, texts};
use crate::plan::triple_texts;
use crate::message::copy_strings;

verus! {

fn copy_slice(v: &[String]) -> (r: Vec<String>)
    ensures
        r@ == v@,
{
    let mut r: Vec<String> = Vec::new();
    let mut i: usize = 0;
    while i < v.len()
        invariant
            i <= v@.len(),
            r@ == v@.subrange(0, i as int),
        decreases v.len() - i,
    {
        r.push(v[i].clone());
        i += 1;
    }
    assert(r@ =~= v@);
    r
}

/// The outcome of a team task.
#[derive(Debug)]
pub struct TeamResult {
    pub task: String,
    /// `(name, role, output)` of each member, in team order.
    pub agent_outputs: Vec<(String, String, String)>,
    pub synthesis: String,
}

/// A member as its teammates see it.
pub open spec fn spec_contact_of<A, R>(a: CollaborativeAgent<A, R>) -> ContactView {
    ContactView {
        name: a.spec_name(),
        role: a.spec_role(),
        capabilities: a.spec_capabilities(),
        description: a.spec_description(),
    }
}

/// The contact book of the member named `name`, built from the first `k` team entries:
/// every member with another name is added, in team order.
pub open spec fn spec_book_upto(infos: Seq<ContactView>, name: Seq<char>, k: int) -> Seq<ContactView>
    decreases k,
{
    if k <= 0 {
        Seq::empty()
    } else {
        let prev = spec_book_upto(infos, name, k - 1);
        if infos[k - 1].name == name {
            prev
        } else {
            spec_add_contact(prev, infos[k - 1])
        }
    }
}

/// The contact book of the member named `name` in a team whose members are `infos`.
pub open spec fn spec_book(infos: Seq<ContactView>, name: Seq<char>) -> Seq<ContactView> {
    spec_book_upto(infos, name, infos.len() as int)
}

/// The members as their teammates see them, in order.
pub open spec fn spec_team_contacts<A, R>(agents: Seq<CollaborativeAgent<A, R>>) -> Seq<ContactView> {
    agents.map_values(|a: CollaborativeAgent<A, R>| spec_contact_of(a))
}

/// `b` is `a` with `contacts` as its contact book.
pub open spec fn spec_same_but_contacts<A, R>(b: CollaborativeAgent<A, R>, a: CollaborativeAgent<A, R>, contacts: Seq<ContactView>) -> bool {
    &&& b.spec_contacts() == contacts
    &&& b.spec_name() == a.spec_name()
    &&& b.spec_role() == a.spec_role()
    &&& b.spec_system_prompt() == a.spec_system_prompt()
    &&& b.spec_capabilities() == a.spec_capabilities()
    &&& b.spec_description() == a.spec_description()
    &&& b.spec_provider() == a.spec_provider()
    &&& b.spec_tools() == a.spec_tools()
    &&& b.spec_adapter() == a.spec_adapter()
}

/// Builds a team.
pub struct TeamAgentBuilder<A, R> {
    agents: Vec<CollaborativeAgent<A, R>>,
    max_rounds: usize,
    providers: Vec<ModelProvider>,
}

impl<A, R> TeamAgentBuilder<A, R> {
    pub closed spec fn spec_agents(&self) -> Seq<CollaborativeAgent<A, R>> {
        self.agents@
    }

    pub closed spec fn spec_max_rounds(&self) -> usize {
        self.max_rounds
    }

    pub closed spec fn spec_providers(&self) -> Seq<ModelProvider> {
        self.providers@
    }

    /// No members, no provider, 10 rounds.
    pub fn new() -> (b: Self)
        ensures
            b.spec_agents().len() == 0,
            b.spec_max_rounds() == 10,
            b.spec_providers().len() == 0,
    {
        TeamAgentBuilder { agents: Vec::new(), max_rounds: 10, providers: Vec::new() }
    }

    /// Adds a member.
    pub fn add_agent(self, agent: CollaborativeAgent<A, R>) -> (b: Self)
        ensures
            b.spec_agents() == self.spec_agents().push(agent),
            b.spec_max_rounds() == self.spec_max_rounds(),
            b.spec_providers() == self.spec_providers(),
    {
        let mut agents = self.agents;
        agents.push(agent);
        TeamAgentBuilder { agents, ..self }
    }

    /// Rounds each member gets.
    pub fn max_rounds(self, rounds: usize) -> (b: Self)
        ensures
            b.spec_agents() == self.spec_agents(),
            b.spec_max_rounds() == rounds,
            b.spec_providers() == self.spec_providers(),
    {
        TeamAgentBuilder { max_rounds: rounds, ..self }
    }

    /// Uses `provider` alone.
    pub fn provider(self, provider: ModelProvider) -> (b: Self)
        ensures
            b.spec_agents() == self.spec_agents(),
            b.spec_max_rounds() == self.spec_max_rounds(),
            b.spec_providers() == seq![provider],
    {
        let mut v: Vec<ModelProvider> = Vec::new();
        v.push(provider);
        assert(v@ =~= seq![provider]);
        TeamAgentBuilder { providers: v, ..self }
    }

    /// Uses these providers.
    pub fn providers(self, providers: Vec<ModelProvider>) -> (b: Self)
        ensures
            b.spec_agents() == self.spec_agents(),
            b.spec_max_rounds() == self.spec_max_rounds(),
            b.spec_providers() == providers@,
    {
        TeamAgentBuilder { providers, ..self }
    }

    /// Gives every member a contact book listing the other members.
    fn build_contact_books(&mut self)
        ensures
            final(self).spec_agents().len() == old(self).spec_agents().len(),
            forall|i: int| 0 <= i < old(self).spec_agents().len() ==> spec_same_but_contacts(
                #[trigger] final(self).spec_agents()[i],
                old(self).spec_agents()[i],
                spec_book(spec_team_contacts(old(self).spec_agents()), old(self).spec_agents()[i].spec_name()),
            ),
            final(self).spec_max_rounds() == old(self).spec_max_rounds(),
            final(self).spec_providers() == old(self).spec_providers(),
    {
        let ghost start = self.agents@;
        let ghost infos = spec_team_contacts(start);
        let mut info: Vec<AgentContact> = Vec::new();
        let mut i: usize = 0;
        while i < self.agents.len()
            invariant
                i <= self.agents@.len(),
                self.agents@ == start,
                infos == spec_team_contacts(start),
                info@.len() == i,
                forall|k: int| 0 <= k < i ==> (#[trigger] info@[k])@ == infos[k],
            decreases self.agents.len() - i,
        {
            let a = &self.agents[i];
            let c = AgentContact {
                name: a.name().to_owned(),
                role: a.role().to_owned(),
                capabilities: copy_slice(a.capabilities()),
                description: a.description_val().to_owned(),
            };
            info.push(c);
            i += 1;
        }
        let mut j: usize = 0;
        while j < self.agents.len()
            invariant
                j <= self.agents@.len(),
                self.agents@.len() == start.len(),
                infos == spec_team_contacts(start),
                info@.len() == start.len(),
                forall|k: int| 0 <= k < start.len() ==> (#[trigger] info@[k])@ == infos[k],
                forall|k: int| 0 <= k < j ==> spec_same_but_contacts(
                    #[trigger] self.agents@[k],
                    start[k],
                    spec_book(infos, start[k].spec_name()),
                ),
                forall|k: int| j <= k < start.len() ==> #[trigger] self.agents@[k] == start[k],
                self.max_rounds == old(self).max_rounds,
                self.providers == old(self).providers,
            decreases self.agents.len() - j,
        {
            let mut book = ContactBook::new();
            let mut k: usize = 0;
            let ghost me = start[j as int].spec_name();
            assert(self.agents@[j as int] == start[j as int]);
            while k < info.len()
                invariant
                    k <= info@.len(),
                    info@.len() == infos.len(),
                    forall|t: int| 0 <= t < infos.len() ==> (#[trigger] info@[t])@ == infos[t],
                    book.spec_contacts() == spec_book_upto(infos, me, k as int),
                    j < self.agents@.len(),
                    me == self.agents@[j as int].spec_name(),
                decreases info.len() - k,
            {
                if !crate::text::str_eq(info[k].name.as_str(), self.agents[j].name()) {
                    book.add(
                        info[k].name.clone(),
                        info[k].role.clone(),
                        copy_strings(&info[k].capabilities),
                        info[k].description.clone(),
                    );
                }
                k += 1;
            }
            let mut a = self.agents.remove(j);
            a.set_contact_book(book);
            self.agents.insert(j, a);
            j += 1;
        }
    }

    /// The team, each member knowing the others; it uses the first provider, if any.
    pub fn build<AD>(self, adapter: AD) -> (t: TeamAgent<AD, A, R>)
        ensures
            t.spec_adapter() == adapter,
            t.spec_max_rounds() == self.spec_max_rounds(),
            self.spec_providers().len() > 0 ==> t.spec_provider() == Some(self.spec_providers()[0]),
            self.spec_providers().len() == 0 ==> t.spec_provider() is None,
            t.spec_agents().len() == self.spec_agents().len(),
            forall|i: int| 0 <= i < self.spec_agents().len() ==> spec_same_but_contacts(
                #[trigger] t.spec_agents()[i],
                self.spec_agents()[i],
                spec_book(spec_team_contacts(self.spec_agents()), self.spec_agents()[i].spec_name()),
            ),
    {
        let mut b = self;
        b.build_contact_books();
        let provider = if b.providers.len() > 0 {
            Some(b.providers[0].duplicate())
        } else {
            None
        };
        TeamAgent { adapter, provider, agents: b.agents, max_rounds: b.max_rounds }
    }
}

impl<A, R> Default for TeamAgentBuilder<A, R> {
    fn default() -> (b: Self)
        ensures
            b.spec_agents().len() == 0,
            b.spec_max_rounds() == 10,
            b.spec_providers().len() == 0,
    {
        TeamAgentBuilder::new()
    }
}

/// A team of members that report through `report_result` and ask each other through
/// `ask_peer`. `AD` is the coordinator's model adapter.
pub struct TeamAgent<AD, A, R> {
    adapter: AD,
    provider: Option<ModelProvider>,
    agents: Vec<CollaborativeAgent<A, R>>,
    max_rounds: usize,
}

impl<AD, A, R> TeamAgent<AD, A, R> {
    pub closed spec fn spec_adapter(&self) -> AD {
        self.adapter
    }

    pub closed spec fn spec_provider(&self) -> Option<ModelProvider> {
        self.provider
    }

    pub closed spec fn spec_agents(&self) -> Seq<CollaborativeAgent<A, R>> {
        self.agents@
    }

    pub closed spec fn spec_max_rounds(&self) -> usize {
        self.max_rounds
    }

    /// Starts building a team.
    pub fn builder() -> (b: TeamAgentBuilder<A, R>)
        ensures
            b.spec_agents().len() == 0,
            b.spec_max_rounds() == 10,
            b.spec_providers().len() == 0,
    {
        TeamAgentBuilder::new()
    }

    /// The coordinator's model adapter.
    pub fn adapter(&self) -> (a: &AD)
        ensures
            *a == self.spec_adapter(),
    {
        &self.adapter
    }

    /// The members, in order.
    pub fn agents(&self) -> (v: &Vec<CollaborativeAgent<A, R>>)
        ensures
            v@ == self.spec_agents(),
    {
        &self.agents
    }

    /// Rounds each member gets.
    pub fn max_rounds(&self) -> (n: usize)
        ensures
            n == self.spec_max_rounds(),
    {
        self.max_rounds
    }

    /// The provider for the coordinator and the members without one of their own.
    pub fn select_provider(&self) -> (p: Option<ModelProvider>)
        ensures
            p == self.spec_provider(),
    {
        match &self.provider {
            Some(p) => Some(p.duplicate()),
            None => None,
        }
    }

    /// The capabilities of all members, member by member.
    pub fn capabilities(&self) -> (r: Vec<String>)
        ensures
            texts(r@) == spec_team_capabilities(self.spec_agents()),
    {
        let mut r: Vec<String> = Vec::new();
        let mut i: usize = 0;
        while i < self.agents.len()
            invariant
                i <= self.agents@.len(),
                texts(r@) == spec_team_capabilities(self.agents@.subrange(0, i as int)),
            decreases self.agents.len() - i,
        {
            let caps = self.agents[i].capabilities();
            let mut k: usize = 0;
            let ghost before = texts(r@);
            while k < caps.len()
                invariant
                    k <= caps@.len(),
                    texts(caps@) == self.agents@[i as int].spec_capabilities(),
                    texts(r@) == before + texts(caps@).subrange(0, k as int),
                decreases caps.len() - k,
            {
                let ghost prev = r@;
                r.push(caps[k].clone());
                assert(texts(r@) =~= texts(prev).push(caps@[k as int]@));
                assert(texts(caps@).subrange(0, k + 1) =~= texts(caps@).subrange(0, k as int).push(caps@[k as int]@));
                k += 1;
            }
            assert(texts(caps@).subrange(0, k as int) =~= texts(caps@));
            assert(self.agents@.subrange(0, i + 1).drop_last() =~= self.agents@.subrange(0, i as int));
            i += 1;
        }
        assert(self.agents@.subrange(0, i as int) =~= self.agents@);
        r
    }
}

/// The capabilities of the members, concatenated in order.
pub open spec fn spec_team_capabilities<A, R>(agents: Seq<CollaborativeAgent<A, R>>) -> Seq<Seq<char>>
    decreases agents.len(),
{
    if agents.len() == 0 {
        Seq::empty()
    } else {
        spec_team_capabilities(agents.drop_last()) + agents.last().spec_capabilities()
    }
}

/// A member's contribution in the synthesis prompt: `[name - role]: output`.
pub open spec fn spec_team_summary(t: (Seq<char>, Seq<char>, Seq<char>)) -> Seq<char> {
    "["@ + t.0 + " - "@ + t.1 + "]: "@ + t.2
}

/// The contributions of the members, in order.
pub fn team_summaries(results: &Vec<(String, String, String)>) -> (r: Vec<String>)
    ensures
        texts(r@) == triple_texts(results@).map_values(|t: (Seq<char>, Seq<char>, Seq<char>)| spec_team_summary(t)),
{
    let ghost target = triple_texts(results@).map_values(|t: (Seq<char>, Seq<char>, Seq<char>)| spec_team_summary(t));
    let mut r: Vec<String> = Vec::new();
    let mut i: usize = 0;
    while i < results.len()
        invariant
            i <= results@.len(),
            target == triple_texts(results@).map_values(|t: (Seq<char>, Seq<char>, Seq<char>)| spec_team_summary(t)),
            texts(r@) == target.subrange(0, i as int),
        decreases results.len() - i,
    {
        let a = concat3("[", results[i].0.as_str(), " - ");
        let b = concat3(a.as_str(), results[i].1.as_str(), "]: ");
        let line = concat2(b.as_str(), results[i].2.as_str());
        let ghost before = r@;
        r.push(line);
        assert(texts(r@) =~= texts(before).push(line@));
        assert(target.subrange(0, i + 1) =~= target.subrange(0, i as int).push(target[i as int]));
        i += 1;
    }
    assert(target.subrange(0, i as int) =~= target);
    r
}

/// The prompt that asks for the team's synthesis.
pub open spec fn spec_team_prompt(task: Seq<char>, summaries: Seq<Seq<char>>) -> Seq<char> {
    "Task: "@ + task + "\n\nAgent contributions:\n"@ + spec_join(summaries, "\n\n"@)
        + "\n\nPlease synthesize these contributions into a coherent final response."@
}

/// The messages that ask the coordinator's model for the synthesis.
pub fn team_synthesis_messages(task: &str, summaries: &Vec<String>) -> (r: Vec<Message>)
    ensures
        r@.len() == 2,
        r@[0]@ == MessageView::plain(
            Role::System,
            "You are a team coordinator. Synthesize agent contributions into a coherent response."@,
        ),
        r@[1]@ == MessageView::plain(Role::User, spec_team_prompt(task@, texts(summaries@))),
{
    let joined = join(summaries, "\n\n");
    let head = concat3("Task: ", task, "\n\nAgent contributions:\n");
    let prompt = concat3(
        head.as_str(),
        joined.as_str(),
        "\n\nPlease synthesize these contributions into a coherent final response.",
    );
    let mut r: Vec<Message> = Vec::new();
    r.push(Message::system("You are a team coordinator. Synthesize agent contributions into a coherent response."));
    r.push(Message::user(prompt.as_str()));
    r
}

/// What an agent built by the agent builder returns.
#[derive(Debug)]
pub enum AgentOutput {
    /// A single agent's reply.
    Text(String),
    /// A team's outcome.
    Team(TeamResult),
    /// A plan's outcome.
    Plan(crate::plan::PlanResult),
}

/// Each member's `(name, role, output)`, in team order, given the members' outputs in
/// that order.
pub fn team_outputs<A, R>(agents: &Vec<CollaborativeAgent<A, R>>, outputs: Vec<String>) -> (r: Vec<(String, String, String)>)
    requires
        outputs@.len() == agents@.len(),
    ensures
        r@.len() == agents@.len(),
        forall|i: int|
            0 <= i < agents@.len() ==> #[trigger] triple_texts(r@)[i] == (
                agents@[i].spec_name(),
                agents@[i].spec_role(),
                outputs@[i]@,
            ),
{
    let mut r: Vec<(String, String, String)> = Vec::new();
    let mut i: usize = 0;
    while i < agents.len()
        invariant
            i <= agents@.len(),
            outputs@.len() == agents@.len(),
            r@.len() == i,
            forall|j: int|
                0 <= j < i ==> #[trigger] triple_texts(r@)[j] == (
                    agents@[j].spec_name(),
                    agents@[j].spec_role(),
                    outputs@[j]@,
                ),
        decreases agents.len() - i,
    {
        let name = agents[i].name().to_owned();
        let role = agents[i].role().to_owned();
        let out = outputs[i].clone();
        let ghost before = r@;
        r.push((name, role, out));
        assert forall|j: int| 0 <= j < i + 1 implies #[trigger] triple_texts(r@)[j] == (
            agents@[j].spec_name(),
            agents@[j].spec_role(),
            outputs@[j]@,
        ) by {
            if j < i {
                assert(r@[j] == before[j]);
                assert(triple_texts(before)[j] == triple_texts(r@)[j]);
            }
        }
        i += 1;
    }
    r
}

/// Law: no member appears in its own contact book.
pub proof fn lemma_book_excludes_self(infos: Seq<ContactView>, name: Seq<char>, k: int)
    requires
        0 <= k <= infos.len(),
    ensures
        forall|i: int| 0 <= i < spec_book_upto(infos, name, k).len() ==> (#[trigger] spec_book_upto(infos, name, k)[i]).name != name,
    decreases k,
{
    if k > 0 {
        lemma_book_excludes_self(infos, name, k - 1);
        let prev = spec_book_upto(infos, name, k - 1);
        if infos[k - 1].name != name {
            crate::team::lemma_contact_index(prev, infos[k - 1].name);
            let cur = spec_book_upto(infos, name, k);
            assert forall|i: int| 0 <= i < cur.len() implies (#[trigger] cur[i]).name != name by {
                match crate::team::spec_contact_index(prev, infos[k - 1].name) {
                    Some(j) => {
                        if i != j {
                            assert(cur[i] == prev[i]);
                        }
                    },
                    None => {
                        if i < prev.len() {
                            assert(cur[i] == prev[i]);
                        }
                    },
                }
            }
        }
    }
}

} // verus!
