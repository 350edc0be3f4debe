//! Plans: subtasks with dependencies, the order in which they run, the placeholders that
//! carry one subtask's output into another's input, and the planning and synthesis
//! prompts. Asking the model and running sub-agents stay with the caller, which feeds
//! each outcome back to a [`PlanRun`].

use vstd::prelude::*;
use crate::message::Message;
use crate::config::{AppConfig, ModelKind, ModelProvider};
use crate::adapter::AgentResponseKind;
use crate::team::{contains_text, spec_distinct, distinct_names};
use crate::text::{
    concat2, concat3, from_chars, join, lemma_char_pos, lemma_rfind_char, replace_chars, rfind_char,
    spec_char_pos, spec_join, spec_replace, spec_rfind_char, sub_chars, texts, to_chars, char_pos_from,
};

verus! {

/// One step of a plan.
#[derive(Debug, Clone)]
pub struct Subtask {
    /// Identifier within the plan, such as `t1`.
    pub id: String,
    /// The sub-agent that runs it.
    pub agent_name: String,
    /// Its instructions; `{{tN.result}}` stands for the output of subtask `tN`.
    pub input: String,
    /// Subtasks that must complete first.
    pub depends_on: Vec<String>,
}

/// Abstract value of a [`Subtask`].
pub struct SubtaskView {
    pub id: Seq<char>,
    pub agent_name: Seq<char>,
    pub input: Seq<char>,
    pub depends_on: Seq<Seq<char>>,
}

impl View for Subtask {
    type V = SubtaskView;

    open spec fn view(&self) -> SubtaskView {
        SubtaskView {
            id: self.id@,
            agent_name: self.agent_name@,
            input: self.input@,
            depends_on: texts(self.depends_on@),
        }
    }
}

/// The subtasks' abstract values.
pub open spec fn subtask_views(s: Seq<Subtask>) -> Seq<SubtaskView> {
    s.map_values(|t: Subtask| t@)
}

/// The outcome of a plan.
#[derive(Debug)]
pub struct PlanResult {
    pub task: String,
    pub plan: Vec<Subtask>,
    /// `(subtask id, agent name, output)`, in the order they ran.
    pub subtask_results: Vec<(String, String, String)>,
    pub synthesis: String,
}

/// The texts of string pairs.
pub open spec fn pair_texts(v: Seq<(String, String)>) -> Seq<(Seq<char>, Seq<char>)> {
    v.map_values(|p: (String, String)| (p.0@, p.1@))
}

/// The texts of string triples.
pub open spec fn triple_texts(v: Seq<(String, String, String)>) -> Seq<(Seq<char>, Seq<char>, Seq<char>)> {
    v.map_values(|p: (String, String, String)| (p.0@, p.1@, p.2@))
}

/// The placeholder that stands for the output of subtask `id`.
pub open spec fn spec_placeholder(id: Seq<char>) -> Seq<char> {
    "{{"@ + id + ".result}}"@
}

/// `input` with the placeholder of each completed subtask replaced by its output, the
/// completed subtasks taken in order.
pub open spec fn spec_resolve(input: Seq<char>, completed: Seq<(Seq<char>, Seq<char>)>) -> Seq<char>
    decreases completed.len(),
{
    if completed.len() == 0 {
        input
    } else {
        spec_replace(
            spec_resolve(input, completed.drop_last()),
            spec_placeholder(completed.last().0),
            completed.last().1,
        )
    }
}

/// Replaces `{{id.result}}` by the output of subtask `id`, for each completed subtask.
pub fn resolve_placeholders(input: &str, completed: &Vec<(String, String)>) -> (r: String)
    ensures
        r@ == spec_resolve(input@, pair_texts(completed@)),
{
    let mut out = to_chars(input);
    let mut i: usize = 0;
    while i < completed.len()
        invariant
            i <= completed@.len(),
            out@ == spec_resolve(input@, pair_texts(completed@.subrange(0, i as int))),
        decreases completed.len() - i,
    {
        let ph = concat3("{{", completed[i].0.as_str(), ".result}}");
        proof {
            reveal_strlit("{{");
            reveal_strlit(".result}}");
        }
        let pv = to_chars(ph.as_str());
        let rv = to_chars(completed[i].1.as_str());
        out = replace_chars(out.as_slice(), pv.as_slice(), rv.as_slice());
        let ghost pre = pair_texts(completed@.subrange(0, i as int));
        let ghost post = pair_texts(completed@.subrange(0, i + 1));
        assert(post.drop_last() =~= pre);
        assert(post.last() == (completed@[i as int].0@, completed@[i as int].1@));
        i += 1;
    }
    assert(completed@.subrange(0, i as int) =~= completed@);
    from_chars(out.as_slice())
}

/// Are the positions of the first `[` and the last `]` in an order that can be sliced?
pub open spec fn spec_span_ok(raw: Seq<char>) -> bool {
    match (spec_char_pos(raw, '['), spec_rfind_char(raw, ']')) {
        (Some(a), Some(b)) => a <= b + 1,
        _ => true,
    }
}

/// The part of a model reply that holds the plan: from the first `[` to the last `]`
/// when both occur, else the whole reply.
pub open spec fn spec_plan_json(raw: Seq<char>) -> Seq<char> {
    match (spec_char_pos(raw, '['), spec_rfind_char(raw, ']')) {
        (Some(a), Some(b)) => raw.subrange(a, b + 1),
        _ => raw,
    }
}

/// Can [`plan_json`] cut this reply?
pub fn plan_span_ok(raw: &str) -> (b: bool)
    ensures
        b == spec_span_ok(raw@),
{
    let v = to_chars(raw);
    assert(v@.skip(0) =~= v@);
    match (char_pos_from(v.as_slice(), '[', 0), rfind_char(v.as_slice(), ']')) {
        (Some(a), Some(b)) => if a <= b {
            true
        } else {
            a - b == 1
        },
        _ => true,
    }
}

/// The JSON array of a plan, cut out of a model reply that may wrap it in other text.
pub fn plan_json(raw: &str) -> (r: String)
    requires
        spec_span_ok(raw@),
    ensures
        r@ == spec_plan_json(raw@),
{
    let v = to_chars(raw);
    assert(v@.skip(0) =~= v@);
    proof {
        lemma_char_pos(raw@, '[');
        lemma_rfind_char(raw@, ']');
    }
    match (char_pos_from(v.as_slice(), '[', 0), rfind_char(v.as_slice(), ']')) {
        (Some(a), Some(b)) => {
            assert(b < v.len());
            let cut = sub_chars(v.as_slice(), a, b + 1);
            from_chars(cut.as_slice())
        },
        _ => raw.to_owned(),
    }
}

/// The keys of a list of pairs.
pub open spec fn spec_keys(m: Seq<(Seq<char>, Seq<char>)>) -> Seq<Seq<char>> {
    m.map_values(|p: (Seq<char>, Seq<char>)| p.0)
}

/// Position of the first pair with key `k`.
pub open spec fn spec_key_index(m: Seq<(Seq<char>, Seq<char>)>, k: Seq<char>) -> Option<int>
    decreases m.len(),
{
    if m.len() == 0 {
        None
    } else {
        match spec_key_index(m.drop_last(), k) {
            Some(i) => Some(i),
            None => if m.last().0 == k {
                Some(m.len() - 1)
            } else {
                None
            },
        }
    }
}

proof fn lemma_key_index(m: Seq<(Seq<char>, Seq<char>)>, k: Seq<char>)
    ensures
        match spec_key_index(m, k) {
            Some(i) => 0 <= i < m.len() && m[i].0 == k && forall|j: int| 0 <= j < i ==> m[j].0 != k,
            None => forall|j: int| 0 <= j < m.len() ==> m[j].0 != k,
        },
    decreases m.len(),
{
    if m.len() > 0 {
        lemma_key_index(m.drop_last(), k);
        assert(forall|j: int| 0 <= j < m.len() - 1 ==> m.drop_last()[j] == m[j]);
    }
}

/// The pairs with `k` set to `v`: the first pair with key `k` takes the value, or the
/// pair is appended.
pub open spec fn spec_put(m: Seq<(Seq<char>, Seq<char>)>, k: Seq<char>, v: Seq<char>) -> Seq<(Seq<char>, Seq<char>)> {
    match spec_key_index(m, k) {
        Some(i) => m.update(i, (k, v)),
        None => m.push((k, v)),
    }
}

/// `r` without the entries equal to `x`.
pub open spec fn spec_remove(r: Seq<Seq<char>>, x: Seq<char>) -> Seq<Seq<char>>
    decreases r.len(),
{
    if r.len() == 0 {
        Seq::empty()
    } else if r.last() == x {
        spec_remove(r.drop_last(), x)
    } else {
        spec_remove(r.drop_last(), x).push(r.last())
    }
}

proof fn lemma_remove(r: Seq<Seq<char>>, x: Seq<char>)
    ensures
        forall|y: Seq<char>| spec_remove(r, x).contains(y) <==> (r.contains(y) && y != x),
    decreases r.len(),
{
    if r.len() > 0 {
        let p = r.drop_last();
        lemma_remove(p, x);
        let rp = spec_remove(p, x);
        let rr = spec_remove(r, x);
        assert forall|y: Seq<char>| rr.contains(y) <==> (r.contains(y) && y != x) by {
            assert(r.contains(y) <==> (p.contains(y) || r.last() == y)) by {
                if r.contains(y) {
                    let j = choose|j: int| 0 <= j < r.len() && r[j] == y;
                    if j < r.len() - 1 {
                        assert(p[j] == y);
                    }
                }
                if p.contains(y) {
                    let j = choose|j: int| 0 <= j < p.len() && p[j] == y;
                    assert(r[j] == y);
                }
                if r.last() == y {
                    assert(r[r.len() - 1] == y);
                }
            }
            if r.last() != x {
                assert(rr == rp.push(r.last()));
                assert(rr.contains(y) <==> (rp.contains(y) || r.last() == y)) by {
                    if rr.contains(y) {
                        let j = choose|j: int| 0 <= j < rr.len() && rr[j] == y;
                        if j < rp.len() {
                            assert(rp[j] == y);
                        }
                    }
                    if rp.contains(y) {
                        let j = choose|j: int| 0 <= j < rp.len() && rp[j] == y;
                        assert(rr[j] == y);
                    }
                    if r.last() == y {
                        assert(rr[rr.len() - 1] == y);
                    }
                }
            }
        }
    }
}

/// All dependencies of `s` have completed.
pub open spec fn spec_deps_done(s: SubtaskView, keys: Seq<Seq<char>>) -> bool {
    forall|j: int| 0 <= j < s.depends_on.len() ==> keys.contains(#[trigger] s.depends_on[j])
}

/// `s` is pending and all its dependencies have completed.
pub open spec fn spec_is_ready(s: SubtaskView, remaining: Seq<Seq<char>>, keys: Seq<Seq<char>>) -> bool {
    remaining.contains(s.id) && spec_deps_done(s, keys)
}

/// Positions, in order, of the ready subtasks among the first `n`.
pub open spec fn spec_ready(plan: Seq<SubtaskView>, remaining: Seq<Seq<char>>, keys: Seq<Seq<char>>, n: int) -> Seq<int>
    decreases n,
{
    if n <= 0 {
        Seq::empty()
    } else {
        let prev = spec_ready(plan, remaining, keys, n - 1);
        if spec_is_ready(plan[n - 1], remaining, keys) {
            prev.push(n - 1)
        } else {
            prev
        }
    }
}

/// The ready positions increase, lie below `n`, and are exactly the ready subtasks.
pub proof fn lemma_ready(plan: Seq<SubtaskView>, remaining: Seq<Seq<char>>, keys: Seq<Seq<char>>, n: int)
    requires
        0 <= n,
    ensures
        forall|a: int, b: int| 0 <= a < b < spec_ready(plan, remaining, keys, n).len()
            ==> spec_ready(plan, remaining, keys, n)[a] < spec_ready(plan, remaining, keys, n)[b],
        forall|a: int| 0 <= a < spec_ready(plan, remaining, keys, n).len()
            ==> 0 <= #[trigger] spec_ready(plan, remaining, keys, n)[a] < n
            && spec_is_ready(plan[spec_ready(plan, remaining, keys, n)[a]], remaining, keys),
        forall|i: int| 0 <= i < n && spec_is_ready(plan[i], remaining, keys)
            ==> spec_ready(plan, remaining, keys, n).contains(i),
    decreases n,
{
    if n > 0 {
        lemma_ready(plan, remaining, keys, n - 1);
        let prev = spec_ready(plan, remaining, keys, n - 1);
        let cur = spec_ready(plan, remaining, keys, n);
        assert forall|i: int| 0 <= i < n && spec_is_ready(plan[i], remaining, keys) implies cur.contains(i) by {
            if i < n - 1 {
                assert(prev.contains(i));
                let k = choose|k: int| 0 <= k < prev.len() && prev[k] == i;
                if spec_is_ready(plan[n - 1], remaining, keys) {
                    assert(cur == prev.push(n - 1));
                    assert(cur[k] == prev[k]);
                } else {
                    assert(cur == prev);
                }
                assert(cur[k] == i);
            } else {
                assert(cur == prev.push(n - 1));
                assert(cur[cur.len() - 1] == i);
            }
        }
    }
}

/// Is `y` the id of a subtask of `plan`?
pub open spec fn spec_is_plan_id(plan: Seq<SubtaskView>, y: Seq<char>) -> bool {
    exists|k: int| 0 <= k < plan.len() && #[trigger] plan[k].id == y
}

/// `rank` orders the plan's dependencies: each dependency of a subtask is the id of a
/// subtask of lower rank.
pub open spec fn spec_ranked(plan: Seq<SubtaskView>, rank: spec_fn(int) -> nat) -> bool {
    forall|i: int, j: int|
        0 <= i < plan.len() && 0 <= j < plan[i].depends_on.len() ==> exists|k: int|
            0 <= k < plan.len() && plan[k].id == #[trigger] plan[i].depends_on[j] && rank(k) < rank(i)
}

/// The plan's dependencies form no cycle and each names a subtask of the plan.
pub open spec fn spec_acyclic(plan: Seq<SubtaskView>) -> bool {
    exists|rank: spec_fn(int) -> nat| spec_ranked(plan, rank)
}

/// With every subtask pending or completed, a pending subtask of rank at most `r` means
/// some subtask is ready.
proof fn lemma_some_ready(
    plan: Seq<SubtaskView>,
    remaining: Seq<Seq<char>>,
    keys: Seq<Seq<char>>,
    rank: spec_fn(int) -> nat,
    r: nat,
    i: int,
)
    requires
        spec_ranked(plan, rank),
        0 <= i < plan.len(),
        remaining.contains(plan[i].id),
        rank(i) <= r,
        forall|k: int| 0 <= k < plan.len() ==> remaining.contains(#[trigger] plan[k].id) || keys.contains(plan[k].id),
    ensures
        exists|m: int| 0 <= m < plan.len() && spec_is_ready(#[trigger] plan[m], remaining, keys),
    decreases r,
{
    if spec_deps_done(plan[i], keys) {
        assert(spec_is_ready(plan[i], remaining, keys));
    } else {
        let j = choose|j: int| 0 <= j < plan[i].depends_on.len() && !keys.contains(#[trigger] plan[i].depends_on[j]);
        let k = choose|k: int| 0 <= k < plan.len() && plan[k].id == plan[i].depends_on[j] && rank(k) < rank(i);
        assert(remaining.contains(plan[k].id) || keys.contains(plan[k].id));
        lemma_some_ready(plan, remaining, keys, rank, (r - 1) as nat, k);
    }
}

/// `spec_distinct` keeps exactly the names it is given.
proof fn lemma_distinct_contains(names: Seq<Seq<char>>)
    ensures
        forall|y: Seq<char>| #[trigger] spec_distinct(names).contains(y) <==> names.contains(y),
    decreases names.len(),
{
    if names.len() > 0 {
        let p = names.drop_last();
        lemma_distinct_contains(p);
        let d = spec_distinct(p);
        assert forall|y: Seq<char>| #[trigger] spec_distinct(names).contains(y) <==> names.contains(y) by {
            assert(names.contains(y) <==> (p.contains(y) || names.last() == y)) by {
                if names.contains(y) {
                    let j = choose|j: int| 0 <= j < names.len() && names[j] == y;
                    if j < names.len() - 1 {
                        assert(p[j] == y);
                    }
                }
                if p.contains(y) {
                    let j = choose|j: int| 0 <= j < p.len() && p[j] == y;
                    assert(names[j] == y);
                }
                if names.last() == y {
                    assert(names[names.len() - 1] == y);
                }
            }
            if !d.contains(names.last()) {
                let dd = d.push(names.last());
                assert(dd.contains(y) <==> (d.contains(y) || names.last() == y)) by {
                    if dd.contains(y) {
                        let j = choose|j: int| 0 <= j < dd.len() && dd[j] == y;
                        if j < d.len() {
                            assert(d[j] == y);
                        }
                    }
                    if d.contains(y) {
                        let j = choose|j: int| 0 <= j < d.len() && d[j] == y;
                        assert(dd[j] == y);
                    }
                    if names.last() == y {
                        assert(dd[dd.len() - 1] == y);
                    }
                }
            }
        }
    }
}

/// A sequence of distinct positions below `n`, at least `n` long, holds every position
/// below `n`.
proof fn lemma_positions_cover(ran: Seq<int>, n: int)
    requires
        0 <= n,
        ran.no_duplicates(),
        forall|k: int| 0 <= k < ran.len() ==> 0 <= #[trigger] ran[k] < n,
        ran.len() >= n,
    ensures
        forall|i: int| 0 <= i < n ==> ran.contains(i),
{
    let all = vstd::set_lib::set_int_range(0, n);
    vstd::set_lib::lemma_int_range(0, n);
    ran.unique_seq_to_set();
    assert(ran.to_set().subset_of(all)) by {
        assert forall|x: int| ran.to_set().contains(x) implies all.contains(x) by {
            let k = choose|k: int| 0 <= k < ran.len() && ran[k] == x;
            assert(0 <= ran[k] < n);
        }
    }
    vstd::set_lib::lemma_len_subset(ran.to_set(), all);
    vstd::set_lib::lemma_subset_equality(ran.to_set(), all);
    assert forall|i: int| 0 <= i < n implies ran.contains(i) by {
        assert(all.contains(i));
        assert(ran.to_set().contains(i));
    }
}

/// What a plan run asks of its caller.
#[derive(Debug)]
pub enum PlanStep {
    /// Run sub-agent `agent_name` on `input` for subtask `index`, then report its output
    /// with [`PlanRun::on_output`].
    Run { index: usize, agent_name: String, input: String },
    /// Pending subtasks wait for dependencies that will never complete.
    Deadlock { completed: Vec<String>, remaining: Vec<String> },
    /// The run is over; take the results with [`PlanRun::into_results`].
    Finished,
}

/// The execution of a plan: rounds in which every pending subtask whose dependencies
/// have completed runs, in plan order, until none is pending or the rounds run out.
pub struct PlanRun {
    plan: Vec<Subtask>,
    max_rounds: usize,
    round: usize,
    completed: Vec<(String, String)>,
    results: Vec<(String, String, String)>,
    remaining: Vec<String>,
    batch: Vec<usize>,
    pos: usize,
    awaiting: bool,
    ran: Ghost<Seq<int>>,
    prior: Ghost<Seq<int>>,
    round_remaining: Ghost<Seq<Seq<char>>>,
}

impl PlanRun {
    /// The plan.
    pub closed spec fn spec_plan(&self) -> Seq<SubtaskView> {
        subtask_views(self.plan@)
    }

    /// The most rounds.
    pub closed spec fn spec_max_rounds(&self) -> nat {
        self.max_rounds as nat
    }

    /// Rounds started so far.
    pub closed spec fn spec_round(&self) -> nat {
        self.round as nat
    }

    /// Outputs of completed subtasks, by id.
    pub closed spec fn spec_completed(&self) -> Seq<(Seq<char>, Seq<char>)> {
        pair_texts(self.completed@)
    }

    /// `(id, agent, output)` of each subtask run, in order.
    pub closed spec fn spec_results(&self) -> Seq<(Seq<char>, Seq<char>, Seq<char>)> {
        triple_texts(self.results@)
    }

    /// Ids of the subtasks still pending.
    pub closed spec fn spec_remaining(&self) -> Seq<Seq<char>> {
        texts(self.remaining@)
    }

    /// Positions of the subtasks of the current round.
    pub closed spec fn spec_batch(&self) -> Seq<int> {
        self.batch@.map_values(|i: usize| i as int)
    }

    /// How many subtasks of the current round have been handed out.
    pub closed spec fn spec_pos(&self) -> nat {
        self.pos as nat
    }

    /// Is the output of a handed-out subtask awaited?
    pub closed spec fn spec_awaiting(&self) -> bool {
        self.awaiting
    }

    /// Positions of the subtasks run so far, in order.
    pub closed spec fn ran(&self) -> Seq<int> {
        self.ran@
    }

    /// The run's invariant.
    pub closed spec fn wf(&self) -> bool {
        let plan = subtask_views(self.plan@);
        let batch = self.spec_batch();
        &&& self.pos <= self.batch@.len()
        &&& self.round <= self.max_rounds
        &&& forall|k: int| 0 <= k < batch.len() ==> 0 <= #[trigger] batch[k] < plan.len()
        &&& forall|a: int, b: int| 0 <= a < b < batch.len() ==> batch[a] < batch[b]
        &&& self.ran@ == self.prior@ + batch.take(self.pos as int)
        &&& self.prior@.no_duplicates()
        &&& forall|k: int| 0 <= k < self.prior@.len() ==> 0 <= #[trigger] self.prior@[k] < plan.len()
        &&& forall|k: int| 0 <= k < self.prior@.len() ==> !self.round_remaining@.contains(
            plan[#[trigger] self.prior@[k]].id,
        )
        &&& forall|k: int| 0 <= k < batch.len() ==> self.round_remaining@.contains(plan[#[trigger] batch[k]].id)
        &&& forall|k: int| 0 <= k < self.ran@.len() ==> !texts(self.remaining@).contains(
            plan[#[trigger] self.ran@[k]].id,
        )
        &&& forall|y: Seq<char>| texts(self.remaining@).contains(y) ==> self.round_remaining@.contains(y)
        &&& self.results@.len() == self.ran@.len()
        &&& forall|k: int| 0 <= k < self.ran@.len() ==> (#[trigger] triple_texts(self.results@)[k]).0 == plan[self.ran@[k]].id
            && triple_texts(self.results@)[k].1 == plan[self.ran@[k]].agent_name
        &&& self.awaiting ==> self.pos < self.batch@.len()
        &&& forall|k: int| self.pos <= k < batch.len() ==> spec_deps_done(
            plan[#[trigger] batch[k]],
            spec_keys(pair_texts(self.completed@)),
        )
        &&& forall|k: int| 0 <= k < plan.len() ==> texts(self.remaining@).contains(#[trigger] plan[k].id) || spec_keys(
            pair_texts(self.completed@),
        ).contains(plan[k].id)
        &&& forall|y: Seq<char>| #[trigger] texts(self.remaining@).contains(y) ==> spec_is_plan_id(plan, y)
        &&& self.round > 0 ==> self.batch@.len() > 0
        &&& self.ran@.len() + 1 >= self.round + self.pos
    }

    /// The subtasks run so far are distinct.
    pub proof fn lemma_ran_distinct(&self)
        requires
            self.wf(),
        ensures
            self.ran().no_duplicates(),
            self.spec_pos() < self.spec_batch().len() ==> !self.ran().contains(self.spec_batch()[self.spec_pos() as int]),
    {
        let plan = self.spec_plan();
        let batch = self.spec_batch();
        let pre = self.prior@;
        let taken = batch.take(self.pos as int);
        assert forall|a: int, b: int| 0 <= a < b < self.ran@.len() implies self.ran@[a] != self.ran@[b] by {
            if b < pre.len() {
            } else if a >= pre.len() {
                assert(self.ran@[a] == batch[a - pre.len()]);
                assert(self.ran@[b] == batch[b - pre.len()]);
            } else {
                assert(self.ran@[b] == batch[b - pre.len()]);
                assert(self.round_remaining@.contains(plan[batch[b - pre.len()]].id));
                assert(!self.round_remaining@.contains(plan[pre[a]].id));
            }
        }
        if self.pos < self.batch@.len() {
            let x = batch[self.pos as int];
            assert forall|k: int| 0 <= k < self.ran@.len() implies self.ran@[k] != x by {
                if k < pre.len() {
                    assert(self.round_remaining@.contains(plan[x].id));
                    assert(!self.round_remaining@.contains(plan[pre[k]].id));
                } else {
                    assert(self.ran@[k] == batch[k - pre.len()]);
                }
            }
        }
    }

    /// Law: between rounds, an acyclic plan whose dependencies all name its subtasks never
    /// deadlocks (some pending subtask is ready whenever one is pending); with at least as
    /// many rounds as subtasks, the rounds run out only once nothing is pending; and when
    /// nothing is pending, every subtask of the plan has completed.
    pub proof fn lemma_plan_completes(&self)
        requires
            self.wf(),
            self.spec_pos() >= self.spec_batch().len(),
        ensures
            spec_acyclic(self.spec_plan()) && self.spec_remaining().len() > 0 ==> spec_ready(
                self.spec_plan(),
                self.spec_remaining(),
                spec_keys(self.spec_completed()),
                self.spec_plan().len() as int,
            ).len() > 0,
            self.spec_max_rounds() >= self.spec_plan().len() && self.spec_round() >= self.spec_max_rounds()
                ==> self.spec_remaining().len() == 0,
            self.spec_remaining().len() == 0 ==> forall|k: int|
                0 <= k < self.spec_plan().len() ==> spec_keys(self.spec_completed()).contains(
                    #[trigger] self.spec_plan()[k].id,
                ),
    {
        let plan = self.spec_plan();
        let rem = self.spec_remaining();
        let keys = spec_keys(self.spec_completed());
        let n = plan.len() as int;
        if spec_acyclic(plan) && rem.len() > 0 {
            let rank = choose|rank: spec_fn(int) -> nat| spec_ranked(plan, rank);
            let y = rem[0];
            assert(rem.contains(y));
            assert(spec_is_plan_id(plan, y));
            let i = choose|k: int| 0 <= k < plan.len() && #[trigger] plan[k].id == y;
            lemma_some_ready(plan, rem, keys, rank, rank(i), i);
            let m = choose|m: int| 0 <= m < plan.len() && spec_is_ready(#[trigger] plan[m], rem, keys);
            lemma_ready(plan, rem, keys, n);
            assert(spec_ready(plan, rem, keys, n).contains(m));
        }
        if self.spec_max_rounds() >= n && self.spec_round() >= self.spec_max_rounds() {
            self.lemma_ran_distinct();
            let ran = self.ran();
            assert(self.ran@ == self.prior@ + self.spec_batch().take(self.pos as int));
            assert forall|k: int| 0 <= k < ran.len() implies 0 <= #[trigger] ran[k] < n by {
                if k < self.prior@.len() {
                    assert(ran[k] == self.prior@[k]);
                } else {
                    assert(ran[k] == self.spec_batch()[k - self.prior@.len()]);
                }
            }
            lemma_positions_cover(ran, n);
            if rem.len() > 0 {
                let y = rem[0];
                assert(rem.contains(y));
                assert(spec_is_plan_id(plan, y));
                let i = choose|k: int| 0 <= k < plan.len() && #[trigger] plan[k].id == y;
                assert(ran.contains(i));
                let k = choose|k: int| 0 <= k < ran.len() && ran[k] == i;
                assert(!rem.contains(plan[ran[k]].id));
            }
        }
        if rem.len() == 0 {
            assert forall|k: int| 0 <= k < n implies keys.contains(#[trigger] plan[k].id) by {
                assert(rem.contains(plan[k].id) || keys.contains(plan[k].id));
            }
        }
    }

    /// A run of `plan` allowed at most `max_rounds` rounds; every subtask id is pending.
    pub fn new(plan: Vec<Subtask>, max_rounds: usize) -> (r: PlanRun)
        ensures
            r.wf(),
            r.spec_plan() == subtask_views(plan@),
            r.spec_max_rounds() == max_rounds,
            r.spec_round() == 0,
            r.spec_completed().len() == 0,
            r.spec_results().len() == 0,
            r.spec_remaining() == spec_distinct(subtask_views(plan@).map_values(|s: SubtaskView| s.id)),
            r.spec_batch().len() == 0,
            r.spec_pos() == 0,
            !r.spec_awaiting(),
            r.ran().len() == 0,
    {
        let mut ids: Vec<String> = Vec::new();
        let mut i: usize = 0;
        while i < plan.len()
            invariant
                i <= plan@.len(),
                texts(ids@) == subtask_views(plan@).map_values(|s: SubtaskView| s.id).subrange(0, i as int),
            decreases plan.len() - i,
        {
            let ghost before = ids@;
            ids.push(plan[i].id.clone());
            assert(texts(ids@) =~= texts(before).push(plan@[i as int].id@));
            assert(subtask_views(plan@).map_values(|s: SubtaskView| s.id).subrange(0, i + 1) =~= subtask_views(
                plan@,
            ).map_values(|s: SubtaskView| s.id).subrange(0, i as int).push(plan@[i as int].id@));
            i += 1;
        }
        assert(subtask_views(plan@).map_values(|s: SubtaskView| s.id).subrange(0, i as int) =~= subtask_views(
            plan@,
        ).map_values(|s: SubtaskView| s.id));
        let remaining = distinct_names(&ids);
        let r = PlanRun {
            plan,
            max_rounds,
            round: 0,
            completed: Vec::new(),
            results: Vec::new(),
            remaining,
            batch: Vec::new(),
            pos: 0,
            awaiting: false,
            ran: Ghost(Seq::empty()),
            prior: Ghost(Seq::empty()),
            round_remaining: Ghost(texts(remaining@)),
        };
        assert(r.spec_batch() =~= Seq::<int>::empty());
        assert(r.ran@ =~= r.prior@ + r.spec_batch().take(0));
        assert(r.spec_completed() =~= Seq::<(Seq<char>, Seq<char>)>::empty());
        assert(r.spec_results() =~= Seq::<(Seq<char>, Seq<char>, Seq<char>)>::empty());
        proof {
            let pv = r.spec_plan();
            let ids = pv.map_values(|s: SubtaskView| s.id);
            lemma_distinct_contains(ids);
            assert(texts(r.remaining@) == spec_distinct(ids));
            assert forall|k: int| 0 <= k < pv.len() implies texts(r.remaining@).contains(#[trigger] pv[k].id) by {
                assert(ids[k] == pv[k].id);
                assert(ids.contains(pv[k].id));
            }
            assert forall|y: Seq<char>| #[trigger] texts(r.remaining@).contains(y) implies spec_is_plan_id(pv, y) by {
                assert(ids.contains(y));
                let k = choose|k: int| 0 <= k < ids.len() && ids[k] == y;
                assert(pv[k].id == y);
            }
        }
        r
    }

    fn keys(&self) -> (k: Vec<String>)
        ensures
            texts(k@) == spec_keys(self.spec_completed()),
    {
        let mut k: Vec<String> = Vec::new();
        let mut i: usize = 0;
        while i < self.completed.len()
            invariant
                i <= self.completed@.len(),
                texts(k@) == spec_keys(self.spec_completed()).subrange(0, i as int),
            decreases self.completed.len() - i,
        {
            let ghost before = k@;
            k.push(self.completed[i].0.clone());
            assert(texts(k@) =~= texts(before).push(self.completed@[i as int].0@));
            assert(spec_keys(self.spec_completed()).subrange(0, i + 1) =~= spec_keys(self.spec_completed()).subrange(
                0,
                i as int,
            ).push(self.completed@[i as int].0@));
            i += 1;
        }
        assert(spec_keys(self.spec_completed()).subrange(0, i as int) =~= spec_keys(self.spec_completed()));
        k
    }

    fn ready(&self, keys: &Vec<String>) -> (r: Vec<usize>)
        ensures
            r@.map_values(|i: usize| i as int) == spec_ready(
                self.spec_plan(),
                self.spec_remaining(),
                texts(keys@),
                self.spec_plan().len() as int,
            ),
    {
        let ghost plan = self.spec_plan();
        let mut r: Vec<usize> = Vec::new();
        let mut i: usize = 0;
        while i < self.plan.len()
            invariant
                i <= self.plan@.len(),
                plan == self.spec_plan(),
                r@.map_values(|x: usize| x as int) == spec_ready(plan, self.spec_remaining(), texts(keys@), i as int),
            decreases self.plan.len() - i,
        {
            let s = &self.plan[i];
            let ghost sv = plan[i as int];
            assert(sv == s@);
            let mut ok = contains_text(&self.remaining, s.id.as_str());
            let mut j: usize = 0;
            while j < s.depends_on.len() && ok
                invariant
                    j <= s.depends_on@.len(),
                    sv == s@,
                    ok ==> forall|t: int| 0 <= t < j ==> texts(keys@).contains(#[trigger] sv.depends_on[t]),
                    ok ==> texts(self.remaining@).contains(sv.id),
                    !ok ==> !spec_is_ready(sv, texts(self.remaining@), texts(keys@)),
                decreases s.depends_on.len() - j,
            {
                assert(sv.depends_on[j as int] == s.depends_on@[j as int]@);
                if !contains_text(keys, s.depends_on[j].as_str()) {
                    ok = false;
                }
                j += 1;
            }
            let ghost before = r@;
            if ok {
                r.push(i);
                assert(r@.map_values(|x: usize| x as int) =~= before.map_values(|x: usize| x as int).push(i as int));
            }
            i += 1;
        }
        r
    }

    /// The next thing to do. Within a round, the next subtask of the round. Between
    /// rounds: the run is finished when the rounds are used up or nothing is pending;
    /// otherwise the pending subtasks whose dependencies have all completed form the next
    /// round, in plan order, and the first of them is handed out; when there are none,
    /// the plan is deadlocked. A subtask is handed out with its input's placeholders
    /// resolved from the completed outputs.
    pub fn next_step(&mut self) -> (step: PlanStep)
        requires
            old(self).wf(),
            !old(self).spec_awaiting(),
        ensures
            final(self).wf(),
            final(self).spec_plan() == old(self).spec_plan(),
            final(self).spec_max_rounds() == old(self).spec_max_rounds(),
            final(self).spec_completed() == old(self).spec_completed(),
            final(self).spec_results() == old(self).spec_results(),
            final(self).spec_remaining() == old(self).spec_remaining(),
            final(self).ran() == old(self).ran(),
            old(self).spec_pos() < old(self).spec_batch().len() ==> {
                let i = old(self).spec_batch()[old(self).spec_pos() as int];
                &&& step matches PlanStep::Run { index, agent_name, input } && index == i
                    && agent_name@ == old(self).spec_plan()[i].agent_name
                    && input@ == spec_resolve(old(self).spec_plan()[i].input, old(self).spec_completed())
                &&& final(self).spec_batch() == old(self).spec_batch()
                &&& final(self).spec_pos() == old(self).spec_pos()
                &&& final(self).spec_round() == old(self).spec_round()
                &&& final(self).spec_awaiting()
            },
            old(self).spec_pos() >= old(self).spec_batch().len() && (old(self).spec_round() >= old(self).spec_max_rounds()
                || old(self).spec_remaining().len() == 0) ==> step is Finished && !final(self).spec_awaiting()
                && final(self).spec_round() == old(self).spec_round(),
            old(self).spec_pos() >= old(self).spec_batch().len() && old(self).spec_round() < old(self).spec_max_rounds()
                && old(self).spec_remaining().len() > 0 ==> {
                let ready = spec_ready(
                    old(self).spec_plan(),
                    old(self).spec_remaining(),
                    spec_keys(old(self).spec_completed()),
                    old(self).spec_plan().len() as int,
                );
                &&& ready.len() == 0 ==> (step matches PlanStep::Deadlock { completed, remaining }
                    && texts(completed@) == spec_keys(old(self).spec_completed())
                    && texts(remaining@) == old(self).spec_remaining()) && !final(self).spec_awaiting()
                    && final(self).spec_round() == old(self).spec_round()
                &&& ready.len() > 0 ==> (step matches PlanStep::Run { index, agent_name, input } && index == ready[0]
                    && agent_name@ == old(self).spec_plan()[ready[0]].agent_name
                    && input@ == spec_resolve(old(self).spec_plan()[ready[0]].input, old(self).spec_completed()))
                    && final(self).spec_batch() == ready && final(self).spec_pos() == 0
                    && final(self).spec_round() == old(self).spec_round() + 1 && final(self).spec_awaiting()
            },
            step matches PlanStep::Run { index, .. } ==> {
                &&& 0 <= index < old(self).spec_plan().len()
                &&& spec_deps_done(old(self).spec_plan()[index as int], spec_keys(old(self).spec_completed()))
                &&& !old(self).ran().contains(index as int)
            },
    {
        proof {
            self.lemma_ran_distinct();
        }
        let ghost plan = self.spec_plan();
        if self.pos < self.batch.len() {
            let i = self.batch[self.pos];
            assert(self.spec_batch()[self.pos as int] == i as int);
            self.awaiting = true;
            let input = resolve_placeholders(self.plan[i].input.as_str(), &self.completed);
            proof {
                assert(self.ran@ == self.prior@ + self.spec_batch().take(self.pos as int));
            }
            return PlanStep::Run { index: i, agent_name: self.plan[i].agent_name.clone(), input };
        }
        if self.round >= self.max_rounds || self.remaining.len() == 0 {
            return PlanStep::Finished;
        }
        let keys = self.keys();
        let ready = self.ready(&keys);
        proof {
            lemma_ready(plan, self.spec_remaining(), texts(keys@), plan.len() as int);
        }
        if ready.len() == 0 {
            let remaining = crate::message::copy_strings(&self.remaining);
            return PlanStep::Deadlock { completed: keys, remaining };
        }
        let ghost old_ran = self.ran@;
        proof {
            assert(self.spec_batch().take(self.pos as int) =~= self.spec_batch());
        }
        self.prior = Ghost(self.ran@);
        self.round_remaining = Ghost(self.spec_remaining());
        self.batch = ready;
        self.pos = 0;
        self.round = self.round + 1;
        self.awaiting = true;
        let i = self.batch[0];
        assert(self.spec_batch()[0] == i as int);
        let input = resolve_placeholders(self.plan[i].input.as_str(), &self.completed);
        proof {
            assert(self.spec_batch().take(0) =~= Seq::<int>::empty());
            assert(self.ran@ =~= self.prior@ + self.spec_batch().take(0));
            assert(texts(self.remaining@).contains(plan[i as int].id));
            assert forall|k: int| 0 <= k < old_ran.len() implies old_ran[k] != i as int by {
                assert(!texts(self.remaining@).contains(plan[old_ran[k]].id));
            }
        }
        PlanStep::Run { index: i, agent_name: self.plan[i].agent_name.clone(), input }
    }

    fn put_completed(&mut self, key: String, value: String)
        ensures
            final(self).spec_completed() == spec_put(old(self).spec_completed(), key@, value@),
            final(self).plan == old(self).plan,
            final(self).max_rounds == old(self).max_rounds,
            final(self).round == old(self).round,
            final(self).results == old(self).results,
            final(self).remaining == old(self).remaining,
            final(self).batch == old(self).batch,
            final(self).pos == old(self).pos,
            final(self).awaiting == old(self).awaiting,
            final(self).ran == old(self).ran,
            final(self).prior == old(self).prior,
            final(self).round_remaining == old(self).round_remaining,
    {
        let ghost m = self.spec_completed();
        proof {
            lemma_key_index(m, key@);
        }
        let mut i: usize = 0;
        let mut found = false;
        while i < self.completed.len()
            invariant
                i <= self.completed@.len(),
                m == pair_texts(self.completed@),
                self.completed@ == old(self).completed@,
                found ==> i < self.completed@.len() && m[i as int].0 == key@,
                forall|j: int| 0 <= j < i ==> m[j].0 != key@,
            ensures
                found ==> i < self.completed@.len() && m[i as int].0 == key@,
                !found ==> i == self.completed@.len(),
                forall|j: int| 0 <= j < i ==> m[j].0 != key@,
            decreases self.completed.len() - i,
        {
            if crate::text::str_eq(self.completed[i].0.as_str(), key.as_str()) {
                found = true;
                break;
            }
            i += 1;
        }
        let ghost kv = key@;
        let ghost vv = value@;
        if found {
            assert(spec_key_index(m, kv) == Some(i as int));
            self.completed.set(i, (key, value));
            assert(pair_texts(self.completed@) =~= m.update(i as int, (kv, vv)));
        } else {
            assert(spec_key_index(m, kv) is None);
            self.completed.push((key, value));
            assert(pair_texts(self.completed@) =~= m.push((kv, vv)));
        }
    }

    fn remove_pending(&mut self, id: &str)
        ensures
            final(self).spec_remaining() == spec_remove(old(self).spec_remaining(), id@),
            final(self).plan == old(self).plan,
            final(self).max_rounds == old(self).max_rounds,
            final(self).round == old(self).round,
            final(self).results == old(self).results,
            final(self).completed == old(self).completed,
            final(self).batch == old(self).batch,
            final(self).pos == old(self).pos,
            final(self).awaiting == old(self).awaiting,
            final(self).ran == old(self).ran,
            final(self).prior == old(self).prior,
            final(self).round_remaining == old(self).round_remaining,
    {
        let ghost r = self.spec_remaining();
        let mut kept: Vec<String> = Vec::new();
        let mut i: usize = 0;
        while i < self.remaining.len()
            invariant
                i <= self.remaining@.len(),
                r == texts(self.remaining@),
                texts(kept@) == spec_remove(r.subrange(0, i as int), id@),
            decreases self.remaining.len() - i,
        {
            let ghost sub = r.subrange(0, i + 1);
            assert(sub.drop_last() =~= r.subrange(0, i as int));
            assert(sub.last() == self.remaining@[i as int]@);
            if !crate::text::str_eq(self.remaining[i].as_str(), id) {
                let ghost before = kept@;
                kept.push(self.remaining[i].clone());
                assert(texts(kept@) =~= texts(before).push(self.remaining@[i as int]@));
            }
            i += 1;
        }
        assert(r.subrange(0, i as int) =~= r);
        self.remaining = kept;
    }

    /// Records the output of the subtask handed out last: it completes with that output,
    /// is appended to the results and is no longer pending.
    pub fn on_output(&mut self, output: String)
        requires
            old(self).wf(),
            old(self).spec_awaiting(),
        ensures
            final(self).wf(),
            ({
                let i = old(self).spec_batch()[old(self).spec_pos() as int];
                let s = old(self).spec_plan()[i];
                &&& final(self).spec_completed() == spec_put(old(self).spec_completed(), s.id, output@)
                &&& final(self).spec_results() == old(self).spec_results().push((s.id, s.agent_name, output@))
                &&& final(self).spec_remaining() == spec_remove(old(self).spec_remaining(), s.id)
                &&& final(self).ran() == old(self).ran().push(i)
            }),
            final(self).spec_plan() == old(self).spec_plan(),
            final(self).spec_max_rounds() == old(self).spec_max_rounds(),
            final(self).spec_round() == old(self).spec_round(),
            final(self).spec_batch() == old(self).spec_batch(),
            final(self).spec_pos() == old(self).spec_pos() + 1,
            !final(self).spec_awaiting(),
    {
        let ghost plan = self.spec_plan();
        let ghost old_keys = spec_keys(self.spec_completed());
        let ghost old_rem = self.spec_remaining();
        let p = self.pos;
        assert(p < self.batch.len());
        let i = self.batch[p];
        assert(self.spec_batch()[self.pos as int] == i as int);
        let id = self.plan[i].id.clone();
        let agent = self.plan[i].agent_name.clone();
        let ghost sid = id@;
        assert(sid == plan[i as int].id);
        self.put_completed(id.clone(), output.clone());
        let ghost before = self.results@;
        self.results.push((id.clone(), agent, output));
        assert(triple_texts(self.results@) =~= triple_texts(before).push((sid, plan[i as int].agent_name, output@)));
        self.remove_pending(id.as_str());
        self.ran = Ghost(self.ran@.push(i as int));
        self.pos = p + 1;
        self.awaiting = false;
        proof {
            lemma_remove(old_rem, sid);
            let m = old(self).spec_completed();
            lemma_key_index(m, sid);
            let new_keys = spec_keys(self.spec_completed());
            assert forall|y: Seq<char>| old_keys.contains(y) implies new_keys.contains(y) by {
                let j = choose|j: int| 0 <= j < old_keys.len() && old_keys[j] == y;
                match spec_key_index(m, sid) {
                    Some(x) => {
                        if j == x {
                            assert(new_keys[j] == sid);
                        } else {
                            assert(new_keys[j] == y);
                        }
                    },
                    None => {
                        assert(new_keys[j] == y);
                    },
                }
            }
            assert(self.spec_batch().take(self.pos as int) =~= old(self).spec_batch().take(old(self).pos as int).push(
                i as int,
            ));
            assert(self.ran@ =~= self.prior@ + self.spec_batch().take(self.pos as int));
            assert(self.results@.len() == self.ran@.len());
            assert(forall|y: Seq<char>| texts(self.remaining@).contains(y) ==> self.round_remaining@.contains(y));
            assert forall|k: int| 0 <= k < self.ran@.len() implies !texts(self.remaining@).contains(
                plan[#[trigger] self.ran@[k]].id,
            ) by {
                let y = plan[self.ran@[k]].id;
                assert(texts(self.remaining@) == spec_remove(old_rem, sid));
                assert(spec_remove(old_rem, sid).contains(y) <==> (old_rem.contains(y) && y != sid));
                if k < self.ran@.len() - 1 {
                    assert(self.ran@[k] == old(self).ran@[k]);
                    assert(!old_rem.contains(plan[old(self).ran@[k]].id));
                } else {
                    assert(self.ran@[k] == i as int);
                }
            }
            assert(forall|k: int| 0 <= k < self.ran@.len() ==> (#[trigger] triple_texts(self.results@)[k]).0 == plan[self.ran@[k]].id
                && triple_texts(self.results@)[k].1 == plan[self.ran@[k]].agent_name);
            assert(new_keys.contains(sid)) by {
                match spec_key_index(m, sid) {
                    Some(x) => {
                        assert(new_keys[x] == sid);
                    },
                    None => {
                        assert(new_keys[new_keys.len() - 1] == sid);
                    },
                }
            }
            assert forall|k: int| 0 <= k < plan.len() implies texts(self.remaining@).contains(#[trigger] plan[k].id)
                || new_keys.contains(plan[k].id) by {
                let y = plan[k].id;
                assert(old_rem.contains(y) || old_keys.contains(y));
                assert(texts(self.remaining@) == spec_remove(old_rem, sid));
            }
            assert forall|y: Seq<char>| #[trigger] texts(self.remaining@).contains(y) implies spec_is_plan_id(plan, y) by {
                assert(texts(self.remaining@) == spec_remove(old_rem, sid));
                assert(old_rem.contains(y));
            }
            assert forall|k: int| self.pos <= k < self.spec_batch().len() implies spec_deps_done(
                plan[#[trigger] self.spec_batch()[k]],
                spec_keys(pair_texts(self.completed@)),
            ) by {
                let s = plan[self.spec_batch()[k]];
                assert(spec_deps_done(s, old_keys));
                assert forall|t: int| 0 <= t < s.depends_on.len() implies new_keys.contains(
                    #[trigger] s.depends_on[t],
                ) by {
                    assert(old_keys.contains(s.depends_on[t]));
                }
            }
        }
    }

    /// The results: `(subtask id, agent name, output)` of each subtask run, in order.
    pub fn into_results(self) -> (r: Vec<(String, String, String)>)
        ensures
            triple_texts(r@) == self.spec_results(),
    {
        self.results
    }
}

/// The output recorded for a subtask whose sub-agent is not registered.
pub fn missing_agent_text(name: &str) -> (r: String)
    ensures
        r@ == "agent '"@ + name@ + "' not found"@,
{
    concat3("agent '", name, "' not found")
}

/// The line that presents a sub-agent to the planner: `- name [cap, cap]: description`,
/// the bracket only when its capabilities are known.
pub open spec fn spec_agent_line(name: Seq<char>, caps: Option<Seq<Seq<char>>>, description: Seq<char>) -> Seq<char> {
    "- "@ + name + match caps {
        Some(c) => " ["@ + spec_join(c, ", "@) + "]"@,
        None => Seq::empty(),
    } + ": "@ + description
}

/// The line that presents a sub-agent to the planner.
pub fn agent_line(name: &str, caps: &Option<Vec<String>>, description: &str) -> (r: String)
    ensures
        r@ == spec_agent_line(
            name@,
            match caps {
                Some(c) => Some(texts(c@)),
                None => None,
            },
            description@,
        ),
{
    let tail = match caps {
        Some(c) => {
            let joined = join(c, ", ");
            concat3(" [", joined.as_str(), "]")
        },
        None => String::new(),
    };
    let head = concat3("- ", name, tail.as_str());
    concat3(head.as_str(), ": ", description)
}

/// The text of the planning prompt after the task.
pub open spec fn spec_plan_prompt_tail() -> Seq<char> {
    "\n\n## Output format\nReturn ONLY a JSON array of subtasks. Each subtask has:\n- `id`: unique identifier (e.g. \"t1\", \"t2\")\n- `agent_name`: which agent to use (must match an available agent)\n- `input`: specific instructions for this sub-agent\n- `depends_on`: array of subtask IDs that must complete first (empty if independent)\n\nExample:\n[\n{\"id\": \"t1\", \"agent_name\": \"search\", \"input\": \"Find info about X\", \"depends_on\": []},\n{\"id\": \"t2\", \"agent_name\": \"writer\", \"input\": \"Write summary\", \"depends_on\": [\"t1\"]}\n]\n\nUse `{{tN.result}}` in input to reference a previous subtask's output.\nKeep the plan simple and focused. 2-5 subtasks is usually enough."@
}

/// The planning prompt: the available sub-agents, one line each, the task, and the
/// format the plan must have.
pub open spec fn spec_plan_prompt(agent_lines: Seq<Seq<char>>, task: Seq<char>) -> Seq<char> {
    "You are a task planner. Given a complex task and available sub-agents, decompose the task into a sequence of subtasks.\n\n## Available agents\n"@
        + spec_join(agent_lines, "\n"@) + "\n\n## Task\n"@ + task + spec_plan_prompt_tail()
}

/// The prompt that asks for a plan, given the agent lines and the task.
pub fn plan_prompt(agent_lines: &Vec<String>, task: &str) -> (r: String)
    ensures
        r@ == spec_plan_prompt(texts(agent_lines@), task@),
{
    let agents = join(agent_lines, "\n");
    let head = concat3(
        "You are a task planner. Given a complex task and available sub-agents, decompose the task into a sequence of subtasks.\n\n## Available agents\n",
        agents.as_str(),
        "\n\n## Task\n",
    );
    concat3(head.as_str(), task, "\n\n## Output format\nReturn ONLY a JSON array of subtasks. Each subtask has:\n- `id`: unique identifier (e.g. \"t1\", \"t2\")\n- `agent_name`: which agent to use (must match an available agent)\n- `input`: specific instructions for this sub-agent\n- `depends_on`: array of subtask IDs that must complete first (empty if independent)\n\nExample:\n[\n{\"id\": \"t1\", \"agent_name\": \"search\", \"input\": \"Find info about X\", \"depends_on\": []},\n{\"id\": \"t2\", \"agent_name\": \"writer\", \"input\": \"Write summary\", \"depends_on\": [\"t1\"]}\n]\n\nUse `{{tN.result}}` in input to reference a previous subtask's output.\nKeep the plan simple and focused. 2-5 subtasks is usually enough.")
}

/// The input of the first subtask with id `id`, empty when there is none.
pub open spec fn spec_subtask_input(plan: Seq<SubtaskView>, id: Seq<char>) -> Seq<char>
    decreases plan.len(),
{
    if plan.len() == 0 {
        Seq::empty()
    } else if plan[0].id == id {
        plan[0].input
    } else {
        spec_subtask_input(plan.drop_first(), id)
    }
}

fn subtask_input(plan: &Vec<Subtask>, id: &str) -> (r: String)
    ensures
        r@ == spec_subtask_input(subtask_views(plan@), id@),
{
    let ghost pv = subtask_views(plan@);
    let mut i: usize = 0;
    assert(pv.skip(0) =~= pv);
    while i < plan.len()
        invariant
            i <= plan@.len(),
            pv == subtask_views(plan@),
            spec_subtask_input(pv, id@) == spec_subtask_input(pv.skip(i as int), id@),
        decreases plan.len() - i,
    {
        assert(pv.skip(i as int)[0] == plan@[i as int]@);
        if crate::text::str_eq(plan[i].id.as_str(), id) {
            return plan[i].input.clone();
        }
        assert(pv.skip(i as int).drop_first() =~= pv.skip(i + 1));
        i += 1;
    }
    String::new()
}

/// The summary of one subtask result for the synthesis.
pub open spec fn spec_plan_summary(plan: Seq<SubtaskView>, r: (Seq<char>, Seq<char>, Seq<char>)) -> Seq<char> {
    "["@ + r.0 + " - "@ + r.1 + "] Task: "@ + spec_subtask_input(plan, r.0) + "\nOutput: "@ + r.2
}

/// The summaries of the subtask results, in order: `[id - agent] Task: input` and the output.
pub fn plan_summaries(plan: &Vec<Subtask>, results: &Vec<(String, String, String)>) -> (r: Vec<String>)
    ensures
        texts(r@) == triple_texts(results@).map_values(
            |t: (Seq<char>, Seq<char>, Seq<char>)| spec_plan_summary(subtask_views(plan@), t),
        ),
{
    let ghost target = triple_texts(results@).map_values(
        |t: (Seq<char>, Seq<char>, Seq<char>)| spec_plan_summary(subtask_views(plan@), t),
    );
    let mut r: Vec<String> = Vec::new();
    let mut i: usize = 0;
    while i < results.len()
        invariant
            i <= results@.len(),
            target == triple_texts(results@).map_values(
                |t: (Seq<char>, Seq<char>, Seq<char>)| spec_plan_summary(subtask_views(plan@), t),
            ),
            texts(r@) == target.subrange(0, i as int),
        decreases results.len() - i,
    {
        let (id, agent, output) = (&results[i].0, &results[i].1, &results[i].2);
        let desc = subtask_input(plan, id.as_str());
        let a = concat3("[", id.as_str(), " - ");
        let b = concat3(a.as_str(), agent.as_str(), "] Task: ");
        let c = concat3(b.as_str(), desc.as_str(), "\nOutput: ");
        let line = concat2(c.as_str(), output.as_str());
        let ghost before = r@;
        r.push(line);
        assert(texts(r@) =~= texts(before).push(line@));
        assert(target.subrange(0, i + 1) =~= target.subrange(0, i as int).push(target[i as int]));
        i += 1;
    }
    assert(target.subrange(0, i as int) =~= target);
    r
}

/// The synthesis prompt for a task and the subtask summaries.
pub open spec fn spec_plan_synthesis_prompt(task: Seq<char>, summaries: Seq<Seq<char>>) -> Seq<char> {
    "Task: "@ + task + "\n\nPlan execution results:\n"@ + spec_join(summaries, "\n\n"@)
        + "\n\nSynthesize these results into a coherent final response. Focus on completeness and accuracy."@
}

/// The messages that ask the model for the synthesis: its instructions, then the prompt.
pub fn plan_synthesis_messages(task: &str, summaries: &Vec<String>) -> (r: Vec<Message>)
    ensures
        r@.len() == 2,
        r@[0]@ == crate::message::MessageView::plain(
            crate::message::Role::System,
            "You are a synthesis agent. Combine subtask results into a coherent response."@,
        ),
        r@[1]@ == crate::message::MessageView::plain(
            crate::message::Role::User,
            spec_plan_synthesis_prompt(task@, texts(summaries@)),
        ),
{
    let joined = join(summaries, "\n\n");
    let head = concat3("Task: ", task, "\n\nPlan execution results:\n");
    let prompt = concat3(
        head.as_str(),
        joined.as_str(),
        "\n\nSynthesize these results into a coherent final response. Focus on completeness and accuracy.",
    );
    let mut r: Vec<Message> = Vec::new();
    r.push(Message::system("You are a synthesis agent. Combine subtask results into a coherent response."));
    r.push(Message::user(prompt.as_str()));
    r
}

/// The synthesis: the model's final message, or the summaries joined by blank lines when
/// the model failed or answered with tool calls.
pub fn choose_synthesis(reply: Result<AgentResponseKind, String>, summaries: &Vec<String>) -> (r: String)
    ensures
        reply matches Ok(AgentResponseKind::MessageComplete(m)) ==> r@ == m.content@,
        !(reply matches Ok(AgentResponseKind::MessageComplete(_))) ==> r@ == spec_join(texts(summaries@), "\n\n"@),
{
    match reply {
        Ok(AgentResponseKind::MessageComplete(m)) => m.content,
        _ => joined_summaries(summaries),
    }
}

/// The synthesis without a model: the summaries joined by blank lines.
pub fn joined_summaries(summaries: &Vec<String>) -> (r: String)
    ensures
        r@ == spec_join(texts(summaries@), "\n\n"@),
{
    join(summaries, "\n\n")
}

/// The labels of the subtasks run, `id (agent)`, reported with a plan's outcome.
pub fn subtask_labels(results: &Vec<(String, String, String)>) -> (r: Vec<String>)
    ensures
        texts(r@) == triple_texts(results@).map_values(
            |t: (Seq<char>, Seq<char>, Seq<char>)| t.0 + " ("@ + t.1 + ")"@,
        ),
{
    let ghost target = triple_texts(results@).map_values(
        |t: (Seq<char>, Seq<char>, Seq<char>)| t.0 + " ("@ + t.1 + ")"@,
    );
    let mut r: Vec<String> = Vec::new();
    let mut i: usize = 0;
    while i < results.len()
        invariant
            i <= results@.len(),
            target == triple_texts(results@).map_values(
                |t: (Seq<char>, Seq<char>, Seq<char>)| t.0 + " ("@ + t.1 + ")"@,
            ),
            texts(r@) == target.subrange(0, i as int),
        decreases results.len() - i,
    {
        let a = concat3(results[i].0.as_str(), " (", results[i].1.as_str());
        let line = concat2(a.as_str(), ")");
        let ghost before = r@;
        r.push(line);
        assert(texts(r@) =~= texts(before).push(line@));
        assert(target.subrange(0, i + 1) =~= target.subrange(0, i as int).push(target[i as int]));
        i += 1;
    }
    assert(target.subrange(0, i as int) =~= target);
    r
}

/// The first enabled provider of the configuration's chat group.
pub fn first_enabled_chat(config: &AppConfig) -> (r: Option<ModelProvider>)
    ensures
        match r {
            Some(p) => crate::config::spec_enabled(config.chat.providers@).len() > 0
                && p == crate::config::spec_enabled(config.chat.providers@)[0],
            None => crate::config::spec_enabled(config.chat.providers@).len() == 0,
        },
{
    let group = config.group(ModelKind::Chat);
    let enabled = group.enabled();
    if enabled.len() == 0 {
        None
    } else {
        Some(enabled[0].duplicate())
    }
}

/// Decomposes tasks into plans run by sub-agents. `A` is its model adapter.
pub struct PlanAgent<A> {
    adapter: A,
    provider: Option<ModelProvider>,
    max_plan_rounds: usize,
    app_config: Option<AppConfig>,
}

impl<A> PlanAgent<A> {
    pub closed spec fn spec_adapter(&self) -> A {
        self.adapter
    }

    pub closed spec fn spec_provider(&self) -> Option<ModelProvider> {
        self.provider
    }

    pub closed spec fn spec_max_plan_rounds(&self) -> usize {
        self.max_plan_rounds
    }

    pub closed spec fn spec_app_config(&self) -> Option<AppConfig> {
        self.app_config
    }

    /// An agent with no provider, no configuration and at most 10 plan rounds.
    pub fn new(adapter: A) -> (r: Self)
        ensures
            r.spec_adapter() == adapter,
            r.spec_provider() is None,
            r.spec_max_plan_rounds() == 10,
            r.spec_app_config() is None,
    {
        PlanAgent { adapter, provider: None, max_plan_rounds: 10, app_config: None }
    }

    /// The same agent using `provider`.
    pub fn provider(self, provider: ModelProvider) -> (r: Self)
        ensures
            r.spec_provider() == Some(provider),
            r.spec_adapter() == self.spec_adapter(),
            r.spec_max_plan_rounds() == self.spec_max_plan_rounds(),
            r.spec_app_config() == self.spec_app_config(),
    {
        PlanAgent { provider: Some(provider), ..self }
    }

    /// The same agent using the first of `providers`, none when the list is empty.
    pub fn providers(self, providers: Vec<ModelProvider>) -> (r: Self)
        ensures
            providers@.len() > 0 ==> r.spec_provider() == Some(providers@[0]),
            providers@.len() == 0 ==> r.spec_provider() is None,
            r.spec_adapter() == self.spec_adapter(),
            r.spec_max_plan_rounds() == self.spec_max_plan_rounds(),
            r.spec_app_config() == self.spec_app_config(),
    {
        let first = if providers.len() > 0 {
            Some(providers[0].duplicate())
        } else {
            None
        };
        PlanAgent { provider: first, ..self }
    }

    /// The same agent allowed `rounds` plan rounds.
    pub fn max_plan_rounds(self, rounds: usize) -> (r: Self)
        ensures
            r.spec_max_plan_rounds() == rounds,
            r.spec_adapter() == self.spec_adapter(),
            r.spec_provider() == self.spec_provider(),
            r.spec_app_config() == self.spec_app_config(),
    {
        PlanAgent { max_plan_rounds: rounds, ..self }
    }

    /// The same agent with this configuration.
    pub fn app_config(self, config: AppConfig) -> (r: Self)
        ensures
            r.spec_app_config() == Some(config),
            r.spec_adapter() == self.spec_adapter(),
            r.spec_provider() == self.spec_provider(),
            r.spec_max_plan_rounds() == self.spec_max_plan_rounds(),
    {
        PlanAgent { app_config: Some(config), ..self }
    }

    /// The model adapter.
    pub fn adapter(&self) -> (a: &A)
        ensures
            *a == self.spec_adapter(),
    {
        &self.adapter
    }

    /// The configured provider, if any.
    pub fn configured_provider(&self) -> (p: Option<&ModelProvider>)
        ensures
            match p {
                Some(x) => self.spec_provider() == Some(*x),
                None => self.spec_provider() is None,
            },
    {
        match &self.provider {
            Some(p) => Some(p),
            None => None,
        }
    }

    /// The most plan rounds.
    pub fn plan_rounds(&self) -> (n: usize)
        ensures
            n == self.spec_max_plan_rounds(),
    {
        self.max_plan_rounds
    }

    /// The configuration given to the agent, if any.
    pub fn configuration(&self) -> (c: Option<&AppConfig>)
        ensures
            match c {
                Some(x) => self.spec_app_config() == Some(*x),
                None => self.spec_app_config() is None,
            },
    {
        match &self.app_config {
            Some(c) => Some(c),
            None => None,
        }
    }

    /// A new run of `plan` under this agent's round limit.
    pub fn start(&self, plan: Vec<Subtask>) -> (r: PlanRun)
        ensures
            r.wf(),
            r.spec_plan() == subtask_views(plan@),
            r.spec_max_rounds() == self.spec_max_plan_rounds(),
            r.spec_round() == 0,
            r.ran().len() == 0,
            !r.spec_awaiting(),
            r.spec_batch().len() == 0,
            r.spec_completed().len() == 0,
            r.spec_results().len() == 0,
            r.spec_remaining() == spec_distinct(subtask_views(plan@).map_values(|s: SubtaskView| s.id)),
    {
        PlanRun::new(plan, self.max_plan_rounds)
    }
}

/// Builds a [`PlanAgent`].
pub struct PlanAgentBuilder<A> {
    adapter: Option<A>,
    providers: Vec<ModelProvider>,
    max_plan_rounds: usize,
    app_config: Option<AppConfig>,
}

impl<A> PlanAgentBuilder<A> {
    pub closed spec fn spec_adapter(&self) -> Option<A> {
        self.adapter
    }

    pub closed spec fn spec_providers(&self) -> Seq<ModelProvider> {
        self.providers@
    }

    pub closed spec fn spec_max_plan_rounds(&self) -> usize {
        self.max_plan_rounds
    }

    pub closed spec fn spec_app_config(&self) -> Option<AppConfig> {
        self.app_config
    }

    /// No adapter or provider yet, 10 plan rounds.
    pub fn new() -> (b: Self)
        ensures
            b.spec_adapter() is None,
            b.spec_providers().len() == 0,
            b.spec_max_plan_rounds() == 10,
            b.spec_app_config() is None,
    {
        PlanAgentBuilder { adapter: None, providers: Vec::new(), max_plan_rounds: 10, app_config: None }
    }

    pub fn adapter(self, adapter: A) -> (b: Self)
        ensures
            b.spec_adapter() == Some(adapter),
            b.spec_providers() == self.spec_providers(),
            b.spec_max_plan_rounds() == self.spec_max_plan_rounds(),
            b.spec_app_config() == self.spec_app_config(),
    {
        PlanAgentBuilder { adapter: Some(adapter), ..self }
    }

    /// Uses `provider` alone.
    pub fn provider(self, provider: ModelProvider) -> (b: Self)
        ensures
            b.spec_providers() == seq![provider],
            b.spec_adapter() == self.spec_adapter(),
            b.spec_max_plan_rounds() == self.spec_max_plan_rounds(),
            b.spec_app_config() == self.spec_app_config(),
    {
        let mut v: Vec<ModelProvider> = Vec::new();
        v.push(provider);
        assert(v@ =~= seq![provider]);
        PlanAgentBuilder { providers: v, ..self }
    }

    pub fn providers(self, providers: Vec<ModelProvider>) -> (b: Self)
        ensures
            b.spec_providers() == providers@,
            b.spec_adapter() == self.spec_adapter(),
            b.spec_max_plan_rounds() == self.spec_max_plan_rounds(),
            b.spec_app_config() == self.spec_app_config(),
    {
        PlanAgentBuilder { providers, ..self }
    }

    pub fn max_plan_rounds(self, rounds: usize) -> (b: Self)
        ensures
            b.spec_max_plan_rounds() == rounds,
            b.spec_adapter() == self.spec_adapter(),
            b.spec_providers() == self.spec_providers(),
            b.spec_app_config() == self.spec_app_config(),
    {
        PlanAgentBuilder { max_plan_rounds: rounds, ..self }
    }

    pub fn app_config(self, config: AppConfig) -> (b: Self)
        ensures
            b.spec_app_config() == Some(config),
            b.spec_adapter() == self.spec_adapter(),
            b.spec_providers() == self.spec_providers(),
            b.spec_max_plan_rounds() == self.spec_max_plan_rounds(),
    {
        PlanAgentBuilder { app_config: Some(config), ..self }
    }

    /// The agent; an adapter is required.
    pub fn build(self) -> (a: PlanAgent<A>)
        requires
            self.spec_adapter() is Some,
        ensures
            a.spec_adapter() == self.spec_adapter()->0,
            self.spec_providers().len() > 0 ==> a.spec_provider() == Some(self.spec_providers()[0]),
            self.spec_providers().len() == 0 ==> a.spec_provider() is None,
            a.spec_max_plan_rounds() == self.spec_max_plan_rounds(),
            a.spec_app_config() == self.spec_app_config(),
    {
        let adapter = self.adapter.unwrap();
        let mut agent = PlanAgent::new(adapter).providers(self.providers).max_plan_rounds(self.max_plan_rounds);
        agent.app_config = self.app_config;
        agent
    }
}

impl<A> Default for PlanAgentBuilder<A> {
    fn default() -> (b: Self)
        ensures
            b.spec_adapter() is None,
            b.spec_providers().len() == 0,
            b.spec_max_plan_rounds() == 10,
            b.spec_app_config() is None,
    {
        PlanAgentBuilder::new()
    }
}

} // verus!
