//! Which tool calls need the user's approval, and the approvals remembered for a session.
//! Asking the user stays with the caller: the policy says whether to ask, and the caller
//! reports the answer back.

use vstd::prelude::*;
use crate::hook::HookResult;
use crate::text::{concat3, texts};

verus! {

/// How often approval is required for a tool.
#[derive(Debug, Clone, Copy, PartialEq, Eq, Structural)]
pub enum ApprovalScope {
    /// Ask every time the tool is called.
    PerCall,
    /// Ask once; an approval then holds for the policy's lifetime.
    Session,
}

/// A tool that needs approval, and how often.
#[derive(Debug)]
pub struct ApprovalRule {
    pub tool_name: String,
    pub scope: ApprovalScope,
}

/// The rule that governs the tool `name`: the first rule for it.
pub open spec fn spec_rule_for(rules: Seq<(Seq<char>, ApprovalScope)>, name: Seq<char>) -> Option<ApprovalScope>
    decreases rules.len(),
{
    if rules.len() == 0 {
        None
    } else if rules[0].0 == name {
        Some(rules[0].1)
    } else {
        spec_rule_for(rules.drop_first(), name)
    }
}

/// What to do with a tool call.
#[derive(Debug, Clone, Copy, PartialEq, Eq, Structural)]
pub enum Decision {
    /// Run it without asking.
    Approve,
    /// Ask the user; remember a yes for the rest of the session.
    AskOnce,
    /// Ask the user this time.
    AskEachTime,
}

/// The decision for tool `name` given the rules and the tools approved in this session:
/// tools without a rule are approved, a session rule approves what was approved before,
/// and otherwise the user is asked.
pub open spec fn spec_decide(rules: Seq<(Seq<char>, ApprovalScope)>, approved: Seq<Seq<char>>, name: Seq<char>) -> Decision {
    match spec_rule_for(rules, name) {
        None => Decision::Approve,
        Some(ApprovalScope::Session) => if approved.contains(name) {
            Decision::Approve
        } else {
            Decision::AskOnce
        },
        Some(ApprovalScope::PerCall) => Decision::AskEachTime,
    }
}

/// Tools approved for the rest of a session.
#[derive(Debug)]
pub struct SessionApprovals {
    names: Vec<String>,
}

impl SessionApprovals {
    /// The approved tool names.
    pub closed spec fn approved(&self) -> Seq<Seq<char>> {
        texts(self.names@)
    }

    /// Nothing approved yet.
    pub fn new() -> (s: SessionApprovals)
        ensures
            s.approved().len() == 0,
    {
        let s = SessionApprovals { names: Vec::new() };
        assert(s.approved() =~= Seq::<Seq<char>>::empty());
        s
    }

    /// Is `name` approved?
    pub fn contains(&self, name: &str) -> (b: bool)
        ensures
            b == self.approved().contains(name@),
    {
        crate::team::contains_text(&self.names, name)
    }

    /// Remembers that `name` is approved.
    pub fn insert(&mut self, name: &str)
        ensures
            final(self).approved().contains(name@),
            forall|x: Seq<char>| old(self).approved().contains(x) ==> final(self).approved().contains(x),
            forall|x: Seq<char>| final(self).approved().contains(x) ==> x == name@ || old(self).approved().contains(x),
    {
        if !self.contains(name) {
            let ghost before = self.approved();
            self.names.push(name.to_owned());
            assert(self.approved() =~= before.push(name@));
            assert(self.approved()[before.len() as int] == name@);
            assert forall|x: Seq<char>| final(self).approved().contains(x) implies x == name@ || before.contains(x) by {
                let j = choose|j: int| 0 <= j < self.approved().len() && self.approved()[j] == x;
                if j < before.len() {
                    assert(before[j] == x);
                }
            }
            assert forall|x: Seq<char>| before.contains(x) implies self.approved().contains(x) by {
                let j = choose|j: int| 0 <= j < before.len() && before[j] == x;
                assert(self.approved()[j] == x);
            }
        }
    }
}

/// The rules of a policy, as name and scope pairs.
pub open spec fn rule_views(rules: Seq<ApprovalRule>) -> Seq<(Seq<char>, ApprovalScope)> {
    rules.map_values(|r: ApprovalRule| (r.tool_name@, r.scope))
}

/// Decides which tool calls need the user's approval. Tools without a rule are approved.
#[derive(Debug)]
pub struct ApprovalPolicy {
    rules: Vec<ApprovalRule>,
}

impl ApprovalPolicy {
    /// The rules, in order.
    pub closed spec fn rules(&self) -> Seq<(Seq<char>, ApprovalScope)> {
        rule_views(self.rules@)
    }

    fn with_scope(tool_names: Vec<String>, scope: ApprovalScope) -> (p: ApprovalPolicy)
        ensures
            p.rules() == texts(tool_names@).map_values(|n: Seq<char>| (n, scope)),
    {
        let mut rules: Vec<ApprovalRule> = Vec::new();
        let mut i: usize = 0;
        while i < tool_names.len()
            invariant
                i <= tool_names@.len(),
                rule_views(rules@) == texts(tool_names@).map_values(|n: Seq<char>| (n, scope)).subrange(0, i as int),
            decreases tool_names.len() - i,
        {
            let ghost before = rules@;
            rules.push(ApprovalRule { tool_name: tool_names[i].clone(), scope });
            assert(rule_views(rules@) =~= rule_views(before).push((tool_names@[i as int]@, scope)));
            assert(texts(tool_names@).map_values(|n: Seq<char>| (n, scope)).subrange(0, i + 1) =~= texts(tool_names@).map_values(
                |n: Seq<char>| (n, scope),
            ).subrange(0, i as int).push((tool_names@[i as int]@, scope)));
            i += 1;
        }
        assert(texts(tool_names@).map_values(|n: Seq<char>| (n, scope)).subrange(0, i as int) =~= texts(tool_names@).map_values(
            |n: Seq<char>| (n, scope),
        ));
        ApprovalPolicy { rules }
    }

    /// A policy that asks before every call of each of the tools.
    pub fn require_approval(tool_names: Vec<String>) -> (p: ApprovalPolicy)
        ensures
            p.rules() == texts(tool_names@).map_values(|n: Seq<char>| (n, ApprovalScope::PerCall)),
    {
        ApprovalPolicy::with_scope(tool_names, ApprovalScope::PerCall)
    }

    /// A policy that asks once per session for each of the tools.
    pub fn require_session_approval(tool_names: Vec<String>) -> (p: ApprovalPolicy)
        ensures
            p.rules() == texts(tool_names@).map_values(|n: Seq<char>| (n, ApprovalScope::Session)),
    {
        ApprovalPolicy::with_scope(tool_names, ApprovalScope::Session)
    }

    /// Starts a policy with mixed scopes.
    pub fn builder() -> (b: ApprovalPolicyBuilder)
        ensures
            b.rules().len() == 0,
    {
        let b = ApprovalPolicyBuilder { rules: Vec::new() };
        assert(b.rules() =~= Seq::<(Seq<char>, ApprovalScope)>::empty());
        b
    }

    /// What to do with a call of tool `name`, given the tools approved in this session.
    pub fn decide(&self, name: &str, approvals: &SessionApprovals) -> (d: Decision)
        ensures
            d == spec_decide(self.rules(), approvals.approved(), name@),
    {
        let ghost rs = self.rules();
        let mut i: usize = 0;
        assert(rs.skip(0) =~= rs);
        while i < self.rules.len()
            invariant
                i <= self.rules@.len(),
                rs == self.rules(),
                spec_rule_for(rs, name@) == spec_rule_for(rs.skip(i as int), name@),
            decreases self.rules.len() - i,
        {
            assert(rs.skip(i as int)[0] == (self.rules@[i as int].tool_name@, self.rules@[i as int].scope));
            if crate::text::str_eq(self.rules[i].tool_name.as_str(), name) {
                return match self.rules[i].scope {
                    ApprovalScope::PerCall => Decision::AskEachTime,
                    ApprovalScope::Session => if approvals.contains(name) {
                        Decision::Approve
                    } else {
                        Decision::AskOnce
                    },
                };
            }
            assert(rs.skip(i as int).drop_first() =~= rs.skip(i + 1));
            i += 1;
        }
        Decision::Approve
    }
}

/// Does a call proceed, given the decision and the user's answer (which only counts when
/// the decision was to ask)?
pub open spec fn spec_proceeds(decision: Decision, answer: bool) -> bool {
    decision == Decision::Approve || answer
}

/// Is `x` approved for the session after the check of tool `name`: it was before, or the
/// user just said yes to a session question about it.
pub open spec fn spec_remembers(approved: Seq<Seq<char>>, decision: Decision, name: Seq<char>, answer: bool, x: Seq<char>) -> bool {
    approved.contains(x) || (decision == Decision::AskOnce && answer && x == name)
}

/// Finishes the check of tool `name`: a call that needs no question proceeds; otherwise
/// `answer` (the user's) decides, and a yes to a session question is remembered. Returns
/// whether the call may proceed.
pub fn record_answer(decision: Decision, name: &str, answer: bool, approvals: &mut SessionApprovals) -> (proceed: bool)
    ensures
        proceed == spec_proceeds(decision, answer),
        forall|x: Seq<char>| #[trigger] final(approvals).approved().contains(x) == spec_remembers(
            old(approvals).approved(),
            decision,
            name@,
            answer,
            x,
        ),
{
    if answer && decision == Decision::AskOnce {
        approvals.insert(name);
    }
    decision == Decision::Approve || answer
}

/// Law: the whole approval check. A tool without a rule proceeds without a question and
/// changes nothing; a per-call tool is asked every time, the answer decides and nothing is
/// remembered; a session tool approved before proceeds without a question; otherwise the
/// user is asked, the answer decides, and only a yes is remembered.
pub proof fn lemma_approval_check(rules: Seq<(Seq<char>, ApprovalScope)>, approved: Seq<Seq<char>>, name: Seq<char>, answer: bool)
    ensures
        ({
            let d = spec_decide(rules, approved, name);
            &&& spec_rule_for(rules, name) is None ==> d == Decision::Approve && spec_proceeds(d, answer) && forall|x: Seq<char>|
                #[trigger] spec_remembers(approved, d, name, answer, x) == approved.contains(x)
            &&& spec_rule_for(rules, name) == Some(ApprovalScope::PerCall) ==> d != Decision::Approve && spec_proceeds(d, answer)
                == answer && forall|x: Seq<char>| #[trigger] spec_remembers(approved, d, name, answer, x) == approved.contains(x)
            &&& spec_rule_for(rules, name) == Some(ApprovalScope::Session) && approved.contains(name) ==> d == Decision::Approve
                && spec_proceeds(d, answer) && forall|x: Seq<char>| #[trigger] spec_remembers(approved, d, name, answer, x)
                == approved.contains(x)
            &&& spec_rule_for(rules, name) == Some(ApprovalScope::Session) && !approved.contains(name) ==> d != Decision::Approve
                && spec_proceeds(d, answer) == answer && spec_remembers(approved, d, name, answer, name) == answer && forall|
                x: Seq<char>,
            | x != name ==> #[trigger] spec_remembers(approved, d, name, answer, x) == approved.contains(x)
        }),
{
}

/// Law: a tool without a rule is always approved, whatever was approved before.
pub proof fn lemma_unruled_approved(rules: Seq<(Seq<char>, ApprovalScope)>, approved: Seq<Seq<char>>, name: Seq<char>)
    requires
        spec_rule_for(rules, name) is None,
    ensures
        spec_decide(rules, approved, name) == Decision::Approve,
{
}

/// Law: once the user approved a session-scoped tool, later calls of it are approved
/// without asking; a per-call tool is asked about every time, approvals or not.
pub proof fn lemma_session_remembered(rules: Seq<(Seq<char>, ApprovalScope)>, approved: Seq<Seq<char>>, name: Seq<char>)
    requires
        approved.contains(name),
    ensures
        spec_rule_for(rules, name) == Some(ApprovalScope::Session) ==> spec_decide(rules, approved, name) == Decision::Approve,
        spec_rule_for(rules, name) == Some(ApprovalScope::PerCall) ==> spec_decide(rules, approved, name) == Decision::AskEachTime,
{
}

/// Builds an [`ApprovalPolicy`] with mixed scopes.
#[derive(Debug)]
pub struct ApprovalPolicyBuilder {
    rules: Vec<ApprovalRule>,
}

impl ApprovalPolicyBuilder {
    /// The rules so far.
    pub closed spec fn rules(&self) -> Seq<(Seq<char>, ApprovalScope)> {
        rule_views(self.rules@)
    }

    /// Adds a tool that needs approval on every call.
    pub fn require(self, tool_name: &str) -> (b: ApprovalPolicyBuilder)
        ensures
            b.rules() == self.rules().push((tool_name@, ApprovalScope::PerCall)),
    {
        let mut rules = self.rules;
        let ghost before = rules@;
        rules.push(ApprovalRule { tool_name: tool_name.to_owned(), scope: ApprovalScope::PerCall });
        assert(rule_views(rules@) =~= rule_views(before).push((tool_name@, ApprovalScope::PerCall)));
        ApprovalPolicyBuilder { rules }
    }

    /// Adds a tool that needs approval once per session.
    pub fn require_session(self, tool_name: &str) -> (b: ApprovalPolicyBuilder)
        ensures
            b.rules() == self.rules().push((tool_name@, ApprovalScope::Session)),
    {
        let mut rules = self.rules;
        let ghost before = rules@;
        rules.push(ApprovalRule { tool_name: tool_name.to_owned(), scope: ApprovalScope::Session });
        assert(rule_views(rules@) =~= rule_views(before).push((tool_name@, ApprovalScope::Session)));
        ApprovalPolicyBuilder { rules }
    }

    /// The policy with the rules added so far.
    pub fn build(self) -> (p: ApprovalPolicy)
        ensures
            p.rules() == self.rules(),
    {
        ApprovalPolicy { rules: self.rules }
    }
}

/// The hook result for a tool call after the policy check: go on when approved, else a
/// soft denial naming the tool.
pub fn approval_hook_result(approved: bool, tool_name: &str) -> (r: HookResult)
    ensures
        approved ==> r is Continue,
        !approved ==> (r matches HookResult::Denied(m) && m@ == "Tool '"@ + tool_name@ + "' denied by user"@),
{
    if approved {
        HookResult::Continue
    } else {
        HookResult::Denied(concat3("Tool '", tool_name, "' denied by user"))
    }
}

} // verus!
