//! Token usage accumulated per provider. Prices are floating point and stay with the
//! caller; the counts are kept here.

use vstd::prelude::*;
use crate::adapter::{AgentResponseKind, Usage};
use crate::text::texts;

verus! {

/// Usage accumulated for one provider.
#[derive(Debug, Clone, Copy, PartialEq, Eq, Structural)]
pub struct ProviderUsage {
    pub input_tokens: u64,
    pub cached_input_tokens: u64,
    pub output_tokens: u64,
    pub requests: u64,
}

impl Default for ProviderUsage {
    fn default() -> (u: ProviderUsage)
        ensures
            u == (ProviderUsage { input_tokens: 0, cached_input_tokens: 0, output_tokens: 0, requests: 0 }),
    {
        ProviderUsage { input_tokens: 0, cached_input_tokens: 0, output_tokens: 0, requests: 0 }
    }
}

/// All tokens of a usage: input, cached input and output.
pub open spec fn spec_total(u: ProviderUsage) -> int {
    u.input_tokens + u.cached_input_tokens + u.output_tokens
}

impl ProviderUsage {
    /// Input, cached input and output tokens together.
    pub fn total_tokens(&self) -> (n: u64)
        requires
            spec_total(*self) <= u64::MAX,
        ensures
            n == spec_total(*self),
    {
        self.input_tokens + self.cached_input_tokens + self.output_tokens
    }
}

/// The usage after one more request with these token counts.
pub open spec fn spec_add_request(u: ProviderUsage, input: u64, cached: u64, output: u64) -> ProviderUsage {
    ProviderUsage {
        input_tokens: (u.input_tokens + input) as u64,
        cached_input_tokens: (u.cached_input_tokens + cached) as u64,
        output_tokens: (u.output_tokens + output) as u64,
        requests: (u.requests + 1) as u64,
    }
}

/// Can one more request with these counts be added without overflow?
pub open spec fn spec_fits(u: ProviderUsage, input: u64, cached: u64, output: u64) -> bool {
    &&& u.input_tokens + input <= u64::MAX
    &&& u.cached_input_tokens + cached <= u64::MAX
    &&& u.output_tokens + output <= u64::MAX
    &&& u.requests + 1 <= u64::MAX
}

/// The usage recorded for `name`, zero when there is none.
pub open spec fn spec_usage_of(entries: Seq<(Seq<char>, ProviderUsage)>, name: Seq<char>) -> ProviderUsage
    decreases entries.len(),
{
    if entries.len() == 0 {
        ProviderUsage { input_tokens: 0, cached_input_tokens: 0, output_tokens: 0, requests: 0 }
    } else if entries.last().0 == name {
        entries.last().1
    } else {
        spec_usage_of(entries.drop_last(), name)
    }
}

/// The sum of all tokens of the entries.
pub open spec fn spec_all_tokens(entries: Seq<(Seq<char>, ProviderUsage)>) -> int
    decreases entries.len(),
{
    if entries.len() == 0 {
        0
    } else {
        spec_all_tokens(entries.drop_last()) + spec_total(entries.last().1)
    }
}

/// Usage per provider name.
#[derive(Debug)]
pub struct UsageBook {
    entries: Vec<(String, ProviderUsage)>,
}

/// The abstract value of the entries.
pub open spec fn usage_entries(v: Seq<(String, ProviderUsage)>) -> Seq<(Seq<char>, ProviderUsage)> {
    v.map_values(|e: (String, ProviderUsage)| (e.0@, e.1))
}

impl UsageBook {
    /// The providers and their usage, in order of their first request.
    pub closed spec fn entries(&self) -> Seq<(Seq<char>, ProviderUsage)> {
        usage_entries(self.entries@)
    }

    /// Each provider has one entry.
    pub closed spec fn wf(&self) -> bool {
        forall|a: int, b: int| 0 <= a < b < self.entries@.len() ==> self.entries()[a].0 != self.entries()[b].0
    }

    /// No usage yet.
    pub fn new() -> (b: UsageBook)
        ensures
            b.wf(),
            b.entries().len() == 0,
    {
        let b = UsageBook { entries: Vec::new() };
        assert(b.entries() =~= Seq::<(Seq<char>, ProviderUsage)>::empty());
        b
    }

    fn index_of(&self, name: &str) -> (r: Option<usize>)
        requires
            self.wf(),
        ensures
            match r {
                Some(i) => i < self.entries@.len() && self.entries()[i as int].0 == name@,
                None => forall|j: int| 0 <= j < self.entries@.len() ==> self.entries()[j].0 != name@,
            },
    {
        let mut i: usize = 0;
        while i < self.entries.len()
            invariant
                i <= self.entries@.len(),
                forall|j: int| 0 <= j < i ==> self.entries()[j].0 != name@,
            decreases self.entries.len() - i,
        {
            assert(self.entries()[i as int].0 == self.entries@[i as int].0@);
            if crate::text::str_eq(self.entries[i].0.as_str(), name) {
                return Some(i);
            }
            i += 1;
        }
        None
    }

    /// The usage of provider `name`, zero when it has made no request.
    pub fn provider_usage(&self, name: &str) -> (u: ProviderUsage)
        requires
            self.wf(),
        ensures
            u == spec_usage_of(self.entries(), name@),
    {
        proof {
            lemma_usage_of(self.entries(), name@);
        }
        match self.index_of(name) {
            Some(i) => self.entries[i].1,
            None => ProviderUsage::default(),
        }
    }

    /// Adds one request of provider `name` with these token counts.
    pub fn record(&mut self, name: &str, input: u64, cached: u64, output: u64)
        requires
            old(self).wf(),
            spec_fits(spec_usage_of(old(self).entries(), name@), input, cached, output),
        ensures
            final(self).wf(),
            spec_usage_of(final(self).entries(), name@) == spec_add_request(
                spec_usage_of(old(self).entries(), name@),
                input,
                cached,
                output,
            ),
            forall|other: Seq<char>| other != name@ ==> spec_usage_of(final(self).entries(), other)
                == spec_usage_of(old(self).entries(), other),
    {
        let ghost es = self.entries();
        proof {
            lemma_usage_of(es, name@);
        }
        match self.index_of(name) {
            Some(i) => {
                let u = self.entries[i].1;
                let nu = ProviderUsage {
                    input_tokens: u.input_tokens + input,
                    cached_input_tokens: u.cached_input_tokens + cached,
                    output_tokens: u.output_tokens + output,
                    requests: u.requests + 1,
                };
                let key = self.entries[i].0.clone();
                let ghost kv = key@;
                self.entries.set(i, (key, nu));
                assert(self.entries() =~= es.update(i as int, (kv, nu)));
                proof {
                    assert(es[i as int].0 == kv);
                    assert forall|other: Seq<char>| other != name@ implies spec_usage_of(self.entries(), other)
                        == spec_usage_of(es, other) by {
                        lemma_usage_update(es, i as int, nu, other);
                    }
                    lemma_usage_update(es, i as int, nu, name@);
                }
            },
            None => {
                let nu = ProviderUsage { input_tokens: input, cached_input_tokens: cached, output_tokens: output, requests: 1 };
                let ghost kv = name@;
                self.entries.push((name.to_owned(), nu));
                assert(self.entries() =~= es.push((kv, nu)));
                assert(self.entries().drop_last() =~= es);
            },
        }
    }

    /// All tokens across providers.
    pub fn total_tokens(&self) -> (n: u64)
        requires
            self.wf(),
            spec_all_tokens(self.entries()) <= u64::MAX,
        ensures
            n == spec_all_tokens(self.entries()),
    {
        let ghost es = self.entries();
        let mut total: u64 = 0;
        let mut i: usize = 0;
        while i < self.entries.len()
            invariant
                i <= self.entries@.len(),
                es == self.entries(),
                total == spec_all_tokens(es.subrange(0, i as int)),
                spec_all_tokens(es) <= u64::MAX,
            decreases self.entries.len() - i,
        {
            proof {
                lemma_all_tokens_prefix(es, i + 1);
                assert(es.subrange(0, i + 1).drop_last() =~= es.subrange(0, i as int));
            }
            let u = self.entries[i].1;
            total = total + u.input_tokens + u.cached_input_tokens + u.output_tokens;
            i += 1;
        }
        assert(es.subrange(0, i as int) =~= es);
        total
    }

    /// A snapshot of the usage, in order of each provider's first request.
    pub fn usage(&self) -> (r: Vec<(String, ProviderUsage)>)
        ensures
            usage_entries(r@) == self.entries(),
    {
        let mut r: Vec<(String, ProviderUsage)> = Vec::new();
        let mut i: usize = 0;
        while i < self.entries.len()
            invariant
                i <= self.entries@.len(),
                usage_entries(r@) == self.entries().subrange(0, i as int),
            decreases self.entries.len() - i,
        {
            let ghost before = r@;
            r.push((self.entries[i].0.clone(), self.entries[i].1));
            assert(usage_entries(r@) =~= usage_entries(before).push(self.entries()[i as int]));
            assert(self.entries().subrange(0, i + 1) =~= self.entries().subrange(0, i as int).push(self.entries()[i as int]));
            i += 1;
        }
        assert(self.entries().subrange(0, i as int) =~= self.entries());
        r
    }
}

/// The usage of `name` is the last entry with that name.
proof fn lemma_usage_of(entries: Seq<(Seq<char>, ProviderUsage)>, name: Seq<char>)
    ensures
        (forall|j: int| 0 <= j < entries.len() ==> entries[j].0 != name) ==> spec_usage_of(entries, name)
            == (ProviderUsage { input_tokens: 0, cached_input_tokens: 0, output_tokens: 0, requests: 0 }),
        forall|i: int| 0 <= i < entries.len() && entries[i].0 == name && (forall|j: int|
            i < j < entries.len() ==> entries[j].0 != name) ==> spec_usage_of(entries, name) == entries[i].1,
    decreases entries.len(),
{
    if entries.len() > 0 {
        lemma_usage_of(entries.drop_last(), name);
        assert(forall|j: int| 0 <= j < entries.len() - 1 ==> entries.drop_last()[j] == entries[j]);
    }
}

/// Replacing one entry of a book with distinct names changes only that name's usage.
proof fn lemma_usage_update(entries: Seq<(Seq<char>, ProviderUsage)>, i: int, nu: ProviderUsage, other: Seq<char>)
    requires
        0 <= i < entries.len(),
        forall|a: int, b: int| 0 <= a < b < entries.len() ==> entries[a].0 != entries[b].0,
    ensures
        spec_usage_of(entries.update(i, (entries[i].0, nu)), other) == if other == entries[i].0 {
            nu
        } else {
            spec_usage_of(entries, other)
        },
{
    let up = entries.update(i, (entries[i].0, nu));
    lemma_usage_of(entries, other);
    lemma_usage_of(up, other);
    if other == entries[i].0 {
        assert(up[i].0 == other);
        assert forall|j: int| i < j < up.len() implies up[j].0 != other by {
            assert(entries[j].0 != entries[i].0);
        }
    } else {
        if exists|k: int| 0 <= k < entries.len() && entries[k].0 == other {
            let k = choose|k: int| 0 <= k < entries.len() && entries[k].0 == other;
            assert(k != i);
            assert forall|j: int| k < j < entries.len() implies entries[j].0 != other by {
                if entries[j].0 == other {
                    assert(entries[k].0 == entries[j].0);
                }
            }
            assert(up[k].0 == other);
            assert forall|j: int| k < j < up.len() implies up[j].0 != other by {
                if j != i {
                    assert(up[j] == entries[j]);
                }
            }
        } else {
            assert forall|j: int| 0 <= j < up.len() implies up[j].0 != other by {
                if j != i {
                    assert(up[j] == entries[j]);
                }
            }
        }
    }
}

proof fn lemma_all_tokens_prefix(es: Seq<(Seq<char>, ProviderUsage)>, k: int)
    requires
        0 <= k <= es.len(),
    ensures
        0 <= spec_all_tokens(es.subrange(0, k)) <= spec_all_tokens(es),
    decreases es.len() - k,
{
    if k < es.len() {
        lemma_all_tokens_prefix(es, k + 1);
        assert(es.subrange(0, k + 1).drop_last() =~= es.subrange(0, k));
        lemma_all_tokens_nonneg(es.subrange(0, k));
    } else {
        assert(es.subrange(0, k) =~= es);
        lemma_all_tokens_nonneg(es);
    }
}

proof fn lemma_all_tokens_nonneg(es: Seq<(Seq<char>, ProviderUsage)>)
    ensures
        0 <= spec_all_tokens(es),
    decreases es.len(),
{
    if es.len() > 0 {
        lemma_all_tokens_nonneg(es.drop_last());
    }
}

/// The counts to record for a model reply: the reported usage when there is one, with the
/// input being the prompt tokens not served from the cache (the reported prompt tokens
/// include the cached ones, which are recorded, and billed, apart); otherwise only output
/// tokens, estimated for a final message and zero for tool calls.
pub fn usage_to_record(usage: Option<Usage>, kind: &AgentResponseKind, estimated_output: u64) -> (r: (u64, u64, u64))
    ensures
        usage matches Some(u) ==> r == (
            (if u.prompt_tokens >= u.cached_input_tokens { (u.prompt_tokens - u.cached_input_tokens) as u64 } else { 0u64 }),
            u.cached_input_tokens,
            u.completion_tokens,
        ),
        usage is None && kind is MessageComplete ==> r == (0u64, 0u64, estimated_output),
        usage is None && kind is ToolCalls ==> r == (0u64, 0u64, 0u64),
{
    match usage {
        Some(u) => {
            let input = if u.prompt_tokens >= u.cached_input_tokens {
                u.prompt_tokens - u.cached_input_tokens
            } else {
                0
            };
            (input, u.cached_input_tokens, u.completion_tokens)
        },
        None => match kind {
            AgentResponseKind::MessageComplete(_) => (0, 0, estimated_output),
            AgentResponseKind::ToolCalls(_) => (0, 0, 0),
        },
    }
}

/// Position of the rule with key `k`.
pub open spec fn spec_rule_index<P>(rules: Seq<(Seq<char>, P)>, k: Seq<char>) -> Option<int>
    decreases rules.len(),
{
    if rules.len() == 0 {
        None
    } else {
        match spec_rule_index(rules.drop_last(), k) {
            Some(i) => Some(i),
            None => if rules.last().0 == k {
                Some(rules.len() - 1)
            } else {
                None
            },
        }
    }
}

proof fn lemma_rule_index<P>(rules: Seq<(Seq<char>, P)>, k: Seq<char>)
    ensures
        match spec_rule_index(rules, k) {
            Some(i) => 0 <= i < rules.len() && rules[i].0 == k && forall|j: int| 0 <= j < i ==> rules[j].0 != k,
            None => forall|j: int| 0 <= j < rules.len() ==> rules[j].0 != k,
        },
    decreases rules.len(),
{
    if rules.len() > 0 {
        lemma_rule_index(rules.drop_last(), k);
        assert(forall|j: int| 0 <= j < rules.len() - 1 ==> rules.drop_last()[j] == rules[j]);
    }
}

/// The rule found for provider `name`: the rule stored under its lower-case form, else
/// the default.
pub open spec fn spec_rule_for<P>(rules: Seq<(Seq<char>, P)>, default: P, name: Seq<char>) -> P {
    match spec_rule_index(rules, crate::skill::spec_lowercase(name)) {
        Some(i) => rules[i].1,
        None => default,
    }
}

/// Prices by provider name, compared in lower case, with a default. `P` is a price rule.
pub struct PricingTable<P> {
    rules: Vec<(String, P)>,
    default: P,
}

impl<P> PricingTable<P> {
    /// The rules by lower-case provider name, in order of their first setting.
    pub closed spec fn rules(&self) -> Seq<(Seq<char>, P)> {
        self.rules@.map_values(|r: (String, P)| (r.0@, r.1))
    }

    /// The rule for providers without one of their own.
    pub closed spec fn default_rule(&self) -> P {
        self.default
    }

    /// No provider rules; `default` for everyone.
    pub fn new(default: P) -> (t: Self)
        ensures
            t.rules().len() == 0,
            t.default_rule() == default,
    {
        let t = PricingTable { rules: Vec::new(), default };
        assert(t.rules() =~= Seq::<(Seq<char>, P)>::empty());
        t
    }

    /// The same table with another default rule.
    pub fn default(self, rule: P) -> (t: Self)
        ensures
            t.rules() == self.rules(),
            t.default_rule() == rule,
    {
        PricingTable { rules: self.rules, default: rule }
    }

    /// The same table with `rule` for provider `name`, replacing its earlier rule.
    pub fn provider(self, name: &str, rule: P) -> (t: Self)
        ensures
            t.default_rule() == self.default_rule(),
            t.rules() == match spec_rule_index(self.rules(), crate::skill::spec_lowercase(name@)) {
                Some(i) => self.rules().update(i, (crate::skill::spec_lowercase(name@), rule)),
                None => self.rules().push((crate::skill::spec_lowercase(name@), rule)),
            },
    {
        let key = crate::skill::to_lowercase(name);
        let ghost rs = self.rules();
        proof {
            lemma_rule_index(rs, key@);
        }
        let mut rules = self.rules;
        let mut i: usize = 0;
        let mut found = false;
        while i < rules.len()
            invariant
                i <= rules@.len(),
                rs == rules@.map_values(|r: (String, P)| (r.0@, r.1)),
                found ==> i < rules@.len() && rs[i as int].0 == key@,
                forall|j: int| 0 <= j < i ==> rs[j].0 != key@,
            ensures
                found ==> i < rules@.len() && rs[i as int].0 == key@,
                !found ==> i == rules@.len(),
                forall|j: int| 0 <= j < i ==> rs[j].0 != key@,
            decreases rules.len() - i,
        {
            assert(rs[i as int].0 == rules@[i as int].0@);
            if crate::text::str_eq(rules[i].0.as_str(), key.as_str()) {
                found = true;
                break;
            }
            i += 1;
        }
        let ghost kv = key@;
        if found {
            assert(spec_rule_index(rs, kv) == Some(i as int));
            let _ = rules.remove(i);
            rules.insert(i, (key, rule));
            assert(rules@.map_values(|r: (String, P)| (r.0@, r.1)) =~= rs.update(i as int, (kv, rule)));
        } else {
            rules.push((key, rule));
            assert(rules@.map_values(|r: (String, P)| (r.0@, r.1)) =~= rs.push((kv, rule)));
        }
        PricingTable { rules, default: self.default }
    }

    /// The rule for provider `name`, compared in lower case; the default when it has none.
    pub fn get(&self, name: &str) -> (r: &P)
        ensures
            *r == spec_rule_for(self.rules(), self.default_rule(), name@),
    {
        let key = crate::skill::to_lowercase(name);
        let ghost rs = self.rules();
        proof {
            lemma_rule_index(rs, key@);
        }
        let mut i: usize = 0;
        while i < self.rules.len()
            invariant
                i <= self.rules@.len(),
                rs == self.rules(),
                key@ == crate::skill::spec_lowercase(name@),
                forall|j: int| 0 <= j < i ==> rs[j].0 != key@,
            decreases self.rules.len() - i,
        {
            assert(rs[i as int].0 == self.rules@[i as int].0@);
            if crate::text::str_eq(self.rules[i].0.as_str(), key.as_str()) {
                proof {
                    lemma_rule_index(rs, key@);
                    match spec_rule_index(rs, key@) {
                        Some(k) => {
                            if k < i {
                                assert(rs[k].0 != key@);
                            } else if k > i {
                                assert(rs[i as int].0 != key@);
                            }
                        },
                        None => {
                            assert(rs[i as int].0 != key@);
                        },
                    }
                }
                assert(rs[i as int].1 == self.rules@[i as int].1);
                return &self.rules[i].1;
            }
            i += 1;
        }
        &self.default
    }
}

/// Law: the rule set for a provider is the rule found for it, and for any name with the
/// same lower-case form.
pub proof fn lemma_rule_read_back<P>(rules: Seq<(Seq<char>, P)>, default: P, name: Seq<char>, rule: P, other: Seq<char>)
    requires
        crate::skill::spec_lowercase(other) == crate::skill::spec_lowercase(name),
    ensures
        spec_rule_for(
            match spec_rule_index(rules, crate::skill::spec_lowercase(name)) {
                Some(i) => rules.update(i, (crate::skill::spec_lowercase(name), rule)),
                None => rules.push((crate::skill::spec_lowercase(name), rule)),
            },
            default,
            other,
        ) == rule,
{
    let k = crate::skill::spec_lowercase(name);
    lemma_rule_index(rules, k);
    match spec_rule_index(rules, k) {
        Some(i) => {
            let up = rules.update(i, (k, rule));
            lemma_rule_index(up, k);
            assert(up[i].0 == k);
            assert forall|j: int| 0 <= j < i implies up[j].0 != k by {
                assert(up[j] == rules[j]);
            }
            match spec_rule_index(up, k) {
                Some(x) => {
                    if x < i {
                        assert(up[x].0 != k);
                    } else if x > i {
                        assert(up[i].0 != k);
                    }
                },
                None => {
                    assert(up[i].0 != k);
                },
            }
        },
        None => {
            let up = rules.push((k, rule));
            lemma_rule_index(up, k);
            assert(up.drop_last() =~= rules);
        },
    }
}

} // verus!
