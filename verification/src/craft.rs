//! How the full-featured agent is assembled: the required provider, the memory choice,
//! and the order of its hooks.

use vstd::prelude::*;
use crate::config::ModelProvider;
use crate::memory::MemoryConfig;

verus! {

/// A hook of the assembled chain.
#[derive(Debug, Clone, Copy, PartialEq, Eq, Structural)]
pub enum HookSlot {
    /// Cost tracking.
    Cost,
    /// Context management.
    Context,
    /// Memory retrieval and extraction.
    Memory,
    /// Skill injection.
    Skills,
    /// The caller's hook with this position among the extra hooks.
    Extra(usize),
}

/// Which memory the agent uses.
#[derive(Debug, Clone, Copy, PartialEq, Eq, Structural)]
pub enum MemoryChoice {
    /// The caller's own memory provider.
    Custom,
    /// The default memory, extracting when asked to.
    Default { auto_extract: bool },
    /// No memory.
    Off,
}

/// The memory to use: a custom provider takes precedence over a configuration.
pub fn memory_choice(custom_provider: bool, config: Option<MemoryConfig>) -> (m: MemoryChoice)
    ensures
        custom_provider ==> m == MemoryChoice::Custom,
        !custom_provider && config is Some ==> m == (MemoryChoice::Default { auto_extract: config->0.auto_extract }),
        !custom_provider && config is None ==> m == MemoryChoice::Off,
{
    if custom_provider {
        MemoryChoice::Custom
    } else {
        match config {
            Some(c) => MemoryChoice::Default { auto_extract: c.auto_extract },
            None => MemoryChoice::Off,
        }
    }
}

/// Most memories injected per call: the configuration's, else 5.
pub fn memory_max_injected(config: Option<MemoryConfig>) -> (n: usize)
    ensures
        config is Some ==> n == config->0.max_injected,
        config is None ==> n == 5,
{
    match config {
        Some(c) => c.max_injected,
        None => 5,
    }
}

/// The hooks in chain order: cost, context, memory, skills, then the extra hooks in order.
pub open spec fn spec_hook_chain(cost: bool, context: bool, memory: bool, skills: bool, extra: nat) -> Seq<HookSlot> {
    (if cost { seq![HookSlot::Cost] } else { Seq::empty() })
        + (if context { seq![HookSlot::Context] } else { Seq::empty() })
        + (if memory { seq![HookSlot::Memory] } else { Seq::empty() })
        + (if skills { seq![HookSlot::Skills] } else { Seq::empty() })
        + Seq::new(extra, |i: int| HookSlot::Extra(i as usize))
}

/// The hooks of the agent, in the order they run.
pub fn hook_chain(cost: bool, context: bool, memory: bool, skills: bool, extra: usize) -> (r: Vec<HookSlot>)
    ensures
        r@ == spec_hook_chain(cost, context, memory, skills, extra as nat),
{
    let mut r: Vec<HookSlot> = Vec::new();
    if cost {
        r.push(HookSlot::Cost);
    }
    if context {
        r.push(HookSlot::Context);
    }
    if memory {
        r.push(HookSlot::Memory);
    }
    if skills {
        r.push(HookSlot::Skills);
    }
    let ghost fixed = r@;
    assert(fixed =~= (if cost { seq![HookSlot::Cost] } else { Seq::empty() })
        + (if context { seq![HookSlot::Context] } else { Seq::empty() })
        + (if memory { seq![HookSlot::Memory] } else { Seq::empty() })
        + (if skills { seq![HookSlot::Skills] } else { Seq::empty() }));
    let mut i: usize = 0;
    while i < extra
        invariant
            i <= extra,
            r@ == fixed + Seq::new(i as nat, |k: int| HookSlot::Extra(k as usize)),
        decreases extra - i,
    {
        r.push(HookSlot::Extra(i));
        i += 1;
        assert(r@ =~= fixed + Seq::new(i as nat, |k: int| HookSlot::Extra(k as usize)));
    }
    r
}

/// The provider of the agent, which is required.
pub fn require_provider(provider: Option<ModelProvider>) -> (r: Result<ModelProvider, String>)
    ensures
        provider is Some ==> r == Ok::<ModelProvider, String>(provider->0),
        provider is None ==> (r matches Err(e) && e@ == "at least one provider is required"@),
{
    match provider {
        Some(p) => Ok(p),
        None => Err("at least one provider is required".to_owned()),
    }
}

} // verus!
