//! Model providers, provider groups and the application configuration.

use vstd::prelude::*;
use crate::sys::{is_hyphenated_uuid, new_uuid_v4};

verus! {

/// Kind of model a provider serves.
#[derive(Debug, Clone, Copy, PartialEq, Eq, Hash, Structural)]
pub enum ModelKind {
    Chat,
    Embedding,
}

impl ModelKind {
    /// The lower-case name of the kind, as written in configuration files.
    pub open spec fn spec_name(self) -> Seq<char> {
        match self {
            ModelKind::Chat => "chat"@,
            ModelKind::Embedding => "embedding"@,
        }
    }

    /// The lower-case name of the kind (`"chat"` or `"embedding"`).
    pub fn name(&self) -> (s: &'static str)
        ensures
            s@ == self.spec_name(),
    {
        match self {
            ModelKind::Chat => "chat",
            ModelKind::Embedding => "embedding",
        }
    }
}

/// Request style an adapter uses for a provider.
#[derive(Debug, Clone, Copy, PartialEq, Eq, Structural)]
pub enum ApiStyle {
    Openai,
    Anthropic,
}

impl Default for ApiStyle {
    fn default() -> (s: ApiStyle)
        ensures
            s == ApiStyle::Openai,
    {
        ApiStyle::Openai
    }
}

/// How hard the model should think.
#[derive(Debug, Clone, Copy, PartialEq, Eq, Structural)]
pub enum EffortLevel {
    Low,
    Medium,
    High,
    Max,
}

impl EffortLevel {
    /// Name of the level as sent to OpenAI-style APIs.
    pub open spec fn spec_as_str(self) -> Seq<char> {
        match self {
            EffortLevel::Low => "low"@,
            EffortLevel::Medium => "medium"@,
            EffortLevel::High => "high"@,
            EffortLevel::Max => "max"@,
        }
    }

    /// Approximate thinking budget of the level, in tokens.
    pub open spec fn spec_budget_tokens(self) -> u32 {
        match self {
            EffortLevel::Low => 2048,
            EffortLevel::Medium => 10000,
            EffortLevel::High => 32000,
            EffortLevel::Max => 64000,
        }
    }

    pub fn as_str(&self) -> (s: &'static str)
        ensures
            s@ == self.spec_as_str(),
    {
        match self {
            EffortLevel::Low => "low",
            EffortLevel::Medium => "medium",
            EffortLevel::High => "high",
            EffortLevel::Max => "max",
        }
    }

    /// Maps the effort to an approximate `budget_tokens` value (for cross-API use).
    pub fn to_budget_tokens(&self) -> (n: u32)
        ensures
            n == self.spec_budget_tokens(),
    {
        match self {
            EffortLevel::Low => 2048,
            EffortLevel::Medium => 10000,
            EffortLevel::High => 32000,
            EffortLevel::Max => 64000,
        }
    }
}

/// Thinking / reasoning mode of a provider.
#[derive(Debug, Clone, Copy, PartialEq, Eq, Structural)]
pub enum ThinkingConfig {
    /// Nothing is sent; the API decides.
    Default,
    /// Thinking explicitly disabled.
    Disabled,
    /// Thinking enabled at medium strength.
    Auto,
    /// Thinking enabled at the given effort.
    Effort { level: EffortLevel },
    /// Thinking enabled with a token budget.
    Budget { tokens: u32 },
}

impl Default for ThinkingConfig {
    fn default() -> (c: ThinkingConfig)
        ensures
            c == ThinkingConfig::Default,
    {
        ThinkingConfig::Default
    }
}

/// The `thinking` object of a request: `{"type": "enabled"|"disabled", "budget_tokens": n}`,
/// where `budget_tokens` is present only when `budget_tokens` is `Some`.
#[derive(Debug, Clone, Copy, PartialEq, Eq, Structural)]
pub struct ThinkingParam {
    pub enabled: bool,
    pub budget_tokens: Option<u32>,
}

impl ThinkingConfig {
    /// The OpenAI-style `reasoning_effort` value for this configuration.
    pub open spec fn spec_reasoning_effort(self) -> Option<Seq<char>> {
        match self {
            ThinkingConfig::Default | ThinkingConfig::Disabled => None,
            ThinkingConfig::Auto => Some("medium"@),
            ThinkingConfig::Effort { level } => Some(level.spec_as_str()),
            ThinkingConfig::Budget { tokens } => if tokens <= 4096 {
                Some("low"@)
            } else if tokens <= 16384 {
                Some("medium"@)
            } else {
                Some("high"@)
            },
        }
    }

    /// The Anthropic-style `thinking` object for this configuration.
    pub open spec fn spec_anthropic_thinking(self) -> Option<ThinkingParam> {
        match self {
            ThinkingConfig::Default => None,
            ThinkingConfig::Disabled => Some(ThinkingParam { enabled: false, budget_tokens: None }),
            ThinkingConfig::Auto => Some(ThinkingParam { enabled: true, budget_tokens: Some(10000) }),
            ThinkingConfig::Effort { level } => Some(
                ThinkingParam { enabled: true, budget_tokens: Some(level.spec_budget_tokens()) },
            ),
            ThinkingConfig::Budget { tokens } => Some(
                ThinkingParam { enabled: true, budget_tokens: Some(tokens) },
            ),
        }
    }

    /// The OpenAI-style `thinking` switch for this configuration.
    pub open spec fn spec_openai_thinking(self) -> Option<ThinkingParam> {
        match self {
            ThinkingConfig::Default => None,
            ThinkingConfig::Disabled => Some(ThinkingParam { enabled: false, budget_tokens: None }),
            _ => Some(ThinkingParam { enabled: true, budget_tokens: None }),
        }
    }

    /// The OpenAI-style `reasoning_effort` value.
    pub fn to_reasoning_effort(&self) -> (r: Option<&'static str>)
        ensures
            match r {
                Some(s) => self.spec_reasoning_effort() == Some(s@),
                None => self.spec_reasoning_effort() is None,
            },
    {
        match self {
            ThinkingConfig::Default | ThinkingConfig::Disabled => None,
            ThinkingConfig::Auto => Some("medium"),
            ThinkingConfig::Effort { level } => Some(level.as_str()),
            ThinkingConfig::Budget { tokens } => {
                if *tokens <= 4096 {
                    Some("low")
                } else if *tokens <= 16384 {
                    Some("medium")
                } else {
                    Some("high")
                }
            },
        }
    }

    /// The Anthropic-style `thinking` object (toggle and budget combined).
    pub fn to_anthropic_thinking(&self) -> (r: Option<ThinkingParam>)
        ensures
            r == self.spec_anthropic_thinking(),
    {
        match self {
            ThinkingConfig::Default => None,
            ThinkingConfig::Disabled => Some(ThinkingParam { enabled: false, budget_tokens: None }),
            ThinkingConfig::Auto => Some(ThinkingParam { enabled: true, budget_tokens: Some(10000) }),
            ThinkingConfig::Effort { level } => Some(
                ThinkingParam { enabled: true, budget_tokens: Some(level.to_budget_tokens()) },
            ),
            ThinkingConfig::Budget { tokens } => Some(
                ThinkingParam { enabled: true, budget_tokens: Some(*tokens) },
            ),
        }
    }

    /// The OpenAI-style `thinking` switch, used beside `to_reasoning_effort`.
    pub fn to_openai_thinking(&self) -> (r: Option<ThinkingParam>)
        ensures
            r == self.spec_openai_thinking(),
    {
        match self {
            ThinkingConfig::Default => None,
            ThinkingConfig::Disabled => Some(ThinkingParam { enabled: false, budget_tokens: None }),
            _ => Some(ThinkingParam { enabled: true, budget_tokens: None }),
        }
    }
}

/// One model endpoint the agents may call.
#[derive(Debug, Clone)]
pub struct ModelProvider {
    /// Unique id telling provider instances apart.
    pub id: String,
    pub kind: ModelKind,
    /// Vendor name; balancing and pricing go by it.
    pub name: String,
    pub base_url: String,
    pub api_key: String,
    /// Model name or id.
    pub model: String,
    /// Largest output, in tokens.
    pub max_output: u32,
    /// Balancing weight; larger is preferred.
    pub weight: u32,
    /// Requests allowed per minute; 0 means unlimited.
    pub requests_per_minute: u32,
    /// Capability tier: 1 basic, 2 standard, 3 advanced.
    pub tier: u8,
    pub enabled: bool,
    pub style: ApiStyle,
    pub thinking: ThinkingConfig,
    /// Size of the context window, in tokens.
    pub max_context_tokens: u32,
}

/// Default of `McpServerConfig::enabled` when a file omits it.
pub fn default_true() -> (b: bool)
    ensures
        b,
{
    true
}

/// Default of `ModelProvider::tier` when a file omits it.
pub fn default_tier() -> (t: u8)
    ensures
        t == 1,
{
    1
}

/// Default of `ModelProvider::max_context_tokens` when a file omits it.
pub fn default_max_context_tokens() -> (n: u32)
    ensures
        n == 128000,
{
    128000
}

impl ModelProvider {
    /// Does `p` have this kind, name, endpoint, key and model, and the documented defaults
    /// for everything but its id?
    pub open spec fn is_fresh(
        p: ModelProvider,
        kind: ModelKind,
        name: Seq<char>,
        base_url: Seq<char>,
        api_key: Seq<char>,
        model: Seq<char>,
    ) -> bool {
        &&& p.kind == kind
        &&& p.name@ == name
        &&& p.base_url@ == base_url
        &&& p.api_key@ == api_key
        &&& p.model@ == model
        &&& p.max_output == 4096
        &&& p.weight == 1
        &&& p.requests_per_minute == 60
        &&& p.tier == 1
        &&& p.enabled
        &&& p.style == ApiStyle::Openai
        &&& p.thinking == ThinkingConfig::Default
        &&& p.max_context_tokens == 128000
    }

    /// A provider with the given id and identity and the documented defaults for
    /// everything else.
    pub fn with_id(id: String, kind: ModelKind, name: &str, base_url: &str, api_key: &str, model: &str) -> (p: ModelProvider)
        ensures
            p.id@ == id@,
            ModelProvider::is_fresh(p, kind, name@, base_url@, api_key@, model@),
    {
        ModelProvider {
            id,
            kind,
            name: name.to_owned(),
            base_url: base_url.to_owned(),
            api_key: api_key.to_owned(),
            model: model.to_owned(),
            max_output: 4096,
            weight: 1,
            requests_per_minute: 60,
            tier: default_tier(),
            enabled: true,
            style: ApiStyle::default(),
            thinking: ThinkingConfig::default(),
            max_context_tokens: default_max_context_tokens(),
        }
    }

    /// A provider with the given identity and the documented defaults for everything else;
    /// its id is a fresh random UUID. `None` when the system's random source fails.
    pub fn new(kind: ModelKind, name: &str, base_url: &str, api_key: &str, model: &str) -> (r: Option<ModelProvider>)
        ensures
            r matches Some(p) ==> is_hyphenated_uuid(p.id@) && ModelProvider::is_fresh(
                p,
                kind,
                name@,
                base_url@,
                api_key@,
                model@,
            ),
    {
        match new_uuid_v4() {
            Some(id) => Some(ModelProvider::with_id(id, kind, name, base_url, api_key, model)),
            None => None,
        }
    }

    /// Exact copy of this provider.
    pub fn duplicate(&self) -> (r: ModelProvider)
        ensures
            r == *self,
    {
        ModelProvider {
            id: self.id.clone(),
            kind: self.kind,
            name: self.name.clone(),
            base_url: self.base_url.clone(),
            api_key: self.api_key.clone(),
            model: self.model.clone(),
            max_output: self.max_output,
            weight: self.weight,
            requests_per_minute: self.requests_per_minute,
            tier: self.tier,
            enabled: self.enabled,
            style: self.style,
            thinking: self.thinking,
            max_context_tokens: self.max_context_tokens,
        }
    }
}

/// An MCP server to start.
#[derive(Debug, Clone)]
pub struct McpServerConfig {
    pub name: String,
    pub command: String,
    pub args: Vec<String>,
    pub enabled: bool,
}

/// A group of providers of one kind.
#[derive(Debug, Clone)]
pub struct ProviderGroup {
    /// Provider chosen by hand (None = balanced); used for embeddings only.
    pub active: Option<String>,
    pub providers: Vec<ModelProvider>,
}

/// The enabled providers of `s`, in order.
pub open spec fn spec_enabled(s: Seq<ModelProvider>) -> Seq<ModelProvider>
    decreases s.len(),
{
    if s.len() == 0 {
        Seq::empty()
    } else if s.last().enabled {
        spec_enabled(s.drop_last()).push(s.last())
    } else {
        spec_enabled(s.drop_last())
    }
}

/// Index of the first provider of `s` whose id is `id`, if any.
pub open spec fn spec_find(s: Seq<ModelProvider>, id: Seq<char>) -> Option<int>
    decreases s.len(),
{
    if s.len() == 0 {
        None
    } else {
        match spec_find(s.drop_last(), id) {
            Some(i) => Some(i),
            None => if s.last().id@ == id {
                Some(s.len() - 1)
            } else {
                None
            },
        }
    }
}

/// `spec_find` gives the first matching index, and `None` only when nothing matches.
pub proof fn lemma_spec_find(s: Seq<ModelProvider>, id: Seq<char>)
    ensures
        match spec_find(s, id) {
            Some(i) => 0 <= i < s.len() && s[i].id@ == id && forall|j: int|
                0 <= j < i ==> s[j].id@ != id,
            None => forall|j: int| 0 <= j < s.len() ==> s[j].id@ != id,
        },
    decreases s.len(),
{
    if s.len() > 0 {
        lemma_spec_find(s.drop_last(), id);
        assert(forall|j: int| 0 <= j < s.len() - 1 ==> s.drop_last()[j] == s[j]);
    }
}

impl ProviderGroup {
    /// The enabled providers, in order.
    pub fn enabled(&self) -> (r: Vec<&ModelProvider>)
        ensures
            r@.len() == spec_enabled(self.providers@).len(),
            forall|i: int| 0 <= i < r@.len() ==> *r@[i] == spec_enabled(self.providers@)[i],
    {
        let mut r: Vec<&ModelProvider> = Vec::new();
        let mut i: usize = 0;
        while i < self.providers.len()
            invariant
                i <= self.providers.len(),
                r@.len() == spec_enabled(self.providers@.subrange(0, i as int)).len(),
                forall|k: int|
                    0 <= k < r@.len() ==> *r@[k] == spec_enabled(
                        self.providers@.subrange(0, i as int),
                    )[k],
            decreases self.providers.len() - i,
        {
            let p = &self.providers[i];
            let ghost pre = self.providers@.subrange(0, i as int);
            let ghost post = self.providers@.subrange(0, i + 1);
            assert(post.drop_last() =~= pre);
            assert(post.last() == self.providers@[i as int]);
            if p.enabled {
                r.push(p);
                assert(spec_enabled(post) == spec_enabled(pre).push(*p));
            } else {
                assert(spec_enabled(post) == spec_enabled(pre));
            }
            i += 1;
        }
        assert(self.providers@.subrange(0, i as int) =~= self.providers@);
        r
    }

    /// The first provider whose id is `id`.
    pub fn find(&self, id: &str) -> (r: Option<&ModelProvider>)
        ensures
            match spec_find(self.providers@, id@) {
                Some(i) => r matches Some(p) && *p == self.providers@[i],
                None => r is None,
            },
    {
        let mut i: usize = 0;
        while i < self.providers.len()
            invariant
                i <= self.providers.len(),
                spec_find(self.providers@.subrange(0, i as int), id@) is None,
            decreases self.providers.len() - i,
        {
            assert(self.providers@.subrange(0, i + 1).drop_last() =~= self.providers@.subrange(
                0,
                i as int,
            ));
            if crate::text::str_eq(self.providers[i].id.as_str(), id) {
                proof {
                    lemma_spec_find(self.providers@, id@);
                    lemma_spec_find(self.providers@.subrange(0, i as int), id@);
                    assert(forall|j: int|
                        0 <= j < i ==> self.providers@.subrange(0, i as int)[j]
                            == self.providers@[j]);
                }
                return Some(&self.providers[i]);
            }
            i += 1;
        }
        assert(self.providers@.subrange(0, i as int) =~= self.providers@);
        None
    }
}

/// Path to the workspace; `None` means `.ai-partner/` in the working directory.
pub type WorkspaceConfig = Option<String>;

/// The whole application configuration (`config.json`).
#[derive(Debug, Clone)]
pub struct AppConfig {
    pub chat: ProviderGroup,
    pub embedding: ProviderGroup,
    pub mcp: Vec<McpServerConfig>,
    pub workspace: WorkspaceConfig,
}

impl AppConfig {
    /// The group that holds providers of `kind`.
    pub open spec fn spec_group(self, kind: ModelKind) -> ProviderGroup {
        match kind {
            ModelKind::Chat => self.chat,
            ModelKind::Embedding => self.embedding,
        }
    }

    /// The provider group of the given kind.
    pub fn group(&self, kind: ModelKind) -> (g: &ProviderGroup)
        ensures
            *g == self.spec_group(kind),
    {
        match kind {
            ModelKind::Chat => &self.chat,
            ModelKind::Embedding => &self.embedding,
        }
    }

    /// The provider group of the given kind, for changing it in place.
    pub fn group_mut(&mut self, kind: ModelKind) -> (g: &mut ProviderGroup)
        ensures
            *g == old(self).spec_group(kind),
            kind == ModelKind::Chat ==> *final(self) == (AppConfig { chat: *final(g), ..*old(self) }),
            kind == ModelKind::Embedding ==> *final(self) == (AppConfig { embedding: *final(g), ..*old(self) }),
    {
        match kind {
            ModelKind::Chat => &mut self.chat,
            ModelKind::Embedding => &mut self.embedding,
        }
    }
}

/// Law: an explicit effort level is sent as its own name (`low`, `medium`, `high`,
/// `max`), so different levels are sent differently.
pub proof fn lemma_effort_is_level_name(a: EffortLevel, b: EffortLevel)
    ensures
        (ThinkingConfig::Effort { level: a }).spec_reasoning_effort() == Some(a.spec_as_str()),
        EffortLevel::Low.spec_as_str() == "low"@,
        EffortLevel::Medium.spec_as_str() == "medium"@,
        EffortLevel::High.spec_as_str() == "high"@,
        EffortLevel::Max.spec_as_str() == "max"@,
        a != b ==> (ThinkingConfig::Effort { level: a }).spec_reasoning_effort() != (ThinkingConfig::Effort {
            level: b,
        }).spec_reasoning_effort(),
{
    reveal_strlit("low");
    reveal_strlit("medium");
    reveal_strlit("high");
    reveal_strlit("max");
    if a != b {
        let sa = a.spec_as_str();
        let sb = b.spec_as_str();
        if sa.len() == sb.len() {
            assert(sa[0] != sb[0] || sa[1] != sb[1]);
        }
        assert(sa != sb);
    }
}

} // verus!
