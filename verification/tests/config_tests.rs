use yoakore::config::{
    AppConfig, ApiStyle, EffortLevel, ModelKind, ModelProvider, ProviderGroup, ThinkingConfig, ThinkingParam,
};

fn test_config() -> AppConfig {
    AppConfig {
        chat: ProviderGroup {
            active: None,
            providers: vec![ModelProvider::new(ModelKind::Chat, "test", "http://localhost", "key", "model").expect("random id")],
        },
        embedding: ProviderGroup {
            active: None,
            providers: vec![ModelProvider::new(ModelKind::Embedding, "test", "http://localhost", "key", "model").expect("random id")],
        },
        mcp: Vec::new(),
        workspace: None,
    }
}

#[test]
fn test_group_by_kind() {
    let config = test_config();
    assert_eq!(config.group(ModelKind::Chat).providers.len(), 1);
    assert_eq!(config.group(ModelKind::Embedding).providers.len(), 1);
}

#[test]
fn test_enabled_filter() {
    let mut config = test_config();
    config.chat.providers[0].enabled = true;
    let mut p2 = ModelProvider::new(ModelKind::Chat, "disabled", "http://x", "k", "m").expect("random id");
    p2.enabled = false;
    config.chat.providers.push(p2);

    assert_eq!(config.chat.enabled().len(), 1);
}

#[test]
fn provider_defaults() {
    let p = ModelProvider::new(ModelKind::Chat, "n", "http://u", "k", "m").expect("random id");
    assert_eq!(p.max_output, 4096);
    assert_eq!(p.weight, 1);
    assert_eq!(p.requests_per_minute, 60);
    assert_eq!(p.tier, 1);
    assert!(p.enabled);
    assert_eq!(p.style, ApiStyle::Openai);
    assert_eq!(p.thinking, ThinkingConfig::Default);
    assert_eq!(p.max_context_tokens, 128000);
    assert_eq!(p.id.len(), 36);
    let q = ModelProvider::new(ModelKind::Chat, "n", "http://u", "k", "m").expect("random id");
    assert_ne!(p.id, q.id);
}

#[test]
fn group_mut_edits_the_right_group() {
    let mut config = test_config();
    config.group_mut(ModelKind::Embedding).providers.clear();
    assert_eq!(config.embedding.providers.len(), 0);
    assert_eq!(config.chat.providers.len(), 1);
}

#[test]
fn find_by_id() {
    let config = test_config();
    let id = config.chat.providers[0].id.clone();
    assert_eq!(config.chat.find(&id).map(|p| p.name.clone()), Some("test".to_string()));
    assert!(config.chat.find("nope").is_none());
}

#[test]
fn model_kind_names() {
    assert_eq!(ModelKind::Chat.name(), "chat");
    assert_eq!(ModelKind::Embedding.name(), "embedding");
}

#[test]
fn effort_levels() {
    assert_eq!(EffortLevel::Low.as_str(), "low");
    assert_eq!(EffortLevel::Medium.to_budget_tokens(), 10000);
    assert_eq!(EffortLevel::High.as_str(), "high");
}

#[test]
fn thinking_conversions() {
    assert_eq!(ThinkingConfig::Budget { tokens: 4096 }.to_reasoning_effort(), Some("low"));
    assert_eq!(ThinkingConfig::Budget { tokens: 4097 }.to_reasoning_effort(), Some("medium"));
    assert_eq!(ThinkingConfig::Budget { tokens: 20000 }.to_reasoning_effort(), Some("high"));
    assert_eq!(ThinkingConfig::Disabled.to_reasoning_effort(), None);
    assert_eq!(ThinkingConfig::Auto.to_reasoning_effort(), Some("medium"));
    assert_eq!(
        ThinkingConfig::Auto.to_anthropic_thinking(),
        Some(ThinkingParam { enabled: true, budget_tokens: Some(10000) })
    );
    assert_eq!(
        ThinkingConfig::Disabled.to_openai_thinking(),
        Some(ThinkingParam { enabled: false, budget_tokens: None })
    );
    assert_eq!(ThinkingConfig::Default.to_anthropic_thinking(), None);
}

#[test]
fn provider_with_given_id_has_the_defaults() {
    let p = ModelProvider::with_id("id-1".to_string(), ModelKind::Chat, "n", "http://u", "k", "m");
    assert_eq!(p.id, "id-1");
    assert_eq!(p.name, "n");
    assert_eq!(p.requests_per_minute, 60);
    assert_eq!(p.max_output, 4096);
    assert!(p.enabled);
    let q = ModelProvider::new(ModelKind::Chat, "n", "http://u", "k", "m").expect("random id");
    assert_eq!(q.id.len(), 36);
    assert_eq!(&q.id[14..15], "4");
}
