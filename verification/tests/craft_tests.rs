use yoakore::adapter::{AgentResponseKind, Usage};
use yoakore::context::{role_str, ContextConfig, DefaultContext};
use yoakore::cost::{usage_to_record, PricingTable, ProviderUsage, UsageBook};
use yoakore::craft::{hook_chain, memory_choice, memory_max_injected, require_provider, HookSlot, MemoryChoice};
use yoakore::memory::{extract_memory, inject_memories, memory_query, DefaultMemory, MemoryConfig};
use yoakore::message::{Message, Role};
use yoakore::skill::{inject_before_first_user, last_user_query, parse_skill_md, Skill, SkillManager};

fn convo() -> Vec<Message> {
    vec![
        Message::system("S"),
        Message::user("u1"),
        Message::assistant("a1"),
        Message::user("u2"),
        Message::assistant("a2"),
    ]
}

#[test]
fn context_is_summarised_past_the_threshold() {
    let ctx = DefaultContext::new(ContextConfig { recent_to_keep: 2 });
    let mut msgs = convo();
    ctx.manage(&mut msgs, &vec![10, 10, 10, 10, 10], 40);
    assert_eq!(msgs.len(), 4);
    assert_eq!(msgs[0].content, "S");
    assert_eq!(msgs[1].role, Role::System);
    assert_eq!(msgs[1].content, "[Context summary of 2 earlier messages]\n[user]: u1\n[assistant]: a1");
    assert_eq!(msgs[2].content, "u2");
    assert_eq!(msgs[3].content, "a2");
}

#[test]
fn context_keeps_later_system_messages() {
    let ctx = DefaultContext::new(ContextConfig { recent_to_keep: 2 });
    let mut msgs = vec![
        Message::system("s0"),
        Message::user("u1"),
        Message::system("s2"),
        Message::user("u3"),
        Message::assistant("a4"),
    ];
    ctx.manage(&mut msgs, &vec![10, 10, 10, 10, 10], 40);
    assert_eq!(msgs.len(), 5);
    assert_eq!(msgs[0].content, "s0");
    assert_eq!(msgs[1].role, Role::System);
    assert_eq!(msgs[1].content, "[Context summary of 1 earlier messages]\n[user]: u1");
    assert_eq!(msgs[2].role, Role::System);
    assert_eq!(msgs[2].content, "s2");
    assert_eq!(msgs[3].content, "u3");
    assert_eq!(msgs[4].content, "a4");
}

#[test]
fn context_of_system_messages_only_is_left_alone() {
    let ctx = DefaultContext::new(ContextConfig { recent_to_keep: 1 });
    let mut msgs = vec![Message::system("a"), Message::system("b"), Message::system("c")];
    ctx.manage(&mut msgs, &vec![100, 100, 100], 10);
    assert_eq!(msgs.len(), 3);
    assert_eq!(msgs[2].content, "c");
}

#[test]
fn context_left_alone_below_threshold() {
    let ctx = DefaultContext::new(ContextConfig { recent_to_keep: 2 });
    let mut msgs = convo();
    // 40 tokens against a threshold of 80% of 50 = 40: not above it.
    ctx.manage(&mut msgs, &vec![8, 8, 8, 8, 8], 50);
    assert_eq!(msgs.len(), 5);
    // Too few messages to summarise.
    let ctx = DefaultContext::new(ContextConfig::default());
    let mut msgs = convo();
    ctx.manage(&mut msgs, &vec![100, 100, 100, 100, 100], 10);
    assert_eq!(msgs.len(), 5);
    assert_eq!(role_str(Role::Tool), "tool");
}

const SKILL: &str = "---\nname: \"Rust\"\ndescription: Rust help\nread_when: rust, cargo , \"\"\nmetadata: m1\n---\n\nUse cargo.\n";

#[test]
fn skill_files_are_parsed() {
    let s = parse_skill_md(SKILL).unwrap();
    assert_eq!(s.name, "Rust");
    assert_eq!(s.description, "Rust help");
    assert_eq!(s.read_when, vec!["rust".to_string(), "cargo".to_string()]);
    assert_eq!(s.metadata.as_deref(), Some("m1"));
    assert!(s.allowed_tools.is_none());
    assert_eq!(s.instructions, "Use cargo.");
    assert!(parse_skill_md("no front matter").is_none());
    assert!(parse_skill_md("---\nname: x\n").is_none());
    assert!(parse_skill_md("---\ndescription: nameless\n---\nbody").is_none());
}

#[test]
fn skills_are_matched_and_injected() {
    let s = parse_skill_md(SKILL).unwrap();
    let other = Skill {
        name: "Go".into(),
        description: "golang".into(),
        instructions: "go build".into(),
        read_when: vec![],
        metadata: None,
        allowed_tools: None,
    };
    let mgr = SkillManager::from_skills(vec![s, other]);
    assert_eq!(mgr.skills().len(), 2);
    let found = mgr.find_matching("CARGO");
    assert_eq!(found.len(), 1);
    assert_eq!(found[0].name, "Rust");
    assert_eq!(mgr.find_matching("golang").len(), 1);
    assert_eq!(mgr.find_matching("go").len(), 2);
    assert!(mgr.format_for_prompt("python").is_none());
    assert_eq!(
        mgr.format_for_prompt("rust").unwrap(),
        "<available-skills>\n## Skill: Rust\nRust help\n\nUse cargo.\n</available-skills>"
    );
    let mut msgs = convo();
    inject_before_first_user(&mut msgs, "SKILLS");
    assert_eq!(msgs[1].role, Role::System);
    assert_eq!(msgs[1].content, "SKILLS");
    assert_eq!(msgs[2].content, "u1");
    assert_eq!(last_user_query(&msgs), "u2");
    let mut no_user = vec![Message::system("s")];
    inject_before_first_user(&mut no_user, "x");
    assert_eq!(no_user.len(), 1);
}

#[test]
fn memories() {
    assert!(extract_memory(true, "short").is_none());
    let long: String = "y".repeat(120);
    assert!(extract_memory(false, &long).is_none());
    let m = extract_memory(true, &long).unwrap();
    assert_eq!(m.title, "y".repeat(100));
    assert_eq!(m.content, long);
    assert_eq!(m.tags.as_deref(), Some("auto-extracted"));
    let fifty = "z".repeat(50);
    assert_eq!(extract_memory(true, &fifty).unwrap().title, fifty);
    let mem = DefaultMemory::new(7u8).auto_extract(false);
    assert!(!mem.extracts());
    assert_eq!(*mem.storage(), 7);
    assert!(mem.extract(&long).is_none());

    let mut msgs = convo();
    assert_eq!(memory_query(&msgs).as_deref(), Some("u2"));
    assert!(memory_query(&vec![Message::system("s")]).is_none());
    inject_memories(&mut msgs, &vec![("likes tea".to_string(), "0.90".to_string())]);
    assert_eq!(msgs[1].content, "<relevant-memories>\n- likes tea (weight: 0.90)\n</relevant-memories>");
    let before = msgs.len();
    inject_memories(&mut msgs, &vec![]);
    assert_eq!(msgs.len(), before);
    let c = MemoryConfig::default();
    assert_eq!((c.max_injected, c.auto_extract), (5, true));
}

#[test]
fn usage_accumulates_per_provider() {
    let mut book = UsageBook::new();
    book.record("openai", 10, 2, 5);
    book.record("openai", 10, 2, 5);
    book.record("deepseek", 1, 0, 1);
    let u = book.provider_usage("openai");
    assert_eq!(u, ProviderUsage { input_tokens: 20, cached_input_tokens: 4, output_tokens: 10, requests: 2 });
    assert_eq!(u.total_tokens(), 34);
    assert_eq!(book.provider_usage("none"), ProviderUsage::default());
    assert_eq!(book.total_tokens(), 36);
    assert_eq!(book.usage().len(), 2);
    let usage = Usage { prompt_tokens: 3, completion_tokens: 4, total_tokens: 7, cached_input_tokens: 1 };
    // The prompt tokens include the cached ones: 3 prompt tokens, 1 of them cached.
    assert_eq!(usage_to_record(Some(usage), &AgentResponseKind::ToolCalls(vec![]), 9), (2, 1, 4));
    let odd = Usage { prompt_tokens: 1, completion_tokens: 0, total_tokens: 1, cached_input_tokens: 5 };
    assert_eq!(usage_to_record(Some(odd), &AgentResponseKind::ToolCalls(vec![]), 9), (0, 5, 0));
    assert_eq!(usage_to_record(None, &AgentResponseKind::ToolCalls(vec![]), 9), (0, 0, 0));
    assert_eq!(
        usage_to_record(None, &AgentResponseKind::MessageComplete(Message::assistant("x")), 9),
        (0, 0, 9)
    );
}

#[test]
fn assembly_decisions() {
    assert_eq!(
        hook_chain(true, false, true, true, 2),
        vec![HookSlot::Cost, HookSlot::Memory, HookSlot::Skills, HookSlot::Extra(0), HookSlot::Extra(1)]
    );
    assert!(hook_chain(false, false, false, false, 0).is_empty());
    let cfg = MemoryConfig { max_injected: 3, auto_extract: false };
    assert_eq!(memory_choice(true, Some(cfg)), MemoryChoice::Custom);
    assert_eq!(memory_choice(false, Some(cfg)), MemoryChoice::Default { auto_extract: false });
    assert_eq!(memory_choice(false, None), MemoryChoice::Off);
    assert_eq!(memory_max_injected(Some(cfg)), 3);
    assert_eq!(memory_max_injected(None), 5);
    match require_provider(None) {
        Err(e) => assert_eq!(e, "at least one provider is required"),
        Ok(_) => panic!("a provider is required"),
    }
}

#[test]
fn pricing_rules_by_lower_case_name() {
    let table = PricingTable::new(1u32).provider("Mistral", 3).provider("deepseek", 5).provider("MISTRAL", 4);
    assert_eq!(*table.get("mistral"), 4);
    assert_eq!(*table.get("DeepSeek"), 5);
    assert_eq!(*table.get("other"), 1);
    let table = table.default(9);
    assert_eq!(*table.get("other"), 9);
}

#[test]
fn context_summary_counts_in_decimal() {
    let ctx = DefaultContext::new(ContextConfig { recent_to_keep: 1 });
    let mut msgs = vec![Message::system("s")];
    for i in 0..12 {
        msgs.push(Message::user(&format!("m{}", i)));
    }
    let counts = vec![10u32; msgs.len()];
    ctx.manage(&mut msgs, &counts, 10);
    assert_eq!(msgs.len(), 3);
    assert!(msgs[1].content.starts_with("[Context summary of 11 earlier messages]\n[user]: m0\n"));
    assert_eq!(msgs[2].content, "m11");
}
