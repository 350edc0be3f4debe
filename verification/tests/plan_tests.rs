use yoakore::adapter::AgentResponseKind;
use yoakore::config::{AppConfig, ModelKind, ModelProvider, ProviderGroup};
use yoakore::message::{Message, Role};
use yoakore::plan::{
    agent_line, choose_synthesis, first_enabled_chat, missing_agent_text, plan_json, plan_prompt, plan_span_ok,
    plan_summaries, plan_synthesis_messages, resolve_placeholders, subtask_labels, PlanAgent, PlanAgentBuilder,
    PlanRun, PlanStep, Subtask,
};

fn task(id: &str, agent: &str, input: &str, deps: &[&str]) -> Subtask {
    Subtask {
        id: id.into(),
        agent_name: agent.into(),
        input: input.into(),
        depends_on: deps.iter().map(|d| d.to_string()).collect(),
    }
}

#[test]
fn placeholders_are_resolved() {
    let done = vec![("t1".to_string(), "X".to_string()), ("t2".to_string(), "Y".to_string())];
    assert_eq!(resolve_placeholders("a {{t1.result}} b {{t2.result}} {{t3.result}}", &done), "a X b Y {{t3.result}}");
    assert_eq!(resolve_placeholders("none", &vec![]), "none");
}

#[test]
fn plan_json_is_cut_out() {
    let raw = "Here is the plan:\n```json\n[{\"id\":\"t1\"}]\n```";
    assert!(plan_span_ok(raw));
    assert_eq!(plan_json(raw), "[{\"id\":\"t1\"}]");
    assert_eq!(plan_json("no array"), "no array");
    assert_eq!(plan_json("[ unterminated"), "[ unterminated");
    assert!(plan_span_ok("]["));
    assert_eq!(plan_json("]["), "");
    assert!(!plan_span_ok("] x ["));
}

#[test]
fn subtasks_run_after_their_dependencies() {
    let plan = vec![
        task("t1", "search", "find X", &[]),
        task("t2", "writer", "use {{t1.result}}", &["t1"]),
        task("t3", "other", "never", &["t9"]),
    ];
    let mut run = PlanRun::new(plan, 10);
    match run.next_step() {
        PlanStep::Run { index, agent_name, input } => {
            assert_eq!((index, agent_name.as_str(), input.as_str()), (0, "search", "find X"));
        }
        _ => panic!("expected t1"),
    }
    run.on_output("R1".into());
    match run.next_step() {
        PlanStep::Run { index, agent_name, input } => {
            assert_eq!((index, agent_name.as_str(), input.as_str()), (1, "writer", "use R1"));
        }
        _ => panic!("expected t2"),
    }
    run.on_output("R2".into());
    match run.next_step() {
        PlanStep::Deadlock { completed, remaining } => {
            assert_eq!(completed, vec!["t1".to_string(), "t2".to_string()]);
            assert_eq!(remaining, vec!["t3".to_string()]);
        }
        _ => panic!("expected a deadlock"),
    }
    let results = run.into_results();
    assert_eq!(
        results,
        vec![
            ("t1".to_string(), "search".to_string(), "R1".to_string()),
            ("t2".to_string(), "writer".to_string(), "R2".to_string())
        ]
    );
}

#[test]
fn independent_subtasks_share_a_round() {
    let plan = vec![task("a", "x", "1", &[]), task("b", "y", "2", &[]), task("c", "z", "{{a.result}}{{b.result}}", &["a", "b"])];
    let mut run = PlanRun::new(plan, 10);
    assert!(matches!(run.next_step(), PlanStep::Run { index: 0, .. }));
    run.on_output("A".into());
    assert!(matches!(run.next_step(), PlanStep::Run { index: 1, .. }));
    run.on_output(missing_agent_text("y"));
    match run.next_step() {
        PlanStep::Run { index, input, .. } => {
            assert_eq!(index, 2);
            assert_eq!(input, "Aagent 'y' not found");
        }
        _ => panic!("expected c"),
    }
    run.on_output("C".into());
    assert!(matches!(run.next_step(), PlanStep::Finished));
    assert_eq!(run.into_results().len(), 3);
}

#[test]
fn rounds_are_limited() {
    let plan = vec![task("t1", "a", "x", &[]), task("t2", "b", "y", &["t1"])];
    let mut run = PlanRun::new(plan, 1);
    assert!(matches!(run.next_step(), PlanStep::Run { index: 0, .. }));
    run.on_output("done".into());
    assert!(matches!(run.next_step(), PlanStep::Finished));
    assert_eq!(run.into_results().len(), 1);
}

#[test]
fn zero_rounds_runs_nothing() {
    let mut run = PlanRun::new(vec![task("t1", "a", "x", &[])], 0);
    assert!(matches!(run.next_step(), PlanStep::Finished));
}

#[test]
fn planner_prompt_lists_agents() {
    let line = agent_line("search", &Some(vec!["web".into(), "news".into()]), "finds things");
    assert_eq!(line, "- search [web, news]: finds things");
    assert_eq!(agent_line("w", &None, "d"), "- w: d");
    assert_eq!(agent_line("w", &Some(vec![]), "d"), "- w []: d");
    let prompt = plan_prompt(&vec![line], "do it");
    assert!(prompt.starts_with("You are a task planner. Given a complex task and available sub-agents, decompose the task into a sequence of subtasks.\n\n## Available agents\n- search [web, news]: finds things\n\n## Task\ndo it\n\n## Output format\n"));
    assert!(prompt.ends_with("Use `{{tN.result}}` in input to reference a previous subtask's output.\nKeep the plan simple and focused. 2-5 subtasks is usually enough."));
}

#[test]
fn synthesis_prompt_and_fallback() {
    let plan = vec![task("t1", "search", "find X", &[])];
    let results = vec![
        ("t1".to_string(), "search".to_string(), "R1".to_string()),
        ("t7".to_string(), "w".to_string(), "R7".to_string()),
    ];
    let summaries = plan_summaries(&plan, &results);
    assert_eq!(summaries[0], "[t1 - search] Task: find X\nOutput: R1");
    assert_eq!(summaries[1], "[t7 - w] Task: \nOutput: R7");
    let msgs = plan_synthesis_messages("T", &summaries);
    assert_eq!(msgs[0].role, Role::System);
    assert_eq!(msgs[0].content, "You are a synthesis agent. Combine subtask results into a coherent response.");
    assert_eq!(
        msgs[1].content,
        "Task: T\n\nPlan execution results:\n[t1 - search] Task: find X\nOutput: R1\n\n[t7 - w] Task: \nOutput: R7\n\nSynthesize these results into a coherent final response. Focus on completeness and accuracy."
    );
    let fallback = choose_synthesis(Err("down".into()), &summaries);
    assert_eq!(fallback, format!("{}\n\n{}", summaries[0], summaries[1]));
    let reply = choose_synthesis(Ok(AgentResponseKind::MessageComplete(Message::assistant("final"))), &summaries);
    assert_eq!(reply, "final");
    assert_eq!(subtask_labels(&results), vec!["t1 (search)".to_string(), "t7 (w)".to_string()]);
}

#[test]
fn provider_selection_from_config() {
    let mut off = ModelProvider::new(ModelKind::Chat, "off", "http://o", "k", "m").expect("random id");
    off.enabled = false;
    let on = ModelProvider::new(ModelKind::Chat, "on", "http://o", "k", "m").expect("random id");
    let config = AppConfig {
        chat: ProviderGroup { active: None, providers: vec![off, on] },
        embedding: ProviderGroup { active: None, providers: vec![] },
        mcp: vec![],
        workspace: None,
    };
    assert_eq!(first_enabled_chat(&config).map(|p| p.name), Some("on".to_string()));
}

#[test]
fn plan_agent_settings() {
    let agent = PlanAgent::new(());
    assert_eq!(agent.plan_rounds(), 10);
    assert!(agent.configured_provider().is_none());
    let p = ModelProvider::new(ModelKind::Chat, "p", "http://p", "k", "m").expect("random id");
    let built = PlanAgentBuilder::new().adapter(()).providers(vec![p.clone()]).max_plan_rounds(3).build();
    assert_eq!(built.plan_rounds(), 3);
    assert_eq!(built.configured_provider().map(|x| x.id.clone()), Some(p.id.clone()));
    let run = built.start(vec![task("t1", "a", "x", &[])]);
    drop(run);
}

#[test]
fn acyclic_plan_with_enough_rounds_runs_every_subtask() {
    // A chain listed backwards: each round can run only one subtask.
    let plan = vec![task("c", "z", "3", &["b"]), task("b", "y", "2", &["a"]), task("a", "x", "1", &[])];
    let mut run = PlanRun::new(plan, 3);
    let mut order = Vec::new();
    loop {
        match run.next_step() {
            PlanStep::Run { index, .. } => {
                order.push(index);
                run.on_output(format!("out{}", index));
            }
            PlanStep::Finished => break,
            PlanStep::Deadlock { .. } => panic!("an acyclic plan never deadlocks"),
        }
    }
    assert_eq!(order, vec![2, 1, 0]);
    assert_eq!(run.into_results().len(), 3);
}
