use yoakore::coordinator::{team_outputs, team_summaries, team_synthesis_messages, TeamAgent, TeamAgentBuilder};
use yoakore::plan::joined_summaries;
use yoakore::message::Role;
use yoakore::team::{AgentStep, CollaborativeAgent, CollaborativeAgentBuilder, ContactBook, MemberAction, MemberRun};

fn member(name: &str, role: &str, cap: &str) -> CollaborativeAgent<(), ()> {
    CollaborativeAgentBuilder::<()>::new()
        .name(name)
        .role(role)
        .system_prompt("Be brief.")
        .capability(cap)
        .description(&format!("{} desc", name))
        .build(())
}

fn team() -> TeamAgent<(), (), ()> {
    TeamAgentBuilder::new().add_agent(member("alice", "writer", "w")).add_agent(member("bob", "editor", "r")).build(())
}

#[test]
fn members_know_each_other() {
    let t = team();
    assert_eq!(t.agents().len(), 2);
    assert_eq!(t.max_rounds(), 10);
    assert!(t.select_provider().is_none());
    let msgs = t.agents()[0].build_task_messages("Write it");
    assert_eq!(msgs[0].role, Role::System);
    assert!(msgs[0].content.starts_with("Be brief.\n\nYou are **alice**, a **writer** specialist on a team."));
    assert!(msgs[0].content.ends_with("## Team members\n- bob (editor): bob desc [r]"));
    assert_eq!(msgs[1].content, "Write it");
    let msgs = t.agents()[1].build_task_messages("Review it");
    assert!(msgs[0].content.ends_with("## Team members\n- alice (writer): alice desc [w]"));
    assert_eq!(t.capabilities(), vec!["w".to_string(), "r".to_string()]);
}

#[test]
fn contact_book_replaces_same_name() {
    let mut book = ContactBook::new();
    book.add("a".into(), "r1".into(), vec![], "d1".into());
    book.add("b".into(), "r2".into(), vec!["x".into(), "y".into()], "d2".into());
    book.add("a".into(), "r3".into(), vec![], "d3".into());
    assert_eq!(book.render(), "- a (r3): d3\n- b (r2): d2 [x, y]");
}

#[test]
fn synthesis_prompt() {
    let results = vec![
        ("alice".to_string(), "writer".to_string(), "draft".to_string()),
        ("bob".to_string(), "editor".to_string(), "ok".to_string()),
    ];
    let s = team_summaries(&results);
    assert_eq!(s, vec!["[alice - writer]: draft".to_string(), "[bob - editor]: ok".to_string()]);
    let msgs = team_synthesis_messages("T", &s);
    assert_eq!(msgs[0].content, "You are a team coordinator. Synthesize agent contributions into a coherent response.");
    assert_eq!(
        msgs[1].content,
        "Task: T\n\nAgent contributions:\n[alice - writer]: draft\n\n[bob - editor]: ok\n\nPlease synthesize these contributions into a coherent final response."
    );
}

#[test]
fn questions_are_routed_and_answered() {
    let t = team();
    let agents = t.agents();
    let (mut run, action) = MemberRun::start(agents, 0, "the task", 3, true);
    let msgs = match action {
        MemberAction::RunStep { agent, messages, .. } => {
            assert_eq!(agent, 0);
            messages
        }
        _ => panic!("alice should run"),
    };
    let action = run.on_step(agents, AgentStep::AskPeer { peer: "bob".into(), question: "is it ok?".into() }, msgs);
    let bob_msgs = match action {
        MemberAction::RunStep { agent, messages, .. } => {
            assert_eq!(agent, 1);
            assert!(messages[1].content.contains("Their question: is it ok?"));
            messages
        }
        _ => panic!("bob should run"),
    };
    let action = run.on_step(agents, AgentStep::Done("yes".into()), bob_msgs);
    let alice_msgs = match action {
        MemberAction::RunStep { agent, messages, .. } => {
            assert_eq!(agent, 0);
            assert_eq!(messages.last().unwrap().content, "[Response from bob]: yes");
            messages
        }
        _ => panic!("alice should resume"),
    };
    let action = run.on_step(agents, AgentStep::Done("final".into()), alice_msgs);
    match action {
        MemberAction::Finished(out) => assert_eq!(out, "final"),
        _ => panic!("alice should finish"),
    }
    assert!(run.is_finished());
}

#[test]
fn unknown_peer_and_errors() {
    let t = team();
    let agents = t.agents();
    let (mut run, action) = MemberRun::start(agents, 1, "task", 2, false);
    let msgs = match action {
        MemberAction::RunStep { messages, .. } => messages,
        _ => panic!("bob should run"),
    };
    let action = run.on_step(agents, AgentStep::AskPeer { peer: "carol".into(), question: "?".into() }, msgs);
    let msgs = match action {
        MemberAction::RunStep { agent, messages, .. } => {
            assert_eq!(agent, 1);
            assert!(messages.last().unwrap().content.contains("agent 'carol' not found"));
            messages
        }
        _ => panic!("bob should resume"),
    };
    match run.on_step(agents, AgentStep::Error("boom".into()), msgs) {
        MemberAction::Finished(out) => assert_eq!(out, "[bob error: boom]"),
        _ => panic!("bob should stop"),
    }
}

#[test]
fn rounds_run_out() {
    let t = team();
    let agents = t.agents();
    let (mut run, action) = MemberRun::start(agents, 0, "task", 1, false);
    let msgs = match action {
        MemberAction::RunStep { messages, .. } => messages,
        _ => panic!("alice should run"),
    };
    match run.on_step(agents, AgentStep::TextOutput(String::new()), msgs) {
        MemberAction::Finished(out) => assert_eq!(out, "[alice: max rounds exceeded]"),
        _ => panic!("no round is left"),
    }
    let (_, action) = MemberRun::start(agents, 0, "task", 0, false);
    assert!(matches!(action, MemberAction::Finished(ref s) if s == "[alice: max rounds exceeded]"));
}

#[test]
fn member_tools_name_the_peers() {
    let t = team();
    let defs = t.agents()[0].tool_definitions(None);
    assert_eq!(defs.len(), 2);
    assert_eq!(defs[0].name, "report_result");
    assert_eq!(defs[1].name, "ask_peer");
    assert_eq!(
        defs[1].description,
        "Request information from another team member. Available peers: bob. The coordinator routes your question and feeds the answer back to you."
    );
    let params: serde_json::Value = serde_json::from_str(&defs[1].parameters).unwrap();
    let peers = params["properties"]["peer"]["enum"].as_array().unwrap();
    assert_eq!(peers.len(), 1);
    assert_eq!(peers[0], "bob");
}

#[test]
fn team_outputs_follow_team_order() {
    let t = team();
    let results = team_outputs(t.agents(), vec!["draft".to_string(), "edited".to_string()]);
    assert_eq!(
        results,
        vec![
            ("alice".to_string(), "writer".to_string(), "draft".to_string()),
            ("bob".to_string(), "editor".to_string(), "edited".to_string()),
        ]
    );
    let summaries = team_summaries(&results);
    assert_eq!(joined_summaries(&summaries), "[alice - writer]: draft\n\n[bob - editor]: edited");
}
