use yoakore::adapter::AgentResponse;
use yoakore::agent_loop::{tool_error_text, tool_unavailable_text, AgentRun, LoopAction};
use yoakore::event::AgentEvent;
use yoakore::hook::{chain_after_first, ChainStep, HookResult};
use yoakore::message::{Message, Role, ToolCall};
use yoakore::state::{Conversation, Session};

#[test]
fn conversation_basics() {
    let mut c = Conversation::with_system("sys");
    assert!(c.is_empty());
    c.add_user("u1");
    c.add_assistant("a1");
    c.add_user("u2");
    assert_eq!(c.len(), 3);
    let all = c.messages_with_system();
    assert_eq!(all.len(), 4);
    assert_eq!(all[0].role, Role::System);
    assert_eq!(all[0].content, "sys");
    c.truncate(2);
    assert_eq!(c.len(), 2);
    assert_eq!(c.last().unwrap().content, "u2");
    assert_eq!(c.system_prompt(), Some("sys"));
    c.clear();
    assert!(c.is_empty());
    assert_eq!(Conversation::new().messages_with_system().len(), 0);
}

#[test]
fn session_metadata_reads_back_what_was_written() {
    let mut s = Session::new().expect("random id and clock");
    assert_eq!(s.get_metadata("k"), None);
    s.set_metadata("k", "v1");
    s.set_metadata("other", "x");
    s.set_metadata("k", "v2");
    assert_eq!(s.get_metadata("k"), Some("v2"));
    assert_eq!(s.get_metadata("other"), Some("x"));
    assert_eq!(s.id.len(), 36);
}

#[test]
fn loop_ends_with_the_final_reply() {
    let (mut run, step) = AgentRun::start(3, false);
    assert!(matches!(step.events[0], AgentEvent::Thinking));
    assert!(matches!(step.action, LoopAction::CallLlm));
    let mut msgs = vec![Message::user("hi")];
    let step = run.on_llm_reply(AgentResponse::message_complete(Message::assistant("hello")), &mut msgs);
    assert!(matches!(step.events[0], AgentEvent::Done));
    assert!(matches!(step.action, LoopAction::Finish(Ok(ref s)) if s == "hello"));
    assert_eq!(msgs.len(), 2);
    assert!(run.is_finished());
}

#[test]
fn loop_runs_tools_then_answers() {
    let (mut run, _) = AgentRun::start(2, false);
    let mut msgs = vec![Message::user("hi")];
    let call = ToolCall { id: "c1".into(), name: "f".into(), arguments: "{}".into() };
    let step = run.on_llm_reply(AgentResponse::tool_calls(vec![call]), &mut msgs);
    assert!(matches!(step.events[0], AgentEvent::ToolCallStart(_)));
    assert!(matches!(step.action, LoopAction::ExecuteTool(ref c) if c.id == "c1"));
    let step = run.on_tool_output("out".into(), &mut msgs);
    assert_eq!(msgs.len(), 3);
    assert_eq!(msgs[2].role, Role::Tool);
    assert_eq!(msgs[2].content, "out");
    assert!(matches!(step.action, LoopAction::CallLlm));
    assert_eq!(run.round(), 1);
    let step = run.on_llm_reply(AgentResponse::tool_calls(vec![]), &mut msgs);
    // The second round was the last one.
    assert!(matches!(step.action, LoopAction::Finish(Ok(ref s)) if s.is_empty()));
}

#[test]
fn hooks_can_abort_or_skip() {
    let (mut run, step) = AgentRun::start(1, true);
    assert!(matches!(step.action, LoopAction::BeforeLlmHook));
    let step = run.on_before_llm(HookResult::Abort("stop".into()));
    assert!(matches!(step.action, LoopAction::Finish(Err(ref s)) if s == "stop"));
    assert_eq!(tool_unavailable_text("x"), "Tool 'x' not available");
    assert_eq!(tool_error_text("bad"), "Tool error: bad");
    assert!(matches!(chain_after_first(HookResult::Continue), ChainStep::RunSecond));
    assert!(matches!(chain_after_first(HookResult::Skip), ChainStep::Stop(HookResult::Skip)));
}

#[test]
fn session_ids_are_fresh_hyphenated_uuids() {
    let a = Session::new().expect("random id and clock");
    let b = Session::with_system("sys").expect("random id and clock");
    assert_eq!(b.conversation.system_prompt(), Some("sys"));
    // Created after 2020-09-13 (1.6e12 ms), in milliseconds, not seconds or nanoseconds.
    assert!(a.created_at > 1_600_000_000_000 && a.created_at < 100_000_000_000_000);
    for id in [&a.id, &b.id] {
        assert_eq!(id.chars().count(), 36);
        for (i, c) in id.chars().enumerate() {
            if i == 8 || i == 13 || i == 18 || i == 23 {
                assert_eq!(c, '-');
            } else {
                assert!(c.is_ascii_digit() || ('a'..='f').contains(&c));
            }
        }
    }
    assert_ne!(a.id, b.id);
}

#[test]
fn session_and_provider_with_given_id() {
    let s = Session::with_id("abc".to_string(), 42);
    assert_eq!(s.id, "abc");
    assert_eq!(s.created_at, 42);
    assert!(s.metadata.is_empty());
}
