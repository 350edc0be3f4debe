use yoakore::adapter::{AgentResponseKind, Usage};
use yoakore::config::{ApiStyle, ModelKind, ModelProvider, ThinkingConfig, ThinkingParam};
use yoakore::event::AgentEvent;
use yoakore::message::{Message, Role, ToolCall, ToolDefinition};
use yoakore::openai::{
    api_error_text, bearer, build_messages, build_request, build_tools, chat_url, classify_sse_line, ByteQueue,
    ChoiceDelta, SseLine, StreamChunk, StreamState, StreamUsage, ToolCallDelta,
};

#[test]
fn urls_and_headers() {
    assert_eq!(chat_url("https://api.x.com/v1//"), "https://api.x.com/v1/chat/completions");
    assert_eq!(chat_url("https://api.x.com/v1"), "https://api.x.com/v1/chat/completions");
    assert_eq!(bearer("sk-1"), "Bearer sk-1");
    assert_eq!(api_error_text("404 Not Found", "nope"), "OpenAI API error 404 Not Found: nope");
}

#[test]
fn messages_are_sent_with_role_names() {
    let mut call_msg = Message::assistant_tool_calls(vec![ToolCall {
        id: "c1".into(),
        name: "f".into(),
        arguments: "{\"a\":1}".into(),
    }]);
    call_msg.content = "".into();
    let msgs = vec![Message::system("s"), Message::user("u"), call_msg, Message::tool_result("c1", "out")];
    let sent = build_messages(&msgs);
    assert_eq!(sent.len(), 4);
    assert_eq!(sent[0].role, "system");
    assert_eq!(sent[1].role, "user");
    assert_eq!(sent[1].content.as_deref(), Some("u"));
    assert_eq!(sent[2].role, "assistant");
    let calls = sent[2].tool_calls.as_ref().unwrap();
    assert_eq!(calls[0].call_type, "function");
    assert_eq!(calls[0].function.arguments, "{\"a\":1}");
    assert_eq!(sent[3].role, "tool");
    assert_eq!(sent[3].tool_call_id.as_deref(), Some("c1"));
}

#[test]
fn request_body_by_style() {
    let mut p = ModelProvider::new(ModelKind::Chat, "n", "http://u", "k", "gpt").expect("random id");
    p.thinking = ThinkingConfig::Budget { tokens: 20000 };
    let req = build_request(&p, &vec![Message::user("hi")], &vec![]);
    assert_eq!(req.model, "gpt");
    assert!(req.tools.is_none());
    assert!(req.stream);
    assert_eq!(req.max_tokens, Some(4096));
    assert_eq!(req.reasoning_effort.as_deref(), Some("high"));
    assert_eq!(req.thinking, Some(ThinkingParam { enabled: true, budget_tokens: None }));

    p.style = ApiStyle::Anthropic;
    let tools = vec![ToolDefinition { name: "t".into(), description: "d".into(), parameters: "{}".into() }];
    let req = build_request(&p, &vec![], &tools);
    assert!(req.reasoning_effort.is_none());
    assert_eq!(req.thinking, Some(ThinkingParam { enabled: true, budget_tokens: Some(20000) }));
    let t = req.tools.unwrap();
    assert_eq!(t.len(), 1);
    assert_eq!(t[0].tool_type, "function");
    assert_eq!(build_tools(&tools)[0].function.name, "t");
}

#[test]
fn sse_lines() {
    assert!(matches!(classify_sse_line("  "), SseLine::Skip));
    assert!(matches!(classify_sse_line(": keep-alive"), SseLine::Skip));
    assert!(matches!(classify_sse_line("event: x"), SseLine::Skip));
    assert!(matches!(classify_sse_line("data: [DONE]\r"), SseLine::Done));
    match classify_sse_line(" data: {\"a\":1} ") {
        SseLine::Data(d) => assert_eq!(d, "{\"a\":1}"),
        _ => panic!("expected data"),
    }
}

fn text_chunk(content: Option<&str>, reasoning: Option<&str>) -> StreamChunk {
    StreamChunk {
        choices: vec![ChoiceDelta {
            content: content.map(|s| s.to_string()),
            reasoning_content: reasoning.map(|s| s.to_string()),
            tool_calls: None,
        }],
        usage: None,
    }
}

#[test]
fn streamed_text_reply() {
    let mut st = StreamState::new();
    let ev = st.apply_chunk(&text_chunk(Some("Hel"), Some("think")));
    assert_eq!(ev.len(), 2);
    assert!(matches!(&ev[0], AgentEvent::Delta(s) if s == "Hel"));
    assert!(matches!(&ev[1], AgentEvent::ThinkingDelta(s) if s == "think"));
    let ev = st.apply_chunk(&text_chunk(Some("lo"), None));
    assert_eq!(ev.len(), 1);
    let mut last = text_chunk(None, None);
    last.choices.clear();
    last.usage = Some(StreamUsage {
        prompt_tokens: Some(3),
        completion_tokens: Some(2),
        total_tokens: None,
        cached_tokens: Some(1),
    });
    assert!(st.apply_chunk(&last).is_empty());
    let r = st.finish();
    assert_eq!(
        r.usage,
        Some(Usage { prompt_tokens: 3, completion_tokens: 2, total_tokens: 0, cached_input_tokens: 1 })
    );
    match r.kind {
        AgentResponseKind::MessageComplete(m) => {
            assert_eq!(m.role, Role::Assistant);
            assert_eq!(m.content, "Hello");
            assert_eq!(m.reasoning_content.as_deref(), Some("think"));
        }
        _ => panic!("expected a message"),
    }
}

#[test]
fn streamed_tool_calls() {
    let mut st = StreamState::new();
    let chunk = StreamChunk {
        choices: vec![ChoiceDelta {
            content: None,
            reasoning_content: None,
            tool_calls: Some(vec![ToolCallDelta {
                index: 1,
                id: Some("c1".into()),
                name: Some("f".into()),
                arguments: Some("{\"a\": ".into()),
            }]),
        }],
        usage: None,
    };
    st.apply_chunk(&chunk);
    let chunk = StreamChunk {
        choices: vec![ChoiceDelta {
            content: None,
            reasoning_content: None,
            tool_calls: Some(vec![ToolCallDelta { index: 1, id: None, name: None, arguments: Some("1}".into()) }]),
        }],
        usage: None,
    };
    st.apply_chunk(&chunk);
    let r = st.finish();
    assert_eq!(r.usage, Some(Usage::default()));
    match r.kind {
        AgentResponseKind::ToolCalls(calls) => {
            assert_eq!(calls.len(), 2);
            // Position 0 received nothing: empty id and name, arguments that do not parse.
            assert_eq!(calls[0].id, "");
            assert_eq!(calls[0].arguments, "{}");
            assert_eq!(calls[1].id, "c1");
            assert_eq!(calls[1].name, "f");
            // The arguments are written back in compact form.
            assert_eq!(calls[1].arguments, "{\"a\":1}");
        }
        _ => panic!("expected tool calls"),
    }
}

#[test]
fn empty_tool_call_list_gives_a_message() {
    let mut st = StreamState::new();
    let chunk = StreamChunk {
        choices: vec![ChoiceDelta { content: Some("x".into()), reasoning_content: None, tool_calls: Some(vec![]) }],
        usage: None,
    };
    st.apply_chunk(&chunk);
    match st.finish().kind {
        AgentResponseKind::MessageComplete(m) => {
            assert_eq!(m.content, "x");
            assert!(m.reasoning_content.is_none());
        }
        _ => panic!("expected a message"),
    }
}

#[test]
fn byte_queue_loses_nothing() {
    let mut q = ByteQueue::new();
    assert!(!q.has_pending());
    let first = q.refill(vec![1, 2, 3, 4, 5], 2);
    assert_eq!(first, vec![1, 2]);
    assert!(q.has_pending());
    assert_eq!(q.take(2), vec![3, 4]);
    assert_eq!(q.take(10), vec![5]);
    assert!(!q.has_pending());
    assert_eq!(q.refill(vec![9], 4), vec![9]);
    assert!(!q.has_pending());
}
