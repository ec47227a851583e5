use sloth_agent::agent::{
    add_usage, arguments_from, parse_arguments, plain_text, usage_fits, ChatAgent, ChatMessage,
    Choice, Completion, Phase, Step, Stored, TokenUsage, ToolCall,
};
use sloth_agent::compact::Compactor;
use sloth_agent::config::{CompactConfig, LlmConfig};
use sloth_agent::json::Json;

fn llm() -> LlmConfig {
    LlmConfig {
        base_url: "http://127.0.0.1:1/v1".to_string(),
        model: "unused".to_string(),
        api_key: None,
        system_prompt: "s".to_string(),
        max_tokens: None,
        timeout_secs: 5,
    }
}

fn settings(enabled: bool, threshold_messages: usize, keep_recent: usize) -> CompactConfig {
    CompactConfig { enabled, threshold_messages, keep_recent, prompt: "p".to_string() }
}

fn usage(n: u32) -> Option<TokenUsage> {
    Some(TokenUsage { prompt_tokens: n, completion_tokens: 1, total_tokens: n + 1 })
}

fn says(text: &str, calls: Vec<ToolCall>) -> Completion {
    Completion {
        usage: usage(2),
        choice: Some(Choice { content: Some(text.to_string()), tool_calls: calls }),
        model: "unused".to_string(),
    }
}

fn call(name: &str) -> ToolCall {
    ToolCall {
        id: "c1".to_string(),
        name: name.to_string(),
        arguments: "{}".to_string(),
        is_function: true,
    }
}

fn user(t: &str) -> Stored {
    Stored::User(t.to_string())
}

fn model(t: &str) -> Stored {
    Stored::Assistant(t.to_string())
}

#[test]
fn compact_should_compact_threshold_logic() {
    let compactor = Compactor::new(&llm(), settings(true, 20, 6));
    assert!(!compactor.should_compact(19));
    assert!(compactor.should_compact(20));
    assert!(compactor.should_compact(40));
    let compactor = Compactor::new(&llm(), settings(false, 20, 6));
    assert!(!compactor.should_compact(100));
    let compactor = Compactor::new(&llm(), settings(true, 2, 10));
    assert!(!compactor.should_compact(2));
    assert!(!Compactor::new(&llm(), settings(true, 0, 0)).should_compact(5));
}

#[test]
fn live_auto_compact_summarizes_history() {
    let compactor = Compactor::new(&llm(), settings(true, 4, 2));
    let mut msgs = vec![
        user("My name is Zed and I like turtles."),
        model("Nice to meet you, Zed."),
        user("I live in Lisbon and it rains a lot."),
        model("Lisbon is lovely in its own way."),
    ];
    assert!(compactor.should_compact(msgs.len()));
    let request = compactor.summarize(&msgs).unwrap();
    assert_eq!(request.model, "unused");
    assert_eq!(
        request.transcript,
        "User: My name is Zed and I like turtles.\nAssistant: Nice to meet you, Zed.\n"
    );
    let compacted = compactor.compact(&mut msgs, "Zed likes turtles and lives in Lisbon.");
    assert!(compacted, "expected a compaction to occur");
    assert_eq!(msgs.len(), 3);
    assert_eq!(
        msgs[0],
        model("[summary of earlier conversation]\nZed likes turtles and lives in Lisbon.")
    );
    assert_eq!(msgs[1], user("I live in Lisbon and it rains a lot."));
    let mut short = vec![user("x")];
    assert!(!compactor.compact(&mut short, "y"));
    assert_eq!(short.len(), 1);
}

#[test]
fn live_memory_injected_into_prompt_recalled() {
    let agent = ChatAgent::with_compactor_and_memory(&llm(), 5, None, true);
    let prompt = agent.system_prompt_for(Some("favorite_color: cobalt"));
    assert_eq!(prompt, "s\n\nfavorite_color: cobalt");
    assert_eq!(agent.system_prompt_for(None), "s");
    let agent = ChatAgent::new(&llm(), 5);
    assert_eq!(agent.system_prompt_for(Some("x")), "s");
}

#[test]
fn agent_keeps_history_turns() {
    let mut agent = ChatAgent::new(&llm(), 3);
    assert!(agent.history("k").is_empty());
    assert!(!agent.record_turn("k", "My favorite color is blue. Remember it.", "ok"));
    agent.record_turn("k", "What is my favorite color?", "blue");
    // The cap leaves the three most recent messages.
    assert_eq!(
        agent.history("k"),
        vec![model("ok"), user("What is my favorite color?"), model("blue")]
    );
    assert!(agent.history("other").is_empty());
    let turn = agent.begin_turn("k", "again?", None, 8);
    assert_eq!(turn.messages.len(), 5);
    assert!(matches!(&turn.messages[0], ChatMessage::System(s) if s == "s"));
    assert!(matches!(&turn.messages[4], ChatMessage::User(s) if s == "again?"));
}

#[test]
fn histories_are_compacted_when_due() {
    let compactor = Compactor::new(&llm(), settings(true, 4, 1));
    let mut agent = ChatAgent::with_compactor(&llm(), 10, Some(compactor));
    assert!(!agent.record_turn("k", "a", "b"));
    assert!(agent.summary_request("k").is_none());
    assert!(!agent.compact_history("k", "s"));
    assert!(agent.record_turn("k", "c", "d"));
    let q = agent.summary_request("k").unwrap();
    assert_eq!(q.transcript, "User: a\nAssistant: b\nUser: c\n");
    assert_eq!(q.max_tokens, 512);
    assert!(q.system.contains("conversation summarizer"));
    assert!(!agent.compact_history("k", ""));
    assert!(agent.compact_history("k", "sum"));
    assert_eq!(agent.history("k"), vec![model("[summary of earlier conversation]\nsum"), model("d")]);
}

#[test]
fn turns_run_tools_until_a_text_comes() {
    let mut agent = ChatAgent::new(&llm(), 10);
    let mut turn = agent.begin_turn("k", "list jobs", None, 2);
    assert!(matches!(turn.next(), Step::Ask));
    let mut other = call("custom");
    other.is_function = false;
    let mut second = call("session_list");
    second.id = "c2".to_string();
    match turn.received(says("let me see", vec![call("scheduler_list_jobs"), other, second])) {
        Step::RunTools(calls) => {
            assert_eq!(calls.len(), 2);
            assert_eq!(calls[0].name, "scheduler_list_jobs");
            assert_eq!(calls[1].name, "session_list");
        }
        other => panic!("{other:?}"),
    }
    assert!(matches!(&turn.messages[2], ChatMessage::ToolCalls(_, calls) if calls.len() == 3));
    assert!(matches!(turn.phase, Phase::Running { done: 0, .. }));
    turn.tool_result("{\"jobs\":[]}");
    assert!(matches!(turn.phase, Phase::Running { done: 1, .. }));
    turn.tool_result("[]");
    assert!(matches!(turn.phase, Phase::Ready));
    assert_eq!(turn.messages.len(), 5);
    assert!(matches!(&turn.messages[3], ChatMessage::ToolResult(id, _) if id == "c1"));
    assert!(matches!(&turn.messages[4], ChatMessage::ToolResult(id, t) if id == "c2" && t == "[]"));
    assert!(matches!(turn.next(), Step::Ask));
    match turn.received(says("  None.  ", vec![])) {
        Step::Finish(t) => assert_eq!(t, "None."),
        other => panic!("{other:?}"),
    }
    let (reply, due) = agent.reply_with_tools("k", "list jobs", &turn).unwrap();
    assert!(!due);
    assert_eq!(reply.text, "None.");
    assert_eq!(reply.model, "unused");
    assert_eq!(reply.usage.unwrap().prompt_tokens, 4);
    assert_eq!(agent.history("k"), vec![user("list jobs"), model("None.")]);
}

#[test]
fn turns_stop_at_their_cap() {
    let mut agent = ChatAgent::new(&llm(), 10);
    let mut turn = agent.begin_turn("k", "x", None, 1);
    assert!(matches!(turn.next(), Step::Ask));
    turn.received(says("", vec![call("a")]));
    turn.tool_result("r");
    match turn.next() {
        Step::Finish(t) => assert_eq!(t, "I reached the maximum number of tool steps; stopping here."),
        other => panic!("{other:?}"),
    }
    let (reply, _) = agent.reply_with_tools("k", "x", &turn).unwrap();
    assert_eq!(reply.text, "I reached the maximum number of tool steps; stopping here.");
}

#[test]
fn turns_fail_without_choices() {
    let mut agent = ChatAgent::new(&llm(), 10);
    let mut turn = agent.begin_turn("k", "x", None, 8);
    turn.next();
    let none = Completion { usage: None, choice: None, model: "m".to_string() };
    assert_eq!(plain_text(&none), "");
    match turn.received(none) {
        Step::Fail(e) => assert_eq!(e, "no choices in completion response"),
        other => panic!("{other:?}"),
    }
    assert_eq!(
        agent.reply_with_tools("k", "x", &turn).unwrap_err(),
        "no choices in completion response"
    );
    let mut turn = agent.begin_turn("k", "x", None, 8);
    turn.next();
    turn.failed("chat completion request failed: boom");
    assert_eq!(
        agent.reply_with_tools("k", "x", &turn).unwrap_err(),
        "chat completion request failed: boom"
    );
    assert!(agent.history("k").is_empty());
    assert_eq!(plain_text(&says(" hi ", vec![])), "hi");
    let mut c = says(" hi ", vec![]);
    c.model = "other".to_string();
    let (r, _) = agent.reply("k", "hello", &c);
    assert_eq!((r.text.as_str(), r.model.as_str()), ("hi", "other"));
    assert_eq!(r.usage, usage(2));
    assert_eq!(agent.history("k"), vec![user("hello"), model("hi")]);
}

#[test]
fn usage_adds_up() {
    assert_eq!(add_usage(usage(1), usage(2)).unwrap().total_tokens, 5);
    assert_eq!(add_usage(None, usage(2)), usage(2));
    assert!(add_usage(None, None).is_none());
    assert!(!usage_fits(&usage(u32::MAX - 1), &usage(2)));
}

#[test]
fn arguments_are_parsed_or_null() {
    assert_eq!(parse_arguments(""), Json::Null);
    assert_eq!(parse_arguments("not json"), Json::Null);
    assert_eq!(parse_arguments("{\"b\":-1,\"a\":[true,1.50,18446744073709551615]}"), Json::Object(vec![
        ("b".to_string(), Json::Int(-1)),
        ("a".to_string(), Json::Array(vec![
            Json::Bool(true),
            Json::Real("1.5".to_string()),
            Json::UInt(u64::MAX),
        ])),
    ]));
    assert_eq!(arguments_from("x", None), Json::Null);
    assert_eq!(arguments_from("", Some(Json::UInt(1))), Json::Null);
    assert_eq!(arguments_from("1", Some(Json::UInt(1))), Json::UInt(1));
}
