use sloth_agent::a2a::{
    bearer, card_url, result_of, task_text, A2aRegistry, Artifact, Message, Part, SendResponse, Task,
    TaskState, TaskStatus,
};
use sloth_agent::config::{A2aAgentConfig, McpServerConfig};
use sloth_agent::json::Json;
use sloth_agent::mcp::{
    auth_header, call_arguments, call_result, extract_text, qualify, split_qualified, McpRegistry,
    McpTool,
};

fn text(s: &str) -> Json {
    Json::Str(s.to_string())
}

fn object(members: Vec<(&str, Json)>) -> Json {
    Json::Object(members.into_iter().map(|(k, v)| (k.to_string(), v)).collect())
}

fn server(name: &str, url: &str) -> McpServerConfig {
    McpServerConfig { name: name.to_string(), url: url.to_string(), token: None, timeout_secs: 5 }
}

fn agent(name: &str, url: &str) -> A2aAgentConfig {
    A2aAgentConfig { name: name.to_string(), url: url.to_string(), token: None, timeout_secs: 10 }
}

fn echo() -> McpTool {
    McpTool { name: "echo".to_string(), description: None, input_schema: object(vec![]) }
}

fn task(id: &str, state: TaskState, message: Option<Message>, artifacts: Option<Vec<Artifact>>) -> Task {
    Task { id: id.to_string(), status: TaskStatus { state, message }, artifacts }
}

#[test]
fn task_text_extracts_status_message() {
    let m = Message { parts: vec![Part::Text("hello there".to_string())] };
    let t = task("t1", TaskState::Completed, Some(m), None);
    assert_eq!(task_text(&t), "hello there");
}

#[test]
fn task_text_falls_back_to_state() {
    let t = task("t9", TaskState::Failed, None, None);
    let text = task_text(&t);
    assert!(text.contains("t9"));
}

#[test]
fn task_text_joins_artifacts() {
    let a = Artifact { parts: vec![Part::Text("one".to_string()), Part::Other] };
    let b = Artifact { parts: vec![Part::Text("two".to_string())] };
    let t = task("t2", TaskState::Completed, None, Some(vec![a, b]));
    assert!(task_text(&t).contains("one"));
    assert!(task_text(&t).contains("two"));
}

#[test]
fn answers_carry_the_state_of_tasks_only() {
    let t = task("t", TaskState::InputRequired, None, None);
    let r = result_of(&SendResponse::Task(t));
    assert_eq!(r.state.as_deref(), Some("InputRequired"));
    let m = Message { parts: vec![Part::Other, Part::Text("hi".to_string())] };
    let r = result_of(&SendResponse::Message(m));
    assert_eq!(r.text, "hi");
    assert!(r.state.is_none());
    let r = result_of(&SendResponse::Message(Message { parts: vec![] }));
    assert_eq!(r.text, "");
}

#[test]
fn cards_and_tokens() {
    assert_eq!(card_url("http://x/"), card_url("http://x"));
    assert_eq!(bearer(Some("tok")), Some("tok"));
    assert_eq!(bearer(None), None);
}

#[test]
fn qualify_and_split_roundtrip() {
    assert_eq!(qualify("weather", "forecast"), "mcp_weather__forecast");
    assert_eq!(qualify("my-srv", "tool"), "mcp_my_srv__tool");
    let (s, t) = split_qualified("mcp_weather__forecast").unwrap();
    assert_eq!(s, "weather");
    assert_eq!(t, "forecast");
    let (s, t) = split_qualified("mcp_my_srv__tool").unwrap();
    assert_eq!(s, "my-srv");
    assert_eq!(t, "tool");
    assert!(split_qualified("not_mcp").is_err());
    assert!(split_qualified("mcp_no_double_underscore").is_err());
}

#[test]
fn names_that_do_not_split_say_why() {
    assert_eq!(split_qualified("x").unwrap_err(), "not a qualified MCP tool name: x");
    assert_eq!(split_qualified("mcp_x").unwrap_err(), "malformed MCP tool name: mcp_x");
}

#[test]
fn extract_text_from_content_array() {
    let v = vec![
        object(vec![("type", text("text")), ("text", text("hello"))]),
        object(vec![("type", text("image")), ("data", text("..."))]),
        object(vec![("type", text("text")), ("text", text("world"))]),
    ];
    assert_eq!(extract_text(&v), "hello\n[image content]\nworld");
}

#[test]
fn results_tell_errors() {
    let content = Json::Array(vec![object(vec![("type", text("text")), ("text", text("boom"))])]);
    let r = call_result(&object(vec![("content", content), ("isError", Json::Bool(true))]));
    assert_eq!(r.text, "boom");
    assert!(r.is_error);
    let r = call_result(&object(vec![]));
    assert_eq!(r.text, "");
    assert!(!r.is_error);
}

#[test]
fn arguments_become_objects() {
    assert_eq!(call_arguments(Json::Null), object(vec![("value", Json::Null)]));
    let o = object(vec![("a", Json::UInt(1))]);
    assert_eq!(call_arguments(object(vec![("a", Json::UInt(1))])), o);
    assert_eq!(call_arguments(text("x")), object(vec![("value", text("x"))]));
}

#[test]
fn tokens_become_headers() {
    assert!(auth_header(&None).is_none());
    assert!(auth_header(&Some("abc".to_string())).unwrap().contains("abc"));
}

#[test]
fn mcp_connect_list_and_call_tool() {
    let mut reg = McpRegistry::new();
    reg.add_server(&server("mock", "http://127.0.0.1/mcp"), vec![echo()]);
    let tools = reg.routed_tools();
    assert_eq!(tools.len(), 1);
    assert_eq!(tools[0].qualified_name, "mcp_mock__echo");
    let call = reg
        .call_qualified("mcp_mock__echo", object(vec![("message", text("hi"))]))
        .unwrap();
    assert_eq!(call.server, "mock");
    assert_eq!(call.tool, "echo");
    assert_eq!(call.arguments, object(vec![("message", text("hi"))]));
    let raw = object(vec![(
        "content",
        Json::Array(vec![object(vec![("type", text("text")), ("text", text("echo:hi"))])]),
    )]);
    let result = call_result(&raw);
    assert!(!result.is_error);
    assert_eq!(result.text, "echo:hi");
    assert_eq!(
        reg.call_qualified("mcp_other__x", Json::Null).unwrap_err(),
        "unknown MCP server: other"
    );
}

#[test]
fn every_routed_tool_is_called_by_its_name() {
    let mut reg = McpRegistry::new();
    for name in ["a", "a__b", "my_server", "my server"] {
        reg.add_server(&server(name, "http://127.0.0.1/mcp"), vec![echo()]);
    }
    let tools = reg.routed_tools();
    assert_eq!(tools.len(), 4);
    for (i, t) in tools.iter().enumerate() {
        let call = reg.call_qualified(&t.qualified_name, Json::Null).unwrap();
        // Of two tools with one name the first is called.
        let first = tools.iter().position(|o| o.qualified_name == t.qualified_name).unwrap();
        assert_eq!(call.server, tools[first].server);
        assert_eq!(call.tool, tools[first].tool);
        assert!(first <= i);
    }
}

#[test]
fn mcp_hot_reload_adds_and_removes_servers() {
    let mut reg = McpRegistry::new();
    let mut r = reg.begin_reload(&vec![server("mock", "http://127.0.0.1/mcp")]);
    assert_eq!(reg.next(&mut r), Some(0));
    reg.settle(&mut r, Ok(vec![echo()]));
    assert_eq!(reg.next(&mut r), None);
    assert_eq!(r.report.added, vec!["mock".to_string()]);
    assert_eq!(reg.server_count(), 1);
    assert_eq!(reg.routed_tools().len(), 1);
    let mut r = reg.begin_reload(&vec![]);
    assert_eq!(reg.next(&mut r), None);
    assert_eq!(r.report.removed, vec!["mock".to_string()]);
    assert_eq!(reg.server_count(), 0);
    assert!(reg.routed_tools().is_empty());
}

#[test]
fn mcp_reload_keeps_reconnects_and_reports() {
    let mut reg = McpRegistry::new();
    reg.add_server(&server("keep", "http://a"), vec![echo()]);
    reg.add_server(&server("move", "http://b"), vec![echo()]);
    let desired = vec![server("keep", "http://a"), server("move", "http://c"), server("bad", "http://d")];
    let mut r = reg.begin_reload(&desired);
    assert_eq!(r.report.removed, vec!["move".to_string()]);
    assert_eq!(reg.next(&mut r), Some(1));
    reg.settle(&mut r, Ok(vec![]));
    assert_eq!(reg.next(&mut r), Some(2));
    reg.settle(&mut r, Err("refused".to_string()));
    assert_eq!(reg.next(&mut r), None);
    assert_eq!(r.report.added, vec!["move".to_string()]);
    assert_eq!(r.report.failed, vec![("bad".to_string(), "refused".to_string())]);
    assert_eq!(reg.server_names(), vec!["keep".to_string(), "move".to_string()]);
    assert_eq!(reg.tool_count("keep"), 1);
    assert_eq!(reg.tool_count("move"), 0);
}

#[test]
fn a2a_connect_send_and_hot_reload() {
    let mut reg = A2aRegistry::new();
    let mut r = reg.begin_reload(&vec![agent("mock", "http://127.0.0.1")]);
    assert_eq!(reg.next(&mut r), Some(0));
    reg.settle(&mut r, Ok(()));
    assert_eq!(reg.next(&mut r), None);
    assert_eq!(r.report.added, vec!["mock".to_string()]);
    assert_eq!(reg.agent_count(), 1);
    assert_eq!(reg.agent_names(), vec!["mock".to_string()]);
    assert!(reg.send("mock").is_ok());
    let m = Message { parts: vec![Part::Text("You said: hello a2a".to_string())] };
    let result = result_of(&SendResponse::Task(task("1", TaskState::Completed, Some(m), None)));
    assert_eq!(result.text, "You said: hello a2a");
    assert_eq!(result.state.as_deref(), Some("Completed"));
    let mut r = reg.begin_reload(&vec![]);
    assert_eq!(reg.next(&mut r), None);
    assert_eq!(r.report.removed, vec!["mock".to_string()]);
    assert_eq!(reg.agent_count(), 0);
    assert_eq!(reg.send("mock").unwrap_err(), "unknown A2A agent: mock");
}
