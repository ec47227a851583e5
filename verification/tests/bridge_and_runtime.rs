use sloth_agent::agent::parse_arguments;
use sloth_agent::bridge::{Envelope, Inbound, InboundMessage, SendTextPayload, SubscribePayload};
use sloth_agent::cli::{log_format, parse_config_arg, LogFormat};
use sloth_agent::config::{A2aAgentConfig, BridgeConfig, Config, HitlConfig, McpServerConfig};
use sloth_agent::hitl::{HitlBroker, Outcome};
use sloth_agent::json::Json;
use sloth_agent::runtime::{
    build_send_text, format_reply_target, heartbeat_interval, read_timeout, reconnect_delay,
    rescan_interval, resolve_reply_target, run_next, startup, tick_interval, AgentContext, Connection,
    Event, RunEvent, RunStep, Step,
};
use sloth_agent::scheduler::FiredJob;
use sloth_agent::tools::Action;

fn envelope(message_type: &str, payload: &str) -> Envelope {
    Envelope {
        v: 1,
        id: "srv-1".to_string(),
        message_type: message_type.to_string(),
        channel: "test-channel".to_string(),
        account_id: None,
        payload: parse_arguments(payload),
        ts: None,
    }
}

fn message(text: &str, reply_to: Option<&str>) -> InboundMessage {
    InboundMessage {
        message_id: "m-1".to_string(),
        chat_id: "c-1".to_string(),
        sender_id: "u1".to_string(),
        sender_name: None,
        msg_type: "text".to_string(),
        text: text.to_string(),
        timestamp: 7,
        context_token: Some("tok".to_string()),
        media_url: None,
        reply_to_message_id: Some("m-0".to_string()),
        reply_to: reply_to.map(|s| s.to_string()),
    }
}

fn broker() -> HitlBroker {
    HitlBroker::new(HitlConfig { enabled: true, timeout_secs: 9, confirm_tools: vec![] })
}

fn job(tenant: Option<&str>, reply_to: Option<&str>) -> FiredJob {
    FiredJob {
        id: "job-1".to_string(),
        name: "daily".to_string(),
        prompt: "say hi".to_string(),
        session_id: "default".to_string(),
        tenant_id: tenant.map(|s| s.to_string()),
        reply_to: reply_to.map(|s| s.to_string()),
        fired_at: 60,
    }
}

#[test]
fn envelopes_are_written_in_camel_case() {
    let e = Envelope {
        v: 1,
        id: "x".to_string(),
        message_type: "send_text".to_string(),
        channel: "c".to_string(),
        account_id: Some("a".to_string()),
        payload: Json::Null,
        ts: Some(5),
    };
    assert_eq!(
        e.to_text(),
        r#"{"v":1,"id":"x","type":"send_text","channel":"c","accountId":"a","payload":null,"ts":5}"#
    );
    let e = envelope("pong", "{}");
    assert_eq!(
        e.to_text(),
        r#"{"v":1,"id":"srv-1","type":"pong","channel":"test-channel","payload":{}}"#
    );
}

#[test]
fn outgoing_envelopes_have_fresh_ids() {
    let a = Envelope::outgoing("ping", "c", Json::Null);
    let b = Envelope::outgoing("ping", "c", Json::Null);
    assert_ne!(a.id, b.id);
    assert!(a.id.starts_with("sloth-"));
    assert_eq!(a.id.len(), 38);
    assert_eq!(a.with_account("acc").account_id.as_deref(), Some("acc"));
}

#[test]
fn payloads_leave_out_what_is_missing() {
    let p = SendTextPayload { to: "u", text: "hi", reply_to_message_id: None, context_token: None };
    assert_eq!(p.to_json(), parse_arguments(r#"{"text":"hi","to":"u"}"#));
    let p = SendTextPayload {
        to: "u",
        text: "hi",
        reply_to_message_id: Some("m"),
        context_token: Some("t"),
    };
    assert_eq!(
        p.to_json(),
        parse_arguments(r#"{"contextToken":"t","replyToMessageId":"m","text":"hi","to":"u"}"#)
    );
    let s = SubscribePayload { channel: "c", account_id: "a" };
    assert_eq!(s.to_json(), parse_arguments(r#"{"accountId":"a","channel":"c"}"#));
}

#[test]
fn messages_are_read() {
    let text = r#"{"messageId":"m-1","chatId":"c-1","senderId":"u","senderName":"Tester","msgType":"text","text":"Hello!","timestamp":1719400000000,"extra":1}"#;
    match envelope("inbound_message", text).into_event() {
        Inbound::Message(m) => {
            assert_eq!(m.message_id, "m-1");
            assert_eq!(m.sender_name.as_deref(), Some("Tester"));
            assert_eq!(m.text, "Hello!");
            assert_eq!(m.timestamp, 1_719_400_000_000);
            assert!(m.reply_to.is_none());
        }
        other => panic!("{other:?}"),
    }
    let text = r#"{"messageId":"m","senderId":"u","msgType":"image","timestamp":1,"replyTo":"user:u","mediaUrl":null}"#;
    match envelope("inbound_message", text).into_event() {
        Inbound::Message(m) => {
            assert_eq!(m.text, "");
            assert_eq!(m.chat_id, "");
            assert_eq!(m.reply_to.as_deref(), Some("user:u"));
        }
        other => panic!("{other:?}"),
    }
}

#[test]
fn malformed_messages_are_other() {
    for text in [
        r#"{"messageId":"m","senderId":"u","msgType":"text"}"#,
        r#"{"messageId":"m","senderId":"u","msgType":"text","timestamp":-1}"#,
        r#"{"messageId":"m","senderId":"u","msgType":"text","timestamp":1.5}"#,
        r#"{"messageId":"m","senderId":"u","msgType":"text","timestamp":1,"text":null}"#,
        r#"{"messageId":1,"senderId":"u","msgType":"text","timestamp":1}"#,
        "null",
    ] {
        match envelope("inbound_message", text).into_event() {
            Inbound::Other { message_type, .. } => assert_eq!(message_type, "inbound_message"),
            other => panic!("{text}: {other:?}"),
        }
    }
}

#[test]
fn other_envelopes_are_read() {
    match envelope("channel_status", r#"{"status":"connected","detail":null}"#).into_event() {
        Inbound::Status(s) => {
            assert_eq!(s.status, "connected");
            assert!(s.detail.is_none());
        }
        other => panic!("{other:?}"),
    }
    assert!(matches!(envelope("channel_status", "{}").into_event(), Inbound::Other { .. }));
    match envelope("welcome", r#"{"version":"test-1.0","channels":[]}"#).into_event() {
        Inbound::Welcome(w) => assert_eq!(w.version.as_deref(), Some("test-1.0")),
        other => panic!("{other:?}"),
    }
    match envelope("welcome", "null").into_event() {
        Inbound::Welcome(w) => assert!(w.version.is_none()),
        other => panic!("{other:?}"),
    }
    match envelope("send_ack", r#"{"requestId":"r","messageId":"out-1"}"#).into_event() {
        Inbound::SendAck(a) => {
            assert_eq!(a.request_id, "r");
            assert_eq!(a.message_id.as_deref(), Some("out-1"));
        }
        other => panic!("{other:?}"),
    }
    match envelope("send_ack", "[]").into_event() {
        Inbound::SendAck(a) => assert_eq!(a.request_id, ""),
        other => panic!("{other:?}"),
    }
    match envelope("send_ack", r#"["r"]"#).into_event() {
        Inbound::SendAck(a) => assert_eq!(a.request_id, "r"),
        other => panic!("{other:?}"),
    }
    match envelope("send_error", r#"{"requestId":"r","code":"403"}"#).into_event() {
        Inbound::SendError(e) => {
            assert_eq!(e.code, "unknown");
            assert_eq!(e.message, "malformed send_error");
        }
        other => panic!("{other:?}"),
    }
    match envelope("send_error", r#"{"requestId":"r","code":"403","message":"no"}"#).into_event() {
        Inbound::SendError(e) => assert_eq!(e.message, "no"),
        other => panic!("{other:?}"),
    }
    assert!(matches!(envelope("pong", "null").into_event(), Inbound::Pong));
    assert!(matches!(envelope("x", "null").into_event(), Inbound::Other { .. }));
}

#[test]
fn reply_targets() {
    assert_eq!(format_reply_target("mattermost", "u1"), "user:u1");
    assert_eq!(format_reply_target("mattermost", "user:u1"), "user:u1");
    assert_eq!(format_reply_target("other", "u1"), "u1");
    assert_eq!(resolve_reply_target("mattermost", &message("x", Some("channel:c"))), "channel:c");
    assert_eq!(resolve_reply_target("mattermost", &message("x", Some(""))), "user:u1");
    assert_eq!(resolve_reply_target("other", &message("x", None)), "u1");
}

#[test]
fn bridge_round_trip_replies_to_inbound_message() {
    let mut c = Connection::new("test-channel", "default");
    let mut hitl = broker();
    let sub = c.subscribe();
    assert_eq!(sub.message_type, "subscribe");
    assert_eq!(sub.payload.get_str("channel").as_deref(), Some("test-channel"));
    assert_eq!(sub.payload.get_str("accountId").as_deref(), Some("default"));
    assert!(matches!(
        c.handle(Event::Envelope(envelope("welcome", r#"{"version":"test-1.0"}"#)), &mut hitl, 9),
        Step::Wait
    ));
    let text = r#"{"messageId":"m-1","chatId":"c-1","senderId":"user-123@im.test","senderName":"Tester","msgType":"text","text":" Hello! In one short sentence, who are you? ","timestamp":1719400000000}"#;
    let p = match c.handle(Event::Envelope(envelope("inbound_message", text)), &mut hitl, 9) {
        Step::Answer(p) => p,
        other => panic!("{other:?}"),
    };
    assert_eq!(p.text, "Hello! In one short sentence, who are you?");
    assert_eq!(p.principal.tenant_id, "test-channel:default");
    assert_eq!(p.principal.sender_id, "user-123@im.test");
    let e = c.deliver(&p, Some("I am a sloth.")).unwrap();
    assert_eq!(e.message_type, "send_text");
    assert_eq!(e.channel, "test-channel");
    assert_eq!(e.account_id.as_deref(), Some("default"));
    assert_eq!(e.payload.get_str("to").as_deref(), Some("user-123@im.test"));
    assert_eq!(e.payload.get_str("text").as_deref(), Some("I am a sloth."));
    let sorry = c.deliver(&p, None).unwrap();
    assert!(sorry.payload.get_str("text").unwrap().contains("couldn't generate a reply"));
}

#[test]
fn only_text_is_answered() {
    let mut c = Connection::new("ch", "a");
    let mut hitl = broker();
    assert!(matches!(c.handle_message(message(" \n", None), &mut hitl), Step::Wait));
    let mut m = message("x", None);
    m.msg_type = "image".to_string();
    assert!(matches!(c.handle_message(m, &mut hitl), Step::Wait));
    let mut m = message("x", None);
    m.msg_type = "markdown".to_string();
    assert!(matches!(c.handle_message(m, &mut hitl), Step::Answer(_)));
}

#[test]
fn a_message_answers_the_last_question() {
    let mut c = Connection::new("mattermost", "a");
    let mut hitl = broker();
    let p = hitl.new_pending("mcp_reload", "reload remote MCP servers", "default", "u1");
    hitl.register(&p);
    let id = p.id.clone();
    let e = match c.handle(Event::Pending(p), &mut hitl, 9) {
        Step::Send(e) => e,
        other => panic!("{other:?}"),
    };
    assert_eq!(
        e.payload.get_str("text").unwrap(),
        format!(
            "🔑 Approval needed for `mcp_reload` (id `{id}`):\nreload remote MCP servers\nReply yes/no (auto-denies in 9s)."
        )
    );
    assert_eq!(e.payload.get_str("to").as_deref(), Some("mattermost"));
    match c.handle_message(message("YES", None), &mut hitl) {
        Step::Decide { id: decided, outcome, note } => {
            assert_eq!(decided, id);
            assert_eq!(outcome, Outcome::Approved);
            assert_eq!(note.payload.get_str("text").as_deref(), Some("✅ Approved."));
            assert_eq!(note.payload.get_str("to").as_deref(), Some("user:u1"));
            assert_eq!(note.payload.get_str("replyToMessageId").as_deref(), Some("m-0"));
            assert_eq!(note.payload.get_str("contextToken").as_deref(), Some("tok"));
        }
        other => panic!("{other:?}"),
    }
    assert!(matches!(c.handle_message(message("yes", None), &mut hitl), Step::Answer(_)));
}

#[test]
fn other_replies_refuse_and_late_ones_are_prompts() {
    let mut c = Connection::new("ch", "a");
    let mut hitl = broker();
    let p = hitl.new_pending("t", "s", "default", "u1");
    hitl.register(&p);
    c.ask_hitl(p, 9);
    match c.handle_message(message("maybe later", None), &mut hitl) {
        Step::Decide { outcome, note, .. } => {
            assert_eq!(outcome, Outcome::Denied);
            assert_eq!(note.payload.get_str("text").as_deref(), Some("🚫 Denied."));
        }
        other => panic!("{other:?}"),
    }
    let p = hitl.new_pending("t", "s", "default", "u1");
    c.ask_hitl(p, 9);
    assert!(matches!(c.handle_message(message("yes", None), &mut hitl), Step::Answer(_)));
}

#[test]
fn due_jobs_become_prompts() {
    let c = Connection::new("mattermost", "a");
    let p = c.handle_fired_job(job(Some("t1"), Some("u9")));
    assert_eq!(p.text, "[scheduled task: daily]\nsay hi");
    assert_eq!(p.principal.tenant_id, "t1");
    assert_eq!(p.principal.sender_id, "u9");
    assert_eq!(p.to, "user:u9");
    assert!(c.deliver(&p, None).is_none());
    assert!(c.deliver(&p, Some("hi")).is_some());
    let p = c.handle_fired_job(job(None, None));
    assert_eq!(p.principal.tenant_id, "");
    assert_eq!(p.principal.sender_id, "default");
    assert_eq!(p.to, "mattermost");
}

#[test]
fn connections_end_and_reconnect() {
    let mut c = Connection::new("ch", "a");
    let mut hitl = broker();
    assert!(matches!(c.handle(Event::Closed, &mut hitl, 1), Step::End));
    assert!(matches!(c.handle(Event::TimedOut, &mut hitl, 1), Step::End));
    assert!(matches!(c.handle(Event::Failed, &mut hitl, 1), Step::End));
    assert!(matches!(c.handle(Event::Noise, &mut hitl, 1), Step::Wait));
    assert!(matches!(c.handle(Event::Malformed, &mut hitl, 1), Step::Wait));
    assert_eq!(c.ping().message_type, "ping");
    let mut b = BridgeConfig::default();
    b.reconnect_ms = 10;
    b.reconnect_max_ms = 30_000;
    assert_eq!(run_next(RunEvent::Started, &b), RunStep::Connect);
    assert_eq!(run_next(RunEvent::Disconnected, &b), RunStep::Wait(1000));
    assert_eq!(run_next(RunEvent::Waited, &b), RunStep::Connect);
    assert_eq!(run_next(RunEvent::Shutdown, &b), RunStep::Stop);
    b.reconnect_ms = 60_000;
    assert_eq!(reconnect_delay(&b), 30_000);
    b.reconnect_max_ms = 5;
    assert_eq!(reconnect_delay(&b), 5);
}

#[test]
fn intervals() {
    assert_eq!(read_timeout(0), 60);
    assert_eq!(read_timeout(25_000), 75);
    assert_eq!(read_timeout(20_001), 60);
    assert_eq!(tick_interval(0), 1);
    assert_eq!(tick_interval(5), 5);
    assert_eq!(heartbeat_interval(0), None);
    assert_eq!(heartbeat_interval(5), Some(5));
    assert_eq!(rescan_interval(&None, 5), None);
    assert_eq!(rescan_interval(&Some("d".to_string()), 0), None);
    assert_eq!(rescan_interval(&Some("d".to_string()), 5), Some(5));
}

#[test]
fn runtime_auto_picks_model_from_catalog() {
    let mut cfg = Config::default();
    cfg.llm.model = "WRONG-FALLBACK".to_string();
    cfg.models.dir = Some("/models".to_string());
    cfg.models.strategy = "best_score".to_string();
    let ctx = AgentContext::build(&cfg, Some("glm-5.2".to_string()));
    assert_eq!(ctx.model, "glm-5.2", "catalog should override llm.model");
    assert_eq!(ctx.max_tool_steps, 8);
    assert_eq!(ctx.router.catalog.dir(), Some("/models"));
    let ctx = AgentContext::build(&cfg, None);
    assert_eq!(ctx.model, "WRONG-FALLBACK");
}

#[test]
fn startup_connects_what_is_configured() {
    let mut cfg = Config::default();
    cfg.skills.dir = None;
    cfg.mcp.servers = vec![];
    cfg.a2a.agents = vec![];
    assert!(startup(&cfg).is_empty());
    cfg.mcp.servers = vec![McpServerConfig::default()];
    cfg.skills.dir = Some("s".to_string());
    cfg.a2a.agents = vec![A2aAgentConfig::default()];
    let v = startup(&cfg);
    assert_eq!(v.len(), 3);
    assert!(matches!(v[0], Action::ReloadMcp(_)));
    assert!(matches!(v[1], Action::ReloadSkills));
    assert!(matches!(v[2], Action::ReloadA2a(_)));
}

#[test]
fn sent_texts_carry_the_account() {
    let e = build_send_text("c", "acc", "u", "hi", None, None);
    assert_eq!(e.account_id.as_deref(), Some("acc"));
    assert_eq!(e.v, 1);
}

#[test]
fn command_lines() {
    let v = |list: &[&str]| -> Vec<String> { list.iter().map(|s| s.to_string()).collect() };
    assert_eq!(parse_config_arg(&v(&["sloth", "--config", "a.toml"])).as_deref(), Some("a.toml"));
    assert_eq!(parse_config_arg(&v(&["sloth", "-v", "--config=b.toml"])).as_deref(), Some("b.toml"));
    assert_eq!(parse_config_arg(&v(&["--config", "a.toml"])), None);
    assert_eq!(parse_config_arg(&v(&["sloth", "--config"])), None);
    assert_eq!(parse_config_arg(&v(&[])), None);
    assert_eq!(log_format("json"), LogFormat::Json);
    assert_eq!(log_format("pretty"), LogFormat::Pretty);
    assert_eq!(log_format("text"), LogFormat::Text);
}
