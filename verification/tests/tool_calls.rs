use sloth_agent::a2a::{A2aRegistry, A2aResult};
use sloth_agent::agent::parse_arguments;
use sloth_agent::config::{
    A2aAgentConfig, HitlConfig, McpServerConfig, TenancyConfig, TenancyMemberConfig,
};
use sloth_agent::hitl::{HitlBroker, Outcome, Wait};
use sloth_agent::json::Json;
use sloth_agent::mcp::{McpRegistry, McpTool, McpToolResult};
use sloth_agent::memory::{MemoryStore, Recall};
use sloth_agent::model_catalog::{Catalog, PickedText, Strategy};
use sloth_agent::reload::ReloadReport;
use sloth_agent::scheduler::Scheduler;
use sloth_agent::session::SessionManager;
use sloth_agent::skill::{SkillFile, SkillRegistry};
use sloth_agent::table::Table;
use sloth_agent::tenant::{Principal, Tenants};
use sloth_agent::tools::dispatch::{
    finish_a2a_send, finish_mcp_call, finish_memory_recall, finish_memory_set, finish_pick,
    finish_skill_reload,
};
use sloth_agent::tools::{
    after_confirmation, classify, names, parse_agents, parse_servers, parse_strategy_arg,
    summarize_call, Action, Dispatch, Exposure, Gate, Kind, ToolOutcome, ToolRouter,
};

const ALL: Exposure = Exposure { mcp: true, skills: true, a2a: true, models: true, memory: true };

fn broker(enabled: bool, patterns: &[&str]) -> HitlBroker {
    HitlBroker::new(HitlConfig {
        enabled,
        timeout_secs: 10,
        confirm_tools: patterns.iter().map(|p| p.to_string()).collect(),
    })
}

fn router_with(hitl: HitlBroker, mcp: McpRegistry, skills: SkillRegistry, a2a: A2aRegistry) -> ToolRouter {
    ToolRouter::new(
        Scheduler::new(),
        SessionManager::new("default", "/tmp/sloth"),
        mcp,
        skills,
        a2a,
        Catalog::new(),
        MemoryStore::new(),
        hitl,
        vec![],
        vec![],
        ALL,
    )
}

fn router(hitl: HitlBroker) -> ToolRouter {
    router_with(hitl, McpRegistry::new(), SkillRegistry::new(), A2aRegistry::new())
}

fn open_router() -> ToolRouter {
    router(broker(false, &[]))
}

fn alice() -> Principal {
    Principal::new("t1", "alice")
}

fn args(text: &str) -> Json {
    parse_arguments(text)
}

fn done(d: Dispatch) -> ToolOutcome {
    match d {
        Dispatch::Done(o) => o,
        Dispatch::Do(a) => panic!("{a:?}"),
    }
}

fn action(d: Dispatch) -> Action {
    match d {
        Dispatch::Do(a) => a,
        Dispatch::Done(o) => panic!("{o:?}"),
    }
}

fn run(r: &mut ToolRouter, tool: &str, text: &str) -> ToolOutcome {
    assert!(matches!(r.execute(tool, &args(text), &alice()), Gate::Run));
    done(r.dispatch_at(tool, &args(text), &alice(), 0))
}

fn mock_mcp() -> (McpServerConfig, McpRegistry) {
    let cfg = McpServerConfig {
        name: "mock".to_string(),
        url: "http://127.0.0.1/mcp".to_string(),
        token: None,
        timeout_secs: 5,
    };
    let mut reg = McpRegistry::new();
    let tool = McpTool { name: "echo".to_string(), description: None, input_schema: Json::Null };
    reg.add_server(&cfg, vec![tool]);
    (cfg, reg)
}

#[test]
fn parse_servers_ok() {
    let v = args(
        r#"[{"name":"weather","url":"http://x/mcp","timeout_secs":5},{"name":"empty","url":"http://y/mcp"},{"url":"http://no-name/mcp"}]"#,
    );
    let s = parse_servers(&v);
    assert_eq!(s.len(), 2);
    assert_eq!(s[0].name, "weather");
    assert_eq!(s[1].timeout_secs, 10);
}

#[test]
fn endpoint_lists_are_lenient() {
    assert_eq!(parse_servers(&Json::Null).len(), 0);
    let v = args(r#"[{"name":"a","url":"u","token":"t","timeout_secs":-1},{"name":1,"url":"u"}]"#);
    let a = parse_agents(&v);
    assert_eq!(a.len(), 1);
    assert_eq!(a[0].timeout_secs, 30);
    assert_eq!(a[0].token.as_deref(), Some("t"));
    assert_eq!(parse_strategy_arg("best_value"), Strategy::BestValue);
}

#[test]
fn hitl_gate_blocks_until_approved_then_runs() {
    let mut r = router(broker(true, &[]));
    let text = r#"{"name":"daily","cron":"0 9 * * *","prompt":"good morning"}"#;
    let pending = match r.execute("scheduler_add_job", &args(text), &alice()) {
        Gate::Confirm(p) => p,
        g => panic!("{g:?}"),
    };
    assert_eq!(pending.tool, "scheduler_add_job");
    assert_eq!(pending.summary, "schedule job 'daily' (cron 0 9 * * *)");
    assert_eq!(pending.sender_id, "alice");
    assert!(r.scheduler.list().is_empty());
    let wait = r.hitl.resolve(&pending.id, Outcome::Approved).unwrap();
    let gate = Gate::Confirm(pending);
    let outcome = done(r.proceed(gate, Some(wait), "scheduler_add_job", &args(text), &alice()));
    assert!(!outcome.is_error, "expected approval to run the tool");
    assert_eq!(r.scheduler.list().len(), 1);
}

#[test]
fn hitl_deny_blocks_tool() {
    let mut r = router(broker(true, &[]));
    let text = r#"{"name":"x","cron":"* * * * *","prompt":"p"}"#;
    let pending = match r.execute("scheduler_add_job", &args(text), &alice()) {
        Gate::Confirm(p) => p,
        g => panic!("{g:?}"),
    };
    let wait = r.hitl.resolve(&pending.id, Outcome::Denied).unwrap();
    let gate = Gate::Confirm(pending);
    let outcome = done(r.proceed(gate, Some(wait), "scheduler_add_job", &args(text), &alice()));
    assert!(outcome.is_error);
    assert_eq!(outcome.content, "Tool call scheduler_add_job was denied by the human.");
    assert!(r.scheduler.list().is_empty());
    for wait in [Some(Wait::Dropped), Some(Wait::Elapsed), None] {
        let gate = r.execute("scheduler_add_job", &args(text), &alice());
        assert!(matches!(gate, Gate::Confirm(_)));
        assert!(done(r.proceed(gate, wait, "scheduler_add_job", &args(text), &alice())).is_error);
        assert!(r.scheduler.list().is_empty());
    }
    let late = after_confirmation("x", Outcome::TimedOut).unwrap();
    assert!(late.is_error);
    assert_eq!(late.content, "Tool call x timed out waiting for human approval.");
}

#[test]
fn router_exposes_mcp_tool_and_calls_it_with_hitl_approve() {
    let (_, mcp) = mock_mcp();
    let mut r = router_with(broker(true, &["scheduler_*"]), mcp, SkillRegistry::new(), A2aRegistry::new());
    assert!(r.tool_definitions().iter().any(|t| t.name == "mcp_mock__echo"));
    let a = args(r#"{"message":"router"}"#);
    assert!(matches!(r.execute("mcp_mock__echo", &a, &alice()), Gate::Run));
    match action(r.dispatch("mcp_mock__echo", &a, &alice())) {
        Action::CallMcp(c) => {
            assert_eq!(c.server, "mock");
            assert_eq!(c.tool, "echo");
            assert_eq!(c.arguments, a);
        }
        other => panic!("{other:?}"),
    }
    let outcome = finish_mcp_call(Ok(McpToolResult { text: "echo:router".to_string(), is_error: false }));
    assert!(!outcome.is_error);
    assert_eq!(outcome.content, "echo:router");
}

#[test]
fn router_exposes_skill_tool_and_invokes_it() {
    let mut files: Table<SkillFile> = Table::new();
    files.insert(
        "greet.md".to_string(),
        SkillFile {
            extension: Some("md".to_string()),
            text: "---\nname: greet\ndescription: Greet someone\narguments:\n  - name: who\n    required: true\n---\nHello, {{who}}!\n".to_string(),
        },
    );
    let mut skills = SkillRegistry::new();
    skills.set_dir("/skills");
    assert_eq!(skills.reload(Ok(&files)), Ok(1));
    let mut r = router_with(broker(false, &[]), McpRegistry::new(), skills, A2aRegistry::new());
    assert!(r.tool_definitions().iter().any(|t| t.name == "skill_greet"));
    let outcome = run(&mut r, "skill_greet", r#"{"who":"agent"}"#);
    assert!(!outcome.is_error);
    assert_eq!(outcome.content, "Hello, agent!\n");
    let outcome = run(&mut r, "skill_nope", "{}");
    assert!(outcome.is_error);
    assert_eq!(outcome.content, "skill invoke failed: unknown skill: nope");
    assert_eq!(
        run(&mut r, "skill_list", "{}").content,
        r#"{"skills":[{"args":["who"],"description":"Greet someone","name":"greet"}]}"#
    );
}

#[test]
fn router_exposes_a2a_tool_and_calls_it() {
    let mut a2a = A2aRegistry::new();
    a2a.add_agent(&A2aAgentConfig {
        name: "mock".to_string(),
        url: "http://127.0.0.1".to_string(),
        token: None,
        timeout_secs: 10,
    });
    let mut r = router_with(broker(false, &[]), McpRegistry::new(), SkillRegistry::new(), a2a);
    assert!(r.tool_definitions().iter().any(|t| t.name == "a2a_mock"));
    match action(r.dispatch("a2a_mock", &args(r#"{"prompt":"via router"}"#), &alice())) {
        Action::SendA2a { agent, prompt } => {
            assert_eq!(agent, "mock");
            assert_eq!(prompt, "via router");
        }
        other => panic!("{other:?}"),
    }
    let outcome = finish_a2a_send(Ok(A2aResult {
        text: "You said: via router".to_string(),
        state: Some("Completed".to_string()),
    }));
    assert!(!outcome.is_error, "content was: {}", outcome.content);
    assert!(outcome.content.contains("You said: via router"));
    assert!(outcome.content.ends_with("\n[task state: Completed]"));
    assert_eq!(run(&mut r, "a2a_mock", "{}").content, "missing 'prompt'");
    assert_eq!(
        run(&mut r, "a2a_other", r#"{"prompt":"x"}"#).content,
        "A2A agent call failed: unknown A2A agent: other"
    );
    assert_eq!(run(&mut r, "a2a_list_agents", "{}").content, r#"{"agents":["mock"]}"#);
}

#[test]
fn model_catalog_pick_and_list_through_router() {
    let mut r = open_router();
    assert!(matches!(action(r.dispatch("model_list", &args("{}"), &alice())), Action::ListModels));
    match action(r.dispatch("model_pick", &args(r#"{"strategy":"best_score","min_score":70.5,"max_cost_per_token":2,"min_context_window":9}"#), &alice())) {
        Action::PickModel(p) => {
            assert_eq!(p.strategy, Strategy::BestScore);
            assert_eq!(p.min_score.as_deref(), Some("70.5"));
            assert_eq!(p.max_cost_per_token.as_deref(), Some("2"));
            assert_eq!(p.min_context_window, Some(9));
        }
        other => panic!("{other:?}"),
    }
    let picked = PickedText {
        id: "smart".to_string(),
        score: "90.0".to_string(),
        cost: "0.0000".to_string(),
        context_window: 128_000,
    };
    let outcome = finish_pick(&Some(picked), Strategy::BestScore, 2);
    assert!(!outcome.is_error, "{}", outcome.content);
    assert!(outcome.content.contains("smart"));
    assert!(finish_pick(&None, Strategy::BestScore, 2).content.contains(r#""model":"""#));
}

#[test]
fn memory_set_recall_persists_through_router() {
    let mut r = open_router();
    let (scope, key, value) =
        match action(r.dispatch("memory_set", &args(r#"{"key":"preferred_language","value":"Rust"}"#), &alice())) {
            Action::SetMemory { scope, key, value } => (scope, key, value),
            other => panic!("{other:?}"),
        };
    assert_eq!(scope, "t1/alice");
    let m = r.memory.set(&scope, &key, &value);
    r.memory.keep(&scope, &m);
    let set = finish_memory_set(&key, Ok(()));
    assert!(!set.is_error, "{}", set.content);
    assert_eq!(set.content, r#"{"key":"preferred_language","stored":true}"#);
    let (scope, wanted) =
        match action(r.dispatch("memory_recall", &args(r#"{"key":"preferred_language"}"#), &alice())) {
            Action::RecallMemory { scope, wanted } => (scope, wanted),
            other => panic!("{other:?}"),
        };
    let found = match r.memory.recall(&scope) {
        Recall::Known(m) => m,
        _ => panic!("not in hand"),
    };
    let rec = finish_memory_recall(&wanted, Ok(found));
    assert!(!rec.is_error, "{}", rec.content);
    let v = args(&rec.content);
    assert_eq!(v.get_str("value").as_deref(), Some("Rust"));
    let found = match r.memory.recall(&scope) {
        Recall::Known(m) => m,
        _ => panic!("not in hand"),
    };
    let all = finish_memory_recall(&None, Ok(found));
    let v = args(&all.content);
    assert_eq!(v.get("facts").unwrap().get_str("preferred_language").as_deref(), Some("Rust"));
    assert_eq!(run(&mut r, "memory_set", "{}").content, "missing 'key'");
    assert_eq!(run(&mut r, "memory_set", r#"{"key":"k"}"#).content, "missing 'value'");
}

#[test]
fn failures_of_outside_work_are_told() {
    let e = "boom".to_string();
    assert_eq!(finish_mcp_call(Err(e.clone())).content, "MCP tool call failed: boom");
    assert_eq!(finish_a2a_send(Err(e.clone())).content, "A2A agent call failed: boom");
    assert_eq!(finish_skill_reload(Err(e.clone())).content, "skill reload failed: boom");
    assert_eq!(finish_skill_reload(Ok(3)).content, r#"{"loaded":3}"#);
    assert_eq!(finish_memory_set("k", Err(e.clone())).content, "memory set failed: boom");
    assert_eq!(finish_memory_recall(&None, Err(e)).content, "memory recall failed: boom");
    let r = finish_mcp_call(Ok(McpToolResult { text: "bad".to_string(), is_error: true }));
    assert!(!r.is_error);
}

#[test]
fn scheduling_through_the_router() {
    let mut r = open_router();
    assert_eq!(run(&mut r, "scheduler_add_job", "{}").content, "missing 'name'");
    assert_eq!(run(&mut r, "scheduler_add_job", r#"{"name":"n"}"#).content, "missing 'cron'");
    assert_eq!(
        run(&mut r, "scheduler_add_job", r#"{"name":"n","cron":"* * * * *"}"#).content,
        "missing 'prompt'"
    );
    let bad = run(&mut r, "scheduler_add_job", r#"{"name":"n","cron":"x","prompt":"p"}"#);
    assert!(bad.is_error);
    assert!(bad.content.starts_with("failed to schedule: invalid cron: x: "));
    let ok = run(&mut r, "scheduler_add_job", r#"{"name":"n","cron":"* * * * *","prompt":"p"}"#);
    assert!(!ok.is_error);
    let v = args(&ok.content);
    assert_eq!(v.get("scheduled"), Some(&Json::Bool(true)));
    let id = v.get_str("id").unwrap();
    let job = r.scheduler.get(&id).unwrap();
    assert_eq!(job.session_id, "default");
    assert_eq!(job.tenant_id.as_deref(), Some("t1"));
    assert_eq!(job.reply_to.as_deref(), Some("alice"));
    let listed = args(&run(&mut r, "scheduler_list_jobs", "{}").content);
    assert_eq!(listed.get("jobs").unwrap().as_array().unwrap().len(), 1);
    // Another tenant neither sees nor removes it.
    let other = Principal::new("t2", "alice");
    assert_eq!(
        done(r.dispatch_at("scheduler_list_jobs", &Json::Null, &other, 0)).content,
        r#"{"jobs":[]}"#
    );
    let by_id = args(&format!(r#"{{"id":"{id}"}}"#));
    assert_eq!(
        done(r.dispatch_at("scheduler_remove_job", &by_id, &other, 0)).content,
        r#"{"removed":false}"#
    );
    assert_eq!(
        done(r.dispatch_at("scheduler_remove_job", &by_id, &alice(), 0)).content,
        r#"{"removed":true}"#
    );
    assert_eq!(run(&mut r, "scheduler_remove_job", "{}").content, "missing 'id'");
}

#[test]
fn sessions_through_the_router() {
    let mut r = open_router();
    r.sessions.create(Some("work".to_string()), "Work".to_string()).unwrap();
    assert_eq!(run(&mut r, "session_switch", "{}").content, "missing 'session_id'");
    let missing = run(&mut r, "session_switch", r#"{"session_id":"x"}"#);
    assert!(missing.is_error);
    assert_eq!(missing.content, "session x not found");
    assert!(!run(&mut r, "session_switch", r#"{"session_id":"work"}"#).is_error);
    assert_eq!(r.sessions.active_id("t1/alice"), "work");
    assert_eq!(r.sessions.active_id("t2/alice"), "default");
    assert_eq!(run(&mut r, "session_set_workspace", r#"{"session_id":"work"}"#).content, "missing 'workspace'");
    let a = args(r#"{"session_id":"work","workspace":"/w"}"#);
    match action(r.dispatch("session_set_workspace", &a, &alice())) {
        Action::SetWorkspace { session_id, workspace } => {
            assert_eq!((session_id.as_str(), workspace.as_str()), ("work", "/w"));
        }
        other => panic!("{other:?}"),
    }
    assert_eq!(
        run(&mut r, "session_set_workspace", r#"{"session_id":"x","workspace":"/w"}"#).content,
        "session x not found"
    );
    assert_eq!(r.finish_workspace("work", "/w", Err("no disk".to_string())).content, "no disk");
    let ok = r.finish_workspace("work", "/w", Ok(()));
    assert!(!ok.is_error);
    assert_eq!(args(&ok.content).get_str("workspace").as_deref(), Some("/w"));
    assert!(r.finish_workspace("nope", "/w", Ok(())).is_error);
    let list = args(&run(&mut r, "session_list", "{}").content);
    assert_eq!(list.as_array().unwrap().len(), 2);
}

#[test]
fn reloads_through_the_router() {
    let (cfg, mcp) = mock_mcp();
    let mut r = router_with(broker(false, &[]), mcp, SkillRegistry::new(), A2aRegistry::new());
    assert_eq!(run(&mut r, "mcp_list_servers", "{}").content, r#"{"servers":[{"server":"mock","tools":1}]}"#);
    match action(r.dispatch("mcp_reload", &args(r#"{"servers":[{"name":"a","url":"u"}]}"#), &alice())) {
        Action::ReloadMcp(v) => assert_eq!(v[0].name, "a"),
        other => panic!("{other:?}"),
    }
    assert_eq!(r.mcp_desired.len(), 0);
    let out = r.finish_mcp_reload(vec![cfg], &ReloadReport::default());
    assert_eq!(out.content, r#"{"added":[],"removed":[],"failed":[]}"#);
    match action(r.dispatch("mcp_reload", &args("{}"), &alice())) {
        Action::ReloadMcp(v) => assert_eq!(v[0].name, "mock"),
        other => panic!("{other:?}"),
    }
    match action(r.dispatch("a2a_reload", &args("{}"), &alice())) {
        Action::ReloadA2a(v) => assert!(v.is_empty()),
        other => panic!("{other:?}"),
    }
    let out = r.finish_a2a_reload(
        vec![],
        &ReloadReport {
            added: vec!["x".to_string()],
            removed: vec![],
            failed: vec![("y".to_string(), "why".to_string())],
        },
    );
    assert_eq!(out.content, r#"{"added":["x"],"removed":[],"failed":[["y","why"]]}"#);
    assert!(matches!(
        action(r.dispatch("skill_reload", &args(r#"{"dir":"/s"}"#), &alice())),
        Action::ReloadSkills
    ));
    assert_eq!(r.skills.dir(), Some("/s"));
}

#[test]
fn access_control_comes_before_confirmation() {
    let tenants = Tenants::from_config(&TenancyConfig {
        enabled: true,
        default_role: "guest".to_string(),
        roles: vec![],
        members: vec![TenancyMemberConfig { sender: "boss".to_string(), role: "admin".to_string() }],
    });
    let mut r = router(broker(true, &[])).with_tenants(tenants);
    match r.execute("mcp_reload", &Json::Null, &alice()) {
        Gate::Refused(o) => {
            assert!(o.is_error);
            assert!(o.content.contains("mcp_reload"));
            let said = o.content.clone();
            let approved = Some(Wait::Answered(Outcome::Approved));
            let out = done(r.proceed(Gate::Refused(o), approved, "mcp_reload", &Json::Null, &alice()));
            assert!(out.is_error);
            assert_eq!(out.content, said);
        }
        g => panic!("{g:?}"),
    }
    let boss = Principal::new("t1", "boss");
    assert!(matches!(r.execute("mcp_reload", &Json::Null, &boss), Gate::Confirm(_)));
    r.set_tenancy_enabled(false);
    assert!(matches!(r.execute("mcp_reload", &Json::Null, &alice()), Gate::Confirm(_)));
    let who = args(&done(r.dispatch("tenant_whoami", &Json::Null, &alice())).content);
    assert_eq!(who.get_str("role").as_deref(), Some("guest"));
    assert_eq!(who.get_str("tenant").as_deref(), Some("t1"));
    assert_eq!(who.get("rbac_enabled"), Some(&Json::Bool(false)));
    let members = done(r.dispatch("tenant_list_members", &Json::Null, &boss)).content;
    assert_eq!(
        members,
        r#"{"members":[{"identity":"boss","role":"admin"},{"identity":"(default)","role":"guest"}]}"#
    );
}

#[test]
fn unknown_tools_and_summaries() {
    let mut r = open_router();
    let o = run(&mut r, "fly", "{}");
    assert!(o.is_error);
    assert_eq!(o.content, "unknown tool: fly");
    assert_eq!(run(&mut r, "mcp_x__y", "{}").content, "MCP tool call failed: unknown MCP server: x");
    assert_eq!(summarize_call("scheduler_add_job", &Json::Null), "schedule job '?' (cron ?)");
    assert_eq!(summarize_call("scheduler_remove_job", &args(r#"{"id":"7"}"#)), "remove job 7");
    assert_eq!(summarize_call("mcp_reload", &Json::Null), "reload remote MCP servers");
    assert_eq!(summarize_call("x", &Json::Null), "call x");
    assert_eq!(classify("mcp_reload"), Kind::McpReload);
    assert_eq!(classify("mcp_a__b"), Kind::Mcp);
    assert_eq!(classify("mcp_a"), Kind::Unknown);
    assert_eq!(classify(names::SKILL_LIST), Kind::SkillList);
}

#[test]
fn definitions_follow_the_exposure() {
    let (_, mcp) = mock_mcp();
    let r = router_with(broker(false, &[]), mcp, SkillRegistry::new(), A2aRegistry::new());
    let names_of = |r: &ToolRouter| -> Vec<String> {
        r.tool_definitions().into_iter().map(|d| d.name).collect()
    };
    let all = names_of(&r);
    assert_eq!(all[0], "scheduler_add_job");
    assert!(all.contains(&"memory_set".to_string()));
    assert!(all.contains(&"tenant_whoami".to_string()));
    for name in &all {
        assert_ne!(classify(name), Kind::Unknown, "{name}");
    }
    let mut r = r;
    r.expose = Exposure { mcp: false, skills: false, a2a: false, models: false, memory: false };
    let few = names_of(&r);
    assert!(!few.contains(&"mcp_mock__echo".to_string()));
    assert!(!few.contains(&"model_list".to_string()));
    assert!(few.contains(&"mcp_reload".to_string()));
}
