use sloth_agent::config::{Config, Env, TenancyConfig, TenancyMemberConfig, TenancyRoleConfig};
use sloth_agent::tenant::{
    parse_permission, required_permission, sanitize, tenant_id_from_subscription, Permission,
    Principal, Role, Tenants,
};
use sloth_agent::text::Kept;

fn cfg_with(member_role: &str) -> TenancyConfig {
    TenancyConfig {
        enabled: true,
        default_role: "guest".to_string(),
        roles: Vec::new(),
        members: vec![TenancyMemberConfig {
            sender: "alice".to_string(),
            role: member_role.to_string(),
        }],
    }
}

#[test]
fn principal_scope_key_isolates_tenants_and_senders() {
    let a = Principal::new("t1", "alice");
    let b = Principal::new("t1", "bob");
    let c = Principal::new("t2", "alice");
    assert_ne!(a.scope_key(), b.scope_key());
    assert_ne!(a.scope_key(), c.scope_key());
    assert_eq!(a.scope_key(), Principal::new("t1", "alice").scope_key());
    assert_eq!(a.scope_key(), "t1/alice");
}

#[test]
fn override_and_default_roles_resolve() {
    let t = Tenants::from_config(&cfg_with("admin"));
    let alice = Principal::new("t1", "alice");
    assert_eq!(t.role_for(&alice), Role::Admin);
    let bob = Principal::new("t1", "bob");
    assert_eq!(t.role_for(&bob), Role::Guest);
}

#[test]
fn authorize_allows_and_denies() {
    let t = Tenants::from_config(&cfg_with("member"));
    let alice = Principal::new("t1", "alice");
    assert!(t.authorize(&alice, "scheduler_add_job").is_ok());
    assert!(t.authorize(&alice, "mcp_reload").is_err());
    let t2 = Tenants::from_config(&TenancyConfig {
        enabled: true,
        default_role: "guest".to_string(),
        roles: Vec::new(),
        members: Vec::new(),
    });
    let guest = Principal::new("t1", "stranger");
    assert!(t2.authorize(&guest, "scheduler_add_job").is_err());
    assert!(t2.authorize(&guest, "some_unknown_tool").is_ok());
}

#[test]
fn denials_name_everything() {
    let t = Tenants::from_config(&cfg_with("member"));
    let e = t.authorize(&Principal::new("t1", "alice"), "mcp_reload").unwrap_err();
    let text = e.text();
    assert!(text.contains("mcp_reload"));
    assert!(text.contains("member"));
    assert!(text.contains("alice"));
}

#[test]
fn custom_role_permissions() {
    let cfg = TenancyConfig {
        enabled: true,
        default_role: "operator".to_string(),
        roles: vec![TenancyRoleConfig {
            name: "operator".to_string(),
            permissions: vec!["chat".to_string(), "schedule".to_string(), "use_mcp".to_string()],
        }],
        members: Vec::new(),
    };
    let t = Tenants::from_config(&cfg);
    let p = Principal::new("t1", "someone");
    assert_eq!(t.role_for(&p), Role::Custom("operator".to_string()));
    assert!(t.authorize(&p, "scheduler_add_job").is_ok());
    assert!(t.authorize(&p, "mcp_weather__echo").is_ok());
    assert!(t.authorize(&p, "memory_set").is_err());
}

#[test]
fn tenant_scoped_override_only_applies_in_its_tenant() {
    let cfg = TenancyConfig {
        enabled: true,
        default_role: "guest".to_string(),
        roles: Vec::new(),
        members: vec![TenancyMemberConfig {
            sender: "t1/alice".to_string(),
            role: "admin".to_string(),
        }],
    };
    let t = Tenants::from_config(&cfg);
    let in_tenant = Principal::new("t1", "alice");
    let other_tenant = Principal::new("t2", "alice");
    assert_eq!(t.role_for(&in_tenant), Role::Admin);
    assert_eq!(t.role_for(&other_tenant), Role::Guest);
}

#[test]
fn required_permission_covers_admin_tools() {
    assert_eq!(required_permission("mcp_reload"), Permission::Admin);
    assert_eq!(required_permission("a2a_reload"), Permission::Admin);
    assert_eq!(required_permission("skill_reload"), Permission::Admin);
    assert_eq!(required_permission("mcp_weather__echo"), Permission::UseMcp);
    assert_eq!(required_permission("a2a_worker"), Permission::UseA2a);
    assert_eq!(required_permission("skill_summarize"), Permission::UseSkills);
    assert_eq!(required_permission("scheduler_add_job"), Permission::Schedule);
}

#[test]
fn unknown_custom_roles_are_guests() {
    let t = Tenants::from_config(&cfg_with("wizard"));
    let alice = Principal::new("t1", "alice");
    assert_eq!(t.role_for(&alice), Role::Custom("wizard".to_string()));
    assert!(t.has_permission(&alice, Permission::Chat));
    assert!(t.has_permission(&alice, Permission::UseModels));
    assert!(!t.has_permission(&alice, Permission::Schedule));
}

#[test]
fn members_are_listed_in_order_with_the_default() {
    let mut cfg = cfg_with("admin");
    cfg.members.insert(0, TenancyMemberConfig { sender: "zoe".to_string(), role: "member".to_string() });
    let mut t = Tenants::from_config(&cfg);
    let names: Vec<String> = t.list_members().into_iter().map(|m| m.identity).collect();
    assert_eq!(names, vec!["alice", "zoe", "(default)"]);
    assert_eq!(t.default_role_name(), "guest");
    t.reload(&TenancyConfig { enabled: true, default_role: "member".to_string(), roles: vec![], members: vec![] });
    assert_eq!(t.list_members().len(), 1);
    assert_eq!(t.default_role_name(), "member");
}

#[test]
fn ids_are_sanitized() {
    assert_eq!(tenant_id_from_subscription("ch", "acc"), "ch:acc");
    assert_eq!(tenant_id_from_subscription("a:b", "c"), "a%58%b:c");
    assert_eq!(tenant_id_from_subscription("a__b", "c_"), "a__b:c_");
    assert_ne!(tenant_id_from_subscription("a:b", "c"), tenant_id_from_subscription("a", "b:c"));
    assert_eq!(sanitize("a/b c", Kept::Safe), "a%47%b%32%c");
    assert_eq!(sanitize("a_b-c.d", Kept::Safe), "a_b-c.d");
    assert_eq!(sanitize("a__b", Kept::Safe), "a__b");
    assert_eq!(sanitize("__", Kept::Safe), "__");
    assert_eq!(sanitize("", Kept::Safe), "%");
    assert_eq!(sanitize("%", Kept::Safe), "%37%");
    assert_eq!(sanitize("\u{e9}:", Kept::SafeAndColon), "\u{e9}:");
    assert_eq!(sanitize("\u{e9}:", Kept::Safe), "\u{e9}%58%");
    assert_eq!(Principal::new("t", "a__b").scope_key(), "t/a__b");
    assert_eq!(Principal::new("t1", "my__bot").scope_key(), "t1/my__bot");
    assert_eq!(Principal::new("", "").scope_key(), "%/%");
    assert_eq!(Principal::new("ch:acc", "alice").scope_key(), "ch:acc/alice");
}

#[test]
fn principals_never_share_a_key() {
    let ids = ["", "_", "__", "___", "anon", "a", "b", "a_b", "a__b", "a/b", "a b", "a:b", "a__47_b", "a_/b", "a/_b", "\u{e9}", "%", "%%", "%37%", "a%47%b", "37", "%3", "7%"];
    let mut keys = std::collections::BTreeSet::new();
    for t in ids {
        for s in ids {
            let key = Principal::new(t, s).scope_key();
            assert_eq!(key.matches('/').count(), 1, "{key}");
            assert!(keys.insert(key), "{t:?} {s:?}");
        }
    }
    let mut files = std::collections::BTreeSet::new();
    for k in &keys {
        assert!(files.insert(sloth_agent::memory::sender_path("/m", k)), "{k}");
    }
}

#[test]
fn custom_roles_are_found_in_any_case() {
    let t = Tenants::from_config(&TenancyConfig {
        enabled: true,
        default_role: "Operator".to_string(),
        roles: vec![TenancyRoleConfig {
            name: " Operator ".to_string(),
            permissions: vec!["schedule".to_string()],
        }],
        members: vec![],
    });
    let p = Principal::new("t", "s");
    assert!(t.has_permission(&p, Permission::Schedule));
    assert!(!t.has_permission(&p, Permission::UseModels));
}

#[test]
fn an_override_for_a_key_of_safe_ids_counts() {
    let t = Tenants::from_config(&TenancyConfig {
        enabled: true,
        default_role: "admin".to_string(),
        roles: vec![],
        members: vec![TenancyMemberConfig {
            sender: "t1/my__bot".to_string(),
            role: "guest".to_string(),
        }],
    });
    assert_eq!(t.role_for(&Principal::new("t1", "my__bot")), Role::Guest);
    assert_eq!(t.role_for(&Principal::new("t1", "my_bot")), Role::Admin);
}

#[test]
fn an_override_for_a_key_is_for_no_other_tenant() {
    let t = Tenants::from_config(&TenancyConfig {
        enabled: true,
        default_role: "guest".to_string(),
        roles: vec![],
        members: vec![TenancyMemberConfig {
            sender: "t1/alice".to_string(),
            role: "admin".to_string(),
        }],
    });
    assert!(t.has_permission(&Principal::new("t1", "alice"), Permission::Admin));
    assert!(!t.has_permission(&Principal::new("t2", "alice"), Permission::Admin));
    assert!(!t.has_permission(&Principal::new("t2", "t1/alice"), Permission::Admin));
}

#[test]
fn permissions_are_parsed() {
    assert_eq!(parse_permission("use_mcp"), Some(Permission::UseMcp));
    assert_eq!(parse_permission(" ADMIN "), Some(Permission::Admin));
    assert_eq!(parse_permission("fly"), None);
}

fn no_env() -> Env {
    Env::default()
}

#[test]
fn defaults_are_valid() {
    let cfg = Config::default();
    assert!(cfg.validate().is_ok());
    assert_eq!(cfg.hitl.timeout_secs, 120);
    assert!(!cfg.tenancy.enabled);
    assert_eq!(cfg.tenancy.default_role, "guest");
}

#[test]
fn invalid_configs_say_why() {
    let mut cfg = Config::default();
    cfg.bridge.url = "not a url".to_string();
    assert_eq!(cfg.validate().unwrap_err(), "bridge.url is not a valid URL: not a url");
    let mut cfg = Config::default();
    cfg.bridge.channel = " \t".to_string();
    assert_eq!(cfg.validate().unwrap_err(), "bridge.channel must not be empty");
    let mut cfg = Config::default();
    cfg.llm.base_url = "".to_string();
    assert_eq!(cfg.validate().unwrap_err(), "llm.base_url must not be empty");
    let mut cfg = Config::default();
    cfg.llm.model = " ".to_string();
    assert_eq!(cfg.validate().unwrap_err(), "llm.model must not be empty");
    assert!(cfg.validate_with(false).unwrap_err().contains("bridge.url"));
}

#[test]
fn the_environment_overrides_the_file() {
    let mut cfg = Config::default();
    let mut env = no_env();
    env.bridge_url = Some("ws://example.test/bridge".to_string());
    env.llm_api_key = Some("".to_string());
    cfg.llm.api_key = Some("key".to_string());
    cfg.apply_env(env);
    assert_eq!(cfg.bridge.url, "ws://example.test/bridge");
    assert!(cfg.llm.api_key.is_none());
    assert!(cfg.validate().is_ok());
}

#[test]
fn flags_and_numbers_come_from_the_environment() {
    let mut cfg = Config::default();
    let mut env = no_env();
    env.scheduler_enabled = Some("no".to_string());
    env.scheduler_tick_secs = Some("+7".to_string());
    env.hitl_enabled = Some("TRUE".to_string());
    env.hitl_timeout_secs = Some("7s".to_string());
    env.mcp_expose_tools = Some("yes".to_string());
    env.tenancy_enabled = Some("1".to_string());
    env.tenancy_default_role = Some("member".to_string());
    env.session_default = Some("main".to_string());
    cfg.apply_env(env);
    assert!(!cfg.scheduler.enabled);
    assert_eq!(cfg.scheduler.tick_secs, 7);
    assert!(!cfg.hitl.enabled);
    assert_eq!(cfg.hitl.timeout_secs, 120);
    assert!(cfg.mcp.expose_tools);
    assert!(cfg.tenancy.enabled);
    assert_eq!(cfg.tenancy.default_role, "member");
    assert_eq!(cfg.sessions.default_session, "main");
    assert_eq!(cfg.scheduler.default_session, "default");
}
