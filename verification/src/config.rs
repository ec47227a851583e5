//! The configuration: defaults, environment overrides and validation.

use vstd::prelude::*;
use crate::text::{cat, is_blank, parse_unsigned, same};

verus! {

/// The WebSocket connection to the bridge.
#[derive(Debug)]
pub struct BridgeConfig {
    /// WebSocket URL of the bridge, e.g. `ws://127.0.0.1:9300/bridge`.
    pub url: String,
    /// Channel to subscribe to.
    pub channel: String,
    /// Account within the channel.
    pub account_id: String,
    /// Base of the reconnect backoff, in milliseconds.
    pub reconnect_ms: u64,
    /// Cap of the reconnect backoff, in milliseconds.
    pub reconnect_max_ms: u64,
    /// Interval of the heartbeat, in milliseconds; 0 for none.
    pub heartbeat_ms: u64,
}

/// The chat-completion backend. The sampling temperature is not a matter of
/// this crate.
#[derive(Debug)]
pub struct LlmConfig {
    /// Base URL of the backend.
    pub base_url: String,
    /// Model id.
    pub model: String,
    /// API key, if the backend wants one.
    pub api_key: Option<String>,
    /// System prompt of every conversation.
    pub system_prompt: String,
    /// Maximum number of generated tokens.
    pub max_tokens: Option<u32>,
    /// Timeout of a request, in seconds.
    pub timeout_secs: u64,
}

/// Retention of the conversation history.
#[derive(Debug)]
pub struct HistoryConfig {
    /// Messages kept per sender, without the system prompt.
    pub max_messages: usize,
}

/// Logging.
#[derive(Debug)]
pub struct ObservabilityConfig {
    /// `text`, `json` or `pretty`.
    pub log_format: String,
    /// Filter directive.
    pub log_filter: String,
    /// Service name on log lines.
    pub service_name: String,
}

/// A remote MCP server.
#[derive(Debug)]
pub struct McpServerConfig {
    /// Name, also the prefix of its tools.
    pub name: String,
    /// Endpoint URL.
    pub url: String,
    /// Bearer token.
    pub token: Option<String>,
    /// Connect timeout, in seconds.
    pub timeout_secs: u64,
}

/// The remote MCP servers.
#[derive(Debug)]
pub struct McpConfig {
    pub servers: Vec<McpServerConfig>,
    /// Reconnect interval, in seconds; 0 to reconnect on change only.
    pub poll_secs: u64,
    /// Whether the model sees the remote tools.
    pub expose_tools: bool,
}

/// The scheduler.
#[derive(Debug)]
pub struct SchedulerConfig {
    pub enabled: bool,
    /// How often due jobs are looked for, in seconds.
    pub tick_secs: u64,
    /// Session of a job that names none.
    pub default_session: String,
}

/// The sessions.
#[derive(Debug)]
pub struct SessionConfig {
    /// Directory for the state of sessions.
    pub store_dir: String,
    /// Session that exists from the start.
    pub default_session: String,
}

/// Human confirmation of tool calls.
#[derive(Debug)]
pub struct HitlConfig {
    pub enabled: bool,
    /// Seconds to wait for a decision before the call is denied.
    pub timeout_secs: u64,
    /// Glob patterns of the tools that need confirmation; none for all tools.
    pub confirm_tools: Vec<String>,
}

/// The skills.
#[derive(Debug)]
pub struct SkillsConfig {
    /// Directory of the skill files.
    pub dir: Option<String>,
    /// Rescan interval, in seconds; 0 to rescan on demand only.
    pub poll_secs: u64,
    /// Whether the model sees the skills.
    pub expose_tools: bool,
}

/// A remote A2A agent.
#[derive(Debug)]
pub struct A2aAgentConfig {
    /// Name, also the end of its tool's name.
    pub name: String,
    /// Base URL.
    pub url: String,
    /// Bearer token.
    pub token: Option<String>,
    /// Connect timeout, in seconds.
    pub timeout_secs: u64,
}

/// The remote A2A agents.
#[derive(Debug)]
pub struct A2aConfig {
    pub agents: Vec<A2aAgentConfig>,
    /// Whether the model sees the agents.
    pub expose_tools: bool,
}

/// The model catalog. The score floor and the cost cap are not a matter of this
/// crate.
#[derive(Debug)]
pub struct ModelCatalogConfig {
    /// Directory of the catalog files.
    pub dir: Option<String>,
    /// Rescan interval, in seconds; 0 to rescan on demand only.
    pub poll_secs: u64,
    /// Selection strategy.
    pub strategy: String,
    /// Context window that a model must have, in tokens; none or 0 for any.
    pub min_context_window: Option<u32>,
    /// Whether the model sees the catalog tools.
    pub expose_tools: bool,
}

/// Compaction of the conversation history.
#[derive(Debug)]
pub struct CompactConfig {
    pub enabled: bool,
    /// Number of messages at which a history is compacted.
    pub threshold_messages: usize,
    /// Most recent messages that stay as they are.
    pub keep_recent: usize,
    /// Instruction for the summary.
    pub prompt: String,
}

/// The persistent memory.
#[derive(Debug)]
pub struct MemoryConfig {
    /// Directory of the memory files.
    pub dir: Option<String>,
    /// Whether the system prompt carries recalled facts.
    pub inject_into_prompt: bool,
    /// Whether the model sees the memory tools.
    pub expose_tools: bool,
}

/// A custom role: a named set of permissions.
#[derive(Debug)]
pub struct TenancyRoleConfig {
    pub name: String,
    pub permissions: Vec<String>,
}

/// A role for one sender.
#[derive(Debug)]
pub struct TenancyMemberConfig {
    /// A sender id, for every tenant, or a `tenant/sender` key, for one.
    pub sender: String,
    pub role: String,
}

/// Tenancy and access control.
#[derive(Debug)]
pub struct TenancyConfig {
    /// Whether access is controlled.
    pub enabled: bool,
    /// Role of senders without one of their own.
    pub default_role: String,
    pub roles: Vec<TenancyRoleConfig>,
    pub members: Vec<TenancyMemberConfig>,
}

/// The configuration.
#[derive(Debug)]
pub struct Config {
    pub bridge: BridgeConfig,
    pub llm: LlmConfig,
    pub history: HistoryConfig,
    pub observability: ObservabilityConfig,
    pub mcp: McpConfig,
    pub scheduler: SchedulerConfig,
    pub sessions: SessionConfig,
    pub hitl: HitlConfig,
    pub skills: SkillsConfig,
    pub a2a: A2aConfig,
    pub models: ModelCatalogConfig,
    pub compact: CompactConfig,
    pub memory: MemoryConfig,
    pub tenancy: TenancyConfig,
}

// ---- defaults --------------------------------------------------------------------

impl BridgeConfig {
    /// The default settings.
    pub open spec fn is_default(&self) -> bool {
        &&& self.url@ == "ws://127.0.0.1:9300/bridge"@
        &&& self.channel@ == "liangzimixin"@
        &&& self.account_id@ == "default"@
        &&& self.reconnect_ms == 1_000
        &&& self.reconnect_max_ms == 30_000
        &&& self.heartbeat_ms == 25_000
    }
}

impl Default for BridgeConfig {
    fn default() -> (r: Self)
        ensures
            r.is_default(),
    {
        BridgeConfig {
            url: "ws://127.0.0.1:9300/bridge".to_string(),
            channel: "liangzimixin".to_string(),
            account_id: "default".to_string(),
            reconnect_ms: 1_000,
            reconnect_max_ms: 30_000,
            heartbeat_ms: 25_000,
        }
    }
}

impl LlmConfig {
    /// The default settings.
    pub open spec fn is_default(&self) -> bool {
        &&& self.base_url@ == "http://172.17.0.1:8317/v1"@
        &&& self.model@ == "glm-5.2"@
        &&& self.api_key is None
        &&& self.system_prompt@
            == "You are Sloth, a friendly, concise AI assistant replying over a chat bridge. Keep replies short and natural."@
        &&& self.max_tokens == Some(1024u32)
        &&& self.timeout_secs == 60
    }
}

impl Default for LlmConfig {
    fn default() -> (r: Self)
        ensures
            r.is_default(),
    {
        LlmConfig {
            base_url: "http://172.17.0.1:8317/v1".to_string(),
            model: "glm-5.2".to_string(),
            api_key: None,
            system_prompt: "You are Sloth, a friendly, concise AI assistant replying over a chat bridge. Keep replies short and natural.".to_string(),
            max_tokens: Some(1024),
            timeout_secs: 60,
        }
    }
}

impl Default for HistoryConfig {
    fn default() -> (r: Self)
        ensures
            r.max_messages == 20,
    {
        HistoryConfig { max_messages: 20 }
    }
}

impl ObservabilityConfig {
    /// The default settings.
    pub open spec fn is_default(&self) -> bool {
        &&& self.log_format@ == "text"@
        &&& self.log_filter@ == "info,sloth_agent=debug"@
        &&& self.service_name@ == "sloth-agent"@
    }
}

impl Default for ObservabilityConfig {
    fn default() -> (r: Self)
        ensures
            r.is_default(),
    {
        ObservabilityConfig {
            log_format: "text".to_string(),
            log_filter: "info,sloth_agent=debug".to_string(),
            service_name: "sloth-agent".to_string(),
        }
    }
}

impl Default for McpServerConfig {
    fn default() -> (r: Self)
        ensures
            r.name@.len() == 0,
            r.url@.len() == 0,
            r.token is None,
            r.timeout_secs == 0,
    {
        McpServerConfig { name: String::new(), url: String::new(), token: None, timeout_secs: 0 }
    }
}

impl Default for A2aAgentConfig {
    fn default() -> (r: Self)
        ensures
            r.name@.len() == 0,
            r.url@.len() == 0,
            r.token is None,
            r.timeout_secs == 0,
    {
        A2aAgentConfig { name: String::new(), url: String::new(), token: None, timeout_secs: 0 }
    }
}

impl Default for McpConfig {
    fn default() -> (r: Self)
        ensures
            r.servers@.len() == 0,
            r.poll_secs == 0,
            !r.expose_tools,
    {
        McpConfig { servers: Vec::new(), poll_secs: 0, expose_tools: false }
    }
}

impl Default for A2aConfig {
    fn default() -> (r: Self)
        ensures
            r.agents@.len() == 0,
            !r.expose_tools,
    {
        A2aConfig { agents: Vec::new(), expose_tools: false }
    }
}

impl Default for SchedulerConfig {
    fn default() -> (r: Self)
        ensures
            r.enabled,
            r.tick_secs == 5,
            r.default_session@ == "default"@,
    {
        SchedulerConfig { enabled: true, tick_secs: 5, default_session: "default".to_string() }
    }
}

impl Default for SessionConfig {
    fn default() -> (r: Self)
        ensures
            r.store_dir@ == "sessions"@,
            r.default_session@ == "default"@,
    {
        SessionConfig {
            store_dir: "sessions".to_string(),
            default_session: "default".to_string(),
        }
    }
}

impl Default for HitlConfig {
    fn default() -> (r: Self)
        ensures
            r.enabled,
            r.timeout_secs == 120,
            r.confirm_tools@.len() == 0,
    {
        HitlConfig { enabled: true, timeout_secs: 120, confirm_tools: Vec::new() }
    }
}

impl Default for SkillsConfig {
    fn default() -> (r: Self)
        ensures
            r.dir is None,
            r.poll_secs == 5,
            r.expose_tools,
    {
        SkillsConfig { dir: None, poll_secs: 5, expose_tools: true }
    }
}

impl Default for ModelCatalogConfig {
    fn default() -> (r: Self)
        ensures
            r.dir is None,
            r.poll_secs == 60,
            r.strategy@ == "best_score"@,
            r.min_context_window is None,
            r.expose_tools,
    {
        ModelCatalogConfig {
            dir: None,
            poll_secs: 60,
            strategy: "best_score".to_string(),
            min_context_window: None,
            expose_tools: true,
        }
    }
}

impl CompactConfig {
    /// The default settings.
    pub open spec fn is_default(&self) -> bool {
        &&& self.enabled
        &&& self.threshold_messages == 20
        &&& self.keep_recent == 6
        &&& self.prompt@
            == "Summarize the preceding conversation in a concise paragraph, preserving facts, decisions, names, and any open tasks."@
    }
}

impl Default for CompactConfig {
    fn default() -> (r: Self)
        ensures
            r.is_default(),
    {
        CompactConfig {
            enabled: true,
            threshold_messages: 20,
            keep_recent: 6,
            prompt: "Summarize the preceding conversation in a concise paragraph, preserving facts, decisions, names, and any open tasks.".to_string(),
        }
    }
}

impl Default for MemoryConfig {
    fn default() -> (r: Self)
        ensures
            r.dir is None,
            r.inject_into_prompt,
            r.expose_tools,
    {
        MemoryConfig { dir: None, inject_into_prompt: true, expose_tools: true }
    }
}

impl Default for TenancyConfig {
    fn default() -> (r: Self)
        ensures
            !r.enabled,
            r.default_role@ == "guest"@,
            r.roles@.len() == 0,
            r.members@.len() == 0,
    {
        TenancyConfig {
            enabled: false,
            default_role: "guest".to_string(),
            roles: Vec::new(),
            members: Vec::new(),
        }
    }
}

impl Default for Config {
    fn default() -> (r: Self)
        ensures
            r.bridge.is_default(),
            r.llm.is_default(),
            r.history.max_messages == 20,
            r.observability.is_default(),
            r.mcp.servers@.len() == 0 && r.mcp.poll_secs == 0 && !r.mcp.expose_tools,
            r.scheduler.enabled && r.scheduler.tick_secs == 5,
            r.scheduler.default_session@ == "default"@,
            r.sessions.store_dir@ == "sessions"@,
            r.sessions.default_session@ == "default"@,
            r.hitl.enabled && r.hitl.timeout_secs == 120 && r.hitl.confirm_tools@.len() == 0,
            r.skills.dir is None && r.skills.poll_secs == 5 && r.skills.expose_tools,
            r.a2a.agents@.len() == 0 && !r.a2a.expose_tools,
            r.models.dir is None && r.models.poll_secs == 60 && r.models.expose_tools,
            r.models.strategy@ == "best_score"@,
            r.models.min_context_window is None,
            r.compact.is_default(),
            r.memory.dir is None && r.memory.inject_into_prompt && r.memory.expose_tools,
            !r.tenancy.enabled,
            r.tenancy.default_role@ == "guest"@,
            r.tenancy.roles@.len() == 0 && r.tenancy.members@.len() == 0,
    {
        Config {
            bridge: BridgeConfig::default(),
            llm: LlmConfig::default(),
            history: HistoryConfig::default(),
            observability: ObservabilityConfig::default(),
            mcp: McpConfig::default(),
            scheduler: SchedulerConfig::default(),
            sessions: SessionConfig::default(),
            hitl: HitlConfig::default(),
            skills: SkillsConfig::default(),
            a2a: A2aConfig::default(),
            models: ModelCatalogConfig::default(),
            compact: CompactConfig::default(),
            memory: MemoryConfig::default(),
            tenancy: TenancyConfig::default(),
        }
    }
}

// ---- environment -------------------------------------------------------------------

/// The environment variables that override settings, each by the name in its
/// comment.
#[derive(Debug)]
pub struct Env {
    /// `SLOTH_BRIDGE_URL`
    pub bridge_url: Option<String>,
    /// `SLOTH_CHANNEL`
    pub channel: Option<String>,
    /// `SLOTH_ACCOUNT_ID`
    pub account_id: Option<String>,
    /// `SLOTH_LLM_BASE_URL`
    pub llm_base_url: Option<String>,
    /// `SLOTH_LLM_MODEL`
    pub llm_model: Option<String>,
    /// `SLOTH_LLM_API_KEY`
    pub llm_api_key: Option<String>,
    /// `SLOTH_LLM_SYSTEM_PROMPT`
    pub llm_system_prompt: Option<String>,
    /// `SLOTH_LOG_FORMAT`
    pub log_format: Option<String>,
    /// `SLOTH_LOG_FILTER`
    pub log_filter: Option<String>,
    /// `SLOTH_SCHEDULER_ENABLED`
    pub scheduler_enabled: Option<String>,
    /// `SLOTH_SCHEDULER_TICK_SECS`
    pub scheduler_tick_secs: Option<String>,
    /// `SLOTH_SESSION_DEFAULT`
    pub session_default: Option<String>,
    /// `SLOTH_HITL_ENABLED`
    pub hitl_enabled: Option<String>,
    /// `SLOTH_HITL_TIMEOUT_SECS`
    pub hitl_timeout_secs: Option<String>,
    /// `SLOTH_MCP_EXPOSE_TOOLS`
    pub mcp_expose_tools: Option<String>,
    /// `SLOTH_TENANCY_ENABLED`
    pub tenancy_enabled: Option<String>,
    /// `SLOTH_TENANCY_DEFAULT_ROLE`
    pub tenancy_default_role: Option<String>,
}

impl Default for Env {
    fn default() -> (r: Self)
        ensures
            r.bridge_url is None,
            r.channel is None,
            r.account_id is None,
            r.llm_base_url is None,
            r.llm_model is None,
            r.llm_api_key is None,
            r.llm_system_prompt is None,
            r.log_format is None,
            r.log_filter is None,
            r.scheduler_enabled is None,
            r.scheduler_tick_secs is None,
            r.session_default is None,
            r.hitl_enabled is None,
            r.hitl_timeout_secs is None,
            r.mcp_expose_tools is None,
            r.tenancy_enabled is None,
            r.tenancy_default_role is None,
    {
        Env {
            bridge_url: None,
            channel: None,
            account_id: None,
            llm_base_url: None,
            llm_model: None,
            llm_api_key: None,
            llm_system_prompt: None,
            log_format: None,
            log_filter: None,
            scheduler_enabled: None,
            scheduler_tick_secs: None,
            session_default: None,
            hitl_enabled: None,
            hitl_timeout_secs: None,
            mcp_expose_tools: None,
            tenancy_enabled: None,
            tenancy_default_role: None,
        }
    }
}

/// Whether a variable switches a flag on.
pub open spec fn truthy(v: Seq<char>) -> bool {
    v == "1"@ || v == "true"@ || v == "yes"@
}

/// A text setting under an override.
pub open spec fn text_over(o: Option<String>, old: String) -> String {
    match o {
        Some(v) => v,
        None => old,
    }
}

/// A flag under an override.
pub open spec fn flag_over(o: Option<String>, old: bool) -> bool {
    match o {
        Some(v) => truthy(v@),
        None => old,
    }
}

/// A number under an override; one that does not parse changes nothing.
pub open spec fn number_over(o: Option<String>, old: u64) -> u64 {
    match o {
        Some(v) => match crate::text::unsigned(v@, u64::MAX as nat) {
            Some(n) => n as u64,
            None => old,
        },
        None => old,
    }
}

/// The API key under an override; an empty one means none.
pub open spec fn key_over(o: Option<String>, old: Option<String>) -> Option<String> {
    match o {
        Some(v) => if v@.len() == 0 { None } else { Some(v) },
        None => old,
    }
}

/// A configuration under the environment.
pub open spec fn with_env(c: Config, e: Env) -> Config {
    Config {
        bridge: BridgeConfig {
            url: text_over(e.bridge_url, c.bridge.url),
            channel: text_over(e.channel, c.bridge.channel),
            account_id: text_over(e.account_id, c.bridge.account_id),
            ..c.bridge
        },
        llm: LlmConfig {
            base_url: text_over(e.llm_base_url, c.llm.base_url),
            model: text_over(e.llm_model, c.llm.model),
            api_key: key_over(e.llm_api_key, c.llm.api_key),
            system_prompt: text_over(e.llm_system_prompt, c.llm.system_prompt),
            ..c.llm
        },
        observability: ObservabilityConfig {
            log_format: text_over(e.log_format, c.observability.log_format),
            log_filter: text_over(e.log_filter, c.observability.log_filter),
            ..c.observability
        },
        scheduler: SchedulerConfig {
            enabled: flag_over(e.scheduler_enabled, c.scheduler.enabled),
            tick_secs: number_over(e.scheduler_tick_secs, c.scheduler.tick_secs),
            ..c.scheduler
        },
        sessions: SessionConfig {
            default_session: text_over(e.session_default, c.sessions.default_session),
            ..c.sessions
        },
        hitl: HitlConfig {
            enabled: flag_over(e.hitl_enabled, c.hitl.enabled),
            timeout_secs: number_over(e.hitl_timeout_secs, c.hitl.timeout_secs),
            ..c.hitl
        },
        mcp: McpConfig {
            expose_tools: flag_over(e.mcp_expose_tools, c.mcp.expose_tools),
            ..c.mcp
        },
        tenancy: TenancyConfig {
            enabled: flag_over(e.tenancy_enabled, c.tenancy.enabled),
            default_role: text_over(e.tenancy_default_role, c.tenancy.default_role),
            ..c.tenancy
        },
        ..c
    }
}

fn set_text(o: Option<String>, field: &mut String)
    ensures
        *final(field) == text_over(o, *old(field)),
{
    if let Some(v) = o {
        *field = v;
    }
}

fn set_flag(o: Option<String>, field: &mut bool)
    ensures
        *final(field) == flag_over(o, *old(field)),
{
    if let Some(v) = o {
        *field = same(&v, "1") || same(&v, "true") || same(&v, "yes");
    }
}

fn set_number(o: Option<String>, field: &mut u64)
    ensures
        *final(field) == number_over(o, *old(field)),
{
    if let Some(v) = o {
        if let Some(n) = parse_unsigned(&v, u64::MAX) {
            *field = n;
        }
    }
}

/// `Url::parse` succeeds on the text.
pub uninterp spec fn parses_as_url(s: Seq<char>) -> bool;

/// `url::Url::parse`: whether the text is an absolute URL. The result is only
/// named.
#[verifier::external_body]
fn is_url(s: &str) -> (r: bool)
    ensures
        r == parses_as_url(s@),
{
    url::Url::parse(s).is_ok()
}

/// Why a configuration is invalid, given whether its bridge URL parses; nothing
/// for a valid one.
pub open spec fn invalid(c: Config, url_ok: bool) -> Option<Seq<char>> {
    if !url_ok {
        Some("bridge.url is not a valid URL: "@ + c.bridge.url@)
    } else if crate::text::trimmed(c.bridge.channel@).len() == 0 {
        Some("bridge.channel must not be empty"@)
    } else if crate::text::trimmed(c.llm.base_url@).len() == 0 {
        Some("llm.base_url must not be empty"@)
    } else if crate::text::trimmed(c.llm.model@).len() == 0 {
        Some("llm.model must not be empty"@)
    } else {
        None
    }
}

impl Config {
    /// Applies the environment on top of the settings.
    pub fn apply_env(&mut self, env: Env)
        ensures
            *final(self) == with_env(*old(self), env),
    {
        set_text(env.bridge_url, &mut self.bridge.url);
        set_text(env.channel, &mut self.bridge.channel);
        set_text(env.account_id, &mut self.bridge.account_id);
        set_text(env.llm_base_url, &mut self.llm.base_url);
        set_text(env.llm_model, &mut self.llm.model);
        if let Some(v) = env.llm_api_key {
            self.llm.api_key = if v.as_str().is_empty() {
                None
            } else {
                Some(v)
            };
        }
        set_text(env.llm_system_prompt, &mut self.llm.system_prompt);
        set_text(env.log_format, &mut self.observability.log_format);
        set_text(env.log_filter, &mut self.observability.log_filter);
        set_flag(env.scheduler_enabled, &mut self.scheduler.enabled);
        set_number(env.scheduler_tick_secs, &mut self.scheduler.tick_secs);
        set_text(env.session_default, &mut self.sessions.default_session);
        set_flag(env.hitl_enabled, &mut self.hitl.enabled);
        set_number(env.hitl_timeout_secs, &mut self.hitl.timeout_secs);
        set_flag(env.mcp_expose_tools, &mut self.mcp.expose_tools);
        set_flag(env.tenancy_enabled, &mut self.tenancy.enabled);
        set_text(env.tenancy_default_role, &mut self.tenancy.default_role);
    }

    /// Validates the configuration, given whether its bridge URL parses.
    pub fn validate_with(&self, url_ok: bool) -> (r: Result<(), String>)
        ensures
            r is Ok == invalid(*self, url_ok) is None,
            r matches Err(e) ==> invalid(*self, url_ok) == Some(e@),
    {
        if !url_ok {
            return Err(cat("bridge.url is not a valid URL: ", &self.bridge.url));
        }
        if is_blank(&self.bridge.channel) {
            return Err("bridge.channel must not be empty".to_string());
        }
        if is_blank(&self.llm.base_url) {
            return Err("llm.base_url must not be empty".to_string());
        }
        if is_blank(&self.llm.model) {
            return Err("llm.model must not be empty".to_string());
        }
        Ok(())
    }

    /// Validates the configuration: the bridge URL parses, and channel, base URL
    /// and model are not blank.
    pub fn validate(&self) -> (r: Result<(), String>)
        ensures
            r is Ok == invalid(*self, parses_as_url(self.bridge.url@)) is None,
            r matches Err(e) ==> invalid(*self, parses_as_url(self.bridge.url@)) == Some(e@),
    {
        self.validate_with(is_url(&self.bridge.url))
    }
}

// ---- laws ------------------------------------------------------------------------

/// An empty environment changes nothing.
pub proof fn empty_env_changes_nothing(c: Config, e: Env)
    requires
        e.bridge_url is None && e.channel is None && e.account_id is None,
        e.llm_base_url is None && e.llm_model is None && e.llm_api_key is None,
        e.llm_system_prompt is None && e.log_format is None && e.log_filter is None,
        e.scheduler_enabled is None && e.scheduler_tick_secs is None,
        e.session_default is None && e.hitl_enabled is None && e.hitl_timeout_secs is None,
        e.mcp_expose_tools is None && e.tenancy_enabled is None && e.tenancy_default_role is None,
    ensures
        with_env(c, e) == c,
{
}

/// A set variable wins over the file, whatever the file says; one that has to be a
/// number does if it is one.
pub proof fn env_wins(c: Config, e: Env)
    ensures
        e.bridge_url matches Some(v) ==> with_env(c, e).bridge.url == v,
        e.channel matches Some(v) ==> with_env(c, e).bridge.channel == v,
        e.account_id matches Some(v) ==> with_env(c, e).bridge.account_id == v,
        e.llm_base_url matches Some(v) ==> with_env(c, e).llm.base_url == v,
        e.llm_model matches Some(v) ==> with_env(c, e).llm.model == v,
        e.llm_system_prompt matches Some(v) ==> with_env(c, e).llm.system_prompt == v,
        e.log_format matches Some(v) ==> with_env(c, e).observability.log_format == v,
        e.log_filter matches Some(v) ==> with_env(c, e).observability.log_filter == v,
        e.session_default matches Some(v) ==> with_env(c, e).sessions.default_session == v,
        e.tenancy_default_role matches Some(v) ==> with_env(c, e).tenancy.default_role == v,
        e.llm_api_key matches Some(v) ==> with_env(c, e).llm.api_key == (if v@.len() == 0 {
            None
        } else {
            Some(v)
        }),
        e.scheduler_enabled matches Some(v) ==> with_env(c, e).scheduler.enabled == truthy(v@),
        e.hitl_enabled matches Some(v) ==> with_env(c, e).hitl.enabled == truthy(v@),
        e.mcp_expose_tools matches Some(v) ==> with_env(c, e).mcp.expose_tools == truthy(v@),
        e.tenancy_enabled matches Some(v) ==> with_env(c, e).tenancy.enabled == truthy(v@),
        e.scheduler_tick_secs matches Some(v) ==> (crate::text::unsigned(v@, u64::MAX as nat) matches Some(n)
            ==> with_env(c, e).scheduler.tick_secs == n as u64),
        e.hitl_timeout_secs matches Some(v) ==> (crate::text::unsigned(v@, u64::MAX as nat) matches Some(n)
            ==> with_env(c, e).hitl.timeout_secs == n as u64),
{
}

/// Applying the same environment twice is applying it once.
pub proof fn env_is_idempotent(c: Config, e: Env)
    ensures
        with_env(with_env(c, e), e) == with_env(c, e),
{
}

/// A variable that is not set leaves its setting, whatever the others are; so does one that has
/// to be a number and is none. A flag is on exactly for `1`, `true` and `yes`. What no variable
/// sets stays.
pub proof fn unset_variables_leave_the_settings(c: Config, e: Env, v: Seq<char>)
    ensures
        e.bridge_url is None ==> with_env(c, e).bridge.url == c.bridge.url,
        e.channel is None ==> with_env(c, e).bridge.channel == c.bridge.channel,
        e.account_id is None ==> with_env(c, e).bridge.account_id == c.bridge.account_id,
        e.llm_base_url is None ==> with_env(c, e).llm.base_url == c.llm.base_url,
        e.llm_model is None ==> with_env(c, e).llm.model == c.llm.model,
        e.llm_api_key is None ==> with_env(c, e).llm.api_key == c.llm.api_key,
        e.llm_system_prompt is None ==> with_env(c, e).llm.system_prompt == c.llm.system_prompt,
        e.log_format is None ==> with_env(c, e).observability.log_format == c.observability.log_format,
        e.log_filter is None ==> with_env(c, e).observability.log_filter == c.observability.log_filter,
        e.scheduler_enabled is None ==> with_env(c, e).scheduler.enabled == c.scheduler.enabled,
        e.scheduler_tick_secs is None ==> with_env(c, e).scheduler.tick_secs == c.scheduler.tick_secs,
        e.session_default is None ==> with_env(c, e).sessions.default_session == c.sessions.default_session,
        e.hitl_enabled is None ==> with_env(c, e).hitl.enabled == c.hitl.enabled,
        e.hitl_timeout_secs is None ==> with_env(c, e).hitl.timeout_secs == c.hitl.timeout_secs,
        e.mcp_expose_tools is None ==> with_env(c, e).mcp.expose_tools == c.mcp.expose_tools,
        e.tenancy_enabled is None ==> with_env(c, e).tenancy.enabled == c.tenancy.enabled,
        e.tenancy_default_role is None ==> with_env(c, e).tenancy.default_role == c.tenancy.default_role,
        e.scheduler_tick_secs matches Some(s) ==> (crate::text::unsigned(s@, u64::MAX as nat) is None
            ==> with_env(c, e).scheduler.tick_secs == c.scheduler.tick_secs),
        e.hitl_timeout_secs matches Some(s) ==> (crate::text::unsigned(s@, u64::MAX as nat) is None
            ==> with_env(c, e).hitl.timeout_secs == c.hitl.timeout_secs),
        truthy(v) <==> v == "1"@ || v == "true"@ || v == "yes"@,
        with_env(c, e).hitl.confirm_tools == c.hitl.confirm_tools,
        with_env(c, e).mcp.servers == c.mcp.servers,
        with_env(c, e).a2a == c.a2a,
        with_env(c, e).tenancy.roles == c.tenancy.roles,
        with_env(c, e).tenancy.members == c.tenancy.members,
        with_env(c, e).history == c.history,
        with_env(c, e).compact == c.compact,
        with_env(c, e).memory == c.memory,
        with_env(c, e).skills == c.skills,
        with_env(c, e).models == c.models,
{
}

/// Settings are valid exactly when the URL of the bridge is one and its channel, the URL of the
/// model and the model are not blank; the first that is wrong is named.
pub proof fn settings_are_checked(c: &Config, url_ok: bool, r: Result<(), String>)
    requires
        call_ensures(Config::validate_with, (c, url_ok), r),
    ensures
        r is Ok <==> url_ok && crate::text::trimmed(c.bridge.channel@).len() > 0
            && crate::text::trimmed(c.llm.base_url@).len() > 0 && crate::text::trimmed(
            c.llm.model@,
        ).len() > 0,
        !url_ok ==> (r matches Err(t) && t@ == "bridge.url is not a valid URL: "@ + c.bridge.url@),
        url_ok && crate::text::trimmed(c.bridge.channel@).len() == 0 ==> (r matches Err(t) && t@
            == "bridge.channel must not be empty"@),
{
}

/// The settings that hold where nothing is set.
pub proof fn defaults_are_known(
    b: BridgeConfig,
    l: LlmConfig,
    o: ObservabilityConfig,
    c: CompactConfig,
)
    requires
        b.is_default(),
        l.is_default(),
        o.is_default(),
        c.is_default(),
    ensures
        b.url@ == "ws://127.0.0.1:9300/bridge"@,
        b.channel@ == "liangzimixin"@,
        b.account_id@ == "default"@,
        b.reconnect_ms == 1000 && b.reconnect_max_ms == 30000 && b.heartbeat_ms == 25000,
        l.base_url@ == "http://172.17.0.1:8317/v1"@,
        l.model@ == "glm-5.2"@,
        l.api_key is None && l.max_tokens == Some(1024u32) && l.timeout_secs == 60,
        o.log_format@ == "text"@,
        o.log_filter@ == "info,sloth_agent=debug"@,
        o.service_name@ == "sloth-agent"@,
        c.enabled && c.threshold_messages == 20 && c.keep_recent == 6,
        l.system_prompt@
            == "You are Sloth, a friendly, concise AI assistant replying over a chat bridge. Keep replies short and natural."@,
        c.prompt@
            == "Summarize the preceding conversation in a concise paragraph, preserving facts, decisions, names, and any open tasks."@,
{
}

/// The first setting that is wrong is the one that is told of, and the URL of the bridge is
/// wrong when it does not parse as one.
pub proof fn wrong_settings_are_told(c: &Config, r: Result<(), String>)
    requires
        call_ensures(Config::validate, (c,), r),
    ensures
        r is Ok <==> parses_as_url(c.bridge.url@) && crate::text::trimmed(c.bridge.channel@).len()
            > 0 && crate::text::trimmed(c.llm.base_url@).len() > 0 && crate::text::trimmed(
            c.llm.model@,
        ).len() > 0,
        parses_as_url(c.bridge.url@) && crate::text::trimmed(c.bridge.channel@).len() > 0
            && crate::text::trimmed(c.llm.base_url@).len() == 0 ==> (r matches Err(t) && t@
            == "llm.base_url must not be empty"@),
        parses_as_url(c.bridge.url@) && crate::text::trimmed(c.bridge.channel@).len() > 0
            && crate::text::trimmed(c.llm.base_url@).len() > 0 && crate::text::trimmed(
            c.llm.model@,
        ).len() == 0 ==> (r matches Err(t) && t@ == "llm.model must not be empty"@),
{
}

/// The environment is applied to the settings themselves: after it they are what it says, and
/// applying it again changes nothing.
pub proof fn environments_are_applied(c: &mut Config, env: Env)
    requires
        call_ensures(Config::apply_env, (c, env), ()),
    ensures
        *final(c) == with_env(*old(c), env),
        with_env(*final(c), env) == *final(c),
{
    env_is_idempotent(*old(c), env);
}

} // verus!
