//! The tools that the model can call: what it is told of them, who may call them,
//! and what a call does.

pub mod dispatch;
pub mod names;
pub mod replies;
pub mod schema;

use vstd::prelude::*;
use crate::a2a::A2aRegistry;
use crate::config::{A2aAgentConfig, McpServerConfig};
use crate::hitl::{HitlBroker, Outcome, PendingConfirmation};
use crate::json::{render_json, Json, JsonView};
use crate::mcp::{McpCall, McpRegistry, RoutedView};
use crate::memory::MemoryStore;
use crate::model_catalog::{Catalog, Strategy};
use crate::scheduler::Scheduler;
use crate::session::SessionManager;
use crate::skill::{SkillRegistry, SkillView};
use crate::tenant::{Principal, Tenants};
use crate::text::{cat, contains, same, starts_with};
use crate::tools::schema::ToolDef;

verus! {

// ---- outcomes ----------------------------------------------------------------------

/// What came of a tool call.
#[derive(Debug)]
pub struct ToolOutcome {
    /// The text that the model gets.
    pub content: String,
    /// Whether the call failed or was refused.
    pub is_error: bool,
}

impl ToolOutcome {
    /// A success.
    pub fn ok(content: String) -> (r: Self)
        ensures
            r.content == content,
            !r.is_error,
    {
        ToolOutcome { content, is_error: false }
    }

    /// A failure.
    pub fn err(content: String) -> (r: Self)
        ensures
            r.content == content,
            r.is_error,
    {
        ToolOutcome { content, is_error: true }
    }

    /// A success with the text of a JSON value.
    pub fn json(v: &Json) -> (r: Self)
        ensures
            succeeds(r, crate::json::json_text(v@)),
    {
        ToolOutcome::ok(render_json(v))
    }
}

/// A call succeeded with a text.
pub open spec fn succeeds(o: ToolOutcome, text: Seq<char>) -> bool {
    !o.is_error && o.content@ == text
}

/// A call failed with a text.
pub open spec fn fails(o: ToolOutcome, text: Seq<char>) -> bool {
    o.is_error && o.content@ == text
}

// ---- the kinds of tools --------------------------------------------------------------

/// What a tool name stands for.
#[derive(Debug, Clone, Copy, PartialEq, Eq, Structural)]
pub enum Kind {
    SchedAdd,
    SchedRemove,
    SchedList,
    SessSwitch,
    SessSetWorkspace,
    SessList,
    McpListServers,
    McpReload,
    SkillList,
    SkillReload,
    A2aList,
    A2aReload,
    TenantWhoami,
    TenantListMembers,
    /// A tool of an MCP server.
    Mcp,
    /// An A2A agent.
    A2a,
    /// A skill.
    Skill,
    ModelList,
    ModelPick,
    MemSet,
    MemRecall,
    Unknown,
}

/// What a tool name stands for.
pub open spec fn kind_of(tool: Seq<char>) -> Kind {
    if tool == names::SCHED_ADD@ {
        Kind::SchedAdd
    } else if tool == names::SCHED_REMOVE@ {
        Kind::SchedRemove
    } else if tool == names::SCHED_LIST@ {
        Kind::SchedList
    } else if tool == names::SESS_SWITCH@ {
        Kind::SessSwitch
    } else if tool == names::SESS_SET_WS@ {
        Kind::SessSetWorkspace
    } else if tool == names::SESS_LIST@ {
        Kind::SessList
    } else if tool == names::MCP_LIST_SERVERS@ {
        Kind::McpListServers
    } else if tool == names::MCP_RELOAD@ {
        Kind::McpReload
    } else if tool == names::SKILL_LIST@ {
        Kind::SkillList
    } else if tool == names::SKILL_RELOAD@ {
        Kind::SkillReload
    } else if tool == names::A2A_LIST@ {
        Kind::A2aList
    } else if tool == names::A2A_RELOAD@ {
        Kind::A2aReload
    } else if tool == names::TENANT_WHOAMI@ {
        Kind::TenantWhoami
    } else if tool == names::TENANT_LIST_MEMBERS@ {
        Kind::TenantListMembers
    } else if crate::text::begins(tool, names::MCP_PREFIX@) && crate::text::has_text(tool, "__"@) {
        Kind::Mcp
    } else if crate::text::begins(tool, names::A2A_PREFIX@) {
        Kind::A2a
    } else if crate::text::begins(tool, names::SKILL_PREFIX@) {
        Kind::Skill
    } else if tool == names::MODEL_LIST@ {
        Kind::ModelList
    } else if tool == names::MODEL_PICK@ {
        Kind::ModelPick
    } else if tool == names::MEM_SET@ {
        Kind::MemSet
    } else if tool == names::MEM_RECALL@ {
        Kind::MemRecall
    } else {
        Kind::Unknown
    }
}

/// What a tool name stands for.
pub fn classify(tool: &str) -> (r: Kind)
    ensures
        r == kind_of(tool@),
{
    if same(tool, names::SCHED_ADD) {
        Kind::SchedAdd
    } else if same(tool, names::SCHED_REMOVE) {
        Kind::SchedRemove
    } else if same(tool, names::SCHED_LIST) {
        Kind::SchedList
    } else if same(tool, names::SESS_SWITCH) {
        Kind::SessSwitch
    } else if same(tool, names::SESS_SET_WS) {
        Kind::SessSetWorkspace
    } else if same(tool, names::SESS_LIST) {
        Kind::SessList
    } else if same(tool, names::MCP_LIST_SERVERS) {
        Kind::McpListServers
    } else if same(tool, names::MCP_RELOAD) {
        Kind::McpReload
    } else if same(tool, names::SKILL_LIST) {
        Kind::SkillList
    } else if same(tool, names::SKILL_RELOAD) {
        Kind::SkillReload
    } else if same(tool, names::A2A_LIST) {
        Kind::A2aList
    } else if same(tool, names::A2A_RELOAD) {
        Kind::A2aReload
    } else if same(tool, names::TENANT_WHOAMI) {
        Kind::TenantWhoami
    } else if same(tool, names::TENANT_LIST_MEMBERS) {
        Kind::TenantListMembers
    } else if starts_with(tool, names::MCP_PREFIX) && contains(tool, "__") {
        Kind::Mcp
    } else if starts_with(tool, names::A2A_PREFIX) {
        Kind::A2a
    } else if starts_with(tool, names::SKILL_PREFIX) {
        Kind::Skill
    } else if same(tool, names::MODEL_LIST) {
        Kind::ModelList
    } else if same(tool, names::MODEL_PICK) {
        Kind::ModelPick
    } else if same(tool, names::MEM_SET) {
        Kind::MemSet
    } else if same(tool, names::MEM_RECALL) {
        Kind::MemRecall
    } else {
        Kind::Unknown
    }
}

// ---- arguments ---------------------------------------------------------------------

/// An endpoint as the model names it.
pub struct EndpointView {
    pub name: Seq<char>,
    pub url: Seq<char>,
    pub token: Option<Seq<char>>,
    pub timeout_secs: u64,
}

/// What a configured MCP server says.
pub open spec fn server_view(c: McpServerConfig) -> EndpointView {
    EndpointView {
        name: c.name@,
        url: c.url@,
        token: crate::text::opt_view(c.token),
        timeout_secs: c.timeout_secs,
    }
}

/// What a configured A2A agent says.
pub open spec fn agent_view(c: A2aAgentConfig) -> EndpointView {
    EndpointView {
        name: c.name@,
        url: c.url@,
        token: crate::text::opt_view(c.token),
        timeout_secs: c.timeout_secs,
    }
}

/// The endpoint that a JSON value describes; nothing without a name or a URL.
pub open spec fn endpoint_of(v: JsonView, timeout: u64) -> Option<EndpointView> {
    match (crate::json::text_field(v, "name"@), crate::json::text_field(v, "url"@)) {
        (Some(name), Some(url)) => Some(
            EndpointView {
                name,
                url,
                token: crate::json::text_field(v, "token"@),
                timeout_secs: match crate::json::uint_field(v, "timeout_secs"@) {
                    Some(n) => n,
                    None => timeout,
                },
            },
        ),
        _ => None,
    }
}

/// The endpoints that JSON values describe.
pub open spec fn endpoints_of(v: Seq<JsonView>, timeout: u64) -> Seq<EndpointView>
    decreases v.len(),
{
    if v.len() == 0 {
        Seq::empty()
    } else {
        match endpoint_of(v.last(), timeout) {
            Some(e) => endpoints_of(v.drop_last(), timeout).push(e),
            None => endpoints_of(v.drop_last(), timeout),
        }
    }
}

/// The endpoints that a JSON array describes; none for any other value.
pub open spec fn endpoint_list_of(v: JsonView, timeout: u64) -> Seq<EndpointView> {
    match v {
        JsonView::Array(a) => endpoints_of(a, timeout),
        _ => Seq::empty(),
    }
}

/// The default connect timeout of an MCP server, in seconds.
pub const MCP_TIMEOUT: u64 = 10;

/// The default connect timeout of an A2A agent, in seconds.
pub const A2A_TIMEOUT: u64 = 30;

/// The MCP servers that a JSON value describes.
pub fn parse_servers(servers: &Json) -> (r: Vec<McpServerConfig>)
    ensures
        r@.map_values(|c: McpServerConfig| server_view(c)) == endpoint_list_of(
            servers@,
            MCP_TIMEOUT,
        ),
{
    let mut out: Vec<McpServerConfig> = Vec::new();
    let ghost f = |c: McpServerConfig| server_view(c);
    assert(out@.map_values(f) =~= Seq::<EndpointView>::empty());
    match servers.as_array() {
        None => out,
        Some(arr) => {
            let ghost all = crate::json::json_views(arr@);
            let mut i: usize = 0;
            while i < arr.len()
                invariant
                    f == (|c: McpServerConfig| server_view(c)),
                    all == crate::json::json_views(arr@),
                    i <= arr@.len(),
                    out@.map_values(f) == endpoints_of(all.take(i as int), MCP_TIMEOUT),
                decreases arr@.len() - i,
            {
                let s: &Json = &arr[i];
                let ghost before = out@;
                proof {
                    assert(all.take(i + 1).drop_last() =~= all.take(i as int));
                    assert(all.take(i + 1).last() == s@);
                }
                if let Some(name) = s.get_str("name") {
                    if let Some(url) = s.get_str("url") {
                        let timeout_secs: u64 = match s.get_uint("timeout_secs") {
                            Some(n) => n,
                            None => MCP_TIMEOUT,
                        };
                        let c: McpServerConfig = McpServerConfig {
                            name,
                            url,
                            token: s.get_str("token"),
                            timeout_secs,
                        };
                        out.push(c);
                        assert(out@.map_values(f) =~= before.map_values(f).push(server_view(c)));
                    }
                }
                i = i + 1;
            }
            assert(all.take(all.len() as int) =~= all);
            out
        },
    }
}

/// The A2A agents that a JSON value describes.
pub fn parse_agents(agents: &Json) -> (r: Vec<A2aAgentConfig>)
    ensures
        r@.map_values(|c: A2aAgentConfig| agent_view(c)) == endpoint_list_of(agents@, A2A_TIMEOUT),
{
    let mut out: Vec<A2aAgentConfig> = Vec::new();
    let ghost f = |c: A2aAgentConfig| agent_view(c);
    assert(out@.map_values(f) =~= Seq::<EndpointView>::empty());
    match agents.as_array() {
        None => out,
        Some(arr) => {
            let ghost all = crate::json::json_views(arr@);
            let mut i: usize = 0;
            while i < arr.len()
                invariant
                    f == (|c: A2aAgentConfig| agent_view(c)),
                    all == crate::json::json_views(arr@),
                    i <= arr@.len(),
                    out@.map_values(f) == endpoints_of(all.take(i as int), A2A_TIMEOUT),
                decreases arr@.len() - i,
            {
                let s: &Json = &arr[i];
                let ghost before = out@;
                proof {
                    assert(all.take(i + 1).drop_last() =~= all.take(i as int));
                    assert(all.take(i + 1).last() == s@);
                }
                if let Some(name) = s.get_str("name") {
                    if let Some(url) = s.get_str("url") {
                        let timeout_secs: u64 = match s.get_uint("timeout_secs") {
                            Some(n) => n,
                            None => A2A_TIMEOUT,
                        };
                        let c: A2aAgentConfig = A2aAgentConfig {
                            name,
                            url,
                            token: s.get_str("token"),
                            timeout_secs,
                        };
                        out.push(c);
                        assert(out@.map_values(f) =~= before.map_values(f).push(agent_view(c)));
                    }
                }
                i = i + 1;
            }
            assert(all.take(all.len() as int) =~= all);
            out
        },
    }
}

/// The strategy that the model names.
pub fn parse_strategy_arg(s: &str) -> (r: Strategy)
    ensures
        r == crate::model_catalog::strategy_of(s@),
{
    Strategy::parse(s)
}

/// A text, or a question mark.
pub open spec fn or_question(o: Option<Seq<char>>) -> Seq<char> {
    match o {
        Some(s) => s,
        None => "?"@,
    }
}

/// What a call will do, for the human who confirms it.
pub open spec fn summary_of(tool: Seq<char>, args: JsonView) -> Seq<char> {
    if tool == names::SCHED_ADD@ {
        "schedule job '"@ + or_question(crate::json::text_field(args, "name"@)) + "' (cron "@
            + or_question(crate::json::text_field(args, "cron"@)) + ")"@
    } else if tool == names::SCHED_REMOVE@ {
        "remove job "@ + or_question(crate::json::text_field(args, "id"@))
    } else if tool == names::MCP_RELOAD@ {
        "reload remote MCP servers"@
    } else {
        "call "@ + tool
    }
}

fn text_or_question(o: Option<String>) -> (r: String)
    ensures
        r@ == or_question(crate::text::opt_view(o)),
{
    match o {
        Some(s) => s,
        None => "?".to_string(),
    }
}

/// What a call will do, for the human who confirms it.
pub fn summarize_call(tool: &str, args: &Json) -> (r: String)
    ensures
        r@ == summary_of(tool@, args@),
{
    if same(tool, names::SCHED_ADD) {
        let name: String = text_or_question(args.get_str("name"));
        let cron: String = text_or_question(args.get_str("cron"));
        cat(&cat(&cat(&cat("schedule job '", &name), "' (cron "), &cron), ")")
    } else if same(tool, names::SCHED_REMOVE) {
        cat("remove job ", &text_or_question(args.get_str("id")))
    } else if same(tool, names::MCP_RELOAD) {
        "reload remote MCP servers".to_string()
    } else {
        cat("call ", tool)
    }
}

// ---- the router --------------------------------------------------------------------

/// Which tools the model sees beyond those that are always there.
#[derive(Debug, Clone, Copy, PartialEq, Eq, Structural)]
pub struct Exposure {
    pub mcp: bool,
    pub skills: bool,
    pub a2a: bool,
    pub models: bool,
    pub memory: bool,
}

/// Everything that tools work on.
pub struct ToolRouter {
    pub scheduler: Scheduler,
    pub sessions: SessionManager,
    pub mcp: McpRegistry,
    pub skills: SkillRegistry,
    pub a2a: A2aRegistry,
    pub catalog: Catalog,
    pub memory: MemoryStore,
    pub hitl: HitlBroker,
    pub tenants: Tenants,
    /// Whether access is controlled.
    pub tenancy_enabled: bool,
    /// The desired MCP servers, for reloads that name none.
    pub mcp_desired: Vec<McpServerConfig>,
    /// The desired A2A agents, for reloads that name none.
    pub a2a_desired: Vec<A2aAgentConfig>,
    pub expose: Exposure,
    /// The strategy of picks that name none.
    pub model_strategy: Strategy,
    /// The least context window of picks that name none.
    pub model_min_context: Option<u32>,
}

/// The definitions of all tools.
pub open spec fn definitions(
    e: Exposure,
    routed: Seq<RoutedView>,
    skills: Seq<SkillView>,
    agents: Seq<Seq<char>>,
) -> Seq<schema::DefView> {
    let none = Seq::<schema::DefView>::empty();
    schema::scheduler_defs() + schema::session_defs() + schema::mcp_admin_defs() + (if e.mcp {
        routed.map_values(|t: RoutedView| schema::mcp_def(t))
    } else {
        none
    }) + schema::skill_admin_defs() + (if e.skills {
        skills.map_values(|s: SkillView| schema::skill_def(s))
    } else {
        none
    }) + schema::a2a_admin_defs() + (if e.a2a {
        agents.map_values(|n: Seq<char>| schema::a2a_def(n))
    } else {
        none
    }) + (if e.models {
        schema::model_defs()
    } else {
        none
    }) + (if e.memory {
        schema::memory_defs()
    } else {
        none
    }) + schema::tenant_defs()
}

/// What to do about a call before it runs.
#[derive(Debug)]
pub enum Gate {
    /// The caller may not make it.
    Refused(ToolOutcome),
    /// A human has to confirm it.
    Confirm(PendingConfirmation),
    /// It runs.
    Run,
}

/// Whether access control lets a principal make a call.
pub open spec fn admits(r: ToolRouter, tenant: Seq<char>, sender: Seq<char>, tool: Seq<char>) -> bool {
    !r.tenancy_enabled || crate::tenant::allowed(r.tenants@, tenant, sender, tool)
}

/// Whether a human has to confirm a call.
pub open spec fn confirms(r: ToolRouter, tool: Seq<char>) -> bool {
    crate::hitl::gated(
        r.hitl.config().enabled,
        crate::text::views(r.hitl.config().confirm_tools@),
        tool,
    )
}

/// What is decided about a call before it runs. Access comes first: a caller without the
/// permission is refused before any human is asked.
pub open spec fn gates(
    pre: ToolRouter,
    post: ToolRouter,
    tool: Seq<char>,
    args: JsonView,
    tenant: Seq<char>,
    sender: Seq<char>,
    r: Gate,
) -> bool {
    if !admits(pre, tenant, sender, tool) {
        &&& r matches Gate::Refused(o)
        &&& fails(
            o,
            crate::tenant::denial(
                tool,
                crate::tenant::name_of(crate::tenant::role_in(pre.tenants@, tenant, sender)),
                crate::tenant::required(tool),
                sender,
            ),
        )
        &&& post == pre
    } else if confirms(pre, tool) {
        &&& r matches Gate::Confirm(p)
        &&& crate::ids::is_fresh_id(p.id@, "hitl-"@)
        &&& p.tool@ == tool
        &&& p.summary@ == summary_of(tool, args)
        &&& p.session_id@ == "default"@
        &&& p.sender_id@ == sender
        &&& post.hitl.config() == pre.hitl.config()
        &&& post.hitl.waiting() == pre.hitl.waiting().insert(p.id@, p)
        &&& post == (ToolRouter { hitl: post.hitl, ..pre })
    } else {
        r is Run && post == pre
    }
}

/// The constraints of a pick, with real numbers as text.
#[derive(Debug)]
pub struct PickArgs {
    pub strategy: Strategy,
    pub min_score: Option<String>,
    pub max_cost_per_token: Option<String>,
    pub min_context_window: Option<u32>,
}

/// Work that a call needs done outside.
#[derive(Debug)]
pub enum Action {
    /// Create a directory if it is missing; then `finish_workspace`.
    SetWorkspace { session_id: String, workspace: String },
    /// Reload the MCP servers; then `finish_mcp_reload`.
    ReloadMcp(Vec<McpServerConfig>),
    /// Reload the skills; then `finish_skill_reload`.
    ReloadSkills,
    /// Reload the A2A agents; then `finish_a2a_reload`.
    ReloadA2a(Vec<A2aAgentConfig>),
    /// Call a tool of an MCP server; then `finish_mcp_call`.
    CallMcp(McpCall),
    /// Send a prompt to an A2A agent; then `finish_a2a_send`.
    SendA2a { agent: String, prompt: String },
    /// List the models; the text is the outcome.
    ListModels,
    /// Pick a model; then `finish_pick`.
    PickModel(PickArgs),
    /// Store a fact; then `finish_memory_set`.
    SetMemory { scope: String, key: String, value: String },
    /// Recall facts; then `finish_memory_recall`.
    RecallMemory { scope: String, wanted: Option<String> },
}

/// What a call leads to: its outcome, or work that has to be done first.
#[derive(Debug)]
pub enum Dispatch {
    Done(ToolOutcome),
    Do(Action),
}

impl ToolRouter {
    /// Every part is in order.
    pub open spec fn wf(&self) -> bool {
        &&& self.scheduler.wf()
        &&& self.sessions.wf()
        &&& self.mcp.wf()
        &&& self.a2a.wf()
        &&& self.memory.wf()
        &&& self.hitl.wf()
        &&& self.tenants.wf()
    }

    /// A router without access control, with the default picks.
    pub fn new(
        scheduler: Scheduler,
        sessions: SessionManager,
        mcp: McpRegistry,
        skills: SkillRegistry,
        a2a: A2aRegistry,
        catalog: Catalog,
        memory: MemoryStore,
        hitl: HitlBroker,
        mcp_desired: Vec<McpServerConfig>,
        a2a_desired: Vec<A2aAgentConfig>,
        expose: Exposure,
    ) -> (r: Self)
        requires
            scheduler.wf(),
            sessions.wf(),
            mcp.wf(),
            a2a.wf(),
            memory.wf(),
            hitl.wf(),
        ensures
            r.wf(),
            r.scheduler == scheduler,
            r.sessions == sessions,
            r.mcp == mcp,
            r.skills == skills,
            r.a2a == a2a,
            r.catalog == catalog,
            r.memory == memory,
            r.hitl == hitl,
            r.mcp_desired == mcp_desired,
            r.a2a_desired == a2a_desired,
            r.expose == expose,
            !r.tenancy_enabled,
            r.model_strategy == Strategy::BestScore,
            r.model_min_context is None,
    {
        ToolRouter::with_model_opts(
            scheduler,
            sessions,
            mcp,
            skills,
            a2a,
            catalog,
            memory,
            hitl,
            mcp_desired,
            a2a_desired,
            expose,
            Strategy::BestScore,
            None,
        )
    }

    /// A router without access control, with the given picks.
    pub fn with_model_opts(
        scheduler: Scheduler,
        sessions: SessionManager,
        mcp: McpRegistry,
        skills: SkillRegistry,
        a2a: A2aRegistry,
        catalog: Catalog,
        memory: MemoryStore,
        hitl: HitlBroker,
        mcp_desired: Vec<McpServerConfig>,
        a2a_desired: Vec<A2aAgentConfig>,
        expose: Exposure,
        model_strategy: Strategy,
        model_min_context: Option<u32>,
    ) -> (r: Self)
        requires
            scheduler.wf(),
            sessions.wf(),
            mcp.wf(),
            a2a.wf(),
            memory.wf(),
            hitl.wf(),
        ensures
            r.wf(),
            r.scheduler == scheduler,
            r.sessions == sessions,
            r.mcp == mcp,
            r.skills == skills,
            r.a2a == a2a,
            r.catalog == catalog,
            r.memory == memory,
            r.hitl == hitl,
            r.mcp_desired == mcp_desired,
            r.a2a_desired == a2a_desired,
            r.expose == expose,
            !r.tenancy_enabled,
            r.model_strategy == model_strategy,
            r.model_min_context == model_min_context,
    {
        ToolRouter {
            scheduler,
            sessions,
            mcp,
            skills,
            a2a,
            catalog,
            memory,
            hitl,
            tenants: Tenants::default(),
            tenancy_enabled: false,
            mcp_desired,
            a2a_desired,
            expose,
            model_strategy,
            model_min_context,
        }
    }

    /// The router with a registry of roles, and with access control on.
    pub fn with_tenants(self, tenants: Tenants) -> (r: Self)
        requires
            self.wf(),
            tenants.wf(),
        ensures
            r.wf(),
            r == (ToolRouter { tenants, tenancy_enabled: true, ..self }),
    {
        let mut r: ToolRouter = self;
        r.tenants = tenants;
        r.tenancy_enabled = true;
        r
    }

    /// Turns access control on or off.
    pub fn set_tenancy_enabled(&mut self, enabled: bool)
        requires
            old(self).wf(),
        ensures
            final(self).wf(),
            *final(self) == (ToolRouter { tenancy_enabled: enabled, ..*old(self) }),
    {
        self.tenancy_enabled = enabled;
    }

    /// The definitions of all tools, as the model sees them.
    pub fn tool_definitions(&self) -> (r: Vec<ToolDef>)
        requires
            self.wf(),
        ensures
            schema::def_views(r@) == definitions(
                self.expose,
                crate::mcp::routed_all(self.mcp@, crate::table::sorted(self.mcp@.dom())),
                self.skills@,
                crate::table::sorted(self.a2a@.dom()),
            ),
            crate::table::lists(crate::table::sorted(self.mcp@.dom()), self.mcp@.dom()),
            crate::table::lists(crate::table::sorted(self.a2a@.dom()), self.a2a@.dom()),
    {
        proof {
            self.mcp.lemma_names();
            self.a2a.lemma_names();
        }
        let mut out: Vec<ToolDef> = Vec::new();
        assert(schema::def_views(out@) =~= Seq::<schema::DefView>::empty());
        schema::push_scheduler(&mut out);
        assert(schema::def_views(out@) =~= schema::scheduler_defs());
        schema::push_session(&mut out);
        schema::push_mcp_admin(&mut out);
        if self.expose.mcp {
            schema::push_mcp(&mut out, &self.mcp.routed_tools());
        }
        schema::push_skill_admin(&mut out);
        if self.expose.skills {
            schema::push_skills(&mut out, &self.skills.list());
        }
        schema::push_a2a_admin(&mut out);
        if self.expose.a2a {
            schema::push_a2a(&mut out, &self.a2a.agent_names());
        }
        if self.expose.models {
            schema::push_models(&mut out);
        }
        if self.expose.memory {
            schema::push_memory(&mut out);
        }
        schema::push_tenant(&mut out);
        assert(schema::def_views(out@) =~= definitions(
            self.expose,
            crate::mcp::routed_all(self.mcp@, crate::table::sorted(self.mcp@.dom())),
            self.skills@,
            crate::table::sorted(self.a2a@.dom()),
        ));
        out
    }

    /// Decides about a call before it runs. Access comes first: a caller without
    /// the permission is refused before any human is asked.
    pub fn execute(&mut self, tool: &str, args: &Json, principal: &Principal) -> (r: Gate)
        requires
            old(self).wf(),
        ensures
            final(self).wf(),
            gates(
                *old(self),
                *final(self),
                tool@,
                args@,
                principal.tenant_id@,
                principal.sender_id@,
                r,
            ),
    {
        if self.tenancy_enabled {
            if let Err(e) = self.tenants.authorize(principal, tool) {
                return Gate::Refused(ToolOutcome::err(e.text()));
            }
        }
        if self.hitl.requires_confirmation(tool) {
            let summary: String = summarize_call(tool, args);
            let p: PendingConfirmation = self.hitl.new_pending(
                tool,
                &summary,
                "default",
                &principal.sender_id,
            );
            self.hitl.register(&p);
            return Gate::Confirm(p);
        }
        Gate::Run
    }
}

/// What a confirmation leads to: an approved call runs, any other fails with a text.
pub open spec fn refusal(tool: Seq<char>, o: Outcome) -> Option<Seq<char>> {
    match o {
        Outcome::Approved => None,
        Outcome::Denied => Some("Tool call "@ + tool + " was denied by the human."@),
        Outcome::TimedOut => Some(
            "Tool call "@ + tool + " timed out waiting for human approval."@,
        ),
    }
}

/// What a confirmation leads to: an approved call runs, any other fails.
pub fn after_confirmation(tool: &str, outcome: Outcome) -> (r: Option<ToolOutcome>)
    ensures
        match refusal(tool@, outcome) {
            None => r is None,
            Some(t) => r matches Some(o) && fails(o, t),
        },
{
    match outcome {
        Outcome::Approved => None,
        Outcome::Denied => Some(
            ToolOutcome::err(cat(&cat("Tool call ", tool), " was denied by the human.")),
        ),
        Outcome::TimedOut => Some(
            ToolOutcome::err(
                cat(&cat("Tool call ", tool), " timed out waiting for human approval."),
            ),
        ),
    }
}

// ---- laws --------------------------------------------------------------------------

/// A call is told by the name of its tool: each built-in one has its own, the tools of servers,
/// agents and skills have their prefixes, and no other name is known.
pub proof fn calls_are_told_by_name(tool: Seq<char>)
    ensures
        tool == "scheduler_add_job"@ <==> kind_of(tool) == Kind::SchedAdd,
        tool == "scheduler_remove_job"@ <==> kind_of(tool) == Kind::SchedRemove,
        tool == "scheduler_list_jobs"@ <==> kind_of(tool) == Kind::SchedList,
        tool == "session_switch"@ <==> kind_of(tool) == Kind::SessSwitch,
        tool == "session_set_workspace"@ <==> kind_of(tool) == Kind::SessSetWorkspace,
        tool == "session_list"@ <==> kind_of(tool) == Kind::SessList,
        tool == "mcp_list_servers"@ <==> kind_of(tool) == Kind::McpListServers,
        tool == "mcp_reload"@ <==> kind_of(tool) == Kind::McpReload,
        tool == "skill_list"@ <==> kind_of(tool) == Kind::SkillList,
        tool == "skill_reload"@ <==> kind_of(tool) == Kind::SkillReload,
        tool == "a2a_list_agents"@ <==> kind_of(tool) == Kind::A2aList,
        tool == "a2a_reload"@ <==> kind_of(tool) == Kind::A2aReload,
        tool == "model_list"@ <==> kind_of(tool) == Kind::ModelList,
        tool == "model_pick"@ <==> kind_of(tool) == Kind::ModelPick,
        tool == "memory_set"@ <==> kind_of(tool) == Kind::MemSet,
        tool == "memory_recall"@ <==> kind_of(tool) == Kind::MemRecall,
        tool == "tenant_whoami"@ <==> kind_of(tool) == Kind::TenantWhoami,
        tool == "tenant_list_members"@ <==> kind_of(tool) == Kind::TenantListMembers,
        kind_of(tool) == Kind::Mcp <==> tool != "mcp_reload"@ && tool != "mcp_list_servers"@
            && crate::text::begins(tool, "mcp_"@) && crate::text::has_text(tool, "__"@),
        kind_of(tool) == Kind::A2a <==> tool != "a2a_reload"@ && tool != "a2a_list_agents"@
            && crate::text::begins(tool, "a2a_"@),
        kind_of(tool) == Kind::Skill <==> tool != "skill_reload"@ && tool != "skill_list"@
            && crate::text::begins(tool, "skill_"@),
{
    names::tools_have_their_names();
    crate::tenant::lemma_prefixes(tool);
}

/// What is decided about a call: with access control on, a caller whose role lacks the
/// permission of the tool is refused, before any human is asked, and nothing changes. A call
/// that a human has to confirm waits, with what it would do; any other runs.
pub proof fn calls_are_gated(
    pre: ToolRouter,
    post: ToolRouter,
    tool: Seq<char>,
    args: JsonView,
    tenant: Seq<char>,
    sender: Seq<char>,
    r: Gate,
    i: int,
)
    requires
        gates(pre, post, tool, args, tenant, sender, r),
    ensures
        ({
            let lacks = pre.tenancy_enabled && !crate::tenant::permissions_in(
                pre.tenants@,
                crate::tenant::role_in(pre.tenants@, tenant, sender),
            ).contains(crate::tenant::required(tool));
            let c = pre.hitl.config();
            &&& r is Refused <==> lacks
            &&& lacks ==> post == pre
            &&& r matches Gate::Refused(o) ==> o.is_error
            &&& !lacks && c.enabled && c.confirm_tools@.len() == 0 ==> r is Confirm
            &&& !lacks && c.enabled && 0 <= i < c.confirm_tools@.len() && crate::hitl::glob(
                c.confirm_tools@[i]@,
                tool,
            ) ==> r is Confirm
            &&& !c.enabled ==> !(r is Confirm)
            &&& r matches Gate::Confirm(p) ==> {
                &&& p.tool@ == tool
                &&& p.sender_id@ == sender
                &&& p.session_id@ == "default"@
                &&& p.id@.len() == 37 && crate::text::begins(p.id@, "hitl-"@)
                &&& post.hitl.waiting().dom().contains(p.id@)
                &&& post.hitl.waiting()[p.id@] == p
                &&& post.scheduler == pre.scheduler && post.sessions == pre.sessions && post.memory
                    == pre.memory && post.skills == pre.skills && post.tenants == pre.tenants
                &&& tool == "scheduler_add_job"@ ==> (crate::json::field(args, "name"@) matches Some(
                    JsonView::Str(n),
                ) ==> (crate::json::field(args, "cron"@) matches Some(JsonView::Str(x))
                    ==> p.summary@ == "schedule job '"@ + n + "' (cron "@ + x + ")"@))
                &&& tool == "scheduler_remove_job"@ ==> (crate::json::field(args, "id"@) matches Some(
                    JsonView::Str(n),
                ) ==> p.summary@ == "remove job "@ + n)
                &&& tool == "mcp_reload"@ ==> p.summary@ == "reload remote MCP servers"@
                &&& tool != "scheduler_add_job"@ && tool != "scheduler_remove_job"@ && tool
                    != "mcp_reload"@ ==> p.summary@ == "call "@ + tool
            }
            &&& r is Run ==> post == pre
        }),
{
    reveal_strlit("hitl-");
    names::tools_have_their_names();
    let c = pre.hitl.config();
    let v = crate::text::views(c.confirm_tools@);
    if 0 <= i < c.confirm_tools@.len() {
        assert(v[i] == c.confirm_tools@[i]@);
    }
}

/// A call that waited for a human runs exactly when it was approved; else it fails and says
/// whether it was denied or nobody answered in time.
pub proof fn waits_let_calls_run_or_fail(tool: &str, outcome: Outcome, r: Option<ToolOutcome>)
    requires
        call_ensures(after_confirmation, (tool, outcome), r),
    ensures
        r is None <==> outcome == Outcome::Approved,
        r matches Some(o) ==> o.is_error,
        outcome == Outcome::Denied ==> (r matches Some(o) && o.content@ == "Tool call "@ + tool@
            + " was denied by the human."@),
        outcome == Outcome::TimedOut ==> (r matches Some(o) && o.content@ == "Tool call "@ + tool@
            + " timed out waiting for human approval."@),
{
}

/// The endpoints of a list are those of its items that have a name and a URL, in their order,
/// with the token and the timeout that they say.
pub proof fn endpoints_are_read_item_by_item(v: Seq<JsonView>, x: JsonView, timeout: u64)
    ensures
        endpoints_of(Seq::empty(), timeout) == Seq::<EndpointView>::empty(),
        endpoint_list_of(JsonView::Array(v), timeout) == endpoints_of(v, timeout),
        !(x is Array) ==> endpoint_list_of(x, timeout).len() == 0,
        match (crate::json::field(x, "name"@), crate::json::field(x, "url"@)) {
            (Some(JsonView::Str(n)), Some(JsonView::Str(u))) => {
                let w = endpoints_of(v.push(x), timeout);
                &&& w.len() == endpoints_of(v, timeout).len() + 1
                &&& w.drop_last() == endpoints_of(v, timeout)
                &&& w.last().name == n
                &&& w.last().url == u
                &&& match crate::json::field(x, "token"@) {
                    Some(JsonView::Str(t)) => w.last().token == Some(t),
                    _ => w.last().token is None,
                }
                &&& match crate::json::field(x, "timeout_secs"@) {
                    Some(JsonView::UInt(t)) => w.last().timeout_secs == t,
                    _ => w.last().timeout_secs == timeout,
                }
            },
            _ => endpoints_of(v.push(x), timeout) == endpoints_of(v, timeout),
        },
        MCP_TIMEOUT == 10,
        A2A_TIMEOUT == 30,
{
    assert(v.push(x).drop_last() =~= v);
    assert(endpoints_of(v.push(x), timeout).drop_last() =~= endpoints_of(v, timeout) || endpoints_of(
        v.push(x),
        timeout,
    ) == endpoints_of(v, timeout));
}

proof fn lemma_in_either(a: Seq<schema::DefView>, b: Seq<schema::DefView>, x: schema::DefView)
    ensures
        (a + b).contains(x) <==> a.contains(x) || b.contains(x),
{
    if a.contains(x) {
        let i = choose|i: int| 0 <= i < a.len() && a[i] == x;
        assert((a + b)[i] == x);
    }
    if b.contains(x) {
        let i = choose|i: int| 0 <= i < b.len() && b[i] == x;
        assert((a + b)[a.len() + i] == x);
    }
    if (a + b).contains(x) {
        let i = choose|i: int| 0 <= i < (a + b).len() && (a + b)[i] == x;
        if i < a.len() {
            assert(a[i] == x);
        } else {
            assert(b[i - a.len()] == x);
        }
    }
}

/// Whether a tool of a name is among definitions.
pub open spec fn offers(v: Seq<schema::DefView>, name: Seq<char>) -> bool {
    exists|d: schema::DefView| #[trigger] v.contains(d) && d.name == name
}

proof fn lemma_offers(a: Seq<schema::DefView>, b: Seq<schema::DefView>, name: Seq<char>)
    ensures
        offers(a + b, name) <==> offers(a, name) || offers(b, name),
{
    if offers(a + b, name) {
        let d = choose|d: schema::DefView| #[trigger] (a + b).contains(d) && d.name == name;
        lemma_in_either(a, b, d);
    }
    if offers(a, name) {
        let d = choose|d: schema::DefView| #[trigger] a.contains(d) && d.name == name;
        lemma_in_either(a, b, d);
    }
    if offers(b, name) {
        let d = choose|d: schema::DefView| #[trigger] b.contains(d) && d.name == name;
        lemma_in_either(a, b, d);
    }
}

proof fn lemma_offers_at(v: Seq<schema::DefView>, i: int)
    requires
        0 <= i < v.len(),
    ensures
        offers(v, v[i].name),
{
    assert(v.contains(v[i]));
}

/// The tools that the model is told of: those of the scheduler, the sessions, the management of
/// servers, skills and agents, and the tenants always; and where they are exposed, the tools of
/// servers, the skills, the agents, the models and the memory.
pub proof fn tools_are_offered_as_exposed(
    e: Exposure,
    routed: Seq<RoutedView>,
    skills: Seq<SkillView>,
    agents: Seq<Seq<char>>,
    i: int,
)
    ensures
        ({
            let v = definitions(e, routed, skills, agents);
            &&& offers(v, "scheduler_add_job"@) && offers(v, "scheduler_remove_job"@) && offers(
                v,
                "scheduler_list_jobs"@,
            )
            &&& offers(v, "session_switch"@) && offers(v, "session_set_workspace"@) && offers(
                v,
                "session_list"@,
            )
            &&& offers(v, "mcp_list_servers"@) && offers(v, "mcp_reload"@)
            &&& offers(v, "skill_list"@) && offers(v, "skill_reload"@)
            &&& offers(v, "a2a_list_agents"@) && offers(v, "a2a_reload"@)
            &&& offers(v, "tenant_whoami"@) && offers(v, "tenant_list_members"@)
            &&& e.models ==> offers(v, "model_list"@) && offers(v, "model_pick"@)
            &&& e.memory ==> offers(v, "memory_set"@) && offers(v, "memory_recall"@)
            &&& e.mcp && 0 <= i < routed.len() ==> offers(v, routed[i].qualified_name)
            &&& e.skills && 0 <= i < skills.len() ==> offers(v, "skill_"@ + skills[i].name)
            &&& e.a2a && 0 <= i < agents.len() ==> offers(v, "a2a_"@ + agents[i])
            &&& v.len() == 14 + (if e.mcp {
                routed.len() as int
            } else {
                0
            }) + (if e.skills {
                skills.len() as int
            } else {
                0
            }) + (if e.a2a {
                agents.len() as int
            } else {
                0
            }) + (if e.models {
                2int
            } else {
                0
            }) + (if e.memory {
                2int
            } else {
                0
            })
        }),
{
    names::tools_have_their_names();
    let none = Seq::<schema::DefView>::empty();
    let a = schema::scheduler_defs();
    let b = schema::session_defs();
    let c = schema::mcp_admin_defs();
    let d = if e.mcp {
        routed.map_values(|t: RoutedView| schema::mcp_def(t))
    } else {
        none
    };
    let f = schema::skill_admin_defs();
    let g = if e.skills {
        skills.map_values(|s: SkillView| schema::skill_def(s))
    } else {
        none
    };
    let h = schema::a2a_admin_defs();
    let j = if e.a2a {
        agents.map_values(|n: Seq<char>| schema::a2a_def(n))
    } else {
        none
    };
    let k = if e.models {
        schema::model_defs()
    } else {
        none
    };
    let l = if e.memory {
        schema::memory_defs()
    } else {
        none
    };
    let m = schema::tenant_defs();
    assert forall|name: Seq<char>|
        offers(a, name) || offers(b, name) || offers(c, name) || offers(d, name) || offers(f, name)
            || offers(g, name) || offers(h, name) || offers(j, name) || offers(k, name) || offers(
            l,
            name,
        ) || offers(m, name) implies #[trigger] offers(
        definitions(e, routed, skills, agents),
        name,
    ) by {
        lemma_offers(a, b, name);
        lemma_offers(a + b, c, name);
        lemma_offers(a + b + c, d, name);
        lemma_offers(a + b + c + d, f, name);
        lemma_offers(a + b + c + d + f, g, name);
        lemma_offers(a + b + c + d + f + g, h, name);
        lemma_offers(a + b + c + d + f + g + h, j, name);
        lemma_offers(a + b + c + d + f + g + h + j, k, name);
        lemma_offers(a + b + c + d + f + g + h + j + k, l, name);
        lemma_offers(a + b + c + d + f + g + h + j + k + l, m, name);
    }
    lemma_offers_at(a, 0);
    lemma_offers_at(a, 1);
    lemma_offers_at(a, 2);
    lemma_offers_at(b, 0);
    lemma_offers_at(b, 1);
    lemma_offers_at(b, 2);
    lemma_offers_at(c, 0);
    lemma_offers_at(c, 1);
    lemma_offers_at(f, 0);
    lemma_offers_at(f, 1);
    lemma_offers_at(h, 0);
    lemma_offers_at(h, 1);
    lemma_offers_at(m, 0);
    lemma_offers_at(m, 1);
    if e.models {
        lemma_offers_at(k, 0);
        lemma_offers_at(k, 1);
    }
    if e.memory {
        lemma_offers_at(l, 0);
        lemma_offers_at(l, 1);
    }
    if e.mcp && 0 <= i < routed.len() {
        lemma_offers_at(d, i);
    }
    if e.skills && 0 <= i < skills.len() {
        lemma_offers_at(g, i);
    }
    if e.a2a && 0 <= i < agents.len() {
        lemma_offers_at(j, i);
    }
}

/// A call waits exactly when its caller may make it and a pattern names it, or no pattern is set;
/// a caller who may not make it is refused, and told what they lack.
pub proof fn calls_wait_by_pattern(
    router: &mut ToolRouter,
    tool: &str,
    args: &Json,
    principal: &Principal,
    r: Gate,
)
    requires
        old(router).wf(),
        call_ensures(ToolRouter::execute, (router, tool, args, principal), r),
    ensures
        gates(
            *old(router),
            *final(router),
            tool@,
            args@,
            principal.tenant_id@,
            principal.sender_id@,
            r,
        ),
        ({
            let c = old(router).hitl.config();
            let lacks = old(router).tenancy_enabled && !crate::tenant::permissions_in(
                old(router).tenants@,
                crate::tenant::role_in(
                    old(router).tenants@,
                    principal.tenant_id@,
                    principal.sender_id@,
                ),
            ).contains(crate::tenant::required(tool@));
            &&& r is Refused <==> lacks
            &&& r is Confirm <==> !lacks && c.enabled && (c.confirm_tools@.len() == 0 || exists|
                i: int,
            |
                0 <= i < c.confirm_tools@.len() && crate::hitl::glob(
                    (#[trigger] c.confirm_tools@[i])@,
                    tool@,
                ))
            &&& r matches Gate::Refused(o) ==> o.is_error && o.content@ == "access denied: sender '"@
                + principal.sender_id@ + "' (role '"@ + crate::tenant::name_of(
                crate::tenant::role_in(
                    old(router).tenants@,
                    principal.tenant_id@,
                    principal.sender_id@,
                ),
            ) + "') lacks permission '"@ + crate::tenant::permission_label(
                crate::tenant::required(tool@),
            ) + "' required by tool '"@ + tool@ + "'"@
        }),
{
    let c = old(router).hitl.config();
    let v = crate::text::views(c.confirm_tools@);
    if exists|i: int|
        0 <= i < c.confirm_tools@.len() && crate::hitl::glob((#[trigger] c.confirm_tools@[i])@, tool@)
    {
        let i = choose|i: int|
            0 <= i < c.confirm_tools@.len() && crate::hitl::glob(
                (#[trigger] c.confirm_tools@[i])@,
                tool@,
            );
        assert(v[i] == c.confirm_tools@[i]@);
    }
    if exists|i: int| 0 <= i < v.len() && crate::hitl::glob(#[trigger] v[i], tool@) {
        let i = choose|i: int| 0 <= i < v.len() && crate::hitl::glob(#[trigger] v[i], tool@);
        assert(v[i] == c.confirm_tools@[i]@);
    }
}

/// What a human is told of a call whose arguments are missing.
pub proof fn missing_arguments_are_told(tool: &str, args: &Json, r: String)
    requires
        call_ensures(summarize_call, (tool, args), r),
    ensures
        tool@ == "scheduler_remove_job"@ && !(crate::json::field(args@, "id"@) matches Some(
            JsonView::Str(_),
        )) ==> r@ == "remove job "@ + "?"@,
        tool@ == "scheduler_add_job"@ && !(crate::json::field(args@, "name"@) matches Some(
            JsonView::Str(_),
        )) ==> (crate::json::field(args@, "cron"@) matches Some(JsonView::Str(x)) ==> r@
            == "schedule job '"@ + "?"@ + "' (cron "@ + x + ")"@),
        tool@ == "scheduler_add_job"@ && !(crate::json::field(args@, "cron"@) matches Some(
            JsonView::Str(_),
        )) ==> (crate::json::field(args@, "name"@) matches Some(JsonView::Str(x)) ==> r@
            == "schedule job '"@ + x + "' (cron "@ + "?"@ + ")"@),
{
    crate::tools::names::tools_have_their_names();
    reveal_strlit("scheduler_remove_job");
    reveal_strlit("scheduler_add_job");
    assert("scheduler_remove_job"@.len() == 20 && "scheduler_add_job"@.len() == 17);
}

} // verus!
