//! What each tool call does.

use vstd::prelude::*;
use crate::a2a::A2aResult;
use crate::config::{A2aAgentConfig, McpServerConfig};
use crate::hitl::{Outcome, Wait};
use crate::json::{Json, JsonView};
use crate::mcp::{McpCall, McpToolResult};
use crate::memory::SenderMemory;
use crate::model_catalog::{explain_pick, PickedText, Strategy};
use crate::reload::ReloadReport;
use crate::scheduler::{wall_secs, ScheduledJob, LATEST};
use crate::session::Session;
use crate::tenant::{PermissionSet, Principal, Role};
use crate::text::{cat, dup_opt, strip_prefix};
use crate::tools::replies;
use crate::tools::{
    after_confirmation,
    classify,
    names,
    parse_agents,
    parse_servers,
    parse_strategy_arg,
    Action,
    Dispatch,
    Gate,
    Kind,
    PickArgs,
    ToolOutcome,
    ToolRouter,
};

verus! {

// ---- what calls do -----------------------------------------------------------------

/// A call ends at once with a failure.
pub open spec fn done_failing(r: Dispatch, text: Seq<char>) -> bool {
    r matches Dispatch::Done(o) && crate::tools::fails(o, text)
}

/// A call ends at once with a JSON value.
pub open spec fn done_with(r: Dispatch, v: JsonView) -> bool {
    r matches Dispatch::Done(o) && crate::tools::succeeds(o, crate::json::json_text(v))
}

/// What a job that was scheduled by a call holds.
pub open spec fn scheduled_as(
    e: crate::scheduler::Entry,
    id: Seq<char>,
    args: JsonView,
    tenant: Seq<char>,
    sender: Seq<char>,
    now: int,
) -> bool {
    &&& e.job.id@ == id
    &&& Some(e.job.name@) == crate::json::text_field(args, "name"@)
    &&& Some(e.job.cron@) == crate::json::text_field(args, "cron"@)
    &&& Some(e.job.prompt@) == crate::json::text_field(args, "prompt"@)
    &&& e.job.session_id@ == (match crate::json::text_field(args, "session_id"@) {
        Some(s) => s,
        None => "default"@,
    })
    &&& crate::text::opt_view(e.job.tenant_id) == Some(tenant)
    &&& crate::text::opt_view(e.job.reply_to) == Some(sender)
    &&& crate::cron::cron_of(e.job.cron@) == Ok::<crate::cron::CronModel, Seq<char>>(e.cron@)
    &&& e.next_fire == crate::cron::next_of(e.cron@, now)
}

/// A call schedules a job under an id and says so.
pub open spec fn job_added(
    pre: Map<Seq<char>, crate::scheduler::Entry>,
    post: Map<Seq<char>, crate::scheduler::Entry>,
    id: Seq<char>,
    args: JsonView,
    tenant: Seq<char>,
    sender: Seq<char>,
    now: int,
    r: Dispatch,
) -> bool {
    &&& crate::ids::is_fresh_id(id, "job-"@)
    &&& done_with(r, replies::added_json(id))
    &&& post == pre.insert(id, post[id])
    &&& scheduled_as(post[id], id, args, tenant, sender, now)
}

/// What a call that adds a job does to the jobs.
pub open spec fn adds_job(
    pre: Map<Seq<char>, crate::scheduler::Entry>,
    post: Map<Seq<char>, crate::scheduler::Entry>,
    args: JsonView,
    tenant: Seq<char>,
    sender: Seq<char>,
    now: int,
    r: Dispatch,
) -> bool {
    let cron = crate::json::text_field(args, "cron"@);
    if crate::json::text_field(args, "name"@) is None {
        done_failing(r, "missing 'name'"@) && post == pre
    } else if cron is None {
        done_failing(r, "missing 'cron'"@) && post == pre
    } else if crate::json::text_field(args, "prompt"@) is None {
        done_failing(r, "missing 'prompt'"@) && post == pre
    } else {
        match crate::cron::cron_of(cron->Some_0) {
            Err(e) => done_failing(
                r,
                "failed to schedule: "@ + ("invalid cron: "@ + cron->Some_0 + ": "@ + e),
            ) && post == pre,
            Ok(_) => if now > LATEST {
                done_failing(r, "failed to schedule: "@ + "clock out of range"@) && post == pre
            } else {
                exists|id: Seq<char>| #[trigger]
                    job_added(pre, post, id, args, tenant, sender, now, r)
            },
        }
    }
}

/// What a call that removes a job does to the jobs: it removes one of the caller's
/// tenant.
pub open spec fn removes_job(
    pre: Map<Seq<char>, crate::scheduler::Entry>,
    post: Map<Seq<char>, crate::scheduler::Entry>,
    args: JsonView,
    tenant: Seq<char>,
    r: Dispatch,
) -> bool {
    match crate::json::text_field(args, "id"@) {
        None => done_failing(r, "missing 'id'"@) && post == pre,
        Some(id) => {
            let own = pre.dom().contains(id) && crate::scheduler::of_tenant(
                pre[id],
                Some(tenant),
            );
            &&& done_with(r, replies::removed_json(own))
            &&& post == (if own {
                pre.remove(id)
            } else {
                pre
            })
        },
    }
}

/// What a call that lists jobs answers: those of the caller's tenant.
pub open spec fn lists_jobs(
    jobs: Map<Seq<char>, crate::scheduler::Entry>,
    tenant: Seq<char>,
    r: Dispatch,
) -> bool {
    exists|ids: Seq<Seq<char>>| #[trigger]
        crate::scheduler::enumerates(ids, jobs.dom()) && done_with(
            r,
            replies::jobs_json(
                crate::scheduler::jobs_at(
                    jobs,
                    crate::scheduler::ids_for(jobs, ids, Some(tenant)),
                ),
            ),
        )
}

/// What a call that switches the session does, for the sender with a scope key.
pub open spec fn switches_session(
    pre: crate::session::SessionManager,
    post: crate::session::SessionManager,
    args: JsonView,
    scope: Seq<char>,
    r: Dispatch,
) -> bool {
    &&& post.sessions() == pre.sessions()
    &&& post.initial() == pre.initial()
    &&& match crate::json::text_field(args, "session_id"@) {
        None => done_failing(r, "missing 'session_id'"@) && post.active_map() == pre.active_map(),
        Some(id) => if pre.sessions().dom().contains(id) {
            &&& done_with(r, replies::session_json(pre.sessions()[id]))
            &&& post.active_map() == pre.active_map().insert(scope, id)
        } else {
            &&& done_failing(r, crate::session::not_found(id))
            &&& post.active_map() == pre.active_map()
        },
    }
}

/// What a call that sets the workspace of a session leads to: the directory has to
/// exist first.
pub open spec fn sets_workspace(
    sessions: Map<Seq<char>, Session>,
    args: JsonView,
    r: Dispatch,
) -> bool {
    match (
        crate::json::text_field(args, "session_id"@),
        crate::json::text_field(args, "workspace"@),
    ) {
        (None, _) => done_failing(r, "missing 'session_id'"@),
        (Some(_), None) => done_failing(r, "missing 'workspace'"@),
        (Some(id), Some(dir)) => if sessions.dom().contains(id) {
            r matches Dispatch::Do(Action::SetWorkspace { session_id, workspace }) && session_id@
                == id && workspace@ == dir
        } else {
            done_failing(r, crate::session::not_found(id))
        },
    }
}

/// The MCP servers that a reload call wants: those it names, else the known ones.
pub open spec fn servers_wanted(
    known: Seq<McpServerConfig>,
    args: JsonView,
) -> Seq<crate::tools::EndpointView> {
    match crate::json::field(args, "servers"@) {
        Some(v) => crate::tools::endpoint_list_of(v, crate::tools::MCP_TIMEOUT),
        None => known.map_values(|c: McpServerConfig| crate::tools::server_view(c)),
    }
}

/// The A2A agents that a reload call wants: those it names, else the known ones.
pub open spec fn agents_wanted(
    known: Seq<A2aAgentConfig>,
    args: JsonView,
) -> Seq<crate::tools::EndpointView> {
    match crate::json::field(args, "agents"@) {
        Some(v) => crate::tools::endpoint_list_of(v, crate::tools::A2A_TIMEOUT),
        None => known.map_values(|c: A2aAgentConfig| crate::tools::agent_view(c)),
    }
}

/// What a call of a tool of an MCP server leads to.
pub open spec fn calls_mcp(
    live: Map<Seq<char>, crate::reload::Live<Vec<crate::mcp::McpTool>>>,
    tool: Seq<char>,
    args: JsonView,
    r: Dispatch,
) -> bool {
    match crate::mcp::target_of(live, tool) {
        Err(e) => done_failing(r, "MCP tool call failed: "@ + e),
        Ok(p) => {
            &&& r matches Dispatch::Do(Action::CallMcp(c))
            &&& c.server@ == p.0
            &&& c.tool@ == p.1
            &&& c.arguments@ == crate::mcp::arguments_of(args)
        },
    }
}

/// What a call of an A2A agent leads to.
pub open spec fn calls_agent(
    live: Map<Seq<char>, crate::reload::Live<()>>,
    name: Seq<char>,
    args: JsonView,
    r: Dispatch,
) -> bool {
    match crate::json::text_field(args, "prompt"@) {
        None => done_failing(r, "missing 'prompt'"@),
        Some(text) => if live.dom().contains(name) {
            r matches Dispatch::Do(Action::SendA2a { agent, prompt }) && agent@ == name && prompt@
                == text
        } else {
            done_failing(r, "A2A agent call failed: "@ + ("unknown A2A agent: "@ + name))
        },
    }
}

/// What a call of a skill answers.
pub open spec fn calls_skill(
    skills: Seq<crate::skill::SkillView>,
    name: Seq<char>,
    args: JsonView,
    r: Dispatch,
) -> bool {
    match crate::skill::skill_named(skills, name) {
        Some(s) => r matches Dispatch::Done(o) && crate::tools::succeeds(
            o,
            crate::skill::filled(s.body, s.arguments, args, s.arguments.len() as int),
        ),
        None => done_failing(r, "skill invoke failed: "@ + ("unknown skill: "@ + name)),
    }
}

/// What a call that picks a model leads to: each constraint as the call names it,
/// else as configured.
pub open spec fn picks_model(
    strategy: Strategy,
    min_context: Option<u32>,
    args: JsonView,
    r: Dispatch,
) -> bool {
    &&& r matches Dispatch::Do(Action::PickModel(p))
    &&& p.strategy == (match crate::json::text_field(args, "strategy"@) {
        Some(s) => crate::model_catalog::strategy_of(s),
        None => strategy,
    })
    &&& crate::text::opt_view(p.min_score) == crate::json::number_field(args, "min_score"@)
    &&& crate::text::opt_view(p.max_cost_per_token) == crate::json::number_field(
        args,
        "max_cost_per_token"@,
    )
    &&& p.min_context_window == (match crate::json::uint_field(args, "min_context_window"@) {
        Some(n) => Some(n as u32),
        None => min_context,
    })
}

/// What a call that stores a fact leads to, for the sender with a scope key.
pub open spec fn sets_memory(scope: Seq<char>, args: JsonView, r: Dispatch) -> bool {
    match (crate::json::text_field(args, "key"@), crate::json::text_field(args, "value"@)) {
        (None, _) => done_failing(r, "missing 'key'"@),
        (Some(_), None) => done_failing(r, "missing 'value'"@),
        (Some(k), Some(v)) => r matches Dispatch::Do(Action::SetMemory { scope: s, key, value })
            && s@ == scope && key@ == k && value@ == v,
    }
}

/// What a caller who asks who they are is told.
pub open spec fn tells_identity(
    m: crate::tenant::TenantModel,
    enabled: bool,
    tenant: Seq<char>,
    sender: Seq<char>,
    r: Dispatch,
) -> bool {
    let role = crate::tenant::role_in(m, tenant, sender);
    let held = crate::tenant::permissions_in(m, role);
    done_with(
        r,
        replies::whoami_json(
            tenant,
            sender,
            crate::tenant::name_of(role),
            crate::tenant::builtin(crate::tenant::RoleView::Admin).filter(
                |p: crate::tenant::Permission| held.contains(p),
            ),
            enabled,
        ),
    )
}

/// What a call does: how it changes the router, and what it leads to.
pub open spec fn dispatched(
    pre: ToolRouter,
    post: ToolRouter,
    tool: Seq<char>,
    args: JsonView,
    tenant: Seq<char>,
    sender: Seq<char>,
    now: int,
    r: Dispatch,
) -> bool {
    let scope = crate::tenant::scope(tenant, sender);
    match crate::tools::kind_of(tool) {
        Kind::SchedAdd => {
            &&& adds_job(pre.scheduler@, post.scheduler@, args, tenant, sender, now, r)
            &&& post == (ToolRouter { scheduler: post.scheduler, ..pre })
        },
        Kind::SchedRemove => {
            &&& removes_job(pre.scheduler@, post.scheduler@, args, tenant, r)
            &&& post == (ToolRouter { scheduler: post.scheduler, ..pre })
        },
        Kind::SchedList => post == pre && lists_jobs(pre.scheduler@, tenant, r),
        Kind::SessSwitch => {
            &&& switches_session(pre.sessions, post.sessions, args, scope, r)
            &&& post == (ToolRouter { sessions: post.sessions, ..pre })
        },
        Kind::SessSetWorkspace => post == pre && sets_workspace(
            pre.sessions.sessions(),
            args,
            r,
        ),
        Kind::SessList => post == pre && exists|v: Seq<Session>| #[trigger]
            crate::session::lists_sessions(v, pre.sessions.sessions()) && done_with(
                r,
                replies::sessions_json(v),
            ),
        Kind::McpListServers => post == pre && done_with(r, replies::servers_json(pre.mcp@)),
        Kind::McpReload => {
            &&& post == pre
            &&& r matches Dispatch::Do(Action::ReloadMcp(v))
            &&& v@.map_values(|c: McpServerConfig| crate::tools::server_view(c)) == servers_wanted(
                pre.mcp_desired@,
                args,
            )
        },
        Kind::SkillList => post == pre && done_with(r, replies::skills_json(pre.skills@)),
        Kind::SkillReload => {
            &&& r matches Dispatch::Do(Action::ReloadSkills)
            &&& post == (ToolRouter { skills: post.skills, ..pre })
            &&& post.skills@ == pre.skills@
            &&& post.skills.folder() == (match crate::json::text_field(args, "dir"@) {
                Some(d) => Some(d),
                None => pre.skills.folder(),
            })
        },
        Kind::A2aList => post == pre && done_with(
            r,
            replies::agents_json(crate::table::sorted(pre.a2a@.dom())),
        ),
        Kind::A2aReload => {
            &&& post == pre
            &&& r matches Dispatch::Do(Action::ReloadA2a(v))
            &&& v@.map_values(|c: A2aAgentConfig| crate::tools::agent_view(c)) == agents_wanted(
                pre.a2a_desired@,
                args,
            )
        },
        Kind::TenantWhoami => post == pre && tells_identity(
            pre.tenants@,
            pre.tenancy_enabled,
            tenant,
            sender,
            r,
        ),
        Kind::TenantListMembers => post == pre && done_with(
            r,
            replies::members_json(crate::tenant::members_in(pre.tenants@)),
        ),
        Kind::Mcp => post == pre && calls_mcp(pre.mcp@, tool, args, r),
        Kind::A2a => post == pre && calls_agent(
            pre.a2a@,
            tool.skip(names::A2A_PREFIX@.len() as int),
            args,
            r,
        ),
        Kind::Skill => post == pre && calls_skill(
            pre.skills@,
            tool.skip(names::SKILL_PREFIX@.len() as int),
            args,
            r,
        ),
        Kind::ModelList => post == pre && r matches Dispatch::Do(Action::ListModels),
        Kind::ModelPick => post == pre && picks_model(
            pre.model_strategy,
            pre.model_min_context,
            args,
            r,
        ),
        Kind::MemSet => post == pre && sets_memory(scope, args, r),
        Kind::MemRecall => {
            &&& post == pre
            &&& r matches Dispatch::Do(Action::RecallMemory { scope: s, wanted })
            &&& s@ == scope
            &&& crate::text::opt_view(wanted) == crate::json::text_field(args, "key"@)
        },
        Kind::Unknown => post == pre && done_failing(r, "unknown tool: "@ + tool),
    }
}

// ---- the calls -----------------------------------------------------------------------

/// A failure that ends a call at once.
fn failed(text: &str) -> (r: Dispatch)
    ensures
        done_failing(r, text@),
{
    Dispatch::Done(ToolOutcome::err(text.to_string()))
}

/// A JSON value that ends a call at once.
fn answered(v: &Json) -> (r: Dispatch)
    ensures
        done_with(r, v@),
{
    Dispatch::Done(ToolOutcome::json(v))
}

/// A copy of configured MCP servers.
pub fn dup_servers(v: &Vec<McpServerConfig>) -> (r: Vec<McpServerConfig>)
    ensures
        r@ == v@,
{
    let mut out: Vec<McpServerConfig> = Vec::new();
    let mut i: usize = 0;
    while i < v.len()
        invariant
            i <= v@.len(),
            out@ == v@.take(i as int),
        decreases v@.len() - i,
    {
        out.push(
            McpServerConfig {
                name: v[i].name.clone(),
                url: v[i].url.clone(),
                token: dup_opt(&v[i].token),
                timeout_secs: v[i].timeout_secs,
            },
        );
        assert(out@ =~= v@.take(i + 1));
        i = i + 1;
    }
    assert(v@.take(v@.len() as int) =~= v@);
    out
}

/// A copy of configured A2A agents.
pub fn dup_agents(v: &Vec<A2aAgentConfig>) -> (r: Vec<A2aAgentConfig>)
    ensures
        r@ == v@,
{
    let mut out: Vec<A2aAgentConfig> = Vec::new();
    let mut i: usize = 0;
    while i < v.len()
        invariant
            i <= v@.len(),
            out@ == v@.take(i as int),
        decreases v@.len() - i,
    {
        out.push(
            A2aAgentConfig {
                name: v[i].name.clone(),
                url: v[i].url.clone(),
                token: dup_opt(&v[i].token),
                timeout_secs: v[i].timeout_secs,
            },
        );
        assert(out@ =~= v@.take(i + 1));
        i = i + 1;
    }
    assert(v@.take(v@.len() as int) =~= v@);
    out
}

impl ToolRouter {
    fn add_job(&mut self, args: &Json, principal: &Principal, now: i64) -> (r: Dispatch)
        requires
            old(self).wf(),
        ensures
            final(self).wf(),
            adds_job(
                old(self).scheduler@,
                final(self).scheduler@,
                args@,
                principal.tenant_id@,
                principal.sender_id@,
                now as int,
                r,
            ),
            *final(self) == (ToolRouter { scheduler: final(self).scheduler, ..*old(self) }),
    {
        let name: String = match args.get_str("name") {
            None => return failed("missing 'name'"),
            Some(s) => s,
        };
        let cron: String = match args.get_str("cron") {
            None => return failed("missing 'cron'"),
            Some(s) => s,
        };
        let prompt: String = match args.get_str("prompt") {
            None => return failed("missing 'prompt'"),
            Some(s) => s,
        };
        let session_id: String = match args.get_str("session_id") {
            None => "default".to_string(),
            Some(s) => s,
        };
        let no_id: String = "".to_string();
        proof {
            reveal_strlit("");
        }
        let job: ScheduledJob = ScheduledJob {
            id: no_id,
            name,
            cron,
            prompt,
            session_id,
            tenant_id: Some(principal.tenant_id.clone()),
            reply_to: Some(principal.sender_id.clone()),
        };
        match self.scheduler.add_at(job, now) {
            Ok(id) => {
                let r: Dispatch = answered(&replies::added_value(&id));
                proof {
                    let e = self.scheduler@[id@];
                    assert(self.scheduler@.dom().contains(id@));
                    assert(crate::scheduler::entry_wf(id@, e));
                    assert(job_added(
                        old(self).scheduler@,
                        self.scheduler@,
                        id@,
                        args@,
                        principal.tenant_id@,
                        principal.sender_id@,
                        now as int,
                        r,
                    ));
                }
                r
            },
            Err(e) => failed(&cat("failed to schedule: ", &e.chain())),
        }
    }

    fn remove_job(&mut self, args: &Json, principal: &Principal) -> (r: Dispatch)
        requires
            old(self).wf(),
        ensures
            final(self).wf(),
            removes_job(
                old(self).scheduler@,
                final(self).scheduler@,
                args@,
                principal.tenant_id@,
                r,
            ),
            *final(self) == (ToolRouter { scheduler: final(self).scheduler, ..*old(self) }),
    {
        match args.get_str("id") {
            None => failed("missing 'id'"),
            Some(id) => {
                let removed: bool = self.scheduler.remove_for(
                    &id,
                    Some(principal.tenant_id.as_str()),
                );
                answered(&replies::removed_value(removed))
            },
        }
    }

    fn list_jobs(&self, principal: &Principal) -> (r: Dispatch)
        ensures
            lists_jobs(self.scheduler@, principal.tenant_id@, r),
    {
        let jobs: Vec<ScheduledJob> = self.scheduler.list_for(Some(principal.tenant_id.as_str()));
        answered(&replies::jobs_value(&jobs))
    }

    fn switch_session(&mut self, args: &Json, principal: &Principal) -> (r: Dispatch)
        requires
            old(self).wf(),
        ensures
            final(self).wf(),
            switches_session(
                old(self).sessions,
                final(self).sessions,
                args@,
                crate::tenant::scope(principal.tenant_id@, principal.sender_id@),
                r,
            ),
            *final(self) == (ToolRouter { sessions: final(self).sessions, ..*old(self) }),
    {
        match args.get_str("session_id") {
            None => failed("missing 'session_id'"),
            Some(id) => {
                let scope: String = principal.scope_key();
                match self.sessions.switch(&scope, &id) {
                    Ok(s) => answered(&replies::session_value(&s)),
                    Err(e) => failed(&e),
                }
            },
        }
    }

    fn pick_workspace(&self, args: &Json) -> (r: Dispatch)
        requires
            self.wf(),
        ensures
            sets_workspace(self.sessions.sessions(), args@, r),
    {
        match args.get_str("session_id") {
            None => failed("missing 'session_id'"),
            Some(session_id) => match args.get_str("workspace") {
                None => failed("missing 'workspace'"),
                Some(workspace) => {
                    if !self.sessions.contains(&session_id) {
                        return failed(&cat(&cat("session ", &session_id), " not found"));
                    }
                    Dispatch::Do(Action::SetWorkspace { session_id, workspace })
                },
            },
        }
    }

    fn call_mcp(&self, tool: &str, args: &Json) -> (r: Dispatch)
        requires
            self.wf(),
        ensures
            calls_mcp(self.mcp@, tool@, args@, r),
    {
        match self.mcp.call_qualified(tool, args.dup()) {
            Ok(c) => Dispatch::Do(Action::CallMcp(c)),
            Err(e) => failed(&cat("MCP tool call failed: ", &e)),
        }
    }

    fn call_agent(&self, agent: &str, args: &Json) -> (r: Dispatch)
        requires
            self.wf(),
        ensures
            calls_agent(self.a2a@, agent@, args@, r),
    {
        match args.get_str("prompt") {
            None => failed("missing 'prompt'"),
            Some(prompt) => match self.a2a.send(agent) {
                Ok(()) => Dispatch::Do(Action::SendA2a { agent: agent.to_string(), prompt }),
                Err(e) => failed(&cat("A2A agent call failed: ", &e)),
            },
        }
    }

    fn call_skill(&self, skill: &str, args: &Json) -> (r: Dispatch)
        ensures
            calls_skill(self.skills@, skill@, args@, r),
    {
        match self.skills.invoke(skill, args) {
            Ok(body) => Dispatch::Done(ToolOutcome::ok(body)),
            Err(e) => failed(&cat("skill invoke failed: ", &e)),
        }
    }

    fn pick_model(&self, args: &Json) -> (r: Dispatch)
        ensures
            picks_model(self.model_strategy, self.model_min_context, args@, r),
    {
        let strategy: Strategy = match args.get_str("strategy") {
            Some(s) => parse_strategy_arg(&s),
            None => self.model_strategy,
        };
        let min_context_window: Option<u32> = match args.get_uint("min_context_window") {
            Some(n) => Some(
                #[verifier::truncate]
                (n as u32),
            ),
            None => self.model_min_context,
        };
        Dispatch::Do(
            Action::PickModel(
                PickArgs {
                    strategy,
                    min_score: args.get_number("min_score"),
                    max_cost_per_token: args.get_number("max_cost_per_token"),
                    min_context_window,
                },
            ),
        )
    }

    fn set_memory(&self, args: &Json, principal: &Principal) -> (r: Dispatch)
        ensures
            sets_memory(
                crate::tenant::scope(principal.tenant_id@, principal.sender_id@),
                args@,
                r,
            ),
    {
        match args.get_str("key") {
            None => failed("missing 'key'"),
            Some(key) => match args.get_str("value") {
                None => failed("missing 'value'"),
                Some(value) => Dispatch::Do(
                    Action::SetMemory { scope: principal.scope_key(), key, value },
                ),
            },
        }
    }

    fn tell_identity(&self, principal: &Principal) -> (r: Dispatch)
        requires
            self.wf(),
        ensures
            tells_identity(
                self.tenants@,
                self.tenancy_enabled,
                principal.tenant_id@,
                principal.sender_id@,
                r,
            ),
    {
        let role: Role = self.tenants.role_for(principal);
        let held: PermissionSet = self.tenants.permissions_for(principal);
        let v: Json = replies::whoami_value(
            &principal.tenant_id,
            &principal.sender_id,
            role.name(),
            &held.list(),
            self.tenancy_enabled,
        );
        answered(&v)
    }

    /// What a call does at the time `now`: its outcome, or the work that has to be
    /// done first.
    pub fn dispatch_at(
        &mut self,
        tool: &str,
        args: &Json,
        principal: &Principal,
        now: i64,
    ) -> (r: Dispatch)
        requires
            old(self).wf(),
        ensures
            final(self).wf(),
            dispatched(
                *old(self),
                *final(self),
                tool@,
                args@,
                principal.tenant_id@,
                principal.sender_id@,
                now as int,
                r,
            ),
    {
        match classify(tool) {
            Kind::SchedAdd => self.add_job(args, principal, now),
            Kind::SchedRemove => self.remove_job(args, principal),
            Kind::SchedList => self.list_jobs(principal),
            Kind::SessSwitch => self.switch_session(args, principal),
            Kind::SessSetWorkspace => self.pick_workspace(args),
            Kind::SessList => answered(&replies::sessions_value(&self.sessions.list())),
            Kind::McpListServers => answered(&replies::servers_value(&self.mcp)),
            Kind::McpReload => Dispatch::Do(
                Action::ReloadMcp(
                    match args.get("servers") {
                        Some(v) => parse_servers(v),
                        None => dup_servers(&self.mcp_desired),
                    },
                ),
            ),
            Kind::SkillList => answered(&replies::skills_value(&self.skills.list())),
            Kind::SkillReload => {
                if let Some(dir) = args.get_str("dir") {
                    self.skills.set_dir(&dir);
                }
                Dispatch::Do(Action::ReloadSkills)
            },
            Kind::A2aList => answered(&replies::agents_value(&self.a2a.agent_names())),
            Kind::A2aReload => Dispatch::Do(
                Action::ReloadA2a(
                    match args.get("agents") {
                        Some(v) => parse_agents(v),
                        None => dup_agents(&self.a2a_desired),
                    },
                ),
            ),
            Kind::TenantWhoami => self.tell_identity(principal),
            Kind::TenantListMembers => answered(
                &replies::members_value(&self.tenants.list_members()),
            ),
            Kind::Mcp => self.call_mcp(tool, args),
            Kind::A2a => match strip_prefix(tool, names::A2A_PREFIX) {
                Some(agent) => self.call_agent(&agent, args),
                None => self.call_agent("", args),
            },
            Kind::Skill => match strip_prefix(tool, names::SKILL_PREFIX) {
                Some(skill) => self.call_skill(&skill, args),
                None => self.call_skill("", args),
            },
            Kind::ModelList => Dispatch::Do(Action::ListModels),
            Kind::ModelPick => self.pick_model(args),
            Kind::MemSet => self.set_memory(args, principal),
            Kind::MemRecall => Dispatch::Do(
                Action::RecallMemory { scope: principal.scope_key(), wanted: args.get_str("key") },
            ),
            Kind::Unknown => failed(&cat("unknown tool: ", tool)),
        }
    }

    /// What a call does at present: what it does at the time that the clock gives, which
    /// only calls that schedule jobs need.
    pub fn dispatch(&mut self, tool: &str, args: &Json, principal: &Principal) -> (r: Dispatch)
        requires
            old(self).wf(),
        ensures
            final(self).wf(),
            exists|now: i64| #[trigger]
                dispatched(
                    *old(self),
                    *final(self),
                    tool@,
                    args@,
                    principal.tenant_id@,
                    principal.sender_id@,
                    now as int,
                    r,
                ),
    {
        self.dispatch_at(tool, args, principal, wall_secs())
    }
}

// ---- confirmed calls -----------------------------------------------------------------

/// Whether a call may run, given what was decided about it and how the wait for a human
/// ended: only right away, or once it was approved. No wait at all approves nothing.
pub open spec fn may_run(gate: Gate, wait: Option<Wait>) -> bool {
    match gate {
        Gate::Run => true,
        Gate::Refused(_) => false,
        Gate::Confirm(_) => wait matches Some(w) && crate::hitl::decided(w) == Outcome::Approved,
    }
}

/// How the wait for a human ended; one that did not happen is one without an answer.
pub open spec fn waited(wait: Option<Wait>) -> Wait {
    match wait {
        Some(w) => w,
        None => Wait::Dropped,
    }
}

/// What a call leads to once it is decided: it is dispatched if it may run, and else fails
/// and changes nothing.
pub open spec fn proceeds(
    pre: ToolRouter,
    post: ToolRouter,
    gate: Gate,
    wait: Option<Wait>,
    tool: Seq<char>,
    args: JsonView,
    tenant: Seq<char>,
    sender: Seq<char>,
    r: Dispatch,
) -> bool {
    if may_run(gate, wait) {
        exists|now: i64| #[trigger]
            dispatched(pre, post, tool, args, tenant, sender, now as int, r)
    } else {
        &&& post == pre
        &&& match gate {
            Gate::Refused(o) => r == Dispatch::Done(o),
            _ => crate::tools::refusal(tool, crate::hitl::decided(waited(wait))) matches Some(t)
                && done_failing(r, t),
        }
    }
}

impl ToolRouter {
    /// Runs a call that `execute` decided about, given how the wait for a human ended if
    /// one was asked, or fails it. Which instant the clock shows is up to the clock.
    pub fn proceed(
        &mut self,
        gate: Gate,
        wait: Option<Wait>,
        tool: &str,
        args: &Json,
        principal: &Principal,
    ) -> (r: Dispatch)
        requires
            old(self).wf(),
        ensures
            final(self).wf(),
            proceeds(
                *old(self),
                *final(self),
                gate,
                wait,
                tool@,
                args@,
                principal.tenant_id@,
                principal.sender_id@,
                r,
            ),
    {
        match gate {
            Gate::Refused(o) => Dispatch::Done(o),
            Gate::Run => self.dispatch(tool, args, principal),
            Gate::Confirm(_) => {
                let w: Wait = match wait {
                    Some(w) => w,
                    None => Wait::Dropped,
                };
                match after_confirmation(tool, self.hitl.await_decision(w)) {
                    Some(o) => Dispatch::Done(o),
                    None => self.dispatch(tool, args, principal),
                }
            },
        }
    }
}

// ---- once the work is done -------------------------------------------------------------

impl ToolRouter {
    /// The outcome of setting a workspace, once its directory exists or could not be
    /// created.
    pub fn finish_workspace(
        &mut self,
        session_id: &str,
        workspace: &str,
        made: Result<(), String>,
    ) -> (r: ToolOutcome)
        requires
            old(self).wf(),
        ensures
            final(self).wf(),
            *final(self) == (ToolRouter { sessions: final(self).sessions, ..*old(self) }),
            final(self).sessions.initial() == old(self).sessions.initial(),
            final(self).sessions.active_map() == old(self).sessions.active_map(),
            match made {
                Err(e) => {
                    &&& crate::tools::fails(r, e@)
                    &&& final(self).sessions.sessions() == old(self).sessions.sessions()
                },
                Ok(_) => {
                    let all = old(self).sessions.sessions();
                    if all.dom().contains(session_id@) {
                        let s = final(self).sessions.sessions()[session_id@];
                        &&& final(self).sessions.sessions() == all.insert(session_id@, s)
                        &&& s.id == all[session_id@].id
                        &&& s.label == all[session_id@].label
                        &&& s.created_at == all[session_id@].created_at
                        &&& crate::text::opt_view(s.workspace) == Some(workspace@)
                        &&& crate::tools::succeeds(
                            r,
                            crate::json::json_text(replies::session_json(s)),
                        )
                    } else {
                        &&& final(self).sessions.sessions() == all
                        &&& crate::tools::fails(r, crate::session::not_found(session_id@))
                    }
                },
            },
    {
        match made {
            Err(e) => ToolOutcome::err(e),
            Ok(()) => match self.sessions.set_workspace(session_id, workspace) {
                Ok(s) => ToolOutcome::json(&replies::session_value(&s)),
                Err(e) => ToolOutcome::err(e),
            },
        }
    }

    /// The outcome of an MCP reload, whose servers become the known ones.
    pub fn finish_mcp_reload(
        &mut self,
        desired: Vec<McpServerConfig>,
        report: &ReloadReport,
    ) -> (r: ToolOutcome)
        requires
            old(self).wf(),
        ensures
            final(self).wf(),
            *final(self) == (ToolRouter { mcp_desired: desired, ..*old(self) }),
            crate::tools::succeeds(r, crate::json::json_text(replies::report_json(*report))),
    {
        self.mcp_desired = desired;
        ToolOutcome::json(&replies::report_value(report))
    }

    /// The outcome of an A2A reload, whose agents become the known ones.
    pub fn finish_a2a_reload(
        &mut self,
        desired: Vec<A2aAgentConfig>,
        report: &ReloadReport,
    ) -> (r: ToolOutcome)
        requires
            old(self).wf(),
        ensures
            final(self).wf(),
            *final(self) == (ToolRouter { a2a_desired: desired, ..*old(self) }),
            crate::tools::succeeds(r, crate::json::json_text(replies::report_json(*report))),
    {
        self.a2a_desired = desired;
        ToolOutcome::json(&replies::report_value(report))
    }
}

/// The outcome of a skill reload, from the number of skills or the failure.
pub fn finish_skill_reload(loaded: Result<u64, String>) -> (r: ToolOutcome)
    ensures
        match loaded {
            Ok(n) => crate::tools::succeeds(r, crate::json::json_text(replies::loaded_json(n))),
            Err(e) => crate::tools::fails(r, "skill reload failed: "@ + e@),
        },
{
    match loaded {
        Ok(n) => ToolOutcome::json(&replies::loaded_value(n)),
        Err(e) => ToolOutcome::err(cat("skill reload failed: ", &e)),
    }
}

/// The outcome of a call of an MCP tool. An error that the server reports is text
/// like any other.
pub fn finish_mcp_call(result: Result<McpToolResult, String>) -> (r: ToolOutcome)
    ensures
        match result {
            Ok(t) => crate::tools::succeeds(r, t.text@),
            Err(e) => crate::tools::fails(r, "MCP tool call failed: "@ + e@),
        },
{
    match result {
        Ok(t) => ToolOutcome::ok(t.text),
        Err(e) => ToolOutcome::err(cat("MCP tool call failed: ", &e)),
    }
}

/// The outcome of a prompt to an A2A agent.
pub fn finish_a2a_send(result: Result<A2aResult, String>) -> (r: ToolOutcome)
    ensures
        match result {
            Ok(a) => crate::tools::succeeds(
                r,
                match crate::text::opt_view(a.state) {
                    Some(s) => a.text@ + "\n[task state: "@ + s + "]"@,
                    None => a.text@,
                },
            ),
            Err(e) => crate::tools::fails(r, "A2A agent call failed: "@ + e@),
        },
{
    match result {
        Ok(a) => match a.state {
            Some(s) => ToolOutcome::ok(cat(&cat(&cat(&a.text, "\n[task state: "), &s), "]")),
            None => ToolOutcome::ok(a.text),
        },
        Err(e) => ToolOutcome::err(cat("A2A agent call failed: ", &e)),
    }
}

/// The outcome of picking a model among `total`.
pub fn finish_pick(picked: &Option<PickedText>, strategy: Strategy, total: usize) -> (r: ToolOutcome)
    ensures
        crate::tools::succeeds(
            r,
            crate::json::json_text(
                replies::model_json(
                    match *picked {
                        Some(p) => p.id@,
                        None => Seq::empty(),
                    },
                    crate::model_catalog::explanation(*picked, strategy, total as nat),
                ),
            ),
        ),
{
    let id: String = match picked {
        Some(p) => p.id.clone(),
        None => "".to_string(),
    };
    proof {
        reveal_strlit("");
        if picked is None {
            assert(id@ =~= Seq::<char>::empty());
        }
    }
    let why: String = explain_pick(picked, strategy, total);
    ToolOutcome::json(&replies::model_value(&id, &why))
}

/// The outcome of storing a fact.
pub fn finish_memory_set(key: &str, stored: Result<(), String>) -> (r: ToolOutcome)
    ensures
        match stored {
            Ok(_) => crate::tools::succeeds(
                r,
                crate::json::json_text(replies::stored_json(key@)),
            ),
            Err(e) => crate::tools::fails(r, "memory set failed: "@ + e@),
        },
{
    match stored {
        Ok(()) => ToolOutcome::json(&replies::stored_value(key)),
        Err(e) => ToolOutcome::err(cat("memory set failed: ", &e)),
    }
}

/// The outcome of recalling facts: the one wanted, or all.
pub fn finish_memory_recall(
    wanted: &Option<String>,
    recalled: Result<SenderMemory, String>,
) -> (r: ToolOutcome)
    requires
        recalled matches Ok(m) ==> m.wf(),
    ensures
        match recalled {
            Ok(m) => crate::tools::succeeds(
                r,
                crate::json::json_text(
                    match crate::text::opt_view(*wanted) {
                        Some(k) => replies::fact_json(
                            k,
                            if m@.dom().contains(k) {
                                Some(m@[k])
                            } else {
                                None
                            },
                        ),
                        None => replies::facts_json(m@),
                    },
                ),
            ),
            Err(e) => crate::tools::fails(r, "memory recall failed: "@ + e@),
        },
{
    match recalled {
        Err(e) => ToolOutcome::err(cat("memory recall failed: ", &e)),
        Ok(m) => match wanted {
            Some(k) => ToolOutcome::json(&replies::fact_value(k, &m.get(k))),
            None => ToolOutcome::json(&replies::facts_value(&m)),
        },
    }
}

// ---- laws --------------------------------------------------------------------------

/// From the request to its outcome: a call that access control does not admit fails and
/// changes nothing, whatever any human says; one that has to be confirmed runs only once a
/// human approved it, and else fails and changes nothing but what is pending; and any other
/// runs.
pub proof fn calls_run_only_when_let(
    pre: ToolRouter,
    mid: ToolRouter,
    post: ToolRouter,
    gate: Gate,
    wait: Option<Wait>,
    tool: Seq<char>,
    args: JsonView,
    tenant: Seq<char>,
    sender: Seq<char>,
    r: Dispatch,
)
    requires
        crate::tools::gates(pre, mid, tool, args, tenant, sender, gate),
        proceeds(mid, post, gate, wait, tool, args, tenant, sender, r),
    ensures
        !crate::tools::admits(pre, tenant, sender, tool) ==> post == pre && (r matches Dispatch::Done(
            o,
        ) && o.is_error),
        crate::tools::admits(pre, tenant, sender, tool) && crate::tools::confirms(pre, tool)
            && waited(wait) != Wait::Answered(Outcome::Approved) ==> post == (ToolRouter {
            hitl: post.hitl,
            ..pre
        }) && (r matches Dispatch::Done(o) && o.is_error),
        crate::tools::admits(pre, tenant, sender, tool) && (!crate::tools::confirms(pre, tool)
            || waited(wait) == Wait::Answered(Outcome::Approved)) ==> exists|now: i64| #[trigger]
            dispatched(mid, post, tool, args, tenant, sender, now as int, r),
{
    crate::hitl::waiting_fails_closed(waited(wait));
}

/// A call leaves the jobs of other tenants as they are, but for one whose id it
/// newly gave out.
pub proof fn calls_stay_in_tenant(
    pre: ToolRouter,
    post: ToolRouter,
    tool: Seq<char>,
    args: JsonView,
    tenant: Seq<char>,
    sender: Seq<char>,
    now: int,
    r: Dispatch,
    id: Seq<char>,
)
    requires
        dispatched(pre, post, tool, args, tenant, sender, now, r),
        pre.scheduler@.dom().contains(id),
        !crate::scheduler::of_tenant(pre.scheduler@[id], Some(tenant)),
    ensures
        post.scheduler@.dom().contains(id),
        post.scheduler@[id] == pre.scheduler@[id] || (crate::ids::is_fresh_id(id, "job-"@)
            && done_with(r, replies::added_json(id))),
{
    if crate::tools::kind_of(tool) == Kind::SchedAdd {
        let a = pre.scheduler@;
        let b = post.scheduler@;
        if b != a {
            let k = choose|k: Seq<char>| #[trigger]
                job_added(a, b, k, args, tenant, sender, now, r);
            assert(job_added(a, b, k, args, tenant, sender, now, r));
            assert(a.insert(k, b[k]).dom().contains(id));
            if k != id {
                assert(a.insert(k, b[k])[id] == a[id]);
            }
        }
    }
}

/// A job that a call added belongs to the tenant and answers the sender of the call.
pub proof fn added_jobs_belong_to_the_caller(
    pre: ToolRouter,
    post: ToolRouter,
    tool: Seq<char>,
    args: JsonView,
    tenant: Seq<char>,
    sender: Seq<char>,
    now: int,
    r: Dispatch,
    id: Seq<char>,
)
    requires
        dispatched(pre, post, tool, args, tenant, sender, now, r),
        !pre.scheduler@.dom().contains(id),
        post.scheduler@.dom().contains(id),
    ensures
        crate::scheduler::of_tenant(post.scheduler@[id], Some(tenant)),
        crate::text::opt_view(post.scheduler@[id].job.reply_to) == Some(sender),
{
    if crate::tools::kind_of(tool) == Kind::SchedAdd {
        let a = pre.scheduler@;
        let b = post.scheduler@;
        let k = choose|k: Seq<char>| #[trigger]
            job_added(a, b, k, args, tenant, sender, now, r);
        assert(job_added(a, b, k, args, tenant, sender, now, r));
        assert(a.insert(k, b[k]).dom().contains(id));
        assert(k == id);
    }
}

/// A call moves no other sender to another session, and neither adds nor removes
/// sessions.
pub proof fn calls_move_only_the_caller(
    pre: ToolRouter,
    post: ToolRouter,
    tool: Seq<char>,
    args: JsonView,
    tenant: Seq<char>,
    sender: Seq<char>,
    now: int,
    r: Dispatch,
    other: Seq<char>,
)
    requires
        dispatched(pre, post, tool, args, tenant, sender, now, r),
        other != crate::tenant::scope(tenant, sender),
    ensures
        post.sessions.active_of(other) == pre.sessions.active_of(other),
        post.sessions.sessions() == pre.sessions.sessions(),
{
}

/// A call neither changes who may do what nor which calls are confirmed.
pub proof fn calls_keep_the_rules(
    pre: ToolRouter,
    post: ToolRouter,
    tool: Seq<char>,
    args: JsonView,
    tenant: Seq<char>,
    sender: Seq<char>,
    now: int,
    r: Dispatch,
)
    requires
        dispatched(pre, post, tool, args, tenant, sender, now, r),
    ensures
        post.tenants == pre.tenants,
        post.tenancy_enabled == pre.tenancy_enabled,
        post.hitl == pre.hitl,
{
}

/// A name that starts with the skill prefix calls a skill, but for the two tools
/// that manage skills.
pub proof fn skill_names_call_skills(name: Seq<char>)
    ensures
        crate::tools::kind_of(names::SKILL_PREFIX@ + name) == (if name == "list"@ {
            Kind::SkillList
        } else if name == "reload"@ {
            Kind::SkillReload
        } else {
            Kind::Skill
        }),
        (names::SKILL_PREFIX@ + name).skip(names::SKILL_PREFIX@.len() as int) == name,
{
    let t = names::SKILL_PREFIX@ + name;
    lemma_heads();
    reveal_strlit("skill_");
    reveal_strlit("skill_list");
    reveal_strlit("skill_reload");
    reveal_strlit("list");
    reveal_strlit("reload");
    assert(t[0] == 's' && t[1] == 'k');
    assert(t.take(6) =~= names::SKILL_PREFIX@);
    assert(t.skip(6) =~= name);
    assert("skill_list"@ =~= "skill_"@ + "list"@);
    assert("skill_reload"@ =~= "skill_"@ + "reload"@);
    assert("skill_list"@.skip(6) =~= "list"@);
    assert("skill_reload"@.skip(6) =~= "reload"@);
    lemma_head(t, names::MCP_PREFIX@);
    lemma_head(t, names::A2A_PREFIX@);
}

/// A name that starts with the agent prefix calls an A2A agent, but for the two tools
/// that manage agents.
pub proof fn agent_names_call_agents(name: Seq<char>)
    ensures
        crate::tools::kind_of(names::A2A_PREFIX@ + name) == (if name == "list_agents"@ {
            Kind::A2aList
        } else if name == "reload"@ {
            Kind::A2aReload
        } else {
            Kind::A2a
        }),
        (names::A2A_PREFIX@ + name).skip(names::A2A_PREFIX@.len() as int) == name,
{
    let t = names::A2A_PREFIX@ + name;
    lemma_heads();
    reveal_strlit("a2a_");
    reveal_strlit("a2a_list_agents");
    reveal_strlit("a2a_reload");
    reveal_strlit("list_agents");
    reveal_strlit("reload");
    assert(t[0] == 'a' && t[1] == '2');
    assert(t.take(4) =~= names::A2A_PREFIX@);
    assert(t.skip(4) =~= name);
    assert("a2a_list_agents"@ =~= "a2a_"@ + "list_agents"@);
    assert("a2a_reload"@ =~= "a2a_"@ + "reload"@);
    assert("a2a_list_agents"@.skip(4) =~= "list_agents"@);
    assert("a2a_reload"@.skip(4) =~= "reload"@);
    lemma_head(t, names::MCP_PREFIX@);
}

/// The qualified name of a tool of an MCP server calls a tool of an MCP server.
pub proof fn qualified_names_call_mcp(server: Seq<char>, tool: Seq<char>)
    ensures
        crate::tools::kind_of(crate::mcp::qualified(server, tool)) == Kind::Mcp,
{
    let q = crate::mcp::qualified(server, tool);
    let s = crate::text::with_char(server, '-', '_');
    lemma_heads();
    reveal_strlit("mcp_");
    reveal_strlit("__");
    reveal_strlit("mcp_list_servers");
    reveal_strlit("mcp_reload");
    assert(q[0] == 'm' && q[1] == 'c');
    assert(q.take(4) =~= names::MCP_PREFIX@);
    let k = 4 + s.len() as int;
    assert(q[k] == '_' && q[k + 1] == '_');
    assert(q.skip(k).take(2) =~= "__"@);
    crate::text::lemma_found(q, "__"@, k);
    assert(q != names::MCP_LIST_SERVERS@);
    assert(q != names::MCP_RELOAD@);
}

/// Every tool of a list is one that calls know.
pub open spec fn all_known(v: Seq<crate::tools::schema::DefView>) -> bool {
    forall|i: int|
        0 <= i < v.len() ==> crate::tools::kind_of((#[trigger] v[i]).name) != Kind::Unknown
}

/// Every tool that the model is told of is one that calls know.
pub proof fn offered_tools_are_known(
    e: crate::tools::Exposure,
    routed: Seq<crate::mcp::RoutedView>,
    skills: Seq<crate::skill::SkillView>,
    agents: Seq<Seq<char>>,
)
    requires
        forall|i: int|
            0 <= i < routed.len() ==> (#[trigger] routed[i]).qualified_name
                == crate::mcp::qualified(routed[i].server, routed[i].tool.name),
    ensures
        all_known(crate::tools::definitions(e, routed, skills, agents)),
{
    let m = routed.map_values(|t: crate::mcp::RoutedView| crate::tools::schema::mcp_def(t));
    assert forall|i: int| 0 <= i < m.len() implies crate::tools::kind_of((#[trigger] m[i]).name)
        != Kind::Unknown by {
        qualified_names_call_mcp(routed[i].server, routed[i].tool.name);
    }
    let k = skills.map_values(|t: crate::skill::SkillView| crate::tools::schema::skill_def(t));
    assert forall|i: int| 0 <= i < k.len() implies crate::tools::kind_of((#[trigger] k[i]).name)
        != Kind::Unknown by {
        skill_names_call_skills(skills[i].name);
    }
    let a = agents.map_values(|t: Seq<char>| crate::tools::schema::a2a_def(t));
    assert forall|i: int| 0 <= i < a.len() implies crate::tools::kind_of((#[trigger] a[i]).name)
        != Kind::Unknown by {
        agent_names_call_agents(agents[i]);
    }
    assert(all_known(crate::tools::schema::scheduler_defs()));
    assert(all_known(crate::tools::schema::session_defs()));
    assert(all_known(crate::tools::schema::mcp_admin_defs()));
    assert(all_known(crate::tools::schema::skill_admin_defs()));
    assert(all_known(crate::tools::schema::a2a_admin_defs()));
    assert(all_known(crate::tools::schema::model_defs()));
    assert(all_known(crate::tools::schema::memory_defs()));
    assert(all_known(crate::tools::schema::tenant_defs()));
}

/// A text that starts otherwise does not start with a prefix.
proof fn lemma_head(t: Seq<char>, p: Seq<char>)
    requires
        t.len() > 1,
        p.len() > 1,
        t[0] != p[0] || t[1] != p[1],
    ensures
        !crate::text::begins(t, p),
{
    if crate::text::begins(t, p) {
        assert(t.take(p.len() as int)[0] == p[0]);
        assert(t.take(p.len() as int)[1] == p[1]);
    }
}

/// How the names of the tools start.
proof fn lemma_heads()
    ensures
        names::SCHED_ADD@.len() > 1 && names::SCHED_ADD@[0] == 's' && names::SCHED_ADD@[1] == 'c',
        names::SCHED_REMOVE@.len() > 1 && names::SCHED_REMOVE@[0] == 's'
            && names::SCHED_REMOVE@[1] == 'c',
        names::SCHED_LIST@.len() > 1 && names::SCHED_LIST@[0] == 's' && names::SCHED_LIST@[1]
            == 'c',
        names::SESS_SWITCH@.len() > 1 && names::SESS_SWITCH@[0] == 's' && names::SESS_SWITCH@[1]
            == 'e',
        names::SESS_SET_WS@.len() > 1 && names::SESS_SET_WS@[0] == 's' && names::SESS_SET_WS@[1]
            == 'e',
        names::SESS_LIST@.len() > 1 && names::SESS_LIST@[0] == 's' && names::SESS_LIST@[1] == 'e',
        names::MCP_LIST_SERVERS@.len() > 1 && names::MCP_LIST_SERVERS@[0] == 'm'
            && names::MCP_LIST_SERVERS@[1] == 'c',
        names::MCP_RELOAD@.len() > 1 && names::MCP_RELOAD@[0] == 'm' && names::MCP_RELOAD@[1]
            == 'c',
        names::SKILL_LIST@.len() > 1 && names::SKILL_LIST@[0] == 's' && names::SKILL_LIST@[1]
            == 'k',
        names::SKILL_RELOAD@.len() > 1 && names::SKILL_RELOAD@[0] == 's' && names::SKILL_RELOAD@[1]
            == 'k',
        names::A2A_LIST@.len() > 1 && names::A2A_LIST@[0] == 'a' && names::A2A_LIST@[1] == '2',
        names::A2A_RELOAD@.len() > 1 && names::A2A_RELOAD@[0] == 'a' && names::A2A_RELOAD@[1]
            == '2',
        names::TENANT_WHOAMI@.len() > 1 && names::TENANT_WHOAMI@[0] == 't'
            && names::TENANT_WHOAMI@[1] == 'e',
        names::TENANT_LIST_MEMBERS@.len() > 1 && names::TENANT_LIST_MEMBERS@[0] == 't'
            && names::TENANT_LIST_MEMBERS@[1] == 'e',
        names::MCP_PREFIX@.len() > 1 && names::MCP_PREFIX@[0] == 'm' && names::MCP_PREFIX@[1]
            == 'c',
        names::A2A_PREFIX@.len() > 1 && names::A2A_PREFIX@[0] == 'a' && names::A2A_PREFIX@[1]
            == '2',
        names::SKILL_PREFIX@.len() > 1 && names::SKILL_PREFIX@[0] == 's' && names::SKILL_PREFIX@[1]
            == 'k',
{
    reveal_strlit("scheduler_add_job");
    reveal_strlit("scheduler_remove_job");
    reveal_strlit("scheduler_list_jobs");
    reveal_strlit("session_switch");
    reveal_strlit("session_set_workspace");
    reveal_strlit("session_list");
    reveal_strlit("mcp_list_servers");
    reveal_strlit("mcp_reload");
    reveal_strlit("skill_list");
    reveal_strlit("skill_reload");
    reveal_strlit("a2a_list_agents");
    reveal_strlit("a2a_reload");
    reveal_strlit("tenant_whoami");
    reveal_strlit("tenant_list_members");
    reveal_strlit("mcp_");
    reveal_strlit("a2a_");
    reveal_strlit("skill_");
}

/// Whether a call is over with a failure that says `text`.
pub open spec fn failed_saying(r: Dispatch, text: Seq<char>) -> bool {
    r matches Dispatch::Done(o) && o.is_error && o.content@ == text
}

/// Whether a call is over with a success whose text is that of a JSON value.
pub open spec fn told(r: Dispatch, v: JsonView) -> bool {
    r matches Dispatch::Done(o) && !o.is_error && o.content@ == crate::json::json_text(v)
}

/// The text that an object has under a key.
pub open spec fn says(args: JsonView, key: Seq<char>) -> Option<Seq<char>> {
    match crate::json::field(args, key) {
        Some(JsonView::Str(s)) => Some(s),
        _ => None,
    }
}

/// A call that schedules stores a job of the caller's tenant that answers the caller, with the
/// name, the expression and the prompt that it says and in the session that it says or the
/// default one, due at the first instant after now at which the expression fires. The caller
/// is told its id. Where something is missing, or the expression is none, nothing is stored.
pub proof fn scheduling_stores_the_job(
    pre: ToolRouter,
    post: ToolRouter,
    tool: Seq<char>,
    args: JsonView,
    tenant: Seq<char>,
    sender: Seq<char>,
    now: int,
    r: Dispatch,
    id: Seq<char>,
)
    requires
        dispatched(pre, post, tool, args, tenant, sender, now, r),
        tool == "scheduler_add_job"@,
        now <= LATEST,
    ensures
        says(args, "name"@) is None ==> failed_saying(r, "missing 'name'"@) && post.scheduler@
            == pre.scheduler@,
        says(args, "name"@) is Some && says(args, "cron"@) is None ==> failed_saying(
            r,
            "missing 'cron'"@,
        ) && post.scheduler@ == pre.scheduler@,
        says(args, "name"@) is Some && says(args, "cron"@) is Some && says(args, "prompt"@) is None
            ==> failed_saying(r, "missing 'prompt'"@) && post.scheduler@ == pre.scheduler@,
        says(args, "name"@) matches Some(name) ==> (says(args, "cron"@) matches Some(expr) ==> (says(
            args,
            "prompt"@,
        ) matches Some(prompt) ==> match crate::cron::cron_of(expr) {
            Err(e) => post.scheduler@ == pre.scheduler@ && (r matches Dispatch::Done(o)
                && o.is_error),
            Ok(m) => exists|id: Seq<char>|
                {
                    let e = #[trigger] post.scheduler@[id];
                    &&& post.scheduler@.dom().contains(id)
                    &&& told(r, replies::added_json(id))
                    &&& e.job.id@ == id
                    &&& e.job.name@ == name
                    &&& e.job.cron@ == expr
                    &&& e.job.prompt@ == prompt
                    &&& e.job.session_id@ == (match says(args, "session_id"@) {
                        Some(s) => s,
                        None => "default"@,
                    })
                    &&& e.job.tenant_id matches Some(t)
                    &&& t@ == tenant
                    &&& e.job.reply_to matches Some(s)
                    &&& s@ == sender
                    &&& e.cron@ == m
                    &&& e.next_fire > now
                    &&& forall|t: int|
                        now < t < e.next_fire ==> !#[trigger] crate::cron::fires(m, t)
                },
        })),
        pre.scheduler@.dom().contains(id) && !told(r, replies::added_json(id))
            ==> post.scheduler@.dom().contains(id) && post.scheduler@[id] == pre.scheduler@[id],
        post == (ToolRouter { scheduler: post.scheduler, ..pre }),
{
    crate::tools::calls_are_told_by_name(tool);
    let a = pre.scheduler@;
    let b = post.scheduler@;
    if says(args, "name"@) is Some && says(args, "cron"@) is Some && says(args, "prompt"@) is Some {
        let expr = says(args, "cron"@)->Some_0;
        if let Ok(m) = crate::cron::cron_of(expr) {
            let k = choose|k: Seq<char>| #[trigger]
                job_added(a, b, k, args, tenant, sender, now, r);
            assert(job_added(a, b, k, args, tenant, sender, now, r));
            crate::cron::next_exists(m, now);
            assert(b[k].job.id@ == k);
            assert(a.insert(k, b[k]).dom().contains(k));
        }
    }
}

/// A call that removes a job removes it where it is one of the caller's tenant, and no other;
/// it tells whether it did.
pub proof fn removing_takes_own_jobs_only(
    pre: ToolRouter,
    post: ToolRouter,
    tool: Seq<char>,
    args: JsonView,
    tenant: Seq<char>,
    sender: Seq<char>,
    now: int,
    r: Dispatch,
    other: Seq<char>,
)
    requires
        dispatched(pre, post, tool, args, tenant, sender, now, r),
        tool == "scheduler_remove_job"@,
    ensures
        says(args, "id"@) is None ==> failed_saying(r, "missing 'id'"@) && post.scheduler@
            == pre.scheduler@,
        says(args, "id"@) matches Some(id) ==> {
            let own = pre.scheduler@.dom().contains(id) && (
            pre.scheduler@[id].job.tenant_id matches Some(t) && t@ == tenant);
            &&& told(r, replies::removed_json(own))
            &&& own ==> !post.scheduler@.dom().contains(id)
            &&& !own ==> post.scheduler@ == pre.scheduler@
            &&& other != id ==> post.scheduler@.dom().contains(other)
                == pre.scheduler@.dom().contains(other) && post.scheduler@[other]
                == pre.scheduler@[other]
        },
{
    crate::tools::calls_are_told_by_name(tool);
}

/// A call that lists jobs tells those of the caller's tenant, all of them and no others.
pub proof fn listing_tells_own_jobs_only(
    pre: ToolRouter,
    post: ToolRouter,
    tool: Seq<char>,
    args: JsonView,
    tenant: Seq<char>,
    sender: Seq<char>,
    now: int,
    r: Dispatch,
    id: Seq<char>,
)
    requires
        dispatched(pre, post, tool, args, tenant, sender, now, r),
        tool == "scheduler_list_jobs"@,
        pre.scheduler@.dom().contains(id),
        pre.wf(),
    ensures
        post == pre,
        exists|v: Seq<crate::scheduler::ScheduledJob>|
            {
                &&& told(r, #[trigger] replies::jobs_json(v))
                &&& v.contains(pre.scheduler@[id].job) <==> (
                pre.scheduler@[id].job.tenant_id matches Some(t) && t@ == tenant)
            },
{
    crate::tools::calls_are_told_by_name(tool);
    let jobs = pre.scheduler@;
    let ids = choose|ids: Seq<Seq<char>>| #[trigger]
        crate::scheduler::enumerates(ids, jobs.dom()) && done_with(
            r,
            replies::jobs_json(
                crate::scheduler::jobs_at(
                    jobs,
                    crate::scheduler::ids_for(jobs, ids, Some(tenant)),
                ),
            ),
        );
    let mine = crate::scheduler::ids_for(jobs, ids, Some(tenant));
    let v = crate::scheduler::jobs_at(jobs, mine);
    crate::scheduler::listing_is_scoped(jobs, ids, Some(tenant), id);
    assert(crate::scheduler::entry_wf(id, jobs[id]));
    if mine.contains(id) {
        let i = choose|i: int| 0 <= i < mine.len() && mine[i] == id;
        assert(v[i] == jobs[id].job);
    }
    if v.contains(jobs[id].job) {
        let i = choose|i: int| 0 <= i < v.len() && v[i] == jobs[id].job;
        crate::scheduler::listing_is_scoped(jobs, ids, Some(tenant), mine[i]);
        assert(mine.contains(mine[i]));
        assert(crate::scheduler::entry_wf(mine[i], jobs[mine[i]]));
        assert(mine[i] == id);
    }
    assert(told(r, replies::jobs_json(v)));
}

/// A call that switches makes an existing session the active one of the caller, of nobody else,
/// and tells it; a session that is not there is an error and moves nobody.
pub proof fn switching_moves_the_caller(
    pre: ToolRouter,
    post: ToolRouter,
    tool: Seq<char>,
    args: JsonView,
    tenant: Seq<char>,
    sender: Seq<char>,
    now: int,
    r: Dispatch,
    other: Seq<char>,
)
    requires
        dispatched(pre, post, tool, args, tenant, sender, now, r),
        tool == "session_switch"@,
    ensures
        says(args, "session_id"@) is None ==> failed_saying(r, "missing 'session_id'"@),
        says(args, "session_id"@) matches Some(id) ==> if pre.sessions.sessions().dom().contains(
            id,
        ) {
            &&& told(r, replies::session_json(pre.sessions.sessions()[id]))
            &&& post.sessions.active_of(crate::tenant::scope(tenant, sender)) == id
        } else {
            &&& failed_saying(r, "session "@ + id + " not found"@)
            &&& post.sessions.active_map() == pre.sessions.active_map()
        },
        other != crate::tenant::scope(tenant, sender) ==> post.sessions.active_of(other)
            == pre.sessions.active_of(other),
{
    crate::tools::calls_are_told_by_name(tool);
}

/// A call that sets a workspace has the directory made for the session that it names, if there
/// is one.
pub proof fn workspaces_are_set_for_their_session(
    pre: ToolRouter,
    post: ToolRouter,
    tool: Seq<char>,
    args: JsonView,
    tenant: Seq<char>,
    sender: Seq<char>,
    now: int,
    r: Dispatch,
)
    requires
        dispatched(pre, post, tool, args, tenant, sender, now, r),
        tool == "session_set_workspace"@,
    ensures
        post == pre,
        says(args, "session_id"@) is None ==> failed_saying(r, "missing 'session_id'"@),
        says(args, "session_id"@) is Some && says(args, "workspace"@) is None ==> failed_saying(
            r,
            "missing 'workspace'"@,
        ),
        says(args, "session_id"@) matches Some(id) ==> (says(args, "workspace"@) matches Some(dir)
            ==> if pre.sessions.sessions().dom().contains(id) {
            r matches Dispatch::Do(Action::SetWorkspace { session_id, workspace }) && session_id@
                == id && workspace@ == dir
        } else {
            failed_saying(r, "session "@ + id + " not found"@)
        }),
{
    crate::tools::calls_are_told_by_name(tool);
}

/// A call that sets a fact has it stored under the caller's own key, and one that recalls has
/// the facts of that key recalled: the one that it names, or all.
pub proof fn facts_are_the_callers(
    pre: ToolRouter,
    post: ToolRouter,
    tool: Seq<char>,
    args: JsonView,
    tenant: Seq<char>,
    sender: Seq<char>,
    now: int,
    r: Dispatch,
)
    requires
        dispatched(pre, post, tool, args, tenant, sender, now, r),
    ensures
        tool == "memory_set"@ ==> {
            &&& post == pre
            &&& says(args, "key"@) is None ==> failed_saying(r, "missing 'key'"@)
            &&& says(args, "key"@) is Some && says(args, "value"@) is None ==> failed_saying(
                r,
                "missing 'value'"@,
            )
            &&& says(args, "key"@) matches Some(k) ==> (says(args, "value"@) matches Some(v) ==> (
            r matches Dispatch::Do(Action::SetMemory { scope, key, value }) && scope@
                == crate::tenant::scope(tenant, sender) && key@ == k && value@ == v))
        },
        tool == "memory_recall"@ ==> post == pre && (r matches Dispatch::Do(
            Action::RecallMemory { scope, wanted },
        ) && scope@ == crate::tenant::scope(tenant, sender) && (match says(args, "key"@) {
            Some(k) => wanted matches Some(w) && w@ == k,
            None => wanted is None,
        })),
{
    crate::tools::calls_are_told_by_name(tool);
}

/// A call of an agent sends it the prompt, where the agent is connected and there is one; a call
/// of a skill tells the skill, filled in; and a call of a tool that is not known fails.
pub proof fn agents_and_skills_are_called_by_name(
    pre: ToolRouter,
    post: ToolRouter,
    tool: Seq<char>,
    args: JsonView,
    tenant: Seq<char>,
    sender: Seq<char>,
    now: int,
    r: Dispatch,
    name: Seq<char>,
)
    requires
        dispatched(pre, post, tool, args, tenant, sender, now, r),
    ensures
        tool == "a2a_"@ + name && name != "reload"@ && name != "list_agents"@ ==> {
            &&& post == pre
            &&& says(args, "prompt"@) is None ==> failed_saying(r, "missing 'prompt'"@)
            &&& says(args, "prompt"@) matches Some(t) ==> if pre.a2a@.dom().contains(name) {
                r matches Dispatch::Do(Action::SendA2a { agent, prompt }) && agent@ == name
                    && prompt@ == t
            } else {
                failed_saying(r, "A2A agent call failed: "@ + ("unknown A2A agent: "@ + name))
            }
        },
        tool == "skill_"@ + name && name != "reload"@ && name != "list"@ ==> {
            &&& post == pre
            &&& match crate::skill::skill_named(pre.skills@, name) {
                Some(s) => r matches Dispatch::Done(o) && !o.is_error && o.content@
                    == crate::skill::filled(s.body, s.arguments, args, s.arguments.len() as int),
                None => failed_saying(
                    r,
                    "skill invoke failed: "@ + ("unknown skill: "@ + name),
                ),
            }
        },
        crate::tools::kind_of(tool) == Kind::Unknown ==> post == pre && failed_saying(
            r,
            "unknown tool: "@ + tool,
        ),
{
    names::tools_have_their_names();
    agent_names_call_agents(name);
    skill_names_call_skills(name);
}

/// A call of a tool of a server goes to the server and the tool that its name is routed to, with
/// the arguments of the call.
pub proof fn server_tools_are_called(
    pre: ToolRouter,
    post: ToolRouter,
    tool: Seq<char>,
    args: JsonView,
    tenant: Seq<char>,
    sender: Seq<char>,
    now: int,
    r: Dispatch,
)
    requires
        dispatched(pre, post, tool, args, tenant, sender, now, r),
        crate::tools::kind_of(tool) == Kind::Mcp,
    ensures
        post == pre,
        match crate::mcp::target_of(pre.mcp@, tool) {
            Ok(p) => r matches Dispatch::Do(Action::CallMcp(c)) && c.server@ == p.0 && c.tool@
                == p.1 && (args is Object ==> c.arguments@ == args),
            Err(e) => failed_saying(r, "MCP tool call failed: "@ + e),
        },
{
}

/// A call that reloads takes the servers or the agents that it names, or the known ones where it
/// names none; and one that reloads skills reads the directory that it names or the known one.
pub proof fn reloads_take_what_is_named(
    pre: ToolRouter,
    post: ToolRouter,
    tool: Seq<char>,
    args: JsonView,
    tenant: Seq<char>,
    sender: Seq<char>,
    now: int,
    r: Dispatch,
    i: int,
)
    requires
        dispatched(pre, post, tool, args, tenant, sender, now, r),
    ensures
        tool == "mcp_reload"@ ==> post == pre && (r matches Dispatch::Do(Action::ReloadMcp(v)) && (
        crate::json::field(args, "servers"@) is None ==> v@.len() == pre.mcp_desired@.len() && (0
            <= i < v@.len() ==> v@[i].name@ == pre.mcp_desired@[i].name@ && v@[i].url@
            == pre.mcp_desired@[i].url@ && v@[i].timeout_secs == pre.mcp_desired@[i].timeout_secs))
            && (crate::json::field(args, "servers"@) matches Some(list) ==> v@.len()
            == crate::tools::endpoint_list_of(list, 10).len() && (0 <= i < v@.len() ==> v@[i].name@
            == crate::tools::endpoint_list_of(list, 10)[i].name && v@[i].url@
            == crate::tools::endpoint_list_of(list, 10)[i].url))),
        tool == "a2a_reload"@ ==> post == pre && (r matches Dispatch::Do(Action::ReloadA2a(v)) && (
        crate::json::field(args, "agents"@) is None ==> v@.len() == pre.a2a_desired@.len() && (0
            <= i < v@.len() ==> v@[i].name@ == pre.a2a_desired@[i].name@ && v@[i].url@
            == pre.a2a_desired@[i].url@)) && (crate::json::field(args, "agents"@) matches Some(list)
            ==> v@.len() == crate::tools::endpoint_list_of(list, 30).len() && (0 <= i < v@.len()
            ==> v@[i].name@ == crate::tools::endpoint_list_of(list, 30)[i].name && v@[i].url@
            == crate::tools::endpoint_list_of(list, 30)[i].url))),
        tool == "skill_reload"@ ==> (r matches Dispatch::Do(Action::ReloadSkills))
            && post.skills@ == pre.skills@ && post.skills.folder() == (match says(args, "dir"@) {
            Some(d) => Some(d),
            None => pre.skills.folder(),
        }),
{
    crate::tools::calls_are_told_by_name(tool);
    if tool == "mcp_reload"@ {
        if let Dispatch::Do(Action::ReloadMcp(v)) = r {
            let w = v@.map_values(|c: McpServerConfig| crate::tools::server_view(c));
            assert(w.len() == v@.len());
            if 0 <= i < v@.len() {
                assert(w[i] == crate::tools::server_view(v@[i]));
            }
        }
    }
    if tool == "a2a_reload"@ {
        if let Dispatch::Do(Action::ReloadA2a(v)) = r {
            let w = v@.map_values(|c: A2aAgentConfig| crate::tools::agent_view(c));
            assert(w.len() == v@.len());
            if 0 <= i < v@.len() {
                assert(w[i] == crate::tools::agent_view(v@[i]));
            }
        }
    }
}

/// Calls that ask tell what there is: the sessions, the servers, the skills, the agents and the
/// members; and who the caller is, with the role and the permissions that they have.
pub proof fn questions_are_answered(
    pre: ToolRouter,
    post: ToolRouter,
    tool: Seq<char>,
    args: JsonView,
    tenant: Seq<char>,
    sender: Seq<char>,
    now: int,
    r: Dispatch,
    p: crate::tenant::Permission,
    role: crate::tenant::RoleView,
)
    requires
        dispatched(pre, post, tool, args, tenant, sender, now, r),
        pre.wf(),
        role == crate::tenant::role_in(pre.tenants@, tenant, sender),
    ensures
        tool == "mcp_list_servers"@ ==> post == pre && told(r, replies::servers_json(pre.mcp@)),
        tool == "skill_list"@ ==> post == pre && told(r, replies::skills_json(pre.skills@)),
        tool == "a2a_list_agents"@ ==> post == pre && exists|v: Seq<Seq<char>>|
            crate::table::lists(v, pre.a2a@.dom()) && told(r, #[trigger] replies::agents_json(v)),
        tool == "tenant_list_members"@ ==> post == pre && told(
            r,
            replies::members_json(crate::tenant::members_in(pre.tenants@)),
        ),
        tool == "session_list"@ ==> post == pre && exists|v: Seq<Session>|
            crate::session::lists_sessions(v, pre.sessions.sessions()) && told(
                r,
                #[trigger] replies::sessions_json(v),
            ),
        tool == "model_list"@ ==> post == pre && (r matches Dispatch::Do(Action::ListModels)),
        tool == "tenant_whoami"@ ==> post == pre && exists|v: Seq<crate::tenant::Permission>|
            {
                &&& told(
                    r,
                    #[trigger] replies::whoami_json(
                        tenant,
                        sender,
                        crate::tenant::name_of(role),
                        v,
                        pre.tenancy_enabled,
                    ),
                )
                &&& v.contains(p) <==> crate::tenant::permissions_in(pre.tenants@, role).contains(p)
            },
{
    crate::tools::calls_are_told_by_name(tool);
    if tool == "a2a_list_agents"@ {
        pre.a2a.lemma_names();
        let v = crate::table::sorted(pre.a2a@.dom());
        assert(told(r, replies::agents_json(v)));
    }
    if tool == "session_list"@ {
        let v = choose|v: Seq<Session>| #[trigger]
            crate::session::lists_sessions(v, pre.sessions.sessions()) && done_with(
                r,
                replies::sessions_json(v),
            );
        assert(told(r, replies::sessions_json(v)));
    }
    if tool == "tenant_whoami"@ {
        let held = crate::tenant::permissions_in(pre.tenants@, role);
        let all = crate::tenant::builtin(crate::tenant::RoleView::Admin);
        let pred = |q: crate::tenant::Permission| held.contains(q);
        let v = all.filter(pred);
        crate::seqs::lemma_filter_members(all, pred, p);
        crate::tenant::lemma_admins_hold(p);
        assert(told(
            r,
            replies::whoami_json(
                tenant,
                sender,
                crate::tenant::name_of(role),
                v,
                pre.tenancy_enabled,
            ),
        ));
    }
}

/// A call that picks a model asks for the strategy and the limits that it says, and where it
/// says none for the configured ones.
pub proof fn picks_ask_for_what_is_said(
    pre: ToolRouter,
    post: ToolRouter,
    tool: Seq<char>,
    args: JsonView,
    tenant: Seq<char>,
    sender: Seq<char>,
    now: int,
    r: Dispatch,
)
    requires
        dispatched(pre, post, tool, args, tenant, sender, now, r),
        tool == "model_pick"@,
    ensures
        post == pre,
        r matches Dispatch::Do(Action::PickModel(p)) && (says(args, "strategy"@) is None
            ==> p.strategy == pre.model_strategy) && (says(args, "strategy"@) matches Some(s)
            ==> p.strategy == crate::model_catalog::strategy_of(s)) && (crate::json::field(
            args,
            "min_score"@,
        ) is None ==> p.min_score is None) && (crate::json::field(args, "max_cost_per_token"@)
            is None ==> p.max_cost_per_token is None) && (crate::json::field(
            args,
            "min_context_window"@,
        ) is None ==> p.min_context_window == pre.model_min_context) && (crate::json::field(
            args,
            "min_context_window"@,
        ) matches Some(JsonView::UInt(n)) ==> p.min_context_window == Some(n as u32)) && (
        crate::json::field(args, "min_score"@) matches Some(JsonView::UInt(n)) ==> (
        p.min_score matches Some(t) && t@ == crate::text::decimal(n as nat))) && (
        crate::json::field(args, "min_score"@) matches Some(JsonView::Real(x)) ==> (
        p.min_score matches Some(t) && t@ == x)) && (crate::json::field(
            args,
            "max_cost_per_token"@,
        ) matches Some(JsonView::Real(x)) ==> (p.max_cost_per_token matches Some(t) && t@ == x)),
{
    crate::tools::calls_are_told_by_name(tool);
}

/// What comes of work outside is told as it was: an answer by its text, and a failure by what
/// failed and why.
pub proof fn outcomes_are_told(
    a: Result<McpToolResult, String>,
    b: Result<A2aResult, String>,
    c: Result<u64, String>,
    ra: ToolOutcome,
    rb: ToolOutcome,
    rc: ToolOutcome,
)
    requires
        call_ensures(finish_mcp_call, (a,), ra),
        call_ensures(finish_a2a_send, (b,), rb),
        call_ensures(finish_skill_reload, (c,), rc),
    ensures
        ra.is_error <==> a is Err,
        a matches Ok(t) ==> ra.content@ == t.text@,
        a matches Err(e) ==> ra.content@ == "MCP tool call failed: "@ + e@,
        rb.is_error <==> b is Err,
        b matches Ok(t) ==> rb.content@ == (match t.state {
            Some(s) => t.text@ + "\n[task state: "@ + s@ + "]"@,
            None => t.text@,
        }),
        b matches Err(e) ==> rb.content@ == "A2A agent call failed: "@ + e@,
        rc.is_error <==> c is Err,
        c matches Ok(n) ==> rc.content@ == crate::json::json_text(replies::loaded_json(n)),
        c matches Err(e) ==> rc.content@ == "skill reload failed: "@ + e@,
{
}

/// What is recalled is told: the fact that was wanted, or null where there is none, or all
/// facts; and a store by its key.
pub proof fn memories_are_told(
    wanted: &Option<String>,
    recalled: Result<SenderMemory, String>,
    r: ToolOutcome,
    key: &str,
    stored: Result<(), String>,
    s: ToolOutcome,
)
    requires
        call_ensures(finish_memory_recall, (wanted, recalled), r),
        call_ensures(finish_memory_set, (key, stored), s),
    ensures
        r.is_error <==> recalled is Err,
        recalled matches Ok(m) ==> match *wanted {
            Some(k) => r.content@ == crate::json::json_text(
                replies::fact_json(
                    k@,
                    if m@.dom().contains(k@) {
                        Some(m@[k@])
                    } else {
                        None
                    },
                ),
            ),
            None => r.content@ == crate::json::json_text(replies::facts_json(m@)),
        },
        s.is_error <==> stored is Err,
        stored is Ok ==> s.content@ == crate::json::json_text(replies::stored_json(key@)),
{
}

/// A call that may run does what the laws of calls say, at the time that it is made; one that may
/// not changes nothing, and is answered with its refusal.
pub proof fn calls_do_what_they_say(
    a: &mut ToolRouter,
    b: &mut ToolRouter,
    tool: &str,
    args: &Json,
    principal: &Principal,
    now: i64,
    gate: Gate,
    wait: Option<Wait>,
    r: Dispatch,
    s: Dispatch,
)
    requires
        old(a).wf() && old(b).wf(),
        call_ensures(ToolRouter::dispatch_at, (a, tool, args, principal, now), r),
        call_ensures(ToolRouter::proceed, (b, gate, wait, tool, args, principal), s),
    ensures
        dispatched(
            *old(a),
            *final(a),
            tool@,
            args@,
            principal.tenant_id@,
            principal.sender_id@,
            now as int,
            r,
        ),
        gate is Run || (gate is Confirm && wait == Some(Wait::Answered(Outcome::Approved)))
            ==> exists|at: i64|
            dispatched(
                *old(b),
                *final(b),
                tool@,
                args@,
                principal.tenant_id@,
                principal.sender_id@,
                at as int,
                s,
            ),
        gate is Refused ==> *final(b) == *old(b) && s == Dispatch::Done(gate->Refused_0),
        gate is Confirm && wait == Some(Wait::Answered(Outcome::Denied)) ==> *final(b) == *old(b)
            && failed_saying(s, "Tool call "@ + tool@ + " was denied by the human."@),
        gate is Confirm && wait == Some(Wait::Elapsed) ==> *final(b) == *old(b) && failed_saying(
            s,
            "Tool call "@ + tool@ + " timed out waiting for human approval."@,
        ),
        gate is Confirm && (wait is None || wait == Some(Wait::Dropped)) ==> *final(b) == *old(b)
            && (s matches Dispatch::Done(o) && o.is_error),
{
}

/// What follows a reload or a new workspace: the wanted endpoints are remembered, the workspace is
/// set for its session, and a folder that could not be made sets nothing.
pub proof fn finished_work_is_remembered(
    a: &mut ToolRouter,
    b: &mut ToolRouter,
    c: &mut ToolRouter,
    agents: Vec<A2aAgentConfig>,
    servers: Vec<McpServerConfig>,
    report: &ReloadReport,
    id: &str,
    workspace: &str,
    made: Result<(), String>,
    r: ToolOutcome,
    s: ToolOutcome,
    t: ToolOutcome,
    other: Seq<char>,
)
    requires
        old(a).wf() && old(b).wf() && old(c).wf(),
        call_ensures(ToolRouter::finish_a2a_reload, (a, agents, report), r),
        call_ensures(ToolRouter::finish_mcp_reload, (b, servers, report), s),
        call_ensures(ToolRouter::finish_workspace, (c, id, workspace, made), t),
    ensures
        final(a).a2a_desired == agents && final(a).mcp_desired == old(a).mcp_desired,
        !r.is_error && r.content@ == crate::json::json_text(replies::report_json(*report)),
        final(b).mcp_desired == servers && final(b).a2a_desired == old(b).a2a_desired,
        !s.is_error && s.content@ == crate::json::json_text(replies::report_json(*report)),
        ({
            let all = old(c).sessions.sessions();
            let now = final(c).sessions.sessions();
            &&& t.is_error <==> made is Err || !all.dom().contains(id@)
            &&& made matches Err(e) ==> t.content@ == e@
            &&& made is Ok && !all.dom().contains(id@) ==> t.content@ == "session "@ + id@
                + " not found"@
            &&& t.is_error ==> now == all
            &&& !t.is_error ==> (now[id@].workspace matches Some(w) && w@ == workspace@)
                && now[id@].label == all[id@].label && t.content@ == crate::json::json_text(
                replies::session_json(now[id@]),
            )
            &&& other != id@ ==> now.dom().contains(other) == all.dom().contains(other)
                && now[other] == all[other]
        }),
{
}

} // verus!
