//! The definitions of the tools, as the model sees them.

use vstd::prelude::*;
use crate::json::{close, object, put, text_array_value, text_value, Json, JsonView};
use crate::mcp::{RoutedTool, RoutedView};
use crate::skill::{Skill, SkillView};
use crate::text::cat;
use crate::tools::names;

verus! {

/// A tool as the model sees it.
#[derive(Debug)]
pub struct ToolDef {
    pub name: String,
    pub description: String,
    /// JSON Schema of the arguments.
    pub schema: Json,
}

/// What a definition says.
pub struct DefView {
    pub name: Seq<char>,
    pub description: Seq<char>,
    pub schema: JsonView,
}

impl View for ToolDef {
    type V = DefView;

    open spec fn view(&self) -> DefView {
        DefView {
            name: self.name@,
            description: self.description@,
            schema: self.schema@,
        }
    }
}

/// What a list of definitions says.
pub open spec fn def_views(v: Seq<ToolDef>) -> Seq<DefView> {
    v.map_values(|d: ToolDef| d@)
}

// ---- descriptions ------------------------------------------------------------------

pub const SCHED_ADD_TEXT: &'static str = "Schedule a time-based job that runs a prompt on a cron schedule (UTC). Use this to set up recurring or delayed tasks.";
pub const SCHED_NAME_TEXT: &'static str = "Human-readable job name.";
pub const SCHED_CRON_TEXT: &'static str = "Cron expression in UTC. 5-field minute-granular (minute hour dom month dow, e.g. '0 9 * * 1-5') OR 6-field second-precision (second minute hour dom month dow, e.g. '*/10 * * * * *' fires every 10 seconds).";
pub const SCHED_PROMPT_TEXT: &'static str = "Prompt to run each time the job fires.";
pub const SCHED_SESSION_TEXT: &'static str = "Session id the prompt runs under. Optional; defaults to 'default'.";
pub const SCHED_REMOVE_TEXT: &'static str = "Remove a scheduled job by id.";
pub const SCHED_LIST_TEXT: &'static str = "List all currently scheduled jobs.";
pub const SESS_SWITCH_TEXT: &'static str = "Switch the active session for the current user to an existing session.";
pub const SESS_SET_WS_TEXT: &'static str = "Set the working directory (workspace) of a session. Creates the directory if missing.";
pub const SESS_PATH_TEXT: &'static str = "Absolute directory path.";
pub const SESS_LIST_TEXT: &'static str = "List all sessions.";
pub const MCP_LIST_TEXT: &'static str = "List connected remote MCP servers and their tool counts.";
pub const MCP_RELOAD_TEXT: &'static str = "Hot-reload the remote MCP server registry: connect newly-added servers and drop removed ones, without restarting.";
pub const MCP_SERVERS_TEXT: &'static str = "The desired full server list. Omit to reload from current configuration.";
pub const MCP_CALL_TEXT: &'static str = "Call a remote MCP tool.";
pub const SKILL_LIST_TEXT: &'static str = "List all loaded skills (markdown skill files, hot-reloaded).";
pub const SKILL_RELOAD_TEXT: &'static str = "Hot-reload skills from the skills directory: pick up added/edited/removed skill files without restarting.";
pub const SKILL_DIR_TEXT: &'static str = "Optional: override the skills directory to scan.";
pub const A2A_LIST_TEXT: &'static str = "List connected remote A2A agents.";
pub const A2A_RELOAD_TEXT: &'static str = "Hot-reload the remote A2A agent registry: connect newly-added agents and drop removed ones.";
pub const A2A_AGENTS_TEXT: &'static str = "Desired full agent list. Omit to reload from current configuration.";
pub const A2A_PROMPT_TEXT: &'static str = "Prompt text to send to the agent.";
pub const MODEL_LIST_TEXT: &'static str = "List all models in the catalog with their cost, context window, and benchmark scores.";
pub const MODEL_PICK_TEXT: &'static str = "Pick the best model from the catalog given optional constraints. Returns the model id + rationale.";
pub const MODEL_STRATEGY_TEXT: &'static str = "best_score | best_score_under_budget | cheapest_above_floor | best_value";
pub const MEM_SET_TEXT: &'static str = "Persist a fact (key/value) about the current user so the agent remembers it across conversations.";
pub const MEM_KEY_TEXT: &'static str = "Fact key, e.g. 'timezone' or 'preferred_language'.";
pub const MEM_VALUE_TEXT: &'static str = "Fact value.";
pub const MEM_RECALL_TEXT: &'static str = "Recall a stored fact by key for the current user, or list all facts when no key is given.";
pub const MEM_RECALL_KEY_TEXT: &'static str = "Optional fact key; omit to list all.";
pub const WHOAMI_TEXT: &'static str = "Report the caller's tenant, sender, role, and permissions.";
pub const MEMBERS_TEXT: &'static str = "List the configured members and their roles.";

// ---- schemas -----------------------------------------------------------------------

/// A property of a type.
pub open spec fn typed(kind: Seq<char>) -> JsonView {
    JsonView::Object(seq![("type"@, JsonView::Str(kind))])
}

/// A property of a type, with a description.
pub open spec fn described(kind: Seq<char>, text: Seq<char>) -> JsonView {
    JsonView::Object(
        seq![("description"@, JsonView::Str(text)), ("type"@, JsonView::Str(kind))],
    )
}

/// An object schema without required properties.
pub open spec fn open_schema(props: Seq<(Seq<char>, JsonView)>) -> JsonView {
    JsonView::Object(
        seq![("properties"@, JsonView::Object(props)), ("type"@, JsonView::Str("object"@))],
    )
}

/// An object schema with required properties.
pub open spec fn strict_schema(
    props: Seq<(Seq<char>, JsonView)>,
    required: Seq<Seq<char>>,
) -> JsonView {
    JsonView::Object(
        seq![
            ("properties"@, JsonView::Object(props)),
            ("required"@, crate::json::text_array(required)),
            ("type"@, JsonView::Str("object"@)),
        ],
    )
}

/// The schema of a tool without arguments.
pub open spec fn no_arguments() -> JsonView {
    open_schema(Seq::empty())
}

/// The schema of a list of endpoints.
pub open spec fn endpoint_list(text: Seq<char>) -> JsonView {
    JsonView::Object(
        seq![
            ("description"@, JsonView::Str(text)),
            (
                "items"@,
                strict_schema(
                    seq![
                        ("name"@, typed("string"@)),
                        ("timeout_secs"@, typed("integer"@)),
                        ("token"@, typed("string"@)),
                        ("url"@, typed("string"@)),
                    ],
                    seq!["name"@, "url"@],
                ),
            ),
            ("type"@, JsonView::Str("array"@)),
        ],
    )
}

fn typed_value(kind: &str) -> (r: Json)
    ensures
        r@ == typed(kind@),
{
    let r: Json = close(put(object(), "type", text_value(kind)));
    assert(r@->Object_0 =~= typed(kind@)->Object_0);
    r
}

fn described_value(kind: &str, text: &str) -> (r: Json)
    ensures
        r@ == described(kind@, text@),
{
    let m: Vec<(String, Json)> = put(object(), "description", text_value(text));
    let r: Json = close(put(m, "type", text_value(kind)));
    assert(r@->Object_0 =~= described(kind@, text@)->Object_0);
    r
}

fn open_value(props: Vec<(String, Json)>) -> (r: Json)
    ensures
        r@ == open_schema(crate::json::member_views(props@)),
{
    let ghost p = crate::json::member_views(props@);
    let m: Vec<(String, Json)> = put(object(), "properties", close(props));
    let r: Json = close(put(m, "type", text_value("object")));
    assert(r@->Object_0 =~= open_schema(p)->Object_0);
    r
}

fn strict_value(props: Vec<(String, Json)>, required: &Vec<String>) -> (r: Json)
    ensures
        r@ == strict_schema(
            crate::json::member_views(props@),
            crate::text::views(required@),
        ),
{
    let ghost p = crate::json::member_views(props@);
    let m: Vec<(String, Json)> = put(object(), "properties", close(props));
    let m: Vec<(String, Json)> = put(m, "required", text_array_value(required));
    let r: Json = close(put(m, "type", text_value("object")));
    assert(r@->Object_0 =~= strict_schema(p, crate::text::views(required@))->Object_0);
    r
}

fn list1(a: &str) -> (r: Vec<String>)
    ensures
        crate::text::views(r@) == seq![a@],
{
    let mut v: Vec<String> = Vec::new();
    v.push(a.to_string());
    assert(crate::text::views(v@) =~= seq![a@]);
    v
}

fn list2(a: &str, b: &str) -> (r: Vec<String>)
    ensures
        crate::text::views(r@) == seq![a@, b@],
{
    let mut v: Vec<String> = Vec::new();
    v.push(a.to_string());
    v.push(b.to_string());
    assert(crate::text::views(v@) =~= seq![a@, b@]);
    v
}

fn list3(a: &str, b: &str, c: &str) -> (r: Vec<String>)
    ensures
        crate::text::views(r@) == seq![a@, b@, c@],
{
    let mut v: Vec<String> = Vec::new();
    v.push(a.to_string());
    v.push(b.to_string());
    v.push(c.to_string());
    assert(crate::text::views(v@) =~= seq![a@, b@, c@]);
    v
}

fn endpoint_list_value(text: &str) -> (r: Json)
    ensures
        r@ == endpoint_list(text@),
{
    let p: Vec<(String, Json)> = put(object(), "name", typed_value("string"));
    let p: Vec<(String, Json)> = put(p, "timeout_secs", typed_value("integer"));
    let p: Vec<(String, Json)> = put(p, "token", typed_value("string"));
    let p: Vec<(String, Json)> = put(p, "url", typed_value("string"));
    assert(crate::json::member_views(p@) =~= seq![
        ("name"@, typed("string"@)),
        ("timeout_secs"@, typed("integer"@)),
        ("token"@, typed("string"@)),
        ("url"@, typed("string"@)),
    ]);
    let items: Json = strict_value(p, &list2("name", "url"));
    let m: Vec<(String, Json)> = put(object(), "description", text_value(text));
    let m: Vec<(String, Json)> = put(m, "items", items);
    let r: Json = close(put(m, "type", text_value("array")));
    assert(r@->Object_0 =~= endpoint_list(text@)->Object_0);
    r
}

fn def(name: &str, description: &str, schema: Json) -> (r: ToolDef)
    ensures
        r@ == (DefView { name: name@, description: description@, schema: schema@ }),
{
    ToolDef { name: name.to_string(), description: description.to_string(), schema }
}

fn push_def(out: &mut Vec<ToolDef>, d: ToolDef)
    ensures
        def_views(final(out)@) == def_views(old(out)@).push(d@),
{
    let ghost before = out@;
    out.push(d);
    assert(def_views(out@) =~= def_views(before).push(d@));
}

// ---- definitions -------------------------------------------------------------------

/// The scheduler tools.
pub open spec fn scheduler_defs() -> Seq<DefView> {
    seq![
        DefView {
            name: names::SCHED_ADD@,
            description: SCHED_ADD_TEXT@,
            schema: strict_schema(
                seq![
                    ("cron"@, described("string"@, SCHED_CRON_TEXT@)),
                    ("name"@, described("string"@, SCHED_NAME_TEXT@)),
                    ("prompt"@, described("string"@, SCHED_PROMPT_TEXT@)),
                    ("session_id"@, described("string"@, SCHED_SESSION_TEXT@)),
                ],
                seq!["name"@, "cron"@, "prompt"@],
            ),
        },
        DefView {
            name: names::SCHED_REMOVE@,
            description: SCHED_REMOVE_TEXT@,
            schema: strict_schema(seq![("id"@, typed("string"@))], seq!["id"@]),
        },
        DefView {
            name: names::SCHED_LIST@,
            description: SCHED_LIST_TEXT@,
            schema: no_arguments(),
        },
    ]
}

/// The session tools.
pub open spec fn session_defs() -> Seq<DefView> {
    seq![
        DefView {
            name: names::SESS_SWITCH@,
            description: SESS_SWITCH_TEXT@,
            schema: strict_schema(
                seq![("sender_id"@, typed("string"@)), ("session_id"@, typed("string"@))],
                seq!["sender_id"@, "session_id"@],
            ),
        },
        DefView {
            name: names::SESS_SET_WS@,
            description: SESS_SET_WS_TEXT@,
            schema: strict_schema(
                seq![
                    ("session_id"@, typed("string"@)),
                    ("workspace"@, described("string"@, SESS_PATH_TEXT@)),
                ],
                seq!["session_id"@, "workspace"@],
            ),
        },
        DefView {
            name: names::SESS_LIST@,
            description: SESS_LIST_TEXT@,
            schema: no_arguments(),
        },
    ]
}

/// The tools that manage MCP servers.
pub open spec fn mcp_admin_defs() -> Seq<DefView> {
    seq![
        DefView {
            name: names::MCP_LIST_SERVERS@,
            description: MCP_LIST_TEXT@,
            schema: no_arguments(),
        },
        DefView {
            name: names::MCP_RELOAD@,
            description: MCP_RELOAD_TEXT@,
            schema: open_schema(seq![("servers"@, endpoint_list(MCP_SERVERS_TEXT@))]),
        },
    ]
}

/// A tool of an MCP server. One without an object schema takes no arguments.
pub open spec fn mcp_def(t: RoutedView) -> DefView {
    DefView {
        name: t.qualified_name,
        description: match t.tool.description {
            Some(d) => d,
            None => MCP_CALL_TEXT@,
        },
        schema: if t.tool.input_schema is Object { t.tool.input_schema } else { no_arguments() },
    }
}

/// The tools that manage skills.
pub open spec fn skill_admin_defs() -> Seq<DefView> {
    seq![
        DefView {
            name: names::SKILL_LIST@,
            description: SKILL_LIST_TEXT@,
            schema: no_arguments(),
        },
        DefView {
            name: names::SKILL_RELOAD@,
            description: SKILL_RELOAD_TEXT@,
            schema: open_schema(seq![("dir"@, described("string"@, SKILL_DIR_TEXT@))]),
        },
    ]
}

/// The tool that invokes a skill.
pub open spec fn skill_def(s: SkillView) -> DefView {
    DefView {
        name: names::SKILL_PREFIX@ + s.name,
        description: match s.description {
            Some(d) => d,
            None => "Invoke the '"@ + s.name + "' skill."@,
        },
        schema: crate::skill::schema_of(s.arguments),
    }
}

/// The tools that manage A2A agents.
pub open spec fn a2a_admin_defs() -> Seq<DefView> {
    seq![
        DefView { name: names::A2A_LIST@, description: A2A_LIST_TEXT@, schema: no_arguments() },
        DefView {
            name: names::A2A_RELOAD@,
            description: A2A_RELOAD_TEXT@,
            schema: open_schema(seq![("agents"@, endpoint_list(A2A_AGENTS_TEXT@))]),
        },
    ]
}

/// The tool that calls an A2A agent.
pub open spec fn a2a_def(name: Seq<char>) -> DefView {
    DefView {
        name: names::A2A_PREFIX@ + name,
        description: "Send a prompt to the remote A2A agent '"@ + name + "' and return its reply."@,
        schema: strict_schema(
            seq![("prompt"@, described("string"@, A2A_PROMPT_TEXT@))],
            seq!["prompt"@],
        ),
    }
}

/// The model catalog tools.
pub open spec fn model_defs() -> Seq<DefView> {
    seq![
        DefView {
            name: names::MODEL_LIST@,
            description: MODEL_LIST_TEXT@,
            schema: no_arguments(),
        },
        DefView {
            name: names::MODEL_PICK@,
            description: MODEL_PICK_TEXT@,
            schema: open_schema(
                seq![
                    ("max_cost_per_token"@, typed("number"@)),
                    ("min_context_window"@, typed("integer"@)),
                    ("min_score"@, typed("number"@)),
                    ("strategy"@, described("string"@, MODEL_STRATEGY_TEXT@)),
                ],
            ),
        },
    ]
}

/// The memory tools.
pub open spec fn memory_defs() -> Seq<DefView> {
    seq![
        DefView {
            name: names::MEM_SET@,
            description: MEM_SET_TEXT@,
            schema: strict_schema(
                seq![
                    ("key"@, described("string"@, MEM_KEY_TEXT@)),
                    ("value"@, described("string"@, MEM_VALUE_TEXT@)),
                ],
                seq!["key"@, "value"@],
            ),
        },
        DefView {
            name: names::MEM_RECALL@,
            description: MEM_RECALL_TEXT@,
            schema: open_schema(seq![("key"@, described("string"@, MEM_RECALL_KEY_TEXT@))]),
        },
    ]
}

/// The tenant tools.
pub open spec fn tenant_defs() -> Seq<DefView> {
    seq![
        DefView {
            name: names::TENANT_WHOAMI@,
            description: WHOAMI_TEXT@,
            schema: no_arguments(),
        },
        DefView {
            name: names::TENANT_LIST_MEMBERS@,
            description: MEMBERS_TEXT@,
            schema: no_arguments(),
        },
    ]
}

fn none_value() -> (r: Json)
    ensures
        r@ == no_arguments(),
{
    open_value(object())
}

/// Adds the scheduler tools.
pub fn push_scheduler(out: &mut Vec<ToolDef>)
    ensures
        def_views(final(out)@) == def_views(old(out)@) + scheduler_defs(),
{
    let ghost start = def_views(out@);
    let p: Vec<(String, Json)> = put(object(), "cron", described_value("string", SCHED_CRON_TEXT));
    let p: Vec<(String, Json)> = put(p, "name", described_value("string", SCHED_NAME_TEXT));
    let p: Vec<(String, Json)> = put(p, "prompt", described_value("string", SCHED_PROMPT_TEXT));
    let p: Vec<(String, Json)> = put(
        p,
        "session_id",
        described_value("string", SCHED_SESSION_TEXT),
    );
    assert(crate::json::member_views(p@) =~= seq![
        ("cron"@, described("string"@, SCHED_CRON_TEXT@)),
        ("name"@, described("string"@, SCHED_NAME_TEXT@)),
        ("prompt"@, described("string"@, SCHED_PROMPT_TEXT@)),
        ("session_id"@, described("string"@, SCHED_SESSION_TEXT@)),
    ]);
    push_def(
        out,
        def(
            names::SCHED_ADD,
            SCHED_ADD_TEXT,
            strict_value(p, &list3("name", "cron", "prompt")),
        ),
    );
    let q: Vec<(String, Json)> = put(object(), "id", typed_value("string"));
    assert(crate::json::member_views(q@) =~= seq![("id"@, typed("string"@))]);
    push_def(
        out,
        def(names::SCHED_REMOVE, SCHED_REMOVE_TEXT, strict_value(q, &list1("id"))),
    );
    push_def(out, def(names::SCHED_LIST, SCHED_LIST_TEXT, none_value()));
    assert(def_views(out@) =~= start + scheduler_defs());
}

/// Adds the session tools.
pub fn push_session(out: &mut Vec<ToolDef>)
    ensures
        def_views(final(out)@) == def_views(old(out)@) + session_defs(),
{
    let ghost start = def_views(out@);
    let p: Vec<(String, Json)> = put(object(), "sender_id", typed_value("string"));
    let p: Vec<(String, Json)> = put(p, "session_id", typed_value("string"));
    assert(crate::json::member_views(p@) =~= seq![
        ("sender_id"@, typed("string"@)),
        ("session_id"@, typed("string"@)),
    ]);
    push_def(
        out,
        def(
            names::SESS_SWITCH,
            SESS_SWITCH_TEXT,
            strict_value(p, &list2("sender_id", "session_id")),
        ),
    );
    let q: Vec<(String, Json)> = put(object(), "session_id", typed_value("string"));
    let q: Vec<(String, Json)> = put(q, "workspace", described_value("string", SESS_PATH_TEXT));
    assert(crate::json::member_views(q@) =~= seq![
        ("session_id"@, typed("string"@)),
        ("workspace"@, described("string"@, SESS_PATH_TEXT@)),
    ]);
    push_def(
        out,
        def(
            names::SESS_SET_WS,
            SESS_SET_WS_TEXT,
            strict_value(q, &list2("session_id", "workspace")),
        ),
    );
    push_def(out, def(names::SESS_LIST, SESS_LIST_TEXT, none_value()));
    assert(def_views(out@) =~= start + session_defs());
}

/// Adds the tools that manage MCP servers.
pub fn push_mcp_admin(out: &mut Vec<ToolDef>)
    ensures
        def_views(final(out)@) == def_views(old(out)@) + mcp_admin_defs(),
{
    let ghost start = def_views(out@);
    push_def(out, def(names::MCP_LIST_SERVERS, MCP_LIST_TEXT, none_value()));
    let p: Vec<(String, Json)> = put(object(), "servers", endpoint_list_value(MCP_SERVERS_TEXT));
    assert(crate::json::member_views(p@) =~= seq![("servers"@, endpoint_list(MCP_SERVERS_TEXT@))]);
    push_def(out, def(names::MCP_RELOAD, MCP_RELOAD_TEXT, open_value(p)));
    assert(def_views(out@) =~= start + mcp_admin_defs());
}

/// Adds the tools of MCP servers.
pub fn push_mcp(out: &mut Vec<ToolDef>, tools: &Vec<RoutedTool>)
    ensures
        def_views(final(out)@) == def_views(old(out)@) + crate::mcp::routed_views(
            tools@,
        ).map_values(|t: RoutedView| mcp_def(t)),
{
    let ghost start = def_views(out@);
    let ghost all = crate::mcp::routed_views(tools@);
    let mut i: usize = 0;
    assert(start + all.take(0).map_values(|t: RoutedView| mcp_def(t)) =~= start);
    while i < tools.len()
        invariant
            all == crate::mcp::routed_views(tools@),
            i <= tools@.len(),
            def_views(out@) == start + all.take(i as int).map_values(|t: RoutedView| mcp_def(t)),
        decreases tools@.len() - i,
    {
        let t: &RoutedTool = &tools[i];
        let description: String = match &t.description {
            Some(d) => d.clone(),
            None => MCP_CALL_TEXT.to_string(),
        };
        let schema: Json = match &t.input_schema {
            Json::Object(_) => t.input_schema.dup(),
            _ => none_value(),
        };
        let d: ToolDef = def(&t.qualified_name, &description, schema);
        assert(d@ == mcp_def(t@));
        push_def(out, d);
        assert(all.take(i + 1).map_values(|t: RoutedView| mcp_def(t)) =~= all.take(
            i as int,
        ).map_values(|t: RoutedView| mcp_def(t)).push(mcp_def(all[i as int])));
        assert(def_views(out@) =~= start + all.take(i + 1).map_values(
            |t: RoutedView| mcp_def(t),
        ));
        i = i + 1;
    }
    assert(all.take(all.len() as int) =~= all);
}

/// Adds the tools that manage skills.
pub fn push_skill_admin(out: &mut Vec<ToolDef>)
    ensures
        def_views(final(out)@) == def_views(old(out)@) + skill_admin_defs(),
{
    let ghost start = def_views(out@);
    push_def(out, def(names::SKILL_LIST, SKILL_LIST_TEXT, none_value()));
    let p: Vec<(String, Json)> = put(object(), "dir", described_value("string", SKILL_DIR_TEXT));
    assert(crate::json::member_views(p@) =~= seq![
        ("dir"@, described("string"@, SKILL_DIR_TEXT@)),
    ]);
    push_def(out, def(names::SKILL_RELOAD, SKILL_RELOAD_TEXT, open_value(p)));
    assert(def_views(out@) =~= start + skill_admin_defs());
}

/// Adds the tools that invoke skills.
pub fn push_skills(out: &mut Vec<ToolDef>, skills: &Vec<Skill>)
    ensures
        def_views(final(out)@) == def_views(old(out)@) + crate::skill::skill_views(
            skills@,
        ).map_values(|s: SkillView| skill_def(s)),
{
    let ghost start = def_views(out@);
    let ghost all = crate::skill::skill_views(skills@);
    let mut i: usize = 0;
    assert(start + all.take(0).map_values(|s: SkillView| skill_def(s)) =~= start);
    while i < skills.len()
        invariant
            all == crate::skill::skill_views(skills@),
            i <= skills@.len(),
            def_views(out@) == start + all.take(i as int).map_values(|s: SkillView| skill_def(s)),
        decreases skills@.len() - i,
    {
        let s: &Skill = &skills[i];
        let description: String = match &s.description {
            Some(d) => d.clone(),
            None => cat(&cat("Invoke the '", &s.name), "' skill."),
        };
        let d: ToolDef = def(
            &cat(names::SKILL_PREFIX, &s.name),
            &description,
            s.input_schema(),
        );
        assert(d@ == skill_def(s@));
        push_def(out, d);
        assert(all.take(i + 1).map_values(|s: SkillView| skill_def(s)) =~= all.take(
            i as int,
        ).map_values(|s: SkillView| skill_def(s)).push(skill_def(all[i as int])));
        assert(def_views(out@) =~= start + all.take(i + 1).map_values(
            |s: SkillView| skill_def(s),
        ));
        i = i + 1;
    }
    assert(all.take(all.len() as int) =~= all);
}

/// Adds the tools that manage A2A agents.
pub fn push_a2a_admin(out: &mut Vec<ToolDef>)
    ensures
        def_views(final(out)@) == def_views(old(out)@) + a2a_admin_defs(),
{
    let ghost start = def_views(out@);
    push_def(out, def(names::A2A_LIST, A2A_LIST_TEXT, none_value()));
    let p: Vec<(String, Json)> = put(object(), "agents", endpoint_list_value(A2A_AGENTS_TEXT));
    assert(crate::json::member_views(p@) =~= seq![("agents"@, endpoint_list(A2A_AGENTS_TEXT@))]);
    push_def(out, def(names::A2A_RELOAD, A2A_RELOAD_TEXT, open_value(p)));
    assert(def_views(out@) =~= start + a2a_admin_defs());
}

/// Adds the tools that call A2A agents.
pub fn push_a2a(out: &mut Vec<ToolDef>, agents: &Vec<String>)
    ensures
        def_views(final(out)@) == def_views(old(out)@) + crate::text::views(agents@).map_values(
            |n: Seq<char>| a2a_def(n),
        ),
{
    let ghost start = def_views(out@);
    let ghost all = crate::text::views(agents@);
    let mut i: usize = 0;
    assert(start + all.take(0).map_values(|n: Seq<char>| a2a_def(n)) =~= start);
    while i < agents.len()
        invariant
            all == crate::text::views(agents@),
            i <= agents@.len(),
            def_views(out@) == start + all.take(i as int).map_values(|n: Seq<char>| a2a_def(n)),
        decreases agents@.len() - i,
    {
        let name: &String = &agents[i];
        let p: Vec<(String, Json)> = put(
            object(),
            "prompt",
            described_value("string", A2A_PROMPT_TEXT),
        );
        assert(crate::json::member_views(p@) =~= seq![
            ("prompt"@, described("string"@, A2A_PROMPT_TEXT@)),
        ]);
        let d: ToolDef = def(
            &cat(names::A2A_PREFIX, name),
            &cat(
                &cat("Send a prompt to the remote A2A agent '", name),
                "' and return its reply.",
            ),
            strict_value(p, &list1("prompt")),
        );
        assert(d@ == a2a_def(name@));
        push_def(out, d);
        assert(all.take(i + 1).map_values(|n: Seq<char>| a2a_def(n)) =~= all.take(
            i as int,
        ).map_values(|n: Seq<char>| a2a_def(n)).push(a2a_def(all[i as int])));
        assert(def_views(out@) =~= start + all.take(i + 1).map_values(
            |n: Seq<char>| a2a_def(n),
        ));
        i = i + 1;
    }
    assert(all.take(all.len() as int) =~= all);
}

/// Adds the model catalog tools.
pub fn push_models(out: &mut Vec<ToolDef>)
    ensures
        def_views(final(out)@) == def_views(old(out)@) + model_defs(),
{
    let ghost start = def_views(out@);
    push_def(out, def(names::MODEL_LIST, MODEL_LIST_TEXT, none_value()));
    let p: Vec<(String, Json)> = put(object(), "max_cost_per_token", typed_value("number"));
    let p: Vec<(String, Json)> = put(p, "min_context_window", typed_value("integer"));
    let p: Vec<(String, Json)> = put(p, "min_score", typed_value("number"));
    let p: Vec<(String, Json)> = put(p, "strategy", described_value("string", MODEL_STRATEGY_TEXT));
    assert(crate::json::member_views(p@) =~= seq![
        ("max_cost_per_token"@, typed("number"@)),
        ("min_context_window"@, typed("integer"@)),
        ("min_score"@, typed("number"@)),
        ("strategy"@, described("string"@, MODEL_STRATEGY_TEXT@)),
    ]);
    push_def(out, def(names::MODEL_PICK, MODEL_PICK_TEXT, open_value(p)));
    assert(def_views(out@) =~= start + model_defs());
}

/// Adds the memory tools.
pub fn push_memory(out: &mut Vec<ToolDef>)
    ensures
        def_views(final(out)@) == def_views(old(out)@) + memory_defs(),
{
    let ghost start = def_views(out@);
    let p: Vec<(String, Json)> = put(object(), "key", described_value("string", MEM_KEY_TEXT));
    let p: Vec<(String, Json)> = put(p, "value", described_value("string", MEM_VALUE_TEXT));
    assert(crate::json::member_views(p@) =~= seq![
        ("key"@, described("string"@, MEM_KEY_TEXT@)),
        ("value"@, described("string"@, MEM_VALUE_TEXT@)),
    ]);
    push_def(
        out,
        def(names::MEM_SET, MEM_SET_TEXT, strict_value(p, &list2("key", "value"))),
    );
    let q: Vec<(String, Json)> = put(
        object(),
        "key",
        described_value("string", MEM_RECALL_KEY_TEXT),
    );
    assert(crate::json::member_views(q@) =~= seq![
        ("key"@, described("string"@, MEM_RECALL_KEY_TEXT@)),
    ]);
    push_def(out, def(names::MEM_RECALL, MEM_RECALL_TEXT, open_value(q)));
    assert(def_views(out@) =~= start + memory_defs());
}

/// Adds the tenant tools.
pub fn push_tenant(out: &mut Vec<ToolDef>)
    ensures
        def_views(final(out)@) == def_views(old(out)@) + tenant_defs(),
{
    let ghost start = def_views(out@);
    push_def(out, def(names::TENANT_WHOAMI, WHOAMI_TEXT, none_value()));
    push_def(out, def(names::TENANT_LIST_MEMBERS, MEMBERS_TEXT, none_value()));
    assert(def_views(out@) =~= start + tenant_defs());
}

// ---- laws --------------------------------------------------------------------------

proof fn lemma_strict(props: Seq<(Seq<char>, JsonView)>, required: Seq<Seq<char>>)
    ensures
        crate::json::field(strict_schema(props, required), "type"@) == Some(
            JsonView::Str("object"@),
        ),
        crate::json::field(strict_schema(props, required), "properties"@) == Some(
            JsonView::Object(props),
        ),
        crate::json::field(strict_schema(props, required), "required"@) == Some(
            JsonView::Array(required.map_values(|s: Seq<char>| JsonView::Str(s))),
        ),
        crate::json::field(open_schema(props), "type"@) == Some(JsonView::Str("object"@)),
        crate::json::field(open_schema(props), "properties"@) == Some(JsonView::Object(props)),
        crate::json::field(open_schema(props), "required"@) is None,
{
    reveal_strlit("type");
    reveal_strlit("properties");
    reveal_strlit("required");
    assert("type"@.len() == 4);
    assert("properties"@.len() == 10);
    assert("required"@.len() == 8);
    let m = strict_schema(props, required)->Object_0;
    let n = open_schema(props)->Object_0;
    let x = m[0];
    let y = m[1];
    let z = m[2];
    assert(m =~= seq![x, y, z]);
    assert(m.drop_first() =~= seq![y, z]);
    assert(seq![y, z].drop_first() =~= seq![z]);
    assert(n =~= seq![x, z]);
    assert(n.drop_first() =~= seq![z]);
    assert(seq![z].drop_first() =~= Seq::empty());
    reveal_with_fuel(crate::json::member, 4);
}

/// Whether a schema demands an argument.
pub open spec fn demands(schema: JsonView, key: Seq<char>) -> bool {
    crate::json::field(schema, "required"@) matches Some(JsonView::Array(v)) && v.contains(
        JsonView::Str(key),
    )
}

/// Whether a schema tells of an argument.
pub open spec fn tells_of(schema: JsonView, key: Seq<char>) -> bool {
    crate::json::field(schema, "properties"@) matches Some(p) && crate::json::field(p, key) is Some
}

proof fn lemma_demands(props: Seq<(Seq<char>, JsonView)>, required: Seq<Seq<char>>, i: int, j: int)
    ensures
        0 <= i < required.len() ==> demands(strict_schema(props, required), required[i]),
        0 <= j < props.len() ==> tells_of(strict_schema(props, required), props[j].0) && tells_of(
            open_schema(props),
            props[j].0,
        ),
{
    lemma_strict(props, required);
    let v = required.map_values(|s: Seq<char>| JsonView::Str(s));
    if 0 <= i < required.len() {
        assert(v[i] == JsonView::Str(required[i]));
        assert(v.contains(v[i]));
    }
    if 0 <= j < props.len() {
        lemma_member_some(props, j);
    }
}

proof fn lemma_member_some(m: Seq<(Seq<char>, JsonView)>, j: int)
    requires
        0 <= j < m.len(),
    ensures
        crate::json::member(m, m[j].0) is Some,
    decreases m.len(),
{
    if m[0].0 != m[j].0 {
        lemma_member_some(m.drop_first(), j - 1);
    }
}

/// What the built-in tools demand: a job its name, its expression and its prompt, a removal the
/// id, a switch the sender and the session, a workspace the session and the path, a fact its
/// key and its value, and an agent its prompt.
pub proof fn tools_demand_their_arguments(agent: Seq<char>)
    ensures
        scheduler_defs()[0].name == "scheduler_add_job"@,
        demands(scheduler_defs()[0].schema, "name"@) && demands(
            scheduler_defs()[0].schema,
            "cron"@,
        ) && demands(scheduler_defs()[0].schema, "prompt"@),
        tells_of(scheduler_defs()[0].schema, "name"@) && tells_of(
            scheduler_defs()[0].schema,
            "cron"@,
        ) && tells_of(scheduler_defs()[0].schema, "prompt"@) && tells_of(
            scheduler_defs()[0].schema,
            "session_id"@,
        ),
        scheduler_defs()[1].name == "scheduler_remove_job"@,
        demands(scheduler_defs()[1].schema, "id"@) && tells_of(scheduler_defs()[1].schema, "id"@),
        session_defs()[0].name == "session_switch"@,
        demands(session_defs()[0].schema, "sender_id"@) && demands(
            session_defs()[0].schema,
            "session_id"@,
        ),
        session_defs()[1].name == "session_set_workspace"@,
        demands(session_defs()[1].schema, "session_id"@) && demands(
            session_defs()[1].schema,
            "workspace"@,
        ),
        memory_defs()[0].name == "memory_set"@,
        demands(memory_defs()[0].schema, "key"@) && demands(memory_defs()[0].schema, "value"@),
        tells_of(memory_defs()[1].schema, "key"@),
        a2a_def(agent).name == "a2a_"@ + agent,
        demands(a2a_def(agent).schema, "prompt"@) && tells_of(a2a_def(agent).schema, "prompt"@),
        tells_of(model_defs()[1].schema, "strategy"@) && tells_of(
            model_defs()[1].schema,
            "min_score"@,
        ) && tells_of(model_defs()[1].schema, "max_cost_per_token"@) && tells_of(
            model_defs()[1].schema,
            "min_context_window"@,
        ),
        tells_of(mcp_admin_defs()[1].schema, "servers"@),
        tells_of(a2a_admin_defs()[1].schema, "agents"@),
        tells_of(skill_admin_defs()[1].schema, "dir"@),
{
    names::tools_have_their_names();
    let a = seq![
        ("cron"@, described("string"@, SCHED_CRON_TEXT@)),
        ("name"@, described("string"@, SCHED_NAME_TEXT@)),
        ("prompt"@, described("string"@, SCHED_PROMPT_TEXT@)),
        ("session_id"@, described("string"@, SCHED_SESSION_TEXT@)),
    ];
    let ra = seq!["name"@, "cron"@, "prompt"@];
    lemma_demands(a, ra, 0, 0);
    lemma_demands(a, ra, 1, 1);
    lemma_demands(a, ra, 2, 2);
    lemma_demands(a, ra, 2, 3);
    lemma_demands(seq![("id"@, typed("string"@))], seq!["id"@], 0, 0);
    let b = seq![("sender_id"@, typed("string"@)), ("session_id"@, typed("string"@))];
    lemma_demands(b, seq!["sender_id"@, "session_id"@], 0, 0);
    lemma_demands(b, seq!["sender_id"@, "session_id"@], 1, 1);
    let c = seq![
        ("session_id"@, typed("string"@)),
        ("workspace"@, described("string"@, SESS_PATH_TEXT@)),
    ];
    lemma_demands(c, seq!["session_id"@, "workspace"@], 0, 0);
    lemma_demands(c, seq!["session_id"@, "workspace"@], 1, 1);
    let d = seq![
        ("key"@, described("string"@, MEM_KEY_TEXT@)),
        ("value"@, described("string"@, MEM_VALUE_TEXT@)),
    ];
    lemma_demands(d, seq!["key"@, "value"@], 0, 0);
    lemma_demands(d, seq!["key"@, "value"@], 1, 1);
    let none = Seq::<Seq<char>>::empty();
    lemma_demands(seq![("key"@, described("string"@, MEM_RECALL_KEY_TEXT@))], none, 0, 0);
    lemma_demands(
        seq![("prompt"@, described("string"@, A2A_PROMPT_TEXT@))],
        seq!["prompt"@],
        0,
        0,
    );
    let f = seq![
        ("max_cost_per_token"@, typed("number"@)),
        ("min_context_window"@, typed("integer"@)),
        ("min_score"@, typed("number"@)),
        ("strategy"@, described("string"@, MODEL_STRATEGY_TEXT@)),
    ];
    lemma_demands(f, none, 0, 0);
    lemma_demands(f, none, 0, 1);
    lemma_demands(f, none, 0, 2);
    lemma_demands(f, none, 0, 3);
    lemma_demands(seq![("servers"@, endpoint_list(MCP_SERVERS_TEXT@))], none, 0, 0);
    lemma_demands(seq![("agents"@, endpoint_list(A2A_AGENTS_TEXT@))], none, 0, 0);
    lemma_demands(seq![("dir"@, described("string"@, SKILL_DIR_TEXT@))], none, 0, 0);
}

/// A tool of a server is offered under its qualified name, with its own description and schema
/// where it has them; and a skill under its prefix, with what it says of itself and the schema
/// of its arguments.
pub proof fn tools_are_offered_as_they_are(t: RoutedView, s: SkillView)
    ensures
        mcp_def(t).name == t.qualified_name,
        t.tool.description matches Some(d) ==> mcp_def(t).description == d,
        t.tool.input_schema is Object ==> mcp_def(t).schema == t.tool.input_schema,
        !(t.tool.input_schema is Object) ==> crate::json::field(mcp_def(t).schema, "type"@) == Some(
            JsonView::Str("object"@),
        ),
        skill_def(s).name == "skill_"@ + s.name,
        s.description matches Some(d) ==> skill_def(s).description == d,
        s.description is None ==> skill_def(s).description == "Invoke the '"@ + s.name + "' skill."@,
        skill_def(s).schema == crate::skill::schema_of(s.arguments),
{
    names::tools_have_their_names();
    lemma_strict(Seq::empty(), Seq::empty());
}

} // verus!
