//! The JSON that tools answer with.

use vstd::prelude::*;
use crate::json::{
    array_value, close, object, put, text_array_value, text_or_null_value, text_value,
    Json, JsonView,
};
use crate::mcp::{McpRegistry, McpTool};
use crate::memory::{Fact, SenderMemory};
use crate::reload::{Live, ReloadReport};
use crate::scheduler::ScheduledJob;
use crate::session::Session;
use crate::skill::{ArgView, Skill, SkillView};
use crate::tenant::{MemberView, Permission};

verus! {

/// An integer.
pub open spec fn integer(n: i64) -> JsonView {
    if n >= 0 {
        JsonView::UInt(n as u64)
    } else {
        JsonView::Int(n)
    }
}

fn integer_value(n: i64) -> (r: Json)
    ensures
        r@ == integer(n),
{
    if n >= 0 {
        Json::UInt(n as u64)
    } else {
        Json::Int(n)
    }
}

/// A member that is there only with a value.
pub open spec fn optional(key: Seq<char>, o: Option<Seq<char>>) -> Seq<(Seq<char>, JsonView)> {
    match o {
        Some(s) => seq![(key, JsonView::Str(s))],
        None => Seq::empty(),
    }
}

fn put_optional(m: Vec<(String, Json)>, key: &str, o: &Option<String>) -> (r: Vec<(String, Json)>)
    ensures
        crate::json::member_views(r@) == crate::json::member_views(m@) + optional(
            key@,
            crate::text::opt_view(*o),
        ),
{
    match o {
        Some(s) => {
            let ghost before = crate::json::member_views(m@);
            let r: Vec<(String, Json)> = put(m, key, text_value(s));
            assert(crate::json::member_views(r@) =~= before + optional(key@, Some(s@)));
            r
        },
        None => {
            assert(crate::json::member_views(m@) + optional(key@, None)
                =~= crate::json::member_views(m@));
            m
        },
    }
}

/// A session.
pub open spec fn session_json(s: Session) -> JsonView {
    JsonView::Object(
        seq![("id"@, JsonView::Str(s.id@)), ("label"@, JsonView::Str(s.label@))] + optional(
            "workspace"@,
            crate::text::opt_view(s.workspace),
        ) + seq![("created_at"@, integer(s.created_at))],
    )
}

/// A session.
pub fn session_value(s: &Session) -> (r: Json)
    ensures
        r@ == session_json(*s),
{
    let m: Vec<(String, Json)> = put(object(), "id", text_value(&s.id));
    let m: Vec<(String, Json)> = put(m, "label", text_value(&s.label));
    let m: Vec<(String, Json)> = put_optional(m, "workspace", &s.workspace);
    let r: Json = close(put(m, "created_at", integer_value(s.created_at)));
    assert(r@->Object_0 =~= session_json(*s)->Object_0);
    r
}

/// A list of sessions.
pub open spec fn sessions_json(v: Seq<Session>) -> JsonView {
    JsonView::Array(v.map_values(|s: Session| session_json(s)))
}

/// A list of sessions.
pub fn sessions_value(v: &Vec<Session>) -> (r: Json)
    ensures
        r@ == sessions_json(v@),
{
    let mut out: Vec<Json> = Vec::new();
    let mut i: usize = 0;
    while i < v.len()
        invariant
            i <= v@.len(),
            out@.len() == i,
            forall|k: int| 0 <= k < i ==> (#[trigger] out@[k])@ == session_json(v@[k]),
        decreases v@.len() - i,
    {
        out.push(session_value(&v[i]));
        i = i + 1;
    }
    assert(crate::json::json_views(out@) =~= v@.map_values(|s: Session| session_json(s)));
    array_value(out)
}

/// A scheduled job.
pub open spec fn job_json(j: ScheduledJob) -> JsonView {
    JsonView::Object(
        seq![
            ("cron"@, JsonView::Str(j.cron@)),
            ("id"@, JsonView::Str(j.id@)),
            ("name"@, JsonView::Str(j.name@)),
            ("prompt"@, JsonView::Str(j.prompt@)),
        ] + optional("reply_to"@, crate::text::opt_view(j.reply_to)) + seq![
            ("session_id"@, JsonView::Str(j.session_id@)),
        ] + optional("tenant_id"@, crate::text::opt_view(j.tenant_id)),
    )
}

fn job_value(j: &ScheduledJob) -> (r: Json)
    ensures
        r@ == job_json(*j),
{
    let m: Vec<(String, Json)> = put(object(), "cron", text_value(&j.cron));
    let m: Vec<(String, Json)> = put(m, "id", text_value(&j.id));
    let m: Vec<(String, Json)> = put(m, "name", text_value(&j.name));
    let m: Vec<(String, Json)> = put(m, "prompt", text_value(&j.prompt));
    let m: Vec<(String, Json)> = put_optional(m, "reply_to", &j.reply_to);
    let m: Vec<(String, Json)> = put(m, "session_id", text_value(&j.session_id));
    let r: Json = close(put_optional(m, "tenant_id", &j.tenant_id));
    assert(r@->Object_0 =~= job_json(*j)->Object_0);
    r
}

/// A list of scheduled jobs.
pub open spec fn jobs_json(v: Seq<ScheduledJob>) -> JsonView {
    JsonView::Object(seq![("jobs"@, JsonView::Array(v.map_values(|j: ScheduledJob| job_json(j))))])
}

/// A list of scheduled jobs.
pub fn jobs_value(v: &Vec<ScheduledJob>) -> (r: Json)
    ensures
        r@ == jobs_json(v@),
{
    let mut out: Vec<Json> = Vec::new();
    let mut i: usize = 0;
    while i < v.len()
        invariant
            i <= v@.len(),
            out@.len() == i,
            forall|k: int| 0 <= k < i ==> (#[trigger] out@[k])@ == job_json(v@[k]),
        decreases v@.len() - i,
    {
        out.push(job_value(&v[i]));
        i = i + 1;
    }
    assert(crate::json::json_views(out@) =~= v@.map_values(|j: ScheduledJob| job_json(j)));
    let r: Json = close(put(object(), "jobs", array_value(out)));
    assert(r@->Object_0 =~= jobs_json(v@)->Object_0);
    r
}

/// A scheduled job was added.
pub open spec fn added_json(id: Seq<char>) -> JsonView {
    JsonView::Object(seq![("id"@, JsonView::Str(id)), ("scheduled"@, JsonView::Bool(true))])
}

/// A scheduled job was added.
pub fn added_value(id: &str) -> (r: Json)
    ensures
        r@ == added_json(id@),
{
    let m: Vec<(String, Json)> = put(object(), "id", text_value(id));
    let r: Json = close(put(m, "scheduled", Json::Bool(true)));
    assert(r@->Object_0 =~= added_json(id@)->Object_0);
    r
}

/// Whether a scheduled job was removed.
pub open spec fn removed_json(b: bool) -> JsonView {
    JsonView::Object(seq![("removed"@, JsonView::Bool(b))])
}

/// Whether a scheduled job was removed.
pub fn removed_value(b: bool) -> (r: Json)
    ensures
        r@ == removed_json(b),
{
    let r: Json = close(put(object(), "removed", Json::Bool(b)));
    assert(r@->Object_0 =~= removed_json(b)->Object_0);
    r
}

/// The tool counts of the servers that have tools.
pub open spec fn count_list(
    live: Map<Seq<char>, Live<Vec<McpTool>>>,
    servers: Seq<Seq<char>>,
) -> Seq<JsonView>
    decreases servers.len(),
{
    if servers.len() == 0 {
        Seq::empty()
    } else {
        let rest = count_list(live, servers.drop_last());
        let n = live[servers.last()].data@.len();
        if n > 0 {
            rest.push(
                JsonView::Object(
                    seq![
                        ("server"@, JsonView::Str(servers.last())),
                        ("tools"@, JsonView::UInt(n as u64)),
                    ],
                ),
            )
        } else {
            rest
        }
    }
}

/// The tool counts of the servers that have tools.
pub open spec fn servers_json(live: Map<Seq<char>, Live<Vec<McpTool>>>) -> JsonView {
    JsonView::Object(
        seq![("servers"@, JsonView::Array(count_list(live, crate::table::sorted(live.dom()))))],
    )
}

/// The tool counts of the servers that have tools.
pub fn servers_value(mcp: &McpRegistry) -> (r: Json)
    requires
        mcp.wf(),
    ensures
        r@ == servers_json(mcp@),
{
    let servers: Vec<String> = mcp.server_names();
    let ghost keys = crate::text::views(servers@);
    let ghost live = mcp@;
    let mut out: Vec<Json> = Vec::new();
    let mut i: usize = 0;
    assert(crate::json::json_views(out@) =~= Seq::<JsonView>::empty());
    while i < servers.len()
        invariant
            mcp.wf(),
            live == mcp@,
            keys == crate::text::views(servers@),
            crate::table::lists(keys, live.dom()),
            i <= servers@.len(),
            crate::json::json_views(out@) == count_list(live, keys.take(i as int)),
        decreases servers@.len() - i,
    {
        let ghost before = out@;
        let ghost key = keys[i as int];
        assert(key == servers@[i as int]@);
        assert(keys.contains(key));
        proof {
            assert(keys.take(i + 1).drop_last() =~= keys.take(i as int));
            assert(keys.take(i + 1).last() == key);
        }
        let n: usize = mcp.tool_count(&servers[i]);
        if n > 0 {
            let m: Vec<(String, Json)> = put(object(), "server", text_value(&servers[i]));
            let item: Json = close(put(m, "tools", Json::UInt(n as u64)));
            assert(item@->Object_0 =~= seq![
                ("server"@, JsonView::Str(key)),
                ("tools"@, JsonView::UInt(n as u64)),
            ]);
            out.push(item);
            assert(crate::json::json_views(out@) =~= crate::json::json_views(before).push(item@));
        }
        i = i + 1;
    }
    assert(keys.take(keys.len() as int) =~= keys);
    let r: Json = close(put(object(), "servers", array_value(out)));
    assert(r@->Object_0 =~= servers_json(live)->Object_0);
    r
}

/// The failures of a report: pairs of name and reason.
pub open spec fn failure_list(v: Seq<(Seq<char>, Seq<char>)>) -> JsonView {
    JsonView::Array(
        v.map_values(
            |p: (Seq<char>, Seq<char>)|
                JsonView::Array(seq![JsonView::Str(p.0), JsonView::Str(p.1)]),
        ),
    )
}

/// The report of a reload.
pub open spec fn report_json(r: ReloadReport) -> JsonView {
    JsonView::Object(
        seq![
            ("added"@, crate::json::text_array(crate::text::views(r.added@))),
            ("removed"@, crate::json::text_array(crate::text::views(r.removed@))),
            ("failed"@, failure_list(crate::reload::failures(r.failed@))),
        ],
    )
}

/// The report of a reload.
pub fn report_value(r: &ReloadReport) -> (j: Json)
    ensures
        j@ == report_json(*r),
{
    let ghost all = crate::reload::failures(r.failed@);
    let mut failed: Vec<Json> = Vec::new();
    let mut i: usize = 0;
    while i < r.failed.len()
        invariant
            all == crate::reload::failures(r.failed@),
            i <= r.failed@.len(),
            failed@.len() == i,
            forall|k: int|
                0 <= k < i ==> (#[trigger] failed@[k])@ == JsonView::Array(
                    seq![JsonView::Str(all[k].0), JsonView::Str(all[k].1)],
                ),
        decreases r.failed@.len() - i,
    {
        let mut pair: Vec<Json> = Vec::new();
        pair.push(text_value(&r.failed[i].0));
        pair.push(text_value(&r.failed[i].1));
        assert(crate::json::json_views(pair@) =~= seq![
            JsonView::Str(all[i as int].0),
            JsonView::Str(all[i as int].1),
        ]);
        failed.push(array_value(pair));
        i = i + 1;
    }
    assert(crate::json::json_views(failed@) =~= failure_list(all)->Array_0);
    let m: Vec<(String, Json)> = put(object(), "added", text_array_value(&r.added));
    let m: Vec<(String, Json)> = put(m, "removed", text_array_value(&r.removed));
    let j: Json = close(put(m, "failed", array_value(failed)));
    assert(j@->Object_0 =~= report_json(*r)->Object_0);
    j
}

/// A skill in a listing.
pub open spec fn skill_json(s: SkillView) -> JsonView {
    JsonView::Object(
        seq![
            (
                "args"@,
                crate::json::text_array(s.arguments.map_values(|a: ArgView| a.name)),
            ),
            ("description"@, crate::json::text_or_null(s.description)),
            ("name"@, JsonView::Str(s.name)),
        ],
    )
}

/// The loaded skills.
pub open spec fn skills_json(v: Seq<SkillView>) -> JsonView {
    JsonView::Object(seq![("skills"@, JsonView::Array(v.map_values(|s: SkillView| skill_json(s))))])
}

fn skill_value(s: &Skill) -> (r: Json)
    ensures
        r@ == skill_json(s@),
{
    let mut args: Vec<String> = Vec::new();
    let mut i: usize = 0;
    while i < s.arguments.len()
        invariant
            i <= s.arguments@.len(),
            args@.len() == i,
            forall|k: int| 0 <= k < i ==> (#[trigger] args@[k])@ == s.arguments@[k].name@,
        decreases s.arguments@.len() - i,
    {
        args.push(s.arguments[i].name.clone());
        i = i + 1;
    }
    assert(crate::text::views(args@) =~= s@.arguments.map_values(|a: ArgView| a.name));
    let m: Vec<(String, Json)> = put(object(), "args", text_array_value(&args));
    let m: Vec<(String, Json)> = put(m, "description", text_or_null_value(&s.description));
    let r: Json = close(put(m, "name", text_value(&s.name)));
    assert(r@->Object_0 =~= skill_json(s@)->Object_0);
    r
}

/// The loaded skills.
pub fn skills_value(v: &Vec<Skill>) -> (r: Json)
    ensures
        r@ == skills_json(crate::skill::skill_views(v@)),
{
    let ghost all = crate::skill::skill_views(v@);
    let mut out: Vec<Json> = Vec::new();
    let mut i: usize = 0;
    while i < v.len()
        invariant
            all == crate::skill::skill_views(v@),
            i <= v@.len(),
            out@.len() == i,
            forall|k: int| 0 <= k < i ==> (#[trigger] out@[k])@ == skill_json(all[k]),
        decreases v@.len() - i,
    {
        out.push(skill_value(&v[i]));
        i = i + 1;
    }
    assert(crate::json::json_views(out@) =~= all.map_values(|s: SkillView| skill_json(s)));
    let r: Json = close(put(object(), "skills", array_value(out)));
    assert(r@->Object_0 =~= skills_json(all)->Object_0);
    r
}

/// How many skills were loaded.
pub open spec fn loaded_json(n: u64) -> JsonView {
    JsonView::Object(seq![("loaded"@, JsonView::UInt(n))])
}

/// How many skills were loaded.
pub fn loaded_value(n: u64) -> (r: Json)
    ensures
        r@ == loaded_json(n),
{
    let r: Json = close(put(object(), "loaded", Json::UInt(n)));
    assert(r@->Object_0 =~= loaded_json(n)->Object_0);
    r
}

/// The connected agents.
pub open spec fn agents_json(names: Seq<Seq<char>>) -> JsonView {
    JsonView::Object(seq![("agents"@, crate::json::text_array(names))])
}

/// The connected agents.
pub fn agents_value(names: &Vec<String>) -> (r: Json)
    ensures
        r@ == agents_json(crate::text::views(names@)),
{
    let r: Json = close(put(object(), "agents", text_array_value(names)));
    assert(r@->Object_0 =~= agents_json(crate::text::views(names@))->Object_0);
    r
}

/// A model was picked.
pub open spec fn model_json(id: Seq<char>, explanation: Seq<char>) -> JsonView {
    JsonView::Object(
        seq![("explanation"@, JsonView::Str(explanation)), ("model"@, JsonView::Str(id))],
    )
}

/// A model was picked.
pub fn model_value(id: &str, explanation: &str) -> (r: Json)
    ensures
        r@ == model_json(id@, explanation@),
{
    let m: Vec<(String, Json)> = put(object(), "explanation", text_value(explanation));
    let r: Json = close(put(m, "model", text_value(id)));
    assert(r@->Object_0 =~= model_json(id@, explanation@)->Object_0);
    r
}

/// A fact was stored.
pub open spec fn stored_json(key: Seq<char>) -> JsonView {
    JsonView::Object(seq![("key"@, JsonView::Str(key)), ("stored"@, JsonView::Bool(true))])
}

/// A fact was stored.
pub fn stored_value(key: &str) -> (r: Json)
    ensures
        r@ == stored_json(key@),
{
    let m: Vec<(String, Json)> = put(object(), "key", text_value(key));
    let r: Json = close(put(m, "stored", Json::Bool(true)));
    assert(r@->Object_0 =~= stored_json(key@)->Object_0);
    r
}

/// A recalled fact.
pub open spec fn fact_json(key: Seq<char>, value: Option<Seq<char>>) -> JsonView {
    JsonView::Object(
        seq![("key"@, JsonView::Str(key)), ("value"@, crate::json::text_or_null(value))],
    )
}

/// A recalled fact.
pub fn fact_value(key: &str, value: &Option<String>) -> (r: Json)
    ensures
        r@ == fact_json(key@, crate::text::opt_view(*value)),
{
    let m: Vec<(String, Json)> = put(object(), "key", text_value(key));
    let r: Json = close(put(m, "value", text_or_null_value(value)));
    assert(r@->Object_0 =~= fact_json(key@, crate::text::opt_view(*value))->Object_0);
    r
}

/// All facts about a sender.
pub open spec fn facts_json(m: Map<Seq<char>, Seq<char>>) -> JsonView {
    JsonView::Object(
        seq![
            (
                "facts"@,
                JsonView::Object(
                    crate::table::sorted(m.dom()).map_values(
                        |k: Seq<char>| (k, JsonView::Str(m[k])),
                    ),
                ),
            ),
        ],
    )
}

/// All facts about a sender.
pub fn facts_value(mem: &SenderMemory) -> (r: Json)
    requires
        mem.wf(),
    ensures
        r@ == facts_json(mem@),
        crate::table::lists(crate::table::sorted(mem@.dom()), mem@.dom()),
{
    let facts: Vec<Fact> = mem.facts();
    let ghost keys = crate::table::sorted(mem@.dom());
    let ghost m = mem@;
    let mut out: Vec<(String, Json)> = object();
    let mut i: usize = 0;
    assert(crate::json::member_views(out@) =~= keys.take(0).map_values(
        |k: Seq<char>| (k, JsonView::Str(m[k])),
    ));
    while i < facts.len()
        invariant
            m == mem@,
            facts@.len() == keys.len(),
            forall|j: int|
                0 <= j < facts@.len() ==> (#[trigger] facts@[j]).key@ == keys[j] && facts@[j].value@
                    == m[facts@[j].key@],
            i <= facts@.len(),
            crate::json::member_views(out@) == keys.take(i as int).map_values(
                |k: Seq<char>| (k, JsonView::Str(m[k])),
            ),
        decreases facts@.len() - i,
    {
        out = put(out, &facts[i].key, text_value(&facts[i].value));
        assert(keys.take(i + 1).map_values(|k: Seq<char>| (k, JsonView::Str(m[k]))) =~= keys.take(
            i as int,
        ).map_values(|k: Seq<char>| (k, JsonView::Str(m[k]))).push(
            (keys[i as int], JsonView::Str(m[keys[i as int]])),
        ));
        i = i + 1;
    }
    assert(keys.take(keys.len() as int) =~= keys);
    let r: Json = close(put(object(), "facts", close(out)));
    assert(r@->Object_0 =~= facts_json(m)->Object_0);
    r
}

/// Who the caller is.
pub open spec fn whoami_json(
    tenant: Seq<char>,
    sender: Seq<char>,
    role: Seq<char>,
    permissions: Seq<Permission>,
    enabled: bool,
) -> JsonView {
    JsonView::Object(
        seq![
            (
                "permissions"@,
                crate::json::text_array(
                    permissions.map_values(|p: Permission| crate::tenant::permission_name(p)),
                ),
            ),
            ("rbac_enabled"@, JsonView::Bool(enabled)),
            ("role"@, JsonView::Str(role)),
            ("sender"@, JsonView::Str(sender)),
            ("tenant"@, JsonView::Str(tenant)),
        ],
    )
}

/// Who the caller is.
pub fn whoami_value(
    tenant: &str,
    sender: &str,
    role: &str,
    permissions: &Vec<Permission>,
    enabled: bool,
) -> (r: Json)
    ensures
        r@ == whoami_json(tenant@, sender@, role@, permissions@, enabled),
{
    let mut list: Vec<String> = Vec::new();
    let mut i: usize = 0;
    while i < permissions.len()
        invariant
            i <= permissions@.len(),
            list@.len() == i,
            forall|k: int|
                0 <= k < i ==> (#[trigger] list@[k])@ == crate::tenant::permission_name(
                    permissions@[k],
                ),
        decreases permissions@.len() - i,
    {
        list.push(permissions[i].name().to_string());
        i = i + 1;
    }
    assert(crate::text::views(list@) =~= permissions@.map_values(
        |p: Permission| crate::tenant::permission_name(p),
    ));
    let m: Vec<(String, Json)> = put(object(), "permissions", text_array_value(&list));
    let m: Vec<(String, Json)> = put(m, "rbac_enabled", Json::Bool(enabled));
    let m: Vec<(String, Json)> = put(m, "role", text_value(role));
    let m: Vec<(String, Json)> = put(m, "sender", text_value(sender));
    let r: Json = close(put(m, "tenant", text_value(tenant)));
    assert(r@->Object_0 =~= whoami_json(
        tenant@,
        sender@,
        role@,
        permissions@,
        enabled,
    )->Object_0);
    r
}

/// The configured members.
pub open spec fn members_json(v: Seq<(Seq<char>, Seq<char>)>) -> JsonView {
    JsonView::Object(
        seq![
            (
                "members"@,
                JsonView::Array(
                    v.map_values(
                        |p: (Seq<char>, Seq<char>)|
                            JsonView::Object(
                                seq![
                                    ("identity"@, JsonView::Str(p.0)),
                                    ("role"@, JsonView::Str(p.1)),
                                ],
                            ),
                    ),
                ),
            ),
        ],
    )
}

/// The configured members.
pub fn members_value(v: &Vec<MemberView>) -> (r: Json)
    ensures
        r@ == members_json(crate::tenant::member_texts(v@)),
{
    let ghost all = crate::tenant::member_texts(v@);
    let mut out: Vec<Json> = Vec::new();
    let mut i: usize = 0;
    while i < v.len()
        invariant
            all == crate::tenant::member_texts(v@),
            i <= v@.len(),
            out@.len() == i,
            forall|k: int|
                0 <= k < i ==> (#[trigger] out@[k])@ == JsonView::Object(
                    seq![
                        ("identity"@, JsonView::Str(all[k].0)),
                        ("role"@, JsonView::Str(all[k].1)),
                    ],
                ),
        decreases v@.len() - i,
    {
        let m: Vec<(String, Json)> = put(object(), "identity", text_value(&v[i].identity));
        let item: Json = close(put(m, "role", text_value(&v[i].role)));
        assert(item@->Object_0 =~= seq![
            ("identity"@, JsonView::Str(all[i as int].0)),
            ("role"@, JsonView::Str(all[i as int].1)),
        ]);
        out.push(item);
        i = i + 1;
    }
    assert(crate::json::json_views(out@) =~= members_json(all)->Object_0[0].1->Array_0);
    let r: Json = close(put(object(), "members", array_value(out)));
    assert(r@->Object_0 =~= members_json(all)->Object_0);
    r
}

// ---- laws --------------------------------------------------------------------------

/// A job that was added is told by its id.
pub proof fn added_jobs_are_told(id: Seq<char>)
    ensures
        crate::json::field(added_json(id), "id"@) == Some(JsonView::Str(id)),
        crate::json::field(added_json(id), "scheduled"@) == Some(JsonView::Bool(true)),
{
    reveal_strlit("id");
    reveal_strlit("scheduled");
    assert("id"@.len() == 2);
    assert("scheduled"@.len() == 9);
    let x0: (Seq<char>, JsonView) = ("id"@, JsonView::Str(id));
    let x1: (Seq<char>, JsonView) = ("scheduled"@, JsonView::Bool(true));
    assert((added_json(id))->Object_0 =~= seq![x0, x1]);
    assert(seq![x0, x1].drop_first() =~= seq![x1]);
    reveal_with_fuel(crate::json::member, 3);
}

/// Whether a job was removed is told.
pub proof fn removals_are_told(b: bool)
    ensures
        crate::json::field(removed_json(b), "removed"@) == Some(JsonView::Bool(b)),
{
    reveal_strlit("removed");
    assert("removed"@.len() == 7);
    let x0: (Seq<char>, JsonView) = ("removed"@, JsonView::Bool(b));
    assert((removed_json(b))->Object_0 =~= seq![x0]);
    reveal_with_fuel(crate::json::member, 2);
}

/// How many skills were loaded is told.
pub proof fn loads_are_told(n: u64)
    ensures
        crate::json::field(loaded_json(n), "loaded"@) == Some(JsonView::UInt(n)),
{
    reveal_strlit("loaded");
    assert("loaded"@.len() == 6);
    let x0: (Seq<char>, JsonView) = ("loaded"@, JsonView::UInt(n));
    assert((loaded_json(n))->Object_0 =~= seq![x0]);
    reveal_with_fuel(crate::json::member, 2);
}

/// The model that was picked is told, and why.
pub proof fn picks_are_told(id: Seq<char>, why: Seq<char>)
    ensures
        crate::json::field(model_json(id, why), "explanation"@) == Some(JsonView::Str(why)),
        crate::json::field(model_json(id, why), "model"@) == Some(JsonView::Str(id)),
{
    reveal_strlit("explanation");
    reveal_strlit("model");
    assert("explanation"@.len() == 11);
    assert("model"@.len() == 5);
    let x0: (Seq<char>, JsonView) = ("explanation"@, JsonView::Str(why));
    let x1: (Seq<char>, JsonView) = ("model"@, JsonView::Str(id));
    assert((model_json(id, why))->Object_0 =~= seq![x0, x1]);
    assert(seq![x0, x1].drop_first() =~= seq![x1]);
    reveal_with_fuel(crate::json::member, 3);
}

/// That a fact was stored is told by its key.
pub proof fn stored_facts_are_told(key: Seq<char>)
    ensures
        crate::json::field(stored_json(key), "key"@) == Some(JsonView::Str(key)),
        crate::json::field(stored_json(key), "stored"@) == Some(JsonView::Bool(true)),
{
    reveal_strlit("key");
    reveal_strlit("stored");
    assert("key"@.len() == 3);
    assert("stored"@.len() == 6);
    let x0: (Seq<char>, JsonView) = ("key"@, JsonView::Str(key));
    let x1: (Seq<char>, JsonView) = ("stored"@, JsonView::Bool(true));
    assert((stored_json(key))->Object_0 =~= seq![x0, x1]);
    assert(seq![x0, x1].drop_first() =~= seq![x1]);
    reveal_with_fuel(crate::json::member, 3);
}

/// A fact is told by its key, with its value or null where there is none.
pub proof fn facts_are_told(key: Seq<char>, value: Seq<char>)
    ensures
        crate::json::field(fact_json(key, Some(value)), "value"@) == Some(JsonView::Str(value)),
        crate::json::field(fact_json(key, None), "value"@) == Some(JsonView::Null),
        crate::json::field(fact_json(key, None), "key"@) == Some(JsonView::Str(key)),
        crate::json::field(fact_json(key, Some(value)), "key"@) == Some(JsonView::Str(key)),
{
    reveal_strlit("key");
    reveal_strlit("value");
    assert("key"@.len() == 3);
    assert("value"@.len() == 5);
    let x: (Seq<char>, JsonView) = ("key"@, JsonView::Str(key));
    let y: (Seq<char>, JsonView) = ("value"@, JsonView::Str(value));
    let z: (Seq<char>, JsonView) = ("value"@, JsonView::Null);
    assert(seq![x, y].drop_first() =~= seq![y]);
    assert(seq![x, z].drop_first() =~= seq![z]);
    reveal_with_fuel(crate::json::member, 3);
}

/// All facts are told, each under its key.
pub proof fn all_facts_are_told(mem: &SenderMemory, r: Json, k: Seq<char>)
    requires
        mem.wf(),
        call_ensures(facts_value, (mem,), r),
    ensures
        crate::json::field(r@, "facts"@) matches Some(f) && crate::json::field(f, k) == (
        if mem@.dom().contains(k) {
            Some(JsonView::Str(mem@[k]))
        } else {
            None
        }),
{
    let m = mem@.map_values(|s: Seq<char>| JsonView::Str(s));
    assert(m.dom() =~= mem@.dom());
    mem.lemma_keys();
    crate::json::sorted_objects_have_every_member(m, k);
    let keys = crate::table::sorted(mem@.dom());
    let f = JsonView::Object(keys.map_values(|k: Seq<char>| (k, JsonView::Str(mem@[k]))));
    assert forall|i: int| 0 <= i < keys.len() implies m[keys[i]] == JsonView::Str(mem@[keys[i]]) by {
        assert(keys.contains(keys[i]));
    }
    assert(crate::json::sorted_object(m)->Object_0 =~= f->Object_0);
    let x: (Seq<char>, JsonView) = ("facts"@, f);
    assert(facts_json(mem@)->Object_0 =~= seq![x]);
    reveal_with_fuel(crate::json::member, 2);
}

/// Who somebody is is told with their tenant, id, role and permissions, and whether these count.
pub proof fn identities_are_told(tenant: Seq<char>, sender: Seq<char>, role: Seq<char>, v: Seq<Permission>, enabled: bool)
    ensures
        crate::json::field(whoami_json(tenant, sender, role, v, enabled), "permissions"@) == Some(JsonView::Array(v.map_values(|p: Permission| JsonView::Str(crate::tenant::permission_name(p))))),
        crate::json::field(whoami_json(tenant, sender, role, v, enabled), "rbac_enabled"@) == Some(JsonView::Bool(enabled)),
        crate::json::field(whoami_json(tenant, sender, role, v, enabled), "role"@) == Some(JsonView::Str(role)),
        crate::json::field(whoami_json(tenant, sender, role, v, enabled), "sender"@) == Some(JsonView::Str(sender)),
        crate::json::field(whoami_json(tenant, sender, role, v, enabled), "tenant"@) == Some(JsonView::Str(tenant)),
{
    reveal_strlit("permissions");
    reveal_strlit("rbac_enabled");
    reveal_strlit("role");
    reveal_strlit("sender");
    reveal_strlit("tenant");
    assert("permissions"@.len() == 11);
    assert("rbac_enabled"@.len() == 12);
    assert("role"@.len() == 4);
    assert("sender"@.len() == 6);
    assert("tenant"@.len() == 6);
    assert("sender"@[0] != "tenant"@[0]);
    let x0: (Seq<char>, JsonView) = ("permissions"@, JsonView::Array(v.map_values(|p: Permission| JsonView::Str(crate::tenant::permission_name(p)))));
    let x1: (Seq<char>, JsonView) = ("rbac_enabled"@, JsonView::Bool(enabled));
    let x2: (Seq<char>, JsonView) = ("role"@, JsonView::Str(role));
    let x3: (Seq<char>, JsonView) = ("sender"@, JsonView::Str(sender));
    let x4: (Seq<char>, JsonView) = ("tenant"@, JsonView::Str(tenant));
    assert(v.map_values(|p: Permission| crate::tenant::permission_name(p)).map_values(
        |s: Seq<char>| JsonView::Str(s),
    ) =~= v.map_values(|p: Permission| JsonView::Str(crate::tenant::permission_name(p))));
    assert((whoami_json(tenant, sender, role, v, enabled))->Object_0 =~= seq![x0, x1, x2, x3, x4]);
    assert(seq![x0, x1, x2, x3, x4].drop_first() =~= seq![x1, x2, x3, x4]);
    assert(seq![x1, x2, x3, x4].drop_first() =~= seq![x2, x3, x4]);
    assert(seq![x2, x3, x4].drop_first() =~= seq![x3, x4]);
    assert(seq![x3, x4].drop_first() =~= seq![x4]);
    reveal_with_fuel(crate::json::member, 6);
}

/// What a reload did is told: what was added and removed, and what failed with why.
pub proof fn reports_are_told(r: ReloadReport)
    ensures
        crate::json::field(report_json(r), "added"@) == Some(JsonView::Array(r.added@.map_values(|s: String| JsonView::Str(s@)))),
        crate::json::field(report_json(r), "removed"@) == Some(JsonView::Array(r.removed@.map_values(|s: String| JsonView::Str(s@)))),
        crate::json::field(report_json(r), "failed"@) == Some(JsonView::Array(r.failed@.map_values(|p: (String, String)| JsonView::Array(seq![JsonView::Str(p.0@), JsonView::Str(p.1@)])))),
{
    reveal_strlit("added");
    reveal_strlit("removed");
    reveal_strlit("failed");
    assert("added"@.len() == 5);
    assert("removed"@.len() == 7);
    assert("failed"@.len() == 6);
    let x0: (Seq<char>, JsonView) = ("added"@, JsonView::Array(r.added@.map_values(|s: String| JsonView::Str(s@))));
    let x1: (Seq<char>, JsonView) = ("removed"@, JsonView::Array(r.removed@.map_values(|s: String| JsonView::Str(s@))));
    let x2: (Seq<char>, JsonView) = ("failed"@, JsonView::Array(r.failed@.map_values(|p: (String, String)| JsonView::Array(seq![JsonView::Str(p.0@), JsonView::Str(p.1@)]))));
    assert(crate::text::views(r.added@).map_values(|s: Seq<char>| JsonView::Str(s))
        =~= r.added@.map_values(|s: String| JsonView::Str(s@)));
    assert(crate::text::views(r.removed@).map_values(|s: Seq<char>| JsonView::Str(s))
        =~= r.removed@.map_values(|s: String| JsonView::Str(s@)));
    assert(crate::reload::failures(r.failed@).map_values(
        |p: (Seq<char>, Seq<char>)| JsonView::Array(seq![JsonView::Str(p.0), JsonView::Str(p.1)]),
    ) =~= r.failed@.map_values(
        |p: (String, String)| JsonView::Array(seq![JsonView::Str(p.0@), JsonView::Str(p.1@)]),
    ));
    assert((report_json(r))->Object_0 =~= seq![x0, x1, x2]);
    assert(seq![x0, x1, x2].drop_first() =~= seq![x1, x2]);
    assert(seq![x1, x2].drop_first() =~= seq![x2]);
    reveal_with_fuel(crate::json::member, 4);
}

/// Skills are told by their names, with the names of their arguments.
pub proof fn skills_are_told(s: SkillView, v: Seq<SkillView>, i: int)
    ensures
        crate::json::field(skill_json(s), "name"@) == Some(JsonView::Str(s.name)),
        crate::json::field(skill_json(s), "args"@) matches Some(JsonView::Array(a)) && a.len()
            == s.arguments.len() && (0 <= i < a.len() ==> a[i] == JsonView::Str(
            s.arguments[i].name,
        )),
        crate::json::field(skill_json(s), "description"@) == Some(
            match s.description {
                Some(d) => JsonView::Str(d),
                None => JsonView::Null,
            },
        ),
        crate::json::field(skills_json(v), "skills"@) matches Some(JsonView::Array(a)) && a.len()
            == v.len() && (0 <= i < v.len() ==> a[i] == skill_json(v[i])),
{
    reveal_strlit("args");
    reveal_strlit("description");
    reveal_strlit("name");
    assert("args"@.len() == 4);
    assert("description"@.len() == 11);
    assert("name"@.len() == 4);
    assert("args"@[0] != "name"@[0]);
    let m = skill_json(s)->Object_0;
    let x = m[0];
    let y = m[1];
    let z = m[2];
    assert(m =~= seq![x, y, z]);
    assert(m.drop_first() =~= seq![y, z]);
    assert(seq![y, z].drop_first() =~= seq![z]);
    reveal_with_fuel(crate::json::member, 4);
}

/// Agents are told by their names, and members by their identities with their roles.
pub proof fn names_are_told(names: Seq<Seq<char>>, v: Seq<(Seq<char>, Seq<char>)>, i: int)
    ensures
        crate::json::field(agents_json(names), "agents"@) matches Some(JsonView::Array(a)) && a.len()
            == names.len() && (0 <= i < names.len() ==> a[i] == JsonView::Str(names[i])),
        crate::json::field(members_json(v), "members"@) matches Some(JsonView::Array(a)) && a.len()
            == v.len() && (0 <= i < v.len() ==> crate::json::field(a[i], "identity"@) == Some(
            JsonView::Str(v[i].0),
        ) && crate::json::field(a[i], "role"@) == Some(JsonView::Str(v[i].1))),
{
    reveal_strlit("identity");
    reveal_strlit("role");
    assert("identity"@.len() == 8);
    assert("role"@.len() == 4);
    reveal_with_fuel(crate::json::member, 3);
    if 0 <= i < v.len() {
        let x: (Seq<char>, JsonView) = ("identity"@, JsonView::Str(v[i].0));
        let y: (Seq<char>, JsonView) = ("role"@, JsonView::Str(v[i].1));
        assert(seq![x, y].drop_first() =~= seq![y]);
    }
}

/// Servers are told by their names with how many tools each has; one without tools is not told.
pub proof fn servers_are_told(
    live: Map<Seq<char>, Live<Vec<McpTool>>>,
    servers: Seq<Seq<char>>,
    k: Seq<char>,
)
    ensures
        count_list(live, Seq::empty()) == Seq::<JsonView>::empty(),
        live[k].data@.len() == 0 ==> count_list(live, servers.push(k)) == count_list(live, servers),
        live[k].data@.len() > 0 ==> {
            let v = count_list(live, servers.push(k));
            &&& v.len() > 0
            &&& v.drop_last() == count_list(live, servers)
            &&& crate::json::field(v.last(), "server"@) == Some(JsonView::Str(k))
            &&& crate::json::field(v.last(), "tools"@) == Some(
                JsonView::UInt(live[k].data@.len() as u64),
            )
        },
        crate::json::field(servers_json(live), "servers"@) == Some(
            JsonView::Array(count_list(live, crate::table::sorted(live.dom()))),
        ),
{
    reveal_strlit("server");
    reveal_strlit("tools");
    assert("server"@.len() == 6);
    assert("tools"@.len() == 5);
    assert(servers.push(k).drop_last() =~= servers);
    reveal_with_fuel(crate::json::member, 3);
    if live[k].data@.len() > 0 {
        let v = count_list(live, servers.push(k));
        let a: (Seq<char>, JsonView) = ("server"@, JsonView::Str(k));
        let b: (Seq<char>, JsonView) = ("tools"@, JsonView::UInt(live[k].data@.len() as u64));
        assert(v.drop_last() =~= count_list(live, servers));
        assert(v.last() == JsonView::Object(seq![a, b]));
        assert(seq![a, b].drop_first() =~= seq![b]);
    }
}

/// A session is told with its id, its label and its age, and its workspace where it has one.
pub proof fn sessions_are_told(s: Session, v: Seq<Session>, i: int)
    ensures
        crate::json::field(session_json(s), "id"@) == Some(JsonView::Str(s.id@)),
        crate::json::field(session_json(s), "label"@) == Some(JsonView::Str(s.label@)),
        crate::json::field(session_json(s), "workspace"@) == (match s.workspace {
            Some(w) => Some(JsonView::Str(w@)),
            None => None,
        }),
        s.created_at >= 0 ==> crate::json::field(session_json(s), "created_at"@) == Some(
            JsonView::UInt(s.created_at as u64),
        ),
        s.created_at < 0 ==> crate::json::field(session_json(s), "created_at"@) == Some(
            JsonView::Int(s.created_at),
        ),
        sessions_json(v) matches JsonView::Array(a) && a.len() == v.len() && (0 <= i < v.len()
            ==> a[i] == session_json(v[i])),
{
    reveal_strlit("id");
    reveal_strlit("label");
    reveal_strlit("workspace");
    reveal_strlit("created_at");
    assert("id"@.len() == 2);
    assert("label"@.len() == 5);
    assert("workspace"@.len() == 9);
    assert("created_at"@.len() == 10);
    let m = session_json(s)->Object_0;
    let w = m[0];
    let x = m[1];
    let y = m[2];
    reveal_with_fuel(crate::json::member, 5);
    if s.workspace is Some {
        let z = m[3];
        assert(m =~= seq![w, x, y, z]);
        assert(m.drop_first() =~= seq![x, y, z]);
        assert(seq![x, y, z].drop_first() =~= seq![y, z]);
        assert(seq![y, z].drop_first() =~= seq![z]);
    } else {
        assert(m =~= seq![w, x, y]);
        assert(m.drop_first() =~= seq![x, y]);
        assert(seq![x, y].drop_first() =~= seq![y]);
        assert(seq![y].drop_first() =~= Seq::empty());
    }
}

/// A job is told with all that it says.
pub proof fn jobs_are_told(j: ScheduledJob, v: Seq<ScheduledJob>, i: int)
    ensures
        crate::json::field(job_json(j), "id"@) == Some(JsonView::Str(j.id@)),
        crate::json::field(job_json(j), "name"@) == Some(JsonView::Str(j.name@)),
        crate::json::field(job_json(j), "cron"@) == Some(JsonView::Str(j.cron@)),
        crate::json::field(job_json(j), "prompt"@) == Some(JsonView::Str(j.prompt@)),
        crate::json::field(job_json(j), "session_id"@) == Some(JsonView::Str(j.session_id@)),
        j.reply_to matches Some(s) ==> crate::json::field(job_json(j), "reply_to"@) == Some(
            JsonView::Str(s@),
        ),
        j.tenant_id matches Some(s) ==> crate::json::field(job_json(j), "tenant_id"@) == Some(
            JsonView::Str(s@),
        ),
        crate::json::field(jobs_json(v), "jobs"@) matches Some(JsonView::Array(a)) && a.len()
            == v.len() && (0 <= i < v.len() ==> a[i] == job_json(v[i])),
{
    reveal_strlit("id");
    reveal_strlit("name");
    reveal_strlit("cron");
    reveal_strlit("prompt");
    reveal_strlit("session_id");
    reveal_strlit("reply_to");
    reveal_strlit("tenant_id");
    assert("id"@.len() == 2);
    assert("name"@.len() == 4);
    assert("cron"@.len() == 4);
    assert("prompt"@.len() == 6);
    assert("session_id"@.len() == 10);
    assert("reply_to"@.len() == 8);
    assert("tenant_id"@.len() == 9);
    assert("name"@[0] != "cron"@[0]);
    let m = job_json(j)->Object_0;
    let none = Seq::<(Seq<char>, JsonView)>::empty();
    let a = m[0];
    let b = m[1];
    let c = m[2];
    let d = m[3];
    let e = optional("reply_to"@, crate::text::opt_view(j.reply_to));
    let f: (Seq<char>, JsonView) = ("session_id"@, JsonView::Str(j.session_id@));
    let g = optional("tenant_id"@, crate::text::opt_view(j.tenant_id));
    assert(m =~= none.push(a) + m.skip(1));
    assert(m =~= seq![a].push(b) + m.skip(2));
    assert(m =~= seq![a, b].push(c) + m.skip(3));
    assert(m =~= seq![a, b, c].push(d) + m.skip(4));
    assert(m =~= (seq![a, b, c, d] + e).push(f) + g);
    assert(a.0 == "cron"@ && b.0 == "id"@ && c.0 == "name"@ && d.0 == "prompt"@);
    crate::json::members_are_found_by_key(none, "cron"@, a.1, m.skip(1));
    crate::json::members_are_found_by_key(seq![a], "id"@, b.1, m.skip(2));
    crate::json::members_are_found_by_key(seq![a, b], "name"@, c.1, m.skip(3));
    crate::json::members_are_found_by_key(seq![a, b, c], "prompt"@, d.1, m.skip(4));
    crate::json::members_are_found_by_key(seq![a, b, c, d] + e, "session_id"@, f.1, g);
    if let Some(s) = j.reply_to {
        assert(m =~= seq![a, b, c, d].push(e[0]) + m.skip(5));
        crate::json::members_are_found_by_key(seq![a, b, c, d], "reply_to"@, e[0].1, m.skip(5));
    }
    if let Some(s) = j.tenant_id {
        let h = (seq![a, b, c, d] + e).push(f);
        assert(m =~= h.push(g[0]) + none);
        crate::json::members_are_found_by_key(h, "tenant_id"@, g[0].1, none);
    }
    reveal_with_fuel(crate::json::member, 2);
}

} // verus!
