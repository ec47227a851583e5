//! The names of the built-in tools.

use vstd::prelude::*;

verus! {

pub const SCHED_ADD: &'static str = "scheduler_add_job";
pub const SCHED_REMOVE: &'static str = "scheduler_remove_job";
pub const SCHED_LIST: &'static str = "scheduler_list_jobs";
pub const SESS_SWITCH: &'static str = "session_switch";
pub const SESS_SET_WS: &'static str = "session_set_workspace";
pub const SESS_LIST: &'static str = "session_list";
pub const MCP_LIST_SERVERS: &'static str = "mcp_list_servers";
pub const MCP_RELOAD: &'static str = "mcp_reload";
pub const SKILL_LIST: &'static str = "skill_list";
pub const SKILL_RELOAD: &'static str = "skill_reload";
pub const A2A_LIST: &'static str = "a2a_list_agents";
pub const A2A_RELOAD: &'static str = "a2a_reload";
pub const MODEL_LIST: &'static str = "model_list";
pub const MODEL_PICK: &'static str = "model_pick";
pub const MEM_SET: &'static str = "memory_set";
pub const MEM_RECALL: &'static str = "memory_recall";
pub const TENANT_WHOAMI: &'static str = "tenant_whoami";
pub const TENANT_LIST_MEMBERS: &'static str = "tenant_list_members";
/// Prefix of the tools that invoke skills.
pub const SKILL_PREFIX: &'static str = "skill_";
/// Prefix of the tools that call remote A2A agents.
pub const A2A_PREFIX: &'static str = "a2a_";
/// Prefix of the tools of remote MCP servers.
pub const MCP_PREFIX: &'static str = "mcp_";

/// The names of the tools, which are all different.
pub proof fn tools_have_their_names()
    ensures
        SCHED_ADD@ == "scheduler_add_job"@,
        SCHED_REMOVE@ == "scheduler_remove_job"@,
        SCHED_LIST@ == "scheduler_list_jobs"@,
        SESS_SWITCH@ == "session_switch"@,
        SESS_SET_WS@ == "session_set_workspace"@,
        SESS_LIST@ == "session_list"@,
        MCP_LIST_SERVERS@ == "mcp_list_servers"@,
        MCP_RELOAD@ == "mcp_reload"@,
        SKILL_LIST@ == "skill_list"@,
        SKILL_RELOAD@ == "skill_reload"@,
        A2A_LIST@ == "a2a_list_agents"@,
        A2A_RELOAD@ == "a2a_reload"@,
        MODEL_LIST@ == "model_list"@,
        MODEL_PICK@ == "model_pick"@,
        MEM_SET@ == "memory_set"@,
        MEM_RECALL@ == "memory_recall"@,
        TENANT_WHOAMI@ == "tenant_whoami"@,
        TENANT_LIST_MEMBERS@ == "tenant_list_members"@,
        SKILL_PREFIX@ == "skill_"@,
        A2A_PREFIX@ == "a2a_"@,
        MCP_PREFIX@ == "mcp_"@,
        "scheduler_add_job"@.len() == 17,
        "scheduler_remove_job"@.len() == 20,
        "scheduler_list_jobs"@.len() == 19,
        "session_switch"@.len() == 14,
        "session_set_workspace"@.len() == 21,
        "session_list"@.len() == 12,
        "mcp_list_servers"@.len() == 16,
        "mcp_reload"@.len() == 10,
        "skill_list"@.len() == 10,
        "skill_reload"@.len() == 12,
        "a2a_list_agents"@.len() == 15,
        "a2a_reload"@.len() == 10,
        "model_list"@.len() == 10,
        "model_pick"@.len() == 10,
        "memory_set"@.len() == 10,
        "memory_recall"@.len() == 13,
        "tenant_whoami"@.len() == 13,
        "tenant_list_members"@.len() == 19,
        "scheduler_list_jobs"@ != "tenant_list_members"@,
        "session_list"@ != "skill_reload"@,
        "mcp_reload"@ != "skill_list"@,
        "mcp_reload"@ != "a2a_reload"@,
        "mcp_reload"@ != "model_list"@,
        "mcp_reload"@ != "model_pick"@,
        "mcp_reload"@ != "memory_set"@,
        "skill_list"@ != "a2a_reload"@,
        "skill_list"@ != "model_list"@,
        "skill_list"@ != "model_pick"@,
        "skill_list"@ != "memory_set"@,
        "a2a_reload"@ != "model_list"@,
        "a2a_reload"@ != "model_pick"@,
        "a2a_reload"@ != "memory_set"@,
        "model_list"@ != "model_pick"@,
        "model_list"@ != "memory_set"@,
        "model_pick"@ != "memory_set"@,
        "memory_recall"@ != "tenant_whoami"@,
{
    reveal_strlit("scheduler_add_job");
    reveal_strlit("scheduler_remove_job");
    reveal_strlit("scheduler_list_jobs");
    reveal_strlit("session_switch");
    reveal_strlit("session_set_workspace");
    reveal_strlit("session_list");
    reveal_strlit("mcp_list_servers");
    reveal_strlit("mcp_reload");
    reveal_strlit("skill_list");
    reveal_strlit("skill_reload");
    reveal_strlit("a2a_list_agents");
    reveal_strlit("a2a_reload");
    reveal_strlit("model_list");
    reveal_strlit("model_pick");
    reveal_strlit("memory_set");
    reveal_strlit("memory_recall");
    reveal_strlit("tenant_whoami");
    reveal_strlit("tenant_list_members");
    assert("scheduler_list_jobs"@[0] != "tenant_list_members"@[0]);
    assert("session_list"@[1] != "skill_reload"@[1]);
    assert("mcp_reload"@[0] != "skill_list"@[0]);
    assert("mcp_reload"@[0] != "a2a_reload"@[0]);
    assert("mcp_reload"@[1] != "model_list"@[1]);
    assert("mcp_reload"@[1] != "model_pick"@[1]);
    assert("mcp_reload"@[1] != "memory_set"@[1]);
    assert("skill_list"@[0] != "a2a_reload"@[0]);
    assert("skill_list"@[0] != "model_list"@[0]);
    assert("skill_list"@[0] != "model_pick"@[0]);
    assert("skill_list"@[0] != "memory_set"@[0]);
    assert("a2a_reload"@[0] != "model_list"@[0]);
    assert("a2a_reload"@[0] != "model_pick"@[0]);
    assert("a2a_reload"@[0] != "memory_set"@[0]);
    assert("model_list"@[6] != "model_pick"@[6]);
    assert("model_list"@[1] != "memory_set"@[1]);
    assert("model_pick"@[1] != "memory_set"@[1]);
    assert("memory_recall"@[0] != "tenant_whoami"@[0]);
}

} // verus!
