//! Tenants, principals and role-based access control.

use vstd::prelude::*;
use crate::config::{TenancyConfig, TenancyMemberConfig, TenancyRoleConfig};
use crate::table::Table;
use crate::text::{cat, contains, contains_char, lowered, mark_out, same, starts_with, trim, Kept};
use crate::tools::names;

verus! {

// ---- principals --------------------------------------------------------------------

/// A text as a flat path segment that is not empty, from which the text can be read back:
/// what is safe stays, what is not is marked, and an empty text is a mark without a number.
pub open spec fn sanitized(s: Seq<char>, k: Kept) -> Seq<char> {
    if s.len() == 0 {
        seq!['%']
    } else {
        crate::text::marked(s, k)
    }
}

/// A text as a flat path segment.
pub fn sanitize(s: &str, k: Kept) -> (r: String)
    ensures
        r@ == sanitized(s@, k),
{
    if s.is_empty() {
        let mut out: String = String::new();
        out.push('%');
        assert(out@ =~= seq!['%']);
        return out;
    }
    mark_out(s, k)
}

/// Who sent a message: a tenant and a sender within it.
#[derive(Debug)]
pub struct Principal {
    pub tenant_id: String,
    pub sender_id: String,
}

/// The key of a principal's state. The colon of a tenant stays.
pub open spec fn scope(tenant: Seq<char>, sender: Seq<char>) -> Seq<char> {
    sanitized(tenant, Kept::SafeAndColon) + seq!['/'] + sanitized(sender, Kept::SafeAndColon)
}

impl Principal {
    /// A principal.
    pub fn new(tenant_id: &str, sender_id: &str) -> (r: Self)
        ensures
            r.tenant_id@ == tenant_id@,
            r.sender_id@ == sender_id@,
    {
        Principal { tenant_id: tenant_id.to_string(), sender_id: sender_id.to_string() }
    }

    /// The key under which stateful parts keep what belongs to the principal.
    pub fn scope_key(&self) -> (r: String)
        ensures
            r@ == scope(self.tenant_id@, self.sender_id@),
    {
        let mut out: String = sanitize(&self.tenant_id, Kept::SafeAndColon);
        out.push('/');
        out.append(sanitize(&self.sender_id, Kept::SafeAndColon).as_str());
        assert(out@ =~= scope(self.tenant_id@, self.sender_id@));
        out
    }

    /// A copy.
    pub fn dup(&self) -> (r: Self)
        ensures
            r == *self,
    {
        Principal { tenant_id: self.tenant_id.clone(), sender_id: self.sender_id.clone() }
    }
}

/// The tenant of a bridge subscription.
pub open spec fn tenant_of(channel: Seq<char>, account: Seq<char>) -> Seq<char> {
    sanitized(channel, Kept::Safe) + seq![':'] + sanitized(account, Kept::Safe)
}

/// The tenant of a bridge subscription: two accounts of one channel are two
/// tenants.
pub fn tenant_id_from_subscription(channel: &str, account_id: &str) -> (r: String)
    ensures
        r@ == tenant_of(channel@, account_id@),
{
    let mut out: String = sanitize(channel, Kept::Safe);
    out.push(':');
    out.append(sanitize(account_id, Kept::Safe).as_str());
    assert(out@ =~= tenant_of(channel@, account_id@));
    out
}

// ---- permissions -------------------------------------------------------------------

/// What a role may do.
#[derive(Debug, Clone, Copy, PartialEq, Eq, Structural)]
pub enum Permission {
    /// Chat with the agent.
    Chat,
    /// Use the scheduler.
    Schedule,
    /// Manage sessions.
    ManageSessions,
    /// Call remote MCP tools.
    UseMcp,
    /// Invoke skills.
    UseSkills,
    /// Call remote A2A agents.
    UseA2a,
    /// Browse the model catalog.
    UseModels,
    /// Read and write persistent memory.
    UseMemory,
    /// Reload registries and inspect the tenants.
    Admin,
}

/// A role.
#[derive(Debug, PartialEq, Eq)]
pub enum Role {
    Admin,
    Member,
    Guest,
    /// A role that the configuration names.
    Custom(String),
}

/// What a role is.
pub enum RoleView {
    Admin,
    Member,
    Guest,
    Custom(Seq<char>),
}

impl View for Role {
    type V = RoleView;

    open spec fn view(&self) -> RoleView {
        match self {
            Role::Admin => RoleView::Admin,
            Role::Member => RoleView::Member,
            Role::Guest => RoleView::Guest,
            Role::Custom(s) => RoleView::Custom(s@),
        }
    }
}

impl Default for Role {
    fn default() -> (r: Self)
        ensures
            r@ == RoleView::Admin,
    {
        Role::Admin
    }
}

/// The role of a name, in any ASCII case and with white space around it.
pub open spec fn role_of(name: Seq<char>) -> RoleView {
    let n = crate::text::ascii_lowered(crate::text::trimmed(name));
    if n == "admin"@ {
        RoleView::Admin
    } else if n == "member"@ {
        RoleView::Member
    } else if n == "guest"@ {
        RoleView::Guest
    } else {
        RoleView::Custom(n)
    }
}

/// The name of a role.
pub open spec fn name_of(r: RoleView) -> Seq<char> {
    match r {
        RoleView::Admin => "admin"@,
        RoleView::Member => "member"@,
        RoleView::Guest => "guest"@,
        RoleView::Custom(n) => n,
    }
}

impl Role {
    /// The role of a name.
    pub fn parse(name: &str) -> (r: Self)
        ensures
            r@ == role_of(name@),
    {
        let n: String = lowered(&trim(name));
        if same(&n, "admin") {
            Role::Admin
        } else if same(&n, "member") {
            Role::Member
        } else if same(&n, "guest") {
            Role::Guest
        } else {
            Role::Custom(n)
        }
    }

    /// The name of the role.
    pub fn name(&self) -> (r: &str)
        ensures
            r@ == name_of(self@),
    {
        match self {
            Role::Admin => "admin",
            Role::Member => "member",
            Role::Guest => "guest",
            Role::Custom(c) => c.as_str(),
        }
    }

    /// A copy.
    pub fn dup(&self) -> (r: Self)
        ensures
            r@ == self@,
    {
        match self {
            Role::Admin => Role::Admin,
            Role::Member => Role::Member,
            Role::Guest => Role::Guest,
            Role::Custom(c) => Role::Custom(c.clone()),
        }
    }
}

/// The permissions of the built-in roles; a custom role has none of these.
pub open spec fn builtin(role: RoleView) -> Seq<Permission> {
    match role {
        RoleView::Admin => seq![
            Permission::Chat,
            Permission::Schedule,
            Permission::ManageSessions,
            Permission::UseMcp,
            Permission::UseSkills,
            Permission::UseA2a,
            Permission::UseModels,
            Permission::UseMemory,
            Permission::Admin,
        ],
        RoleView::Member => seq![
            Permission::Chat,
            Permission::Schedule,
            Permission::ManageSessions,
            Permission::UseMcp,
            Permission::UseSkills,
            Permission::UseA2a,
            Permission::UseModels,
            Permission::UseMemory,
        ],
        RoleView::Guest => seq![Permission::Chat, Permission::UseModels],
        RoleView::Custom(_) => Seq::empty(),
    }
}

/// The name of a permission in messages.
pub open spec fn permission_label(p: Permission) -> Seq<char> {
    match p {
        Permission::Chat => "Chat"@,
        Permission::Schedule => "Schedule"@,
        Permission::ManageSessions => "ManageSessions"@,
        Permission::UseMcp => "UseMcp"@,
        Permission::UseSkills => "UseSkills"@,
        Permission::UseA2a => "UseA2a"@,
        Permission::UseModels => "UseModels"@,
        Permission::UseMemory => "UseMemory"@,
        Permission::Admin => "Admin"@,
    }
}

/// The name of a permission in the configuration.
pub open spec fn permission_name(p: Permission) -> Seq<char> {
    match p {
        Permission::Chat => "chat"@,
        Permission::Schedule => "schedule"@,
        Permission::ManageSessions => "manage_sessions"@,
        Permission::UseMcp => "use_mcp"@,
        Permission::UseSkills => "use_skills"@,
        Permission::UseA2a => "use_a2a"@,
        Permission::UseModels => "use_models"@,
        Permission::UseMemory => "use_memory"@,
        Permission::Admin => "admin"@,
    }
}

impl Permission {
    /// The permissions of a built-in role.
    pub fn for_builtin(role: &Role) -> (r: Vec<Permission>)
        ensures
            r@ == builtin(role@),
    {
        let mut v: Vec<Permission> = Vec::new();
        match role {
            Role::Admin | Role::Member => {
                v.push(Permission::Chat);
                v.push(Permission::Schedule);
                v.push(Permission::ManageSessions);
                v.push(Permission::UseMcp);
                v.push(Permission::UseSkills);
                v.push(Permission::UseA2a);
                v.push(Permission::UseModels);
                v.push(Permission::UseMemory);
            },
            Role::Guest => {
                v.push(Permission::Chat);
                v.push(Permission::UseModels);
            },
            Role::Custom(_) => {},
        }
        if let Role::Admin = role {
            v.push(Permission::Admin);
        }
        assert(v@ =~= builtin(role@));
        v
    }

    /// The name of the permission in messages.
    pub fn label(&self) -> (r: &'static str)
        ensures
            r@ == permission_label(*self),
    {
        match self {
            Permission::Chat => "Chat",
            Permission::Schedule => "Schedule",
            Permission::ManageSessions => "ManageSessions",
            Permission::UseMcp => "UseMcp",
            Permission::UseSkills => "UseSkills",
            Permission::UseA2a => "UseA2a",
            Permission::UseModels => "UseModels",
            Permission::UseMemory => "UseMemory",
            Permission::Admin => "Admin",
        }
    }

    /// The name of the permission in the configuration.
    pub fn name(&self) -> (r: &'static str)
        ensures
            r@ == permission_name(*self),
    {
        match self {
            Permission::Chat => "chat",
            Permission::Schedule => "schedule",
            Permission::ManageSessions => "manage_sessions",
            Permission::UseMcp => "use_mcp",
            Permission::UseSkills => "use_skills",
            Permission::UseA2a => "use_a2a",
            Permission::UseModels => "use_models",
            Permission::UseMemory => "use_memory",
            Permission::Admin => "admin",
        }
    }
}

/// The permission of a name, in any ASCII case and with white space around it.
pub open spec fn permission_of(s: Seq<char>) -> Option<Permission> {
    let n = crate::text::ascii_lowered(crate::text::trimmed(s));
    if n == "chat"@ {
        Some(Permission::Chat)
    } else if n == "schedule"@ {
        Some(Permission::Schedule)
    } else if n == "manage_sessions"@ {
        Some(Permission::ManageSessions)
    } else if n == "use_mcp"@ {
        Some(Permission::UseMcp)
    } else if n == "use_skills"@ {
        Some(Permission::UseSkills)
    } else if n == "use_a2a"@ {
        Some(Permission::UseA2a)
    } else if n == "use_models"@ {
        Some(Permission::UseModels)
    } else if n == "use_memory"@ {
        Some(Permission::UseMemory)
    } else if n == "admin"@ {
        Some(Permission::Admin)
    } else {
        None
    }
}

/// The permission of a name.
pub fn parse_permission(s: &str) -> (r: Option<Permission>)
    ensures
        r == permission_of(s@),
{
    let n: String = lowered(&trim(s));
    if same(&n, "chat") {
        Some(Permission::Chat)
    } else if same(&n, "schedule") {
        Some(Permission::Schedule)
    } else if same(&n, "manage_sessions") {
        Some(Permission::ManageSessions)
    } else if same(&n, "use_mcp") {
        Some(Permission::UseMcp)
    } else if same(&n, "use_skills") {
        Some(Permission::UseSkills)
    } else if same(&n, "use_a2a") {
        Some(Permission::UseA2a)
    } else if same(&n, "use_models") {
        Some(Permission::UseModels)
    } else if same(&n, "use_memory") {
        Some(Permission::UseMemory)
    } else if same(&n, "admin") {
        Some(Permission::Admin)
    } else {
        None
    }
}

/// The permissions that a list of names grants; unknown names grant nothing.
pub open spec fn granted(names: Seq<Seq<char>>) -> Set<Permission> {
    Set::new(
        |p: Permission|
            exists|i: int|
                0 <= i < names.len() && permission_of(#[trigger] names[i]) == Some(p),
    )
}

/// A set of permissions.
#[derive(Debug)]
pub struct PermissionSet {
    held: Vec<Permission>,
}

impl View for PermissionSet {
    type V = Set<Permission>;

    closed spec fn view(&self) -> Set<Permission> {
        self.held@.to_set()
    }
}

impl PermissionSet {
    /// The set of the given permissions.
    pub fn of(list: Vec<Permission>) -> (r: Self)
        ensures
            r@ == list@.to_set(),
    {
        PermissionSet { held: list }
    }

    /// Whether the set holds a permission.
    pub fn contains(&self, p: Permission) -> (r: bool)
        ensures
            r == self@.contains(p),
    {
        let mut i: usize = 0;
        while i < self.held.len()
            invariant
                i <= self.held@.len(),
                forall|k: int| 0 <= k < i ==> self.held@[k] != p,
            decreases self.held@.len() - i,
        {
            if self.held[i] == p {
                assert(self.held@.contains(p));
                return true;
            }
            i = i + 1;
        }
        false
    }

    /// The permissions of the set, each once, from `Chat` to `Admin`.
    pub fn list(&self) -> (r: Vec<Permission>)
        ensures
            r@ == builtin(RoleView::Admin).filter(|p: Permission| self@.contains(p)),
    {
        let all: Vec<Permission> = Permission::for_builtin(&Role::Admin);
        let mut out: Vec<Permission> = Vec::new();
        let ghost pred = |p: Permission| self@.contains(p);
        let mut i: usize = 0;
        assert(all@.take(0).filter(pred) =~= Seq::<Permission>::empty()) by {
            reveal(Seq::filter);
        }
        while i < all.len()
            invariant
                i <= all@.len(),
                pred == (|p: Permission| self@.contains(p)),
                out@ == all@.take(i as int).filter(pred),
            decreases all@.len() - i,
        {
            proof {
                crate::seqs::lemma_filter_step(all@, pred, i as int);
            }
            if self.contains(all[i]) {
                out.push(all[i]);
            }
            i = i + 1;
        }
        assert(all@.take(all@.len() as int) =~= all@);
        out
    }

    /// A copy.
    pub fn dup(&self) -> (r: Self)
        ensures
            r@ == self@,
    {
        let mut held: Vec<Permission> = Vec::new();
        let mut i: usize = 0;
        while i < self.held.len()
            invariant
                i <= self.held@.len(),
                held@ == self.held@.take(i as int),
            decreases self.held@.len() - i,
        {
            held.push(self.held[i]);
            i = i + 1;
        }
        assert(held@ =~= self.held@);
        PermissionSet { held }
    }
}

/// The permissions that a list of names grants.
pub fn permissions_from_names(names: &Vec<String>) -> (r: PermissionSet)
    ensures
        r@ == granted(crate::text::views(names@)),
{
    let ghost all = crate::text::views(names@);
    let mut held: Vec<Permission> = Vec::new();
    let mut i: usize = 0;
    while i < names.len()
        invariant
            i <= names@.len(),
            all == crate::text::views(names@),
            forall|p: Permission|
                held@.contains(p) <==> exists|k: int|
                    0 <= k < i && permission_of(#[trigger] all[k]) == Some(p),
        decreases names@.len() - i,
    {
        assert(all[i as int] == names@[i as int]@);
        let ghost before = held@;
        if let Some(p) = parse_permission(&names[i]) {
            held.push(p);
            assert forall|q: Permission| held@.contains(q) <==> (before.contains(q) || q == p) by {
                if before.contains(q) {
                    let k = choose|k: int| 0 <= k < before.len() && before[k] == q;
                    assert(held@[k] == q);
                }
                assert(held@[before.len() as int] == p);
            }
        }
        assert forall|q: Permission|
            held@.contains(q) <==> exists|k: int|
                0 <= k < i + 1 && permission_of(#[trigger] all[k]) == Some(q) by {
            if held@.contains(q) {
                if before.contains(q) {
                    let k = choose|k: int|
                        0 <= k < i && permission_of(#[trigger] all[k]) == Some(q);
                    assert(0 <= k < i + 1 && permission_of(all[k]) == Some(q));
                } else {
                    assert(permission_of(all[i as int]) == Some(q));
                }
            }
            if exists|k: int| 0 <= k < i + 1 && permission_of(#[trigger] all[k]) == Some(q) {
                let k = choose|k: int|
                    0 <= k < i + 1 && permission_of(#[trigger] all[k]) == Some(q);
                if k < i {
                    assert(before.contains(q));
                }
            }
        }
        i = i + 1;
    }
    let r: PermissionSet = PermissionSet { held };
    assert(r@ =~= granted(all));
    r
}

/// The permission that a tool requires; for unknown tools the one to chat.
pub open spec fn required(tool: Seq<char>) -> Permission {
    if tool == names::MCP_RELOAD@ || tool == names::A2A_RELOAD@ || tool == names::SKILL_RELOAD@ {
        Permission::Admin
    } else if tool == names::SCHED_ADD@ || tool == names::SCHED_REMOVE@ || tool
        == names::SCHED_LIST@ {
        Permission::Schedule
    } else if tool == names::SESS_SWITCH@ || tool == names::SESS_SET_WS@ || tool
        == names::SESS_LIST@ {
        Permission::ManageSessions
    } else if tool == names::MODEL_LIST@ || tool == names::MODEL_PICK@ {
        Permission::UseModels
    } else if tool == names::MEM_SET@ || tool == names::MEM_RECALL@ {
        Permission::UseMemory
    } else if tool == names::MCP_LIST_SERVERS@ {
        Permission::Admin
    } else if tool == names::A2A_LIST@ {
        Permission::UseA2a
    } else if tool == names::SKILL_LIST@ {
        Permission::UseSkills
    } else if tool == names::TENANT_WHOAMI@ {
        Permission::Chat
    } else if tool == names::TENANT_LIST_MEMBERS@ {
        Permission::Admin
    } else if crate::text::begins(tool, names::MCP_PREFIX@) && crate::text::has_text(tool, "__"@) {
        Permission::UseMcp
    } else if crate::text::begins(tool, names::A2A_PREFIX@) {
        Permission::UseA2a
    } else if crate::text::begins(tool, names::SKILL_PREFIX@) {
        Permission::UseSkills
    } else {
        Permission::Chat
    }
}

/// The permission that a tool requires.
pub fn required_permission(tool: &str) -> (r: Permission)
    ensures
        r == required(tool@),
{
    if same(tool, names::MCP_RELOAD) || same(tool, names::A2A_RELOAD) || same(
        tool,
        names::SKILL_RELOAD,
    ) {
        Permission::Admin
    } else if same(tool, names::SCHED_ADD) || same(tool, names::SCHED_REMOVE) || same(
        tool,
        names::SCHED_LIST,
    ) {
        Permission::Schedule
    } else if same(tool, names::SESS_SWITCH) || same(tool, names::SESS_SET_WS) || same(
        tool,
        names::SESS_LIST,
    ) {
        Permission::ManageSessions
    } else if same(tool, names::MODEL_LIST) || same(tool, names::MODEL_PICK) {
        Permission::UseModels
    } else if same(tool, names::MEM_SET) || same(tool, names::MEM_RECALL) {
        Permission::UseMemory
    } else if same(tool, names::MCP_LIST_SERVERS) {
        Permission::Admin
    } else if same(tool, names::A2A_LIST) {
        Permission::UseA2a
    } else if same(tool, names::SKILL_LIST) {
        Permission::UseSkills
    } else if same(tool, names::TENANT_WHOAMI) {
        Permission::Chat
    } else if same(tool, names::TENANT_LIST_MEMBERS) {
        Permission::Admin
    } else if starts_with(tool, names::MCP_PREFIX) && contains(tool, "__") {
        Permission::UseMcp
    } else if starts_with(tool, names::A2A_PREFIX) {
        Permission::UseA2a
    } else if starts_with(tool, names::SKILL_PREFIX) {
        Permission::UseSkills
    } else {
        Permission::Chat
    }
}

// ---- the registry ------------------------------------------------------------------

/// Who has which role, and which custom roles there are.
#[verifier::ext_equal]
pub struct TenantModel {
    pub default_role: RoleView,
    pub custom_roles: Map<Seq<char>, Set<Permission>>,
    pub overrides: Map<Seq<char>, RoleView>,
}

/// The name under which a custom role is found: as role names are read, in ASCII
/// lowercase and without white space around it.
pub open spec fn role_key(name: Seq<char>) -> Seq<char> {
    crate::text::ascii_lowered(crate::text::trimmed(name))
}

/// The custom roles of a configuration; of two with one name the last counts.
pub open spec fn custom_from(roles: Seq<TenancyRoleConfig>) -> Map<Seq<char>, Set<Permission>>
    decreases roles.len(),
{
    if roles.len() == 0 {
        Map::empty()
    } else {
        custom_from(roles.drop_last()).insert(
            role_key(roles.last().name@),
            granted(crate::text::views(roles.last().permissions@)),
        )
    }
}

/// The role overrides of a configuration; of two for one sender the last counts.
pub open spec fn overrides_from(members: Seq<TenancyMemberConfig>) -> Map<Seq<char>, RoleView>
    decreases members.len(),
{
    if members.len() == 0 {
        Map::empty()
    } else {
        overrides_from(members.drop_last()).insert(
            members.last().sender@,
            role_of(members.last().role@),
        )
    }
}

/// The registry of a configuration.
pub open spec fn model_from(cfg: TenancyConfig) -> TenantModel {
    TenantModel {
        default_role: role_of(cfg.default_role@),
        custom_roles: custom_from(cfg.roles@),
        overrides: overrides_from(cfg.members@),
    }
}

/// The role of a principal: that of its own key, else that of its bare sender id, else
/// the default. A sender id with a separator in it is no bare one: an override under such
/// a text is for a key.
pub open spec fn role_in(m: TenantModel, tenant: Seq<char>, sender: Seq<char>) -> RoleView {
    let key = scope(tenant, sender);
    if m.overrides.dom().contains(key) {
        m.overrides[key]
    } else if !sender.contains('/') && m.overrides.dom().contains(sender) {
        m.overrides[sender]
    } else {
        m.default_role
    }
}

/// The permissions of a role; an unknown custom role has those of a guest.
pub open spec fn permissions_in(m: TenantModel, role: RoleView) -> Set<Permission> {
    match role {
        RoleView::Custom(n) => if m.custom_roles.dom().contains(n) {
            m.custom_roles[n]
        } else {
            builtin(RoleView::Guest).to_set()
        },
        _ => builtin(role).to_set(),
    }
}

/// Whether a principal may call a tool.
pub open spec fn allowed(m: TenantModel, tenant: Seq<char>, sender: Seq<char>, tool: Seq<char>) -> bool {
    permissions_in(m, role_in(m, tenant, sender)).contains(required(tool))
}

/// Why a call was denied.
#[derive(Debug)]
pub enum AuthzError {
    Denied { tool: String, role: String, required: Permission, sender: String },
}

/// The text of a denial.
pub open spec fn denial(
    tool: Seq<char>,
    role: Seq<char>,
    required: Permission,
    sender: Seq<char>,
) -> Seq<char> {
    "access denied: sender '"@ + sender + "' (role '"@ + role + "') lacks permission '"@
        + permission_label(required) + "' required by tool '"@ + tool + "'"@
}

impl AuthzError {
    /// The text of the denial.
    pub fn text(&self) -> (r: String)
        ensures
            match *self {
                AuthzError::Denied { tool, role, required, sender } => r@ == denial(
                    tool@,
                    role@,
                    required,
                    sender@,
                ),
            },
    {
        match self {
            AuthzError::Denied { tool, role, required, sender } => {
                let mut out: String = cat("access denied: sender '", sender);
                out.append("' (role '");
                out.append(role.as_str());
                out.append("') lacks permission '");
                out.append(required.label());
                out.append("' required by tool '");
                out.append(tool.as_str());
                out.append("'");
                out
            },
        }
    }
}

/// A configured member: an identity and the name of its role.
#[derive(Debug)]
pub struct MemberView {
    pub identity: String,
    pub role: String,
}

/// The texts of a list of members.
pub open spec fn member_texts(v: Seq<MemberView>) -> Seq<(Seq<char>, Seq<char>)> {
    v.map_values(|m: MemberView| (m.identity@, m.role@))
}

/// The members of a registry in the order of their identities, and the default.
pub open spec fn members_in(m: TenantModel) -> Seq<(Seq<char>, Seq<char>)> {
    crate::table::sorted(m.overrides.dom()).map_values(
        |k: Seq<char>| (k, name_of(m.overrides[k])),
    ).push(("(default)"@, name_of(m.default_role)))
}

/// The state of the registry.
pub struct TenantState {
    default_role: Role,
    custom_roles: Table<PermissionSet>,
    overrides: Table<Role>,
}

impl TenantState {
    /// The tables are in order.
    pub closed spec fn wf(&self) -> bool {
        self.custom_roles.wf() && self.overrides.wf()
    }

    /// What the state says.
    pub closed spec fn model(&self) -> TenantModel {
        TenantModel {
            default_role: self.default_role@,
            custom_roles: self.custom_roles.map().map_values(|p: PermissionSet| p@),
            overrides: self.overrides.map().map_values(|r: Role| r@),
        }
    }

    /// A copy.
    pub fn clone_state(&self) -> (r: TenantState)
        requires
            self.wf(),
        ensures
            r.wf(),
            r.model() == self.model(),
    {
        let r: TenantState = TenantState {
            default_role: self.default_role.dup(),
            custom_roles: dup_roles(&self.custom_roles),
            overrides: dup_overrides(&self.overrides),
        };
        assert(r.model() =~= self.model());
        r
    }
}

fn dup_roles(t: &Table<PermissionSet>) -> (r: Table<PermissionSet>)
    requires
        t.wf(),
    ensures
        r.wf(),
        r.map().map_values(|p: PermissionSet| p@) == t.map().map_values(|p: PermissionSet| p@),
{
    let mut out: Table<PermissionSet> = Table::new();
    let mut i: usize = 0;
    proof {
        t.lemma_keys();
    }
    let ghost keys = t.keys();
    while i < t.len()
        invariant
            t.wf(),
            out.wf(),
            keys == t.keys(),
            crate::table::lists(keys, t.map().dom()),
            keys.len() == t.values().len(),
            forall|j: int| 0 <= j < keys.len() ==> #[trigger] t.values()[j] == t.map()[keys[j]],
            i <= keys.len(),
            forall|k: Seq<char>|
                out.map().dom().contains(k) <==> #[trigger] keys.take(i as int).contains(k),
            forall|k: Seq<char>| #[trigger]
                out.map().dom().contains(k) ==> out.map()[k]@ == t.map()[k]@,
        decreases keys.len() - i,
    {
        let ghost before = out.map();
        out.insert(t.key_at(i).clone(), t.value_at(i).dup());
        proof {
            crate::seqs::lemma_take_members(keys, i as int);
        }
        i = i + 1;
    }
    proof {
        assert(keys.take(keys.len() as int) =~= keys);
        assert forall|k: Seq<char>| out.map().dom().contains(k) <==> t.map().dom().contains(k) by {
            assert(keys.take(i as int).contains(k) <==> keys.contains(k));
        }
        assert(out.map().dom() =~= t.map().dom());
        assert(out.map().map_values(|p: PermissionSet| p@) =~= t.map().map_values(
            |p: PermissionSet| p@,
        ));
    }
    out
}

fn dup_overrides(t: &Table<Role>) -> (r: Table<Role>)
    requires
        t.wf(),
    ensures
        r.wf(),
        r.map().map_values(|p: Role| p@) == t.map().map_values(|p: Role| p@),
{
    let mut out: Table<Role> = Table::new();
    let mut i: usize = 0;
    proof {
        t.lemma_keys();
    }
    let ghost keys = t.keys();
    while i < t.len()
        invariant
            t.wf(),
            out.wf(),
            keys == t.keys(),
            crate::table::lists(keys, t.map().dom()),
            keys.len() == t.values().len(),
            forall|j: int| 0 <= j < keys.len() ==> #[trigger] t.values()[j] == t.map()[keys[j]],
            i <= keys.len(),
            forall|k: Seq<char>|
                out.map().dom().contains(k) <==> #[trigger] keys.take(i as int).contains(k),
            forall|k: Seq<char>| #[trigger]
                out.map().dom().contains(k) ==> out.map()[k]@ == t.map()[k]@,
        decreases keys.len() - i,
    {
        out.insert(t.key_at(i).clone(), t.value_at(i).dup());
        proof {
            crate::seqs::lemma_take_members(keys, i as int);
        }
        i = i + 1;
    }
    proof {
        assert(keys.take(keys.len() as int) =~= keys);
        assert forall|k: Seq<char>| out.map().dom().contains(k) <==> t.map().dom().contains(k) by {
            assert(keys.take(i as int).contains(k) <==> keys.contains(k));
        }
        assert(out.map().dom() =~= t.map().dom());
        assert(out.map().map_values(|p: Role| p@) =~= t.map().map_values(|p: Role| p@));
    }
    out
}

/// The registry of roles.
pub struct Tenants {
    state: TenantState,
}

impl View for Tenants {
    type V = TenantModel;

    closed spec fn view(&self) -> TenantModel {
        self.state.model()
    }
}

impl Tenants {
    /// The registry is in order.
    pub closed spec fn wf(&self) -> bool {
        self.state.wf()
    }

    /// The registry of a configuration.
    pub fn from_config(cfg: &TenancyConfig) -> (r: Self)
        ensures
            r.wf(),
            r@ == model_from(*cfg),
    {
        let mut custom_roles: Table<PermissionSet> = Table::new();
        let mut i: usize = 0;
        assert(custom_roles.map().map_values(|p: PermissionSet| p@) =~= custom_from(
            cfg.roles@.take(0),
        ));
        while i < cfg.roles.len()
            invariant
                i <= cfg.roles@.len(),
                custom_roles.wf(),
                custom_roles.map().map_values(|p: PermissionSet| p@) == custom_from(
                    cfg.roles@.take(i as int),
                ),
            decreases cfg.roles@.len() - i,
        {
            let ghost before = custom_roles.map();
            let cr: &TenancyRoleConfig = &cfg.roles[i];
            let perms: PermissionSet = permissions_from_names(&cr.permissions);
            let name: String = lowered(&trim(&cr.name));
            custom_roles.insert(name.clone(), perms);
            proof {
                let t = cfg.roles@.take(i + 1);
                assert(t.drop_last() =~= cfg.roles@.take(i as int));
                assert(t.last() == *cr);
                assert(before.insert(name@, perms).map_values(|p: PermissionSet| p@)
                    =~= before.map_values(|p: PermissionSet| p@).insert(name@, perms@));
            }
            i = i + 1;
        }
        assert(cfg.roles@.take(cfg.roles@.len() as int) =~= cfg.roles@);
        let mut overrides: Table<Role> = Table::new();
        let mut j: usize = 0;
        assert(overrides.map().map_values(|p: Role| p@) =~= overrides_from(cfg.members@.take(0)));
        while j < cfg.members.len()
            invariant
                j <= cfg.members@.len(),
                overrides.wf(),
                overrides.map().map_values(|p: Role| p@) == overrides_from(
                    cfg.members@.take(j as int),
                ),
            decreases cfg.members@.len() - j,
        {
            let ghost before = overrides.map();
            let m: &TenancyMemberConfig = &cfg.members[j];
            let role: Role = Role::parse(&m.role);
            overrides.insert(m.sender.clone(), role);
            proof {
                let t = cfg.members@.take(j + 1);
                assert(t.drop_last() =~= cfg.members@.take(j as int));
                assert(t.last() == *m);
                assert(before.insert(m.sender@, role).map_values(|p: Role| p@)
                    =~= before.map_values(|p: Role| p@).insert(m.sender@, role@));
            }
            j = j + 1;
        }
        assert(cfg.members@.take(cfg.members@.len() as int) =~= cfg.members@);
        let default_role: Role = Role::parse(&cfg.default_role);
        let r: Tenants = Tenants {
            state: TenantState { default_role, custom_roles, overrides },
        };
        assert(r@ =~= model_from(*cfg));
        r
    }

    /// Replaces the registry by that of a configuration.
    pub fn reload(&mut self, cfg: &TenancyConfig)
        ensures
            final(self).wf(),
            final(self)@ == model_from(*cfg),
    {
        let next: Tenants = Tenants::from_config(cfg);
        self.state = next.state.clone_state();
    }

    /// The role of a principal.
    pub fn role_for(&self, principal: &Principal) -> (r: Role)
        requires
            self.wf(),
        ensures
            r@ == role_in(self@, principal.tenant_id@, principal.sender_id@),
    {
        let key: String = principal.scope_key();
        if let Some(r) = self.state.overrides.get(&key) {
            return r.dup();
        }
        if !contains_char(&principal.sender_id, '/') {
            if let Some(r) = self.state.overrides.get(&principal.sender_id) {
                return r.dup();
            }
        }
        self.state.default_role.dup()
    }

    /// The permissions of a role.
    pub fn permissions_for_role(&self, role: &Role) -> (r: PermissionSet)
        requires
            self.wf(),
        ensures
            r@ == permissions_in(self@, role@),
    {
        match role {
            Role::Custom(name) => match self.state.custom_roles.get(name) {
                Some(p) => p.dup(),
                None => PermissionSet::of(Permission::for_builtin(&Role::Guest)),
            },
            _ => PermissionSet::of(Permission::for_builtin(role)),
        }
    }

    /// The permissions of a principal.
    pub fn permissions_for(&self, principal: &Principal) -> (r: PermissionSet)
        requires
            self.wf(),
        ensures
            r@ == permissions_in(
                self@,
                role_in(self@, principal.tenant_id@, principal.sender_id@),
            ),
    {
        let role: Role = self.role_for(principal);
        self.permissions_for_role(&role)
    }

    /// Whether a principal has a permission.
    pub fn has_permission(&self, principal: &Principal, req: Permission) -> (r: bool)
        requires
            self.wf(),
        ensures
            r == permissions_in(
                self@,
                role_in(self@, principal.tenant_id@, principal.sender_id@),
            ).contains(req),
    {
        self.permissions_for(principal).contains(req)
    }

    /// Authorizes a tool call: the role of the principal when it may call the
    /// tool, else the denial.
    pub fn authorize(&self, principal: &Principal, tool: &str) -> (r: Result<Role, AuthzError>)
        requires
            self.wf(),
        ensures
            r is Ok == allowed(self@, principal.tenant_id@, principal.sender_id@, tool@),
            match r {
                Ok(role) => role@ == role_in(self@, principal.tenant_id@, principal.sender_id@),
                Err(AuthzError::Denied { tool: t, role, required: req, sender }) => {
                    &&& t@ == tool@
                    &&& role@ == name_of(
                        role_in(self@, principal.tenant_id@, principal.sender_id@),
                    )
                    &&& req == required(tool@)
                    &&& sender@ == principal.sender_id@
                },
            },
    {
        let role: Role = self.role_for(principal);
        let req: Permission = required_permission(tool);
        let perms: PermissionSet = self.permissions_for_role(&role);
        if perms.contains(req) {
            Ok(role)
        } else {
            Err(
                AuthzError::Denied {
                    tool: tool.to_string(),
                    role: role.name().to_string(),
                    required: req,
                    sender: principal.sender_id.clone(),
                },
            )
        }
    }

    /// The configured members in the order of their identities, and the default.
    pub fn list_members(&self) -> (r: Vec<MemberView>)
        requires
            self.wf(),
        ensures
            member_texts(r@) == members_in(self@),
            crate::table::lists(
                crate::table::sorted(self@.overrides.dom()),
                self@.overrides.dom(),
            ),
    {
        let t: &Table<Role> = &self.state.overrides;
        let ghost keys = t.keys();
        let ghost m = self@;
        proof {
            t.lemma_keys();
            assert(m.overrides.dom() =~= t.map().dom());
        }
        let mut out: Vec<MemberView> = Vec::new();
        let mut i: usize = 0;
        while i < t.len()
            invariant
                t.wf(),
                keys == t.keys(),
                keys.len() == t.values().len(),
                forall|j: int| 0 <= j < keys.len() ==> #[trigger] t.values()[j] == t.map()[keys[j]],
                crate::table::lists(keys, t.map().dom()),
                m.overrides == t.map().map_values(|p: Role| p@),
                i <= keys.len(),
                member_texts(out@) == keys.take(i as int).map_values(
                    |k: Seq<char>| (k, name_of(m.overrides[k])),
                ),
            decreases keys.len() - i,
        {
            let ghost before = out@;
            let identity: String = t.key_at(i).clone();
            let role: String = t.value_at(i).name().to_string();
            assert(keys.contains(keys[i as int]));
            out.push(MemberView { identity, role });
            assert(member_texts(out@) =~= member_texts(before).push((identity@, role@)));
            assert(keys.take(i + 1).map_values(|k: Seq<char>| (k, name_of(m.overrides[k])))
                =~= keys.take(i as int).map_values(
                |k: Seq<char>| (k, name_of(m.overrides[k])),
            ).push((keys[i as int], name_of(m.overrides[keys[i as int]]))));
            i = i + 1;
        }
        assert(keys.take(keys.len() as int) =~= keys);
        let ghost before = out@;
        let last: MemberView = MemberView {
            identity: "(default)".to_string(),
            role: self.state.default_role.name().to_string(),
        };
        out.push(last);
        assert(member_texts(out@) =~= member_texts(before).push((last.identity@, last.role@)));
        out
    }

    /// The name of the default role.
    pub fn default_role_name(&self) -> (r: String)
        ensures
            r@ == name_of(self@.default_role),
    {
        self.state.default_role.name().to_string()
    }
}

impl Default for Tenants {
    fn default() -> (r: Self)
        ensures
            r.wf(),
            r@.default_role == RoleView::Admin,
            r@.custom_roles == Map::<Seq<char>, Set<Permission>>::empty(),
            r@.overrides == Map::<Seq<char>, RoleView>::empty(),
    {
        let r: Tenants = Tenants {
            state: TenantState {
                default_role: Role::Admin,
                custom_roles: Table::new(),
                overrides: Table::new(),
            },
        };
        assert(r@.custom_roles =~= Map::<Seq<char>, Set<Permission>>::empty());
        assert(r@.overrides =~= Map::<Seq<char>, RoleView>::empty());
        r
    }
}

// ---- laws ------------------------------------------------------------------------

/// A path segment holds no separator and is not empty.
pub proof fn segments_are_flat(s: Seq<char>, k: Kept)
    ensures
        !sanitized(s, k).contains('/'),
        k != Kept::SafeAndColon ==> !sanitized(s, k).contains(':'),
        sanitized(s, k).len() > 0,
{
    let t = sanitized(s, k);
    crate::text::lemma_marked_kept(s, k);
    if s.len() > 0 && t.len() == 0 {
        crate::text::lemma_marked_injective(s, Seq::empty(), k);
    }
    assert forall|i: int| 0 <= i < t.len() implies t[i] != '/' && (k != Kept::SafeAndColon
        ==> t[i] != ':') by {
        if s.len() > 0 {
            assert(crate::text::keeps(k, t[i]) || t[i] == '%');
        }
    }
}

/// Different texts are different segments.
pub proof fn segments_are_apart(a: Seq<char>, b: Seq<char>, k: Kept)
    ensures
        sanitized(a, k) == sanitized(b, k) <==> a == b,
{
    if sanitized(a, k) == sanitized(b, k) {
        if a.len() > 0 {
            crate::text::lemma_marked_head(a, k);
        }
        if b.len() > 0 {
            crate::text::lemma_marked_head(b, k);
        }
        if a.len() > 0 && b.len() > 0 {
            crate::text::lemma_marked_injective(a, b, k);
        } else {
            assert(a =~= b);
        }
    }
}

/// Two sides that do not hold a separator can be read back from the text that joins them.
proof fn lemma_joined_apart(a: Seq<char>, b: Seq<char>, c: Seq<char>, d: Seq<char>, sep: char)
    requires
        !a.contains(sep),
        !c.contains(sep),
        a + seq![sep] + b == c + seq![sep] + d,
    ensures
        a == c,
        b == d,
{
    let k = a + seq![sep] + b;
    let l = c + seq![sep] + d;
    assert(k[a.len() as int] == sep);
    assert(l[c.len() as int] == sep);
    if a.len() < c.len() {
        assert(l[a.len() as int] == c[a.len() as int]);
        assert(c.contains(sep));
    } else if c.len() < a.len() {
        assert(k[c.len() as int] == a[c.len() as int]);
        assert(a.contains(sep));
    }
    assert(a =~= k.take(a.len() as int));
    assert(c =~= k.take(c.len() as int));
    assert(b =~= k.skip((a.len() + 1) as int));
    assert(d =~= k.skip((c.len() + 1) as int));
}

/// Two principals never share a key: a principal with another tenant or another sender has
/// another key, whatever the ids hold.
pub proof fn scopes_are_disjoint(t1: Seq<char>, s1: Seq<char>, t2: Seq<char>, s2: Seq<char>)
    ensures
        scope(t1, s1) == scope(t2, s2) <==> t1 == t2 && s1 == s2,
{
    if scope(t1, s1) == scope(t2, s2) {
        let k = Kept::SafeAndColon;
        segments_are_flat(t1, k);
        segments_are_flat(t2, k);
        lemma_joined_apart(
            sanitized(t1, k),
            sanitized(s1, k),
            sanitized(t2, k),
            sanitized(s2, k),
            '/',
        );
        segments_are_apart(t1, t2, k);
        segments_are_apart(s1, s2, k);
    }
}

/// Two subscriptions are two tenants: those of another channel or another account.
pub proof fn subscriptions_are_tenants(c1: Seq<char>, a1: Seq<char>, c2: Seq<char>, a2: Seq<char>)
    ensures
        tenant_of(c1, a1) == tenant_of(c2, a2) <==> c1 == c2 && a1 == a2,
{
    if tenant_of(c1, a1) == tenant_of(c2, a2) {
        let k = Kept::Safe;
        segments_are_flat(c1, k);
        segments_are_flat(c2, k);
        lemma_joined_apart(
            sanitized(c1, k),
            sanitized(a1, k),
            sanitized(c2, k),
            sanitized(a2, k),
            ':',
        );
        segments_are_apart(c1, c2, k);
        segments_are_apart(a1, a2, k);
    }
}

/// An id of safe characters is its own segment.
pub proof fn safe_ids_stay(s: Seq<char>, k: Kept)
    requires
        s.len() > 0,
        forall|i: int| 0 <= i < s.len() ==> crate::text::keeps(k, #[trigger] s[i]),
    ensures
        sanitized(s, k) == s,
{
    crate::text::lemma_marked_same(s, k);
}

/// The key of a principal whose ids hold safe characters is the tenant id, a slash and the
/// sender id.
pub proof fn safe_principals_are_their_ids(tenant: Seq<char>, sender: Seq<char>)
    requires
        tenant.len() > 0,
        sender.len() > 0,
        forall|i: int|
            0 <= i < tenant.len() ==> crate::text::keeps(Kept::SafeAndColon, #[trigger] tenant[i]),
        forall|i: int|
            0 <= i < sender.len() ==> crate::text::keeps(Kept::SafeAndColon, #[trigger] sender[i]),
    ensures
        scope(tenant, sender) == tenant + seq!['/'] + sender,
{
    safe_ids_stay(tenant, Kept::SafeAndColon);
    safe_ids_stay(sender, Kept::SafeAndColon);
}

/// A configured custom role grants its own list, in whatever case its name is written: a
/// role whose name no later one has, and no built-in one.
pub proof fn custom_roles_grant_their_list(cfg: TenancyConfig, i: int, name: Seq<char>)
    requires
        0 <= i < cfg.roles@.len(),
        role_key(name) == role_key(cfg.roles@[i].name@),
        role_of(name) is Custom,
        forall|j: int|
            i < j < cfg.roles@.len() ==> role_key((#[trigger] cfg.roles@[j]).name@) != role_key(
                name,
            ),
    ensures
        permissions_in(model_from(cfg), role_of(name)) == granted(
            crate::text::views(cfg.roles@[i].permissions@),
        ),
{
    lemma_custom_from(cfg.roles@, i, role_key(name));
}

proof fn lemma_custom_from(roles: Seq<TenancyRoleConfig>, i: int, key: Seq<char>)
    requires
        0 <= i < roles.len(),
        key == role_key(roles[i].name@),
        forall|j: int| i < j < roles.len() ==> role_key((#[trigger] roles[j]).name@) != key,
    ensures
        custom_from(roles).dom().contains(key),
        custom_from(roles)[key] == granted(crate::text::views(roles[i].permissions@)),
    decreases roles.len(),
{
    let rest = roles.drop_last();
    if i < roles.len() - 1 {
        assert forall|j: int| i < j < rest.len() implies role_key((#[trigger] rest[j]).name@)
            != key by {
            assert(rest[j] == roles[j]);
        }
        lemma_custom_from(rest, i, key);
        assert(role_key(roles[roles.len() - 1].name@) != key);
    }
}

/// An admin may call every tool.
pub proof fn admins_may_call_all(m: TenantModel, tool: Seq<char>)
    ensures
        permissions_in(m, RoleView::Admin).contains(required(tool)),
{
    let b = builtin(RoleView::Admin);
    let p = required(tool);
    assert(b[0] == Permission::Chat && b[1] == Permission::Schedule && b[2]
        == Permission::ManageSessions && b[3] == Permission::UseMcp && b[4]
        == Permission::UseSkills && b[5] == Permission::UseA2a && b[6] == Permission::UseModels
        && b[7] == Permission::UseMemory && b[8] == Permission::Admin);
    assert(b.contains(p));
}

/// A guest has no more permissions than a member, and a member no more than an
/// admin; neither of the first two has the admin permission.
pub proof fn builtin_roles_nest(m: TenantModel)
    ensures
        permissions_in(m, RoleView::Guest).subset_of(permissions_in(m, RoleView::Member)),
        permissions_in(m, RoleView::Member).subset_of(permissions_in(m, RoleView::Admin)),
        !permissions_in(m, RoleView::Member).contains(Permission::Admin),
        !permissions_in(m, RoleView::Guest).contains(Permission::Admin),
{
    let g = builtin(RoleView::Guest);
    let b = builtin(RoleView::Member);
    let a = builtin(RoleView::Admin);
    assert forall|p: Permission| g.contains(p) implies b.contains(p) by {
        let i = choose|i: int| 0 <= i < g.len() && g[i] == p;
        assert(b[0] == Permission::Chat && b[6] == Permission::UseModels);
    }
    assert forall|p: Permission| b.contains(p) implies a.contains(p) by {
        let i = choose|i: int| 0 <= i < b.len() && b[i] == p;
        assert(a[i] == b[i]);
    }
}

/// An unknown custom role may do what a guest may do.
pub proof fn unknown_roles_are_guests(m: TenantModel, name: Seq<char>)
    requires
        !m.custom_roles.dom().contains(name),
    ensures
        permissions_in(m, RoleView::Custom(name)) == permissions_in(m, RoleView::Guest),
{
}

/// An override for a tenant's sender counts in that tenant, and an override for a
/// sender alone does not get past it.
pub proof fn scoped_override_wins(m: TenantModel, tenant: Seq<char>, sender: Seq<char>)
    requires
        m.overrides.dom().contains(scope(tenant, sender)),
    ensures
        role_in(m, tenant, sender) == m.overrides[scope(tenant, sender)],
{
}

/// A member that is configured as a tenant, a slash and a sender of safe characters has the
/// role that the last such entry gives it.
pub proof fn configured_members_have_their_role(
    cfg: TenancyConfig,
    i: int,
    tenant: Seq<char>,
    sender: Seq<char>,
)
    requires
        0 <= i < cfg.members@.len(),
        cfg.members@[i].sender@ == tenant + seq!['/'] + sender,
        tenant.len() > 0,
        sender.len() > 0,
        forall|j: int|
            0 <= j < tenant.len() ==> crate::text::keeps(Kept::SafeAndColon, #[trigger] tenant[j]),
        forall|j: int|
            0 <= j < sender.len() ==> crate::text::keeps(Kept::SafeAndColon, #[trigger] sender[j]),
        forall|j: int|
            i < j < cfg.members@.len() ==> (#[trigger] cfg.members@[j]).sender@
                != cfg.members@[i].sender@,
    ensures
        role_in(model_from(cfg), tenant, sender) == role_of(cfg.members@[i].role@),
{
    safe_principals_are_their_ids(tenant, sender);
    lemma_overrides_from(cfg.members@, i);
}

proof fn lemma_overrides_from(members: Seq<TenancyMemberConfig>, i: int)
    requires
        0 <= i < members.len(),
        forall|j: int|
            i < j < members.len() ==> (#[trigger] members[j]).sender@ != members[i].sender@,
    ensures
        overrides_from(members).dom().contains(members[i].sender@),
        overrides_from(members)[members[i].sender@] == role_of(members[i].role@),
    decreases members.len(),
{
    let rest = members.drop_last();
    if i < members.len() - 1 {
        assert forall|j: int| i < j < rest.len() implies (#[trigger] rest[j]).sender@
            != rest[i].sender@ by {
            assert(rest[j] == members[j]);
        }
        lemma_overrides_from(rest, i);
        assert(members[members.len() - 1].sender@ != members[i].sender@);
    }
}

/// An override of one scope does not change the role in another: every other principal
/// keeps its role.
pub proof fn scoped_override_stays_in_scope(
    m: TenantModel,
    tenant: Seq<char>,
    sender: Seq<char>,
    other_tenant: Seq<char>,
    other_sender: Seq<char>,
    role: RoleView,
)
    requires
        other_tenant != tenant || other_sender != sender,
    ensures
        role_in(
            (TenantModel { overrides: m.overrides.insert(scope(tenant, sender), role), ..m }),
            other_tenant,
            other_sender,
        ) == role_in(m, other_tenant, other_sender),
{
    scopes_are_disjoint(tenant, sender, other_tenant, other_sender);
    let k = scope(tenant, sender);
    assert(k[sanitized(tenant, Kept::SafeAndColon).len() as int] == '/');
    assert(k.contains('/'));
}

/// The tools that need more than to chat: those that manage or inspect what is shared need an
/// admin, and each of the others the permission for what it works on. The tools of servers,
/// agents and skills need theirs by their prefix.
pub proof fn tools_need_their_permission(tool: &str, r: Permission)
    requires
        call_ensures(required_permission, (tool,), r),
    ensures
        tool@ == "scheduler_add_job"@ ==> r == Permission::Schedule,
        tool@ == "scheduler_remove_job"@ ==> r == Permission::Schedule,
        tool@ == "scheduler_list_jobs"@ ==> r == Permission::Schedule,
        tool@ == "session_switch"@ ==> r == Permission::ManageSessions,
        tool@ == "session_set_workspace"@ ==> r == Permission::ManageSessions,
        tool@ == "session_list"@ ==> r == Permission::ManageSessions,
        tool@ == "mcp_list_servers"@ ==> r == Permission::Admin,
        tool@ == "mcp_reload"@ ==> r == Permission::Admin,
        tool@ == "skill_list"@ ==> r == Permission::UseSkills,
        tool@ == "skill_reload"@ ==> r == Permission::Admin,
        tool@ == "a2a_list_agents"@ ==> r == Permission::UseA2a,
        tool@ == "a2a_reload"@ ==> r == Permission::Admin,
        tool@ == "model_list"@ ==> r == Permission::UseModels,
        tool@ == "model_pick"@ ==> r == Permission::UseModels,
        tool@ == "memory_set"@ ==> r == Permission::UseMemory,
        tool@ == "memory_recall"@ ==> r == Permission::UseMemory,
        tool@ == "tenant_whoami"@ ==> r == Permission::Chat,
        tool@ == "tenant_list_members"@ ==> r == Permission::Admin,
        r == Permission::Schedule ==> tool@ == "scheduler_add_job"@ || tool@
            == "scheduler_remove_job"@ || tool@ == "scheduler_list_jobs"@,
        r == Permission::UseMemory ==> tool@ == "memory_set"@ || tool@ == "memory_recall"@,
        r == Permission::ManageSessions ==> tool@ == "session_switch"@ || tool@
            == "session_set_workspace"@ || tool@ == "session_list"@,
        r == Permission::UseMcp <==> tool@ != "mcp_reload"@ && tool@ != "mcp_list_servers"@
            && crate::text::begins(tool@, "mcp_"@) && crate::text::has_text(tool@, "__"@),
        r == Permission::UseA2a <==> tool@ != "a2a_reload"@ && crate::text::begins(tool@, "a2a_"@),
        r == Permission::UseSkills <==> tool@ != "skill_reload"@ && crate::text::begins(
            tool@,
            "skill_"@,
        ),
{
    crate::tools::names::tools_have_their_names();
    lemma_prefixes(tool@);
}

/// What begins with one of the three prefixes, and what does not.
pub proof fn lemma_prefixes(tool: Seq<char>)
    ensures
        crate::text::begins(tool, "mcp_"@) ==> tool.len() > 0 && tool[0] == 'm' && tool[1] == 'c',
        crate::text::begins(tool, "a2a_"@) ==> tool.len() > 0 && tool[0] == 'a' && tool[1] == '2',
        crate::text::begins(tool, "skill_"@) ==> tool.len() > 0 && tool[0] == 's' && tool[1] == 'k',
        "mcp_reload"@[0] == 'm',
        "mcp_list_servers"@[0] == 'm',
        "a2a_reload"@[0] == 'a',
        "a2a_list_agents"@[0] == 'a',
        crate::text::begins("a2a_list_agents"@, "a2a_"@),
        crate::text::begins("skill_list"@, "skill_"@),
        "skill_reload"@[1] == 'k',
        "skill_list"@[1] == 'k',
        "skill_reload"@[0] == 's',
        "skill_list"@[0] == 's',
        "scheduler_add_job"@[1] == 'c',
        "scheduler_add_job"@[0] == 's',
        "scheduler_remove_job"@[1] == 'c',
        "scheduler_remove_job"@[0] == 's',
        "scheduler_list_jobs"@[1] == 'c',
        "scheduler_list_jobs"@[0] == 's',
        "session_switch"@[1] == 'e',
        "session_switch"@[0] == 's',
        "session_set_workspace"@[1] == 'e',
        "session_set_workspace"@[0] == 's',
        "session_list"@[1] == 'e',
        "session_list"@[0] == 's',
        "model_list"@[1] == 'o',
        "model_list"@[0] == 'm',
        "model_pick"@[1] == 'o',
        "model_pick"@[0] == 'm',
        "memory_set"@[1] == 'e',
        "memory_set"@[0] == 'm',
        "memory_recall"@[1] == 'e',
        "memory_recall"@[0] == 'm',
        "tenant_whoami"@[0] == 't',
        "tenant_list_members"@[0] == 't',
{
    reveal_strlit("mcp_");
    reveal_strlit("a2a_");
    reveal_strlit("skill_");
    if crate::text::begins(tool, "mcp_"@) {
        assert(tool.take(4)[0] == 'm' && tool.take(4)[1] == 'c');
    }
    if crate::text::begins(tool, "a2a_"@) {
        assert(tool.take(4)[0] == 'a' && tool.take(4)[1] == '2');
    }
    if crate::text::begins(tool, "skill_"@) {
        assert(tool.take(6)[0] == 's' && tool.take(6)[1] == 'k');
    }
    reveal_strlit("scheduler_add_job");
    reveal_strlit("scheduler_remove_job");
    reveal_strlit("scheduler_list_jobs");
    reveal_strlit("session_switch");
    reveal_strlit("session_set_workspace");
    reveal_strlit("session_list");
    reveal_strlit("mcp_list_servers");
    reveal_strlit("mcp_reload");
    reveal_strlit("skill_list");
    reveal_strlit("skill_reload");
    reveal_strlit("a2a_list_agents");
    reveal_strlit("a2a_reload");
    reveal_strlit("model_list");
    reveal_strlit("model_pick");
    reveal_strlit("memory_set");
    reveal_strlit("memory_recall");
    reveal_strlit("tenant_whoami");
    reveal_strlit("tenant_list_members");
    assert("a2a_list_agents"@.take(4) =~= "a2a_"@);
    assert("skill_list"@.take(6) =~= "skill_"@);
}

/// A permission is named in any case and with white space around it, and by no other name.
pub proof fn permissions_are_named(s: &str, r: Option<Permission>, n: Seq<char>)
    requires
        call_ensures(parse_permission, (s,), r),
        n == crate::text::ascii_lowered(crate::text::trimmed(s@)),
    ensures
        n == "chat"@ <==> r == Some(Permission::Chat),
        n == "schedule"@ <==> r == Some(Permission::Schedule),
        n == "manage_sessions"@ <==> r == Some(Permission::ManageSessions),
        n == "use_mcp"@ <==> r == Some(Permission::UseMcp),
        n == "use_skills"@ <==> r == Some(Permission::UseSkills),
        n == "use_a2a"@ <==> r == Some(Permission::UseA2a),
        n == "use_models"@ <==> r == Some(Permission::UseModels),
        n == "use_memory"@ <==> r == Some(Permission::UseMemory),
        n == "admin"@ <==> r == Some(Permission::Admin),
{
    reveal_strlit("chat");
    reveal_strlit("schedule");
    reveal_strlit("manage_sessions");
    reveal_strlit("use_mcp");
    reveal_strlit("use_skills");
    reveal_strlit("use_a2a");
    reveal_strlit("use_models");
    reveal_strlit("use_memory");
    reveal_strlit("admin");
    assert("chat"@.len() == 4);
    assert("schedule"@.len() == 8);
    assert("manage_sessions"@.len() == 15);
    assert("use_mcp"@.len() == 7);
    assert("use_skills"@.len() == 10);
    assert("use_a2a"@.len() == 7);
    assert("use_models"@.len() == 10);
    assert("use_memory"@.len() == 10);
    assert("admin"@.len() == 5);
    assert("use_mcp"@[4] != "use_a2a"@[4]);
    assert("use_skills"@[4] != "use_models"@[4]);
    assert("use_skills"@[4] != "use_memory"@[4]);
    assert("use_models"@[5] != "use_memory"@[5]);
}

/// A role is named in any case and with white space around it: the three built-in ones by
/// their names, and any other name is that of a custom role.
pub proof fn roles_are_named(s: &str, r: Role, n: Seq<char>)
    requires
        call_ensures(Role::parse, (s,), r),
        n == crate::text::ascii_lowered(crate::text::trimmed(s@)),
    ensures
        r is Admin <==> n == "admin"@,
        r is Member <==> n == "member"@,
        r is Guest <==> n == "guest"@,
        r matches Role::Custom(c) ==> c@ == n,
{
    reveal_strlit("admin");
    reveal_strlit("member");
    reveal_strlit("guest");
    assert("admin"@[0] != "guest"@[0]);
    assert("admin"@.len() == 5 && "member"@.len() == 6 && "guest"@.len() == 5);
}

/// What the built-in roles may do: an admin everything, a member everything but what is an
/// admin's, and a guest no more than to chat and to look at models.
pub proof fn builtin_roles_have_their_permissions(
    t: &Tenants,
    role: &Role,
    r: PermissionSet,
    p: Permission,
)
    requires
        t.wf(),
        call_ensures(Tenants::permissions_for_role, (t, role), r),
    ensures
        role is Admin ==> r@.contains(p),
        role is Member ==> (r@.contains(p) <==> p != Permission::Admin),
        role is Guest ==> (r@.contains(p) <==> p == Permission::Chat || p == Permission::UseModels),
        role matches Role::Custom(c) ==> (r@.contains(p) <==> if t@.custom_roles.dom().contains(
            c@,
        ) {
            t@.custom_roles[c@].contains(p)
        } else {
            p == Permission::Chat || p == Permission::UseModels
        }),
{
    let a = builtin(RoleView::Admin);
    let m = builtin(RoleView::Member);
    let g = builtin(RoleView::Guest);
    assert(a[0] == Permission::Chat && a[1] == Permission::Schedule && a[2]
        == Permission::ManageSessions && a[3] == Permission::UseMcp && a[4]
        == Permission::UseSkills && a[5] == Permission::UseA2a && a[6] == Permission::UseModels
        && a[7] == Permission::UseMemory && a[8] == Permission::Admin);
    assert(m[0] == Permission::Chat && m[1] == Permission::Schedule && m[2]
        == Permission::ManageSessions && m[3] == Permission::UseMcp && m[4]
        == Permission::UseSkills && m[5] == Permission::UseA2a && m[6] == Permission::UseModels
        && m[7] == Permission::UseMemory);
    assert(g[0] == Permission::Chat && g[1] == Permission::UseModels);
    assert(a.contains(p));
    assert(m.contains(p) <==> p != Permission::Admin);
    assert(g.contains(p) <==> p == Permission::Chat || p == Permission::UseModels);
}

/// The role of a principal is that of its own key, else that of its sender in every tenant,
/// where the sender's id can be told from a key, and else the default.
pub proof fn roles_are_found_by_key_then_sender(t: &Tenants, p: &Principal, r: Role)
    requires
        t.wf(),
        call_ensures(Tenants::role_for, (t, p), r),
    ensures
        ({
            let key = scope(p.tenant_id@, p.sender_id@);
            let bare = t@.overrides.dom().contains(p.sender_id@) && forall|i: int|
                0 <= i < p.sender_id@.len() ==> #[trigger] p.sender_id@[i] != '/';
            &&& t@.overrides.dom().contains(key) ==> r@ == t@.overrides[key]
            &&& !t@.overrides.dom().contains(key) && bare ==> r@ == t@.overrides[p.sender_id@]
            &&& !t@.overrides.dom().contains(key) && !bare ==> r@ == t@.default_role
        }),
{
    let s = p.sender_id@;
    if s.contains('/') {
        let i = choose|i: int| 0 <= i < s.len() && s[i] == '/';
        assert(s[i] == '/');
    } else {
        assert forall|i: int| 0 <= i < s.len() implies #[trigger] s[i] != '/' by {
            if s[i] == '/' {
                assert(s.contains('/'));
            }
        }
    }
}

/// A call is authorized exactly when the permissions of the principal's role hold the one that
/// the tool needs; a denial names the tool, the role, the permission and the sender.
pub proof fn calls_are_authorized_by_role(
    t: &Tenants,
    p: &Principal,
    tool: &str,
    r: Result<Role, AuthzError>,
    role: Role,
    held: PermissionSet,
    need: Permission,
)
    requires
        t.wf(),
        call_ensures(Tenants::authorize, (t, p, tool), r),
        call_ensures(Tenants::role_for, (t, p), role),
        call_ensures(Tenants::permissions_for_role, (t, &role), held),
        call_ensures(required_permission, (tool,), need),
    ensures
        r is Ok <==> held@.contains(need),
        r matches Ok(given) ==> given@ == role@,
        r matches Err(AuthzError::Denied { tool: x, role: y, required: z, sender: w }) ==> x@
            == tool@ && y@ == name_of(role@) && z == need && w@ == p.sender_id@,
{
}

/// What a list of names grants: the permissions that one of them names.
pub proof fn lists_grant_what_they_name(names: &Vec<String>, r: PermissionSet, p: Permission)
    requires
        call_ensures(permissions_from_names, (names,), r),
    ensures
        r@.contains(p) <==> exists|i: int|
            0 <= i < names@.len() && permission_of((#[trigger] names@[i])@) == Some(p),
{
    let v = crate::text::views(names@);
    if exists|i: int| 0 <= i < v.len() && permission_of(#[trigger] v[i]) == Some(p) {
        let i = choose|i: int| 0 <= i < v.len() && permission_of(#[trigger] v[i]) == Some(p);
        assert(v[i] == names@[i]@);
    }
    if exists|i: int| 0 <= i < names@.len() && permission_of((#[trigger] names@[i])@) == Some(p) {
        let i = choose|i: int|
            0 <= i < names@.len() && permission_of((#[trigger] names@[i])@) == Some(p);
        assert(v[i] == names@[i]@);
    }
}

/// The members are told with their roles, each that is configured and the default behind them.
pub proof fn members_are_told_with_their_roles(t: &Tenants, r: Vec<MemberView>, k: Seq<char>)
    requires
        t.wf(),
        call_ensures(Tenants::list_members, (t,), r),
    ensures
        r@.len() > 0,
        r@.last().identity@ == "(default)"@ && r@.last().role@ == name_of(t@.default_role),
        t@.overrides.dom().contains(k) <==> exists|i: int|
            0 <= i < r@.len() - 1 && (#[trigger] r@[i]).identity@ == k && r@[i].role@ == name_of(
                t@.overrides[k],
            ),
        name_of(RoleView::Admin) == "admin"@,
        name_of(RoleView::Member) == "member"@,
        name_of(RoleView::Guest) == "guest"@,
        name_of(RoleView::Custom(k)) == k,
{
    let d = t@.overrides.dom();
    let keys = crate::table::sorted(d);
    let v = member_texts(r@);
    crate::table::listings_are_in_order(keys, d, k);
    assert(v.len() == r@.len() && v.len() == keys.len() + 1);
    assert(v.last() == (r@.last().identity@, r@.last().role@));
    if d.contains(k) {
        let i = choose|i: int| 0 <= i < keys.len() && #[trigger] keys[i] == k;
        assert(v[i] == (r@[i].identity@, r@[i].role@));
        assert(r@[i].identity@ == k);
    }
    if exists|i: int|
        0 <= i < r@.len() - 1 && (#[trigger] r@[i]).identity@ == k && r@[i].role@ == name_of(
            t@.overrides[k],
        ) {
        let i = choose|i: int|
            0 <= i < r@.len() - 1 && (#[trigger] r@[i]).identity@ == k && r@[i].role@ == name_of(
                t@.overrides[k],
            );
        assert(v[i] == (r@[i].identity@, r@[i].role@));
        assert(keys[i] == k);
    }
}

/// The permissions of an admin are all there are.
pub proof fn lemma_admins_hold(p: Permission)
    ensures
        builtin(RoleView::Admin).contains(p),
{
    let a = builtin(RoleView::Admin);
    assert(a[0] == Permission::Chat && a[1] == Permission::Schedule && a[2]
        == Permission::ManageSessions && a[3] == Permission::UseMcp && a[4]
        == Permission::UseSkills && a[5] == Permission::UseA2a && a[6] == Permission::UseModels
        && a[7] == Permission::UseMemory && a[8] == Permission::Admin);
    assert(a.contains(p));
}

/// What is told of a refusal: who asked, in which role, and which permission the tool needs.
pub proof fn refusals_are_told(
    tool: String,
    role: String,
    required: Permission,
    sender: String,
    e: &AuthzError,
    label: &str,
    r: String,
)
    requires
        *e == (AuthzError::Denied { tool, role, required, sender }),
        call_ensures(AuthzError::text, (e,), r),
        call_ensures(Permission::label, (&required,), label),
    ensures
        r@ == "access denied: sender '"@ + sender@ + "' (role '"@ + role@ + "') lacks permission '"@
            + label@ + "' required by tool '"@ + tool@ + "'"@,
        required == Permission::Chat ==> label@ == "Chat"@,
        required == Permission::Schedule ==> label@ == "Schedule"@,
        required == Permission::ManageSessions ==> label@ == "ManageSessions"@,
        required == Permission::UseMcp ==> label@ == "UseMcp"@,
        required == Permission::UseSkills ==> label@ == "UseSkills"@,
        required == Permission::UseA2a ==> label@ == "UseA2a"@,
        required == Permission::UseModels ==> label@ == "UseModels"@,
        required == Permission::UseMemory ==> label@ == "UseMemory"@,
        required == Permission::Admin ==> label@ == "Admin"@,
{
}

/// Tenancy is as configured: the last member of a name gives its role, the last role of a name
/// gives its list, and whoever is not named has the default role.
pub proof fn tenants_are_as_configured(cfg: &TenancyConfig, t: Tenants, i: int, name: Seq<char>)
    requires
        call_ensures(Tenants::from_config, (cfg,), t),
    ensures
        t@.default_role == role_of(cfg.default_role@),
        0 <= i < cfg.members@.len() && (forall|j: int|
            i < j < cfg.members@.len() ==> (#[trigger] cfg.members@[j]).sender@
                != cfg.members@[i].sender@) ==> t@.overrides.dom().contains(cfg.members@[i].sender@)
            && t@.overrides[cfg.members@[i].sender@] == role_of(cfg.members@[i].role@),
        (forall|j: int|
            0 <= j < cfg.members@.len() ==> (#[trigger] cfg.members@[j]).sender@ != name)
            ==> !t@.overrides.dom().contains(name),
        (forall|j: int|
            0 <= j < cfg.roles@.len() ==> crate::text::ascii_lowered(
                crate::text::trimmed((#[trigger] cfg.roles@[j]).name@),
            ) != name) ==> !t@.custom_roles.dom().contains(name),
{
    if 0 <= i < cfg.members@.len() && (forall|j: int|
        i < j < cfg.members@.len() ==> (#[trigger] cfg.members@[j]).sender@
            != cfg.members@[i].sender@) {
        lemma_overrides_from(cfg.members@, i);
    }
    if forall|j: int| 0 <= j < cfg.members@.len() ==> (#[trigger] cfg.members@[j]).sender@ != name {
        lemma_unnamed_member(cfg.members@, name);
    }
    if forall|j: int|
        0 <= j < cfg.roles@.len() ==> crate::text::ascii_lowered(
            crate::text::trimmed((#[trigger] cfg.roles@[j]).name@),
        ) != name {
        lemma_unnamed_role(cfg.roles@, name);
    }
}

proof fn lemma_unnamed_member(v: Seq<TenancyMemberConfig>, name: Seq<char>)
    requires
        forall|j: int| 0 <= j < v.len() ==> (#[trigger] v[j]).sender@ != name,
    ensures
        !overrides_from(v).dom().contains(name),
    decreases v.len(),
{
    if v.len() > 0 {
        assert(v.last() == v[v.len() - 1]);
        lemma_unnamed_member(v.drop_last(), name);
    }
}

proof fn lemma_unnamed_role(v: Seq<TenancyRoleConfig>, name: Seq<char>)
    requires
        forall|j: int|
            0 <= j < v.len() ==> crate::text::ascii_lowered(
                crate::text::trimmed((#[trigger] v[j]).name@),
            ) != name,
    ensures
        !custom_from(v).dom().contains(name),
    decreases v.len(),
{
    if v.len() > 0 {
        assert(v.last() == v[v.len() - 1]);
        lemma_unnamed_role(v.drop_last(), name);
    }
}

/// A reload takes the configuration as a start does.
pub proof fn reloads_are_starts(t: &mut Tenants, s: Tenants, cfg: &TenancyConfig)
    requires
        call_ensures(Tenants::reload, (t, cfg), ()),
        call_ensures(Tenants::from_config, (cfg,), s),
    ensures
        final(t)@ == s@,
{
}

/// A tenant of a channel and an account of plain names is the two with a colon between them; an
/// empty part is a percent sign.
pub proof fn tenants_are_channel_and_account(channel: &str, account: &str, r: String)
    requires
        call_ensures(tenant_id_from_subscription, (channel, account), r),
        forall|i: int|
            0 <= i < channel@.len() ==> crate::text::keeps(Kept::Safe, #[trigger] channel@[i]),
        forall|i: int|
            0 <= i < account@.len() ==> crate::text::keeps(Kept::Safe, #[trigger] account@[i]),
    ensures
        channel@.len() > 0 && account@.len() > 0 ==> r@ == channel@ + seq![':'] + account@,
        channel@.len() == 0 && account@.len() > 0 ==> r@ == seq!['%', ':'] + account@,
        channel@.len() > 0 && account@.len() == 0 ==> r@ == channel@ + seq![':', '%'],
{
    if channel@.len() > 0 {
        safe_ids_stay(channel@, Kept::Safe);
    }
    if account@.len() > 0 {
        safe_ids_stay(account@, Kept::Safe);
    }
}

/// A permission is told by the name that it has in the configuration.
pub proof fn permissions_are_told_by_name(p: Permission, name: &str)
    requires
        call_ensures(Permission::name, (&p,), name),
    ensures
        p == Permission::Chat ==> name@ == "chat"@,
        p == Permission::Schedule ==> name@ == "schedule"@,
        p == Permission::ManageSessions ==> name@ == "manage_sessions"@,
        p == Permission::UseMcp ==> name@ == "use_mcp"@,
        p == Permission::UseSkills ==> name@ == "use_skills"@,
        p == Permission::UseA2a ==> name@ == "use_a2a"@,
        p == Permission::UseModels ==> name@ == "use_models"@,
        p == Permission::UseMemory ==> name@ == "use_memory"@,
        p == Permission::Admin ==> name@ == "admin"@,
{
}

} // verus!
