//! Remote MCP servers: the names of their tools, what a call is made of, and what
//! its result says.

use vstd::prelude::*;
use crate::config::McpServerConfig;
use crate::json::{close, object, put, Json, JsonView};
use crate::reload::{Endpoint, Live, Registry, Reload};
use crate::text::{cat, dup_opt, join, replace_char, same, split_once, strip_prefix};

verus! {

/// A tool of an MCP server.
#[derive(Debug)]
pub struct McpTool {
    pub name: String,
    pub description: Option<String>,
    /// JSON Schema of the arguments.
    pub input_schema: Json,
}

/// What a tool call returned.
#[derive(Debug)]
pub struct McpToolResult {
    /// The text content of the response.
    pub text: String,
    /// Whether the server reported an error.
    pub is_error: bool,
}

/// A tool with the server that has it and the name under which it is called.
#[derive(Debug)]
pub struct RoutedTool {
    pub qualified_name: String,
    pub server: String,
    pub tool: String,
    pub description: Option<String>,
    pub input_schema: Json,
}

/// What a tool says.
pub struct ToolView {
    pub name: Seq<char>,
    pub description: Option<Seq<char>>,
    pub input_schema: JsonView,
}

impl View for McpTool {
    type V = ToolView;

    open spec fn view(&self) -> ToolView {
        ToolView {
            name: self.name@,
            description: crate::text::opt_view(self.description),
            input_schema: self.input_schema@,
        }
    }
}

/// What a routed tool says.
pub struct RoutedView {
    pub server: Seq<char>,
    pub qualified_name: Seq<char>,
    pub tool: ToolView,
}

impl View for RoutedTool {
    type V = RoutedView;

    open spec fn view(&self) -> RoutedView {
        RoutedView {
            server: self.server@,
            qualified_name: self.qualified_name@,
            tool: ToolView {
                name: self.tool@,
                description: crate::text::opt_view(self.description),
                input_schema: self.input_schema@,
            },
        }
    }
}

// ---- names -------------------------------------------------------------------------

/// The name under which a server's tool is called.
pub open spec fn qualified(server: Seq<char>, tool: Seq<char>) -> Seq<char> {
    "mcp_"@ + crate::text::with_char(server, '-', '_') + "__"@ + tool
}

/// The server and the tool that a name calls, or why it calls none.
pub open spec fn split_name(name: Seq<char>) -> Result<(Seq<char>, Seq<char>), Seq<char>> {
    if !crate::text::begins(name, "mcp_"@) {
        Err("not a qualified MCP tool name: "@ + name)
    } else {
        match crate::text::split_at_text(name.skip("mcp_"@.len() as int), "__"@) {
            None => Err("malformed MCP tool name: "@ + name),
            Some(p) => Ok((crate::text::with_char(p.0, '_', '-'), p.1)),
        }
    }
}

/// The name under which a server's tool is called.
pub fn qualify(server: &str, tool: &str) -> (r: String)
    ensures
        r@ == qualified(server@, tool@),
{
    cat(&cat(&cat("mcp_", &replace_char(server, '-', '_')), "__"), tool)
}

/// The server and the tool that a name calls.
pub fn split_qualified(qualified: &str) -> (r: Result<(String, String), String>)
    ensures
        match r {
            Ok(p) => split_name(qualified@) == Ok::<(Seq<char>, Seq<char>), Seq<char>>(
                (p.0@, p.1@),
            ),
            Err(e) => split_name(qualified@) == Err::<(Seq<char>, Seq<char>), Seq<char>>(e@),
        },
{
    match strip_prefix(qualified, "mcp_") {
        None => Err(cat("not a qualified MCP tool name: ", qualified)),
        Some(rest) => match split_once(&rest, "__") {
            None => Err(cat("malformed MCP tool name: ", qualified)),
            Some((server, tool)) => Ok((replace_char(&server, '_', '-'), tool)),
        },
    }
}

// ---- results -----------------------------------------------------------------------

/// The text of one content item: that of a text item, and a mark for any other.
pub open spec fn item_text(item: JsonView) -> Option<Seq<char>> {
    match crate::json::text_field(item, "type"@) {
        Some(kind) => if kind == "text"@ {
            crate::json::text_field(item, "text"@)
        } else {
            Some("["@ + kind + " content]"@)
        },
        None => crate::json::text_field(item, "text"@),
    }
}

/// The texts of content items.
pub open spec fn item_texts(items: Seq<JsonView>) -> Seq<Seq<char>>
    decreases items.len(),
{
    if items.len() == 0 {
        Seq::empty()
    } else {
        match item_text(items.last()) {
            Some(t) => item_texts(items.drop_last()).push(t),
            None => item_texts(items.drop_last()),
        }
    }
}

/// The text of a content array.
pub open spec fn content_text(items: Seq<JsonView>) -> Seq<char> {
    crate::text::joined(item_texts(items), "\n"@)
}

fn text_of_item(item: &Json) -> (r: Option<String>)
    ensures
        crate::text::opt_view(r) == item_text(item@),
{
    match item.get_str("type") {
        Some(kind) => {
            if same(&kind, "text") {
                item.get_str("text")
            } else {
                Some(cat(&cat("[", &kind), " content]"))
            }
        },
        None => item.get_str("text"),
    }
}

/// The text of a content array: that of its text items, with a mark for each
/// other item, joined by line feeds.
pub fn extract_text(content: &Vec<Json>) -> (r: String)
    ensures
        r@ == content_text(crate::json::json_views(content@)),
{
    let ghost all = crate::json::json_views(content@);
    let mut parts: Vec<String> = Vec::new();
    let mut i: usize = 0;
    assert(crate::text::views(parts@) =~= item_texts(all.take(0)));
    while i < content.len()
        invariant
            i <= content@.len(),
            all == crate::json::json_views(content@),
            crate::text::views(parts@) == item_texts(all.take(i as int)),
        decreases content@.len() - i,
    {
        let ghost before = parts@;
        proof {
            let t = all.take(i + 1);
            assert(t.drop_last() =~= all.take(i as int));
            assert(t.last() == content@[i as int]@);
        }
        if let Some(t) = text_of_item(&content[i]) {
            parts.push(t);
            assert(crate::text::views(parts@) =~= crate::text::views(before).push(t@));
        }
        i = i + 1;
    }
    assert(all.take(all.len() as int) =~= all);
    join(&parts, "\n")
}

/// The items of a call result.
pub open spec fn content_of(raw: JsonView) -> Seq<JsonView> {
    match crate::json::field(raw, "content"@) {
        Some(JsonView::Array(v)) => v,
        _ => Seq::empty(),
    }
}

/// What a call result says, given as the JSON of the response.
pub fn call_result(raw: &Json) -> (r: McpToolResult)
    ensures
        r.text@ == content_text(content_of(raw@)),
        r.is_error == (crate::json::field(raw@, "isError"@) == Some(JsonView::Bool(true))),
{
    let is_error: bool = match raw.get("isError") {
        Some(Json::Bool(b)) => *b,
        _ => false,
    };
    let none: Vec<Json> = Vec::new();
    assert(crate::json::json_views(none@) =~= Seq::<JsonView>::empty());
    let text: String = match raw.get("content") {
        Some(j) => match j.as_array() {
            Some(v) => extract_text(v),
            None => extract_text(&none),
        },
        None => extract_text(&none),
    };
    McpToolResult { text, is_error }
}

/// The arguments of a call as an object: an object as it is, any other value as
/// the member `value`.
pub open spec fn arguments_of(args: JsonView) -> JsonView {
    match args {
        JsonView::Object(_) => args,
        _ => JsonView::Object(seq![("value"@, args)]),
    }
}

/// The arguments of a call as an object.
pub fn call_arguments(args: Json) -> (r: Json)
    ensures
        r@ == arguments_of(args@),
{
    match args {
        Json::Object(m) => Json::Object(m),
        other => {
            let m: Vec<(String, Json)> = put(object(), "value", other);
            let r: Json = close(m);
            assert(r@->Object_0 =~= seq![("value"@, other@)]);
            r
        },
    }
}

/// The value of the authorization header for a token.
pub fn auth_header(token: &Option<String>) -> (r: Option<String>)
    ensures
        match *token {
            None => r is None,
            Some(t) => r matches Some(h) && h@ == "Bearer "@ + t@,
        },
{
    match token {
        None => None,
        Some(t) => Some(cat("Bearer ", t)),
    }
}

// ---- the registry --------------------------------------------------------------------

/// A call that is ready to be made.
#[derive(Debug)]
pub struct McpCall {
    pub server: String,
    pub tool: String,
    /// The arguments, an object.
    pub arguments: Json,
}

/// The tools of one server as they are called.
pub open spec fn routed_of(server: Seq<char>, tools: Seq<McpTool>) -> Seq<RoutedView> {
    tools.map_values(
        |t: McpTool|
            RoutedView { server, qualified_name: qualified(server, t.name@), tool: t@ },
    )
}

/// The tools of the given servers as they are called.
pub open spec fn routed_all(
    live: Map<Seq<char>, Live<Vec<McpTool>>>,
    servers: Seq<Seq<char>>,
) -> Seq<RoutedView>
    decreases servers.len(),
{
    if servers.len() == 0 {
        Seq::empty()
    } else {
        routed_all(live, servers.drop_last()) + routed_of(
            servers.last(),
            live[servers.last()].data@,
        )
    }
}

/// What a list of routed tools says.
pub open spec fn routed_views(v: Seq<RoutedTool>) -> Seq<RoutedView> {
    v.map_values(|t: RoutedTool| t@)
}

/// The index of the first routed tool from `i` on with a name.
pub open spec fn first_named(routed: Seq<RoutedView>, name: Seq<char>, i: int) -> Option<int>
    decreases routed.len() - i,
{
    if !(0 <= i < routed.len()) {
        None
    } else if routed[i].qualified_name == name {
        Some(i)
    } else {
        first_named(routed, name, i + 1)
    }
}

/// The server and the tool that a name calls among connected servers, or why it calls
/// none: the first routed tool with the name, else the server and the tool that it is
/// made of, if that server is connected.
pub open spec fn target_of(
    live: Map<Seq<char>, Live<Vec<McpTool>>>,
    name: Seq<char>,
) -> Result<(Seq<char>, Seq<char>), Seq<char>> {
    let routed = routed_all(live, crate::table::sorted(live.dom()));
    match first_named(routed, name, 0) {
        Some(i) => Ok((routed[i].server, routed[i].tool.name)),
        None => match split_name(name) {
            Err(e) => Err(e),
            Ok(p) => if live.dom().contains(p.0) {
                Ok(p)
            } else {
                Err("unknown MCP server: "@ + p.0)
            },
        },
    }
}

/// The connected MCP servers, each with its tools.
pub struct McpRegistry {
    registry: Registry<Vec<McpTool>>,
}

impl View for McpRegistry {
    type V = Map<Seq<char>, Live<Vec<McpTool>>>;

    closed spec fn view(&self) -> Map<Seq<char>, Live<Vec<McpTool>>> {
        self.registry@
    }
}

impl McpRegistry {
    /// The table is in order.
    pub closed spec fn wf(&self) -> bool {
        self.registry.wf()
    }

    /// The ordered names list the connected servers.
    pub proof fn lemma_names(&self)
        requires
            self.wf(),
        ensures
            crate::table::lists(crate::table::sorted(self@.dom()), self@.dom()),
    {
        self.registry.lemma_names();
    }

    /// A registry without servers.
    pub fn new() -> (r: Self)
        ensures
            r.wf(),
            r@ == Map::<Seq<char>, Live<Vec<McpTool>>>::empty(),
    {
        McpRegistry { registry: Registry::new() }
    }

    /// Adds a connected server with its tools.
    pub fn add_server(&mut self, cfg: &McpServerConfig, tools: Vec<McpTool>)
        requires
            old(self).wf(),
        ensures
            final(self).wf(),
            final(self)@ == old(self)@.insert(cfg.name@, (Live { url: cfg.url, data: tools })),
    {
        self.registry.insert(cfg.name.clone(), cfg.url.clone(), tools);
    }

    /// Starts a reload that follows the desired servers: drops those that are not
    /// desired, and those whose URL differs.
    pub fn begin_reload(&mut self, desired: &Vec<McpServerConfig>) -> (r: Reload)
        requires
            old(self).wf(),
        ensures
            final(self).wf(),
            crate::reload::reload_ok(r, final(self)@),
            r.desired@ == endpoints(desired@),
            r.at == 0,
            final(self)@ == crate::reload::kept(old(self)@, endpoints(desired@)),
            crate::text::views(r.report.removed@) == crate::reload::dropped(
                old(self)@,
                endpoints(desired@),
            ),
            r.report.added@.len() == 0,
            r.report.failed@.len() == 0,
    {
        let mut list: Vec<Endpoint> = Vec::new();
        let mut i: usize = 0;
        while i < desired.len()
            invariant
                i <= desired@.len(),
                list@ == endpoints(desired@.take(i as int)),
            decreases desired@.len() - i,
        {
            let ghost before = list@;
            list.push(Endpoint { name: desired[i].name.clone(), url: desired[i].url.clone() });
            assert(endpoints(desired@.take(i + 1)) =~= before.push(
                Endpoint { name: desired@[i as int].name, url: desired@[i as int].url },
            ));
            i = i + 1;
        }
        assert(desired@.take(desired@.len() as int) =~= desired@);
        self.registry.begin_reload(list)
    }

    /// The index of the desired server that has to be connected next.
    pub fn next(&self, r: &mut Reload) -> (e: Option<usize>)
        requires
            self.wf(),
            crate::reload::reload_ok(*old(r), self@),
        ensures
            crate::reload::reload_ok(*final(r), self@),
            crate::reload::passes(*old(r), *final(r), self@),
            final(r).at < final(r).desired@.len() ==> !self@.dom().contains(
                final(r).desired@[final(r).at as int].name@,
            ),
            e == (if final(r).at < final(r).desired@.len() {
                Some(final(r).at)
            } else {
                None
            }),
    {
        match self.registry.next(r) {
            Some(_) => Some(r.at),
            None => None,
        }
    }

    /// Takes the outcome of connecting the server that was next.
    pub fn settle(&mut self, r: &mut Reload, outcome: Result<Vec<McpTool>, String>)
        requires
            old(self).wf(),
            crate::reload::reload_ok(*old(r), old(self)@),
            old(r).at < old(r).desired@.len(),
            !old(self)@.dom().contains(old(r).desired@[old(r).at as int].name@),
        ensures
            final(self).wf(),
            crate::reload::reload_ok(*final(r), final(self)@),
            crate::reload::settles(*old(r), old(self)@, outcome, *final(r), final(self)@),
    {
        self.registry.settle(r, outcome);
    }

    /// The tools of all servers as they are called, server by server.
    pub fn routed_tools(&self) -> (r: Vec<RoutedTool>)
        requires
            self.wf(),
        ensures
            routed_views(r@) == routed_all(self@, crate::table::sorted(self@.dom())),
            crate::table::lists(crate::table::sorted(self@.dom()), self@.dom()),
    {
        let servers: Vec<String> = self.registry.names();
        let ghost keys = crate::text::views(servers@);
        proof {
            self.registry.lemma_names();
        }
        let mut out: Vec<RoutedTool> = Vec::new();
        let mut i: usize = 0;
        assert(routed_views(out@) =~= Seq::<RoutedView>::empty());
        while i < servers.len()
            invariant
                self.wf(),
                keys == crate::text::views(servers@),
                crate::table::lists(keys, self@.dom()),
                i <= servers@.len(),
                routed_views(out@) == routed_all(self@, keys.take(i as int)),
            decreases servers@.len() - i,
        {
            let ghost key = keys[i as int];
            assert(key == servers@[i as int]@);
            assert(keys.contains(key));
            let ghost before = routed_views(out@);
            proof {
                assert(keys.take(i + 1).drop_last() =~= keys.take(i as int));
                assert(keys.take(i + 1).last() == key);
            }
            if let Some(l) = self.registry.get(&servers[i]) {
                let tools: &Vec<McpTool> = &l.data;
                let mut j: usize = 0;
                assert(before + routed_of(key, tools@.take(0)) =~= before);
                while j < tools.len()
                    invariant
                        j <= tools@.len(),
                        i < servers@.len(),
                        key == servers@[i as int]@,
                        routed_views(out@) == before + routed_of(key, tools@.take(j as int)),
                    decreases tools@.len() - j,
                {
                    let ghost had = out@;
                    let t: &McpTool = &tools[j];
                    let item: RoutedTool = RoutedTool {
                        qualified_name: qualify(&servers[i], &t.name),
                        server: servers[i].clone(),
                        tool: t.name.clone(),
                        description: dup_opt(&t.description),
                        input_schema: t.input_schema.dup(),
                    };
                    out.push(item);
                    assert(routed_views(out@) =~= routed_views(had).push(item@));
                    assert(routed_of(key, tools@.take(j + 1)) =~= routed_of(
                        key,
                        tools@.take(j as int),
                    ).push(item@));
                    assert(before + routed_of(key, tools@.take(j + 1)) =~= (before + routed_of(
                        key,
                        tools@.take(j as int),
                    )).push(item@));
                    j = j + 1;
                }
                assert(tools@.take(tools@.len() as int) =~= tools@);
            }
            i = i + 1;
        }
        assert(keys.take(keys.len() as int) =~= keys);
        out
    }

    /// The call that a qualified name and arguments make, or why they make none. A name
    /// under which tools are routed calls the first of these, in the order of
    /// `routed_tools`; any other name is read as a server and a tool.
    pub fn call_qualified(&self, qualified: &str, args: Json) -> (r: Result<McpCall, String>)
        requires
            self.wf(),
        ensures
            match target_of(self@, qualified@) {
                Err(e) => r matches Err(t) && t@ == e,
                Ok(p) => {
                    &&& r matches Ok(c)
                    &&& c.server@ == p.0
                    &&& c.tool@ == p.1
                    &&& c.arguments@ == arguments_of(args@)
                },
            },
    {
        let routed: Vec<RoutedTool> = self.routed_tools();
        let ghost all = routed_views(routed@);
        let mut i: usize = 0;
        while i < routed.len()
            invariant
                i <= routed@.len(),
                all == routed_views(routed@),
                all == routed_all(self@, crate::table::sorted(self@.dom())),
                first_named(all, qualified@, i as int) == first_named(all, qualified@, 0),
            decreases routed@.len() - i,
        {
            assert(all[i as int] == routed@[i as int]@);
            if same(&routed[i].qualified_name, qualified) {
                let t: &RoutedTool = &routed[i];
                return Ok(
                    McpCall {
                        server: t.server.clone(),
                        tool: t.tool.clone(),
                        arguments: call_arguments(args),
                    },
                );
            }
            i = i + 1;
        }
        match split_qualified(qualified) {
            Err(e) => Err(e),
            Ok((server, tool)) => {
                if self.registry.get(&server).is_none() {
                    return Err(cat("unknown MCP server: ", &server));
                }
                Ok(McpCall { server, tool, arguments: call_arguments(args) })
            },
        }
    }

    /// The names of the connected servers, in order.
    pub fn server_names(&self) -> (r: Vec<String>)
        requires
            self.wf(),
        ensures
            crate::text::views(r@) == crate::table::sorted(self@.dom()),
            crate::table::lists(crate::text::views(r@), self@.dom()),
    {
        proof {
            self.registry.lemma_names();
        }
        self.registry.names()
    }

    /// How many tools a server has; none when it is not connected.
    pub fn tool_count(&self, server: &str) -> (r: usize)
        requires
            self.wf(),
        ensures
            r == (if self@.dom().contains(server@) { self@[server@].data@.len() } else { 0 }),
    {
        match self.registry.get(server) {
            Some(l) => l.data.len(),
            None => 0,
        }
    }

    /// The number of connected servers.
    pub fn server_count(&self) -> (r: usize)
        requires
            self.wf(),
        ensures
            r == crate::table::sorted(self@.dom()).len(),
            crate::table::lists(crate::table::sorted(self@.dom()), self@.dom()),
    {
        proof {
            self.lemma_names();
        }
        self.registry.count()
    }
}

/// The endpoints of configured servers.
pub open spec fn endpoints(v: Seq<McpServerConfig>) -> Seq<Endpoint> {
    v.map_values(|c: McpServerConfig| Endpoint { name: c.name, url: c.url })
}

impl Default for McpRegistry {
    fn default() -> (r: Self)
        ensures
            r.wf(),
            r@ == Map::<Seq<char>, Live<Vec<McpTool>>>::empty(),
    {
        McpRegistry::new()
    }
}

// ---- laws --------------------------------------------------------------------------

/// The name of a tool leads back to its server and itself, for a server whose name
/// has no underscore, no two hyphens in a row, and no hyphen at its end.
pub proof fn qualified_names_split_back(server: Seq<char>, tool: Seq<char>)
    requires
        !server.contains('_'),
        !crate::text::has_text(server, "--"@),
        server.len() > 0 ==> server.last() != '-',
    ensures
        split_name(qualified(server, tool)) == Ok::<(Seq<char>, Seq<char>), Seq<char>>(
            (server, tool),
        ),
{
    reveal_strlit("mcp_");
    reveal_strlit("__");
    reveal_strlit("--");
    let s = crate::text::with_char(server, '-', '_');
    let q = qualified(server, tool);
    let p = "mcp_"@;
    let u = "__"@;
    let rest = s + u + tool;
    assert(q.take(4) =~= p);
    assert(q.skip(4) =~= rest);
    assert(server.skip(0) =~= server);
    lemma_first_separator(server, tool, 0);
    assert(rest.take(s.len() as int) =~= s);
    assert(rest.skip((s.len() + 2) as int) =~= tool);
    assert(crate::text::with_char(s, '_', '-') =~= server) by {
        assert forall|i: int| 0 <= i < server.len() implies crate::text::with_char(
            s,
            '_',
            '-',
        )[i] == server[i] by {
            if server[i] == '_' {
                assert(server.contains('_'));
            }
        }
    }
}

/// The separator of a qualified name is the first `__` behind the server.
proof fn lemma_first_separator(server: Seq<char>, tool: Seq<char>, i: int)
    requires
        0 <= i <= server.len(),
        !server.contains('_'),
        !crate::text::has_text(server.skip(i), "--"@),
        server.len() > 0 ==> server.last() != '-',
    ensures
        crate::text::find_text(
            crate::text::with_char(server.skip(i), '-', '_') + "__"@ + tool,
            "__"@,
        ) == Some(server.len() - i),
    decreases server.len() - i,
{
    reveal_strlit("__");
    reveal_strlit("--");
    let a = server.skip(i);
    let s = crate::text::with_char(a, '-', '_');
    let u = "__"@;
    let t = s + u + tool;
    if i == server.len() {
        assert(t.take(2) =~= u);
    } else {
        assert(!crate::text::begins(t, u)) by {
            if crate::text::begins(t, u) {
                assert(t.take(2)[0] == '_' && t.take(2)[1] == '_');
                assert(t[0] == '_' && t[1] == '_');
                assert(server.contains(server[i]));
                assert(a[0] == '-');
                if a.len() >= 2 {
                    assert(server.contains(server[i + 1]));
                    assert(a[1] == '-');
                    assert(a.take(2) =~= "--"@);
                    assert(crate::text::begins(a, "--"@));
                } else {
                    assert(server.last() == '-');
                }
            }
        }
        let n = server.skip(i + 1);
        assert(a.drop_first() =~= n);
        assert(!crate::text::has_text(n, "--"@));
        lemma_first_separator(server, tool, i + 1);
        assert(t.drop_first() =~= crate::text::with_char(n, '-', '_') + u + tool);
    }
}

proof fn lemma_first_named(routed: Seq<RoutedView>, name: Seq<char>, i: int)
    requires
        0 <= i <= routed.len(),
    ensures
        match first_named(routed, name, i) {
            Some(k) => {
                &&& i <= k < routed.len()
                &&& routed[k].qualified_name == name
                &&& forall|j: int| i <= j < k ==> (#[trigger] routed[j]).qualified_name != name
            },
            None => forall|j: int|
                i <= j < routed.len() ==> (#[trigger] routed[j]).qualified_name != name,
        },
    decreases routed.len() - i,
{
    if i < routed.len() && routed[i].qualified_name != name {
        lemma_first_named(routed, name, i + 1);
    }
}

/// Every routed tool can be called by its name: the call goes to its server and its tool,
/// or, where tools are routed under one name, to the first of these. No such call fails.
pub proof fn routed_tools_are_called(live: Map<Seq<char>, Live<Vec<McpTool>>>, i: int)
    requires
        0 <= i < routed_all(live, crate::table::sorted(live.dom())).len(),
    ensures
        ({
            let routed = routed_all(live, crate::table::sorted(live.dom()));
            let name = routed[i].qualified_name;
            exists|k: int|
                0 <= k <= i && (#[trigger] routed[k]).qualified_name == name && target_of(live, name)
                    == Ok::<(Seq<char>, Seq<char>), Seq<char>>(
                    (routed[k].server, routed[k].tool.name),
                ) && ((forall|j: int|
                    0 <= j < i ==> (#[trigger] routed[j]).qualified_name != name) ==> k == i)
        }),
{
    let routed = routed_all(live, crate::table::sorted(live.dom()));
    let name = routed[i].qualified_name;
    lemma_first_named(routed, name, 0);
    let k = first_named(routed, name, 0)->Some_0;
    assert(routed[k].qualified_name == name);
}

/// The arguments of a call are always an object.
pub proof fn call_arguments_are_objects(args: JsonView)
    ensures
        arguments_of(args) is Object,
        args is Object ==> arguments_of(args) == args,
{
}

/// The name under which a tool is called: the server, with its dashes as underscores, and the
/// tool behind it.
pub proof fn tools_are_named_by_server_and_tool(server: &str, tool: &str, r: String, s: Seq<char>)
    requires
        call_ensures(qualify, (server, tool), r),
        s.len() == server@.len(),
        forall|i: int|
            0 <= i < s.len() ==> #[trigger] s[i] == (if server@[i] == '-' {
                '_'
            } else {
                server@[i]
            }),
    ensures
        r@ == seq!['m', 'c', 'p', '_'] + s + seq!['_', '_'] + tool@,
{
    reveal_strlit("mcp_");
    reveal_strlit("__");
    assert("mcp_"@ =~= seq!['m', 'c', 'p', '_']);
    assert("__"@ =~= seq!['_', '_']);
    assert(crate::text::with_char(server@, '-', '_') =~= s);
}

proof fn lemma_routed(
    live: Map<Seq<char>, Live<Vec<McpTool>>>,
    servers: Seq<Seq<char>>,
    n: int,
)
    requires
        0 <= n < routed_all(live, servers).len(),
    ensures
        exists|i: int, j: int|
            0 <= i < servers.len() && 0 <= j < (#[trigger] live[servers[i]]).data@.len()
                && routed_all(live, servers)[n] == (RoutedView {
                server: servers[i],
                qualified_name: qualified(servers[i], live[servers[i]].data@[j].name@),
                tool: (#[trigger] live[servers[i]].data@[j])@,
            }),
    decreases servers.len(),
{
    let rest = servers.drop_last();
    let a = routed_all(live, rest);
    if n < a.len() {
        lemma_routed(live, rest, n);
        let (i, j) = choose|i: int, j: int|
            0 <= i < rest.len() && 0 <= j < (#[trigger] live[rest[i]]).data@.len() && a[n] == (
            RoutedView {
                server: rest[i],
                qualified_name: qualified(rest[i], live[rest[i]].data@[j].name@),
                tool: (#[trigger] live[rest[i]].data@[j])@,
            });
        assert(rest[i] == servers[i]);
        assert(live[servers[i]].data@[j]@ == live[rest[i]].data@[j]@);
    } else {
        let i = servers.len() - 1;
        let j = n - a.len();
        assert(routed_all(live, servers)[n] == routed_of(servers[i], live[servers[i]].data@)[j]);
        assert(live[servers[i]].data@[j]@ == live[servers[i]].data@[j]@);
    }
}

proof fn lemma_routes(
    live: Map<Seq<char>, Live<Vec<McpTool>>>,
    servers: Seq<Seq<char>>,
    i: int,
    j: int,
)
    requires
        0 <= i < servers.len(),
        0 <= j < live[servers[i]].data@.len(),
    ensures
        exists|n: int|
            0 <= n < routed_all(live, servers).len() && #[trigger] routed_all(live, servers)[n] == (
            RoutedView {
                server: servers[i],
                qualified_name: qualified(servers[i], live[servers[i]].data@[j].name@),
                tool: live[servers[i]].data@[j]@,
            }),
    decreases servers.len(),
{
    let rest = servers.drop_last();
    let a = routed_all(live, rest);
    if i < rest.len() {
        assert(rest[i] == servers[i]);
        lemma_routes(live, rest, i, j);
        let n = choose|n: int|
            0 <= n < a.len() && #[trigger] a[n] == (RoutedView {
                server: servers[i],
                qualified_name: qualified(servers[i], live[servers[i]].data@[j].name@),
                tool: live[servers[i]].data@[j]@,
            });
        assert(routed_all(live, servers)[n] == a[n]);
    } else {
        let n = a.len() + j;
        assert(routed_all(live, servers)[n] == routed_of(servers[i], live[servers[i]].data@)[j]);
    }
}

/// Every tool of every connected server is offered, under its qualified name and with its
/// description and schema, and nothing else is.
pub proof fn every_tool_is_offered(
    reg: &McpRegistry,
    r: Vec<RoutedTool>,
    server: Seq<char>,
    j: int,
    n: int,
)
    requires
        reg.wf(),
        call_ensures(McpRegistry::routed_tools, (reg,), r),
    ensures
        reg@.dom().contains(server) && 0 <= j < reg@[server].data@.len() ==> exists|n: int|
            {
                &&& 0 <= n < r@.len()
                &&& (#[trigger] r@[n]).server@ == server
                &&& r@[n].tool@ == reg@[server].data@[j].name@
                &&& r@[n].qualified_name@ == qualified(server, reg@[server].data@[j].name@)
                &&& r@[n].input_schema@ == reg@[server].data@[j].input_schema@
            },
        0 <= n < r@.len() ==> reg@.dom().contains(r@[n].server@) && exists|j: int|
            0 <= j < reg@[r@[n].server@].data@.len() && (#[trigger] reg@[r@[n].server@].data@[j]).name@
                == r@[n].tool@,
{
    let keys = crate::table::sorted(reg@.dom());
    let v = routed_views(r@);
    assert(v.len() == r@.len());
    if reg@.dom().contains(server) && 0 <= j < reg@[server].data@.len() {
        assert(keys.contains(server));
        let i = choose|i: int| 0 <= i < keys.len() && keys[i] == server;
        lemma_routes(reg@, keys, i, j);
        let n = choose|n: int|
            0 <= n < v.len() && #[trigger] v[n] == (RoutedView {
                server,
                qualified_name: qualified(server, reg@[server].data@[j].name@),
                tool: reg@[server].data@[j]@,
            });
        assert(v[n] == r@[n]@);
    }
    if 0 <= n < r@.len() {
        lemma_routed(reg@, keys, n);
        assert(v[n] == r@[n]@);
        let (i, j) = choose|i: int, j: int|
            0 <= i < keys.len() && 0 <= j < (#[trigger] reg@[keys[i]]).data@.len() && v[n] == (
            RoutedView {
                server: keys[i],
                qualified_name: qualified(keys[i], reg@[keys[i]].data@[j].name@),
                tool: (#[trigger] reg@[keys[i]].data@[j])@,
            });
        assert(keys.contains(keys[i]));
        assert(reg@[r@[n].server@].data@[j].name@ == r@[n].tool@);
    }
}

/// A call by the name of an offered tool goes to a connected server that has a tool of that
/// name, with the arguments as they are given. No call goes to a server that is not connected.
pub proof fn calls_go_to_a_server_with_the_tool(
    reg: &McpRegistry,
    name: &str,
    args: Json,
    r: Result<McpCall, String>,
    server: Seq<char>,
    j: int,
)
    requires
        reg.wf(),
        call_ensures(McpRegistry::call_qualified, (reg, name, args), r),
    ensures
        reg@.dom().contains(server) && 0 <= j < reg@[server].data@.len() && qualified(
            server,
            reg@[server].data@[j].name@,
        ) == name@ ==> (r matches Ok(c) && reg@.dom().contains(c.server@) && qualified(
            c.server@,
            c.tool@,
        ) == name@ && exists|k: int|
            0 <= k < reg@[c.server@].data@.len() && (#[trigger] reg@[c.server@].data@[k]).name@
                == c.tool@),
        r matches Ok(c) ==> reg@.dom().contains(c.server@) && (args@ is Object ==> c.arguments@
            == args@),
{
    let live = reg@;
    let keys = crate::table::sorted(live.dom());
    let routed = routed_all(live, keys);
    reg.lemma_names();
    lemma_first_named(routed, name@, 0);
    if let Some(n) = first_named(routed, name@, 0) {
        lemma_routed(live, keys, n);
        let (i, k) = choose|i: int, k: int|
            0 <= i < keys.len() && 0 <= k < (#[trigger] live[keys[i]]).data@.len() && routed[n] == (
            RoutedView {
                server: keys[i],
                qualified_name: qualified(keys[i], live[keys[i]].data@[k].name@),
                tool: (#[trigger] live[keys[i]].data@[k])@,
            });
        assert(keys.contains(keys[i]));
        assert(live.dom().contains(keys[i]));
        assert(live[routed[n].server].data@[k].name@ == routed[n].tool.name);
    }
    if live.dom().contains(server) && 0 <= j < live[server].data@.len() && qualified(
        server,
        live[server].data@[j].name@,
    ) == name@ {
        assert(keys.contains(server));
        let i = choose|i: int| 0 <= i < keys.len() && keys[i] == server;
        lemma_routes(live, keys, i, j);
        let n = choose|n: int|
            0 <= n < routed.len() && #[trigger] routed[n] == (RoutedView {
                server,
                qualified_name: qualified(server, live[server].data@[j].name@),
                tool: live[server].data@[j]@,
            });
        assert(routed[n].qualified_name == name@);
    }
}

/// The text of a result is that of its items, one on a line: the text of a text, and for an
/// item of another kind that it is one.
pub proof fn results_are_read_item_by_item(items: Seq<JsonView>, x: JsonView)
    ensures
        content_text(items) == crate::text::joined(item_texts(items), seq!['\n']),
        item_texts(Seq::empty()) == Seq::<Seq<char>>::empty(),
        match crate::json::field(x, "type"@) {
            Some(JsonView::Str(kind)) => if kind == "text"@ {
                match crate::json::field(x, "text"@) {
                    Some(JsonView::Str(t)) => item_texts(items.push(x)) == item_texts(items).push(t),
                    _ => item_texts(items.push(x)) == item_texts(items),
                }
            } else {
                item_texts(items.push(x)) == item_texts(items).push("["@ + kind + " content]"@)
            },
            _ => match crate::json::field(x, "text"@) {
                Some(JsonView::Str(t)) => item_texts(items.push(x)) == item_texts(items).push(t),
                _ => item_texts(items.push(x)) == item_texts(items),
            },
        },
{
    reveal_strlit("\n");
    assert("\n"@ =~= seq!['\n']);
    assert(items.push(x).drop_last() =~= items);
}

/// What a server answers to a call: its items, and whether it says that it failed.
pub proof fn answers_are_read(raw: &Json, r: McpToolResult)
    requires
        call_ensures(call_result, (raw,), r),
    ensures
        crate::json::field(raw@, "content"@) matches Some(JsonView::Array(v)) ==> r.text@
            == content_text(v),
        !(crate::json::field(raw@, "content"@) matches Some(JsonView::Array(_))) ==> r.text@
            == content_text(Seq::empty()),
        r.is_error <==> crate::json::field(raw@, "isError"@) == Some(JsonView::Bool(true)),
{
}

/// A configured server is an endpoint with its name and its URL.
pub proof fn servers_are_endpoints(v: Seq<McpServerConfig>, i: int)
    requires
        0 <= i < v.len(),
    ensures
        endpoints(v).len() == v.len(),
        endpoints(v)[i].name == v[i].name,
        endpoints(v)[i].url == v[i].url,
{
}

/// A token is sent as a bearer; without one nothing is sent.
pub proof fn tokens_are_sent_as_bearers(token: &Option<String>, r: Option<String>)
    requires
        call_ensures(auth_header, (token,), r),
    ensures
        r is Some <==> *token is Some,
        *token matches Some(t) ==> (r matches Some(h) && h@ == "Bearer "@ + t@),
{
}

/// A server is live under its name with its URL and its tools, and the others stay.
pub proof fn servers_are_added_by_name(
    m: &mut McpRegistry,
    cfg: &McpServerConfig,
    tools: Vec<McpTool>,
    other: Seq<char>,
)
    requires
        old(m).wf(),
        call_ensures(McpRegistry::add_server, (m, cfg, tools), ()),
    ensures
        final(m)@.dom().contains(cfg.name@),
        final(m)@[cfg.name@].url == cfg.url && final(m)@[cfg.name@].data == tools,
        other != cfg.name@ ==> final(m)@.dom().contains(other) == old(m)@.dom().contains(other)
            && final(m)@[other] == old(m)@[other],
{
}

/// A reload of the servers takes the steps of a reload, with the servers as its endpoints.
pub proof fn server_reloads_take_their_steps(
    a: &mut McpRegistry,
    desired: &Vec<McpServerConfig>,
    x: Reload,
    b: &McpRegistry,
    y: &mut Reload,
    e: Option<usize>,
    c: &mut McpRegistry,
    z: &mut Reload,
    outcome: Result<Vec<McpTool>, String>,
)
    requires
        old(a).wf(),
        call_ensures(McpRegistry::begin_reload, (a, desired), x),
        b.wf() && crate::reload::reload_ok(*old(y), b@),
        call_ensures(McpRegistry::next, (b, y), e),
        old(c).wf() && crate::reload::reload_ok(*old(z), old(c)@) && old(z).at < old(
            z).desired@.len(),
        !old(c)@.dom().contains(old(z).desired@[old(z).at as int].name@),
        call_ensures(McpRegistry::settle, (c, z, outcome), ()),
    ensures
        final(a)@ == crate::reload::kept(old(a)@, endpoints(desired@)),
        x.desired@ == endpoints(desired@) && x.at == 0 && x.report.added@.len() == 0
            && x.report.failed@.len() == 0,
        crate::text::views(x.report.removed@) == crate::reload::dropped(
            old(a)@,
            endpoints(desired@),
        ),
        crate::reload::passes(*old(y), *final(y), b@),
        e == (if final(y).at < final(y).desired@.len() {
            Some(final(y).at)
        } else {
            None
        }),
        crate::reload::settles(*old(z), old(c)@, outcome, *final(z), final(c)@),
{
}

/// A name that no tool has is taken apart: behind the prefix the server, with a dash for each
/// underscore, up to the first two underscores, and the tool behind them. A name that cannot be
/// taken apart, or names no live server, is told so.
pub proof fn other_names_are_taken_apart(
    name: &str,
    r: Result<(String, String), String>,
    s: Seq<char>,
    t: Seq<char>,
)
    requires
        call_ensures(split_qualified, (name,), r),
    ensures
        !crate::text::begins(name@, "mcp_"@) ==> (r matches Err(e) && e@
            == "not a qualified MCP tool name: "@ + name@),
        crate::text::begins(name@, "mcp_"@) && !crate::text::has_text(name@.skip(4), "__"@) ==> (
        r matches Err(e) && e@ == "malformed MCP tool name: "@ + name@),
        name@ == "mcp_"@ + (s + "__"@ + t) && (forall|i: int|
            0 <= i < s.len() ==> #[trigger] (s + "__"@ + t).subrange(i, i + 2) != "__"@) ==> (
        r matches Ok(p) && p.1@ == t && p.0@.len() == s.len() && forall|i: int|
            0 <= i < s.len() ==> #[trigger] p.0@[i] == (if s[i] == '_' {
                '-'
            } else {
                s[i]
            })),
{
    reveal_strlit("mcp_");
    reveal_strlit("__");
    assert("mcp_"@.len() == 4 && "__"@.len() == 2);
    let u = s + "__"@ + t;
    if name@ == "mcp_"@ + u && (forall|i: int|
        0 <= i < s.len() ==> #[trigger] (s + "__"@ + t).subrange(i, i + 2) != "__"@) {
        assert(name@.take(4) =~= "mcp_"@);
        assert(name@.skip(4) =~= u);
        assert forall|i: int| 0 <= i < s.len() implies #[trigger] (s + "__"@ + t).subrange(
            i,
            i + "__"@.len(),
        ) != "__"@ by {
            assert((s + "__"@ + t).subrange(i, i + 2) != "__"@);
        }
        crate::text::texts_are_split_at_the_first(s, "__"@, t);
    }
}

/// Arguments that are an object are handed on as they are; anything else is handed on in one.
pub proof fn arguments_are_objects(args: Json, r: Json)
    requires
        call_ensures(call_arguments, (args,), r),
    ensures
        args@ is Object ==> r@ == args@,
        !(args@ is Object) ==> r@ is Object && crate::json::field(r@, "value"@) == Some(args@),
{
}

} // verus!
