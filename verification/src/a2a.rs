//! Remote A2A agents: what their replies say and which agents are connected.

use vstd::prelude::*;
use crate::config::A2aAgentConfig;
use crate::reload::{Endpoint, Live, Registry, Reload};
use crate::text::{cat, join, trim_end_matches};

verus! {

/// One part of a message.
#[derive(Debug)]
pub enum Part {
    Text(String),
    /// Data, a file, or anything else without text.
    Other,
}

/// A message of an agent.
#[derive(Debug)]
pub struct Message {
    pub parts: Vec<Part>,
}

/// Something that a task produced.
#[derive(Debug)]
pub struct Artifact {
    pub parts: Vec<Part>,
}

/// Where a task stands.
#[derive(Debug, Clone, Copy, PartialEq, Eq, Structural)]
pub enum TaskState {
    Unspecified,
    Submitted,
    Working,
    Completed,
    Failed,
    Canceled,
    InputRequired,
    Rejected,
    AuthRequired,
}

/// The state of a task and what the agent says about it.
#[derive(Debug)]
pub struct TaskStatus {
    pub state: TaskState,
    pub message: Option<Message>,
}

/// A task.
#[derive(Debug)]
pub struct Task {
    pub id: String,
    pub status: TaskStatus,
    pub artifacts: Option<Vec<Artifact>>,
}

/// What an agent answers.
#[derive(Debug)]
pub enum SendResponse {
    Task(Task),
    Message(Message),
}

/// An answer as text.
#[derive(Debug)]
pub struct A2aResult {
    pub text: String,
    /// The state of the task, when the answer is one.
    pub state: Option<String>,
}

/// The name of a state.
pub open spec fn state_label(s: TaskState) -> Seq<char> {
    match s {
        TaskState::Unspecified => "Unspecified"@,
        TaskState::Submitted => "Submitted"@,
        TaskState::Working => "Working"@,
        TaskState::Completed => "Completed"@,
        TaskState::Failed => "Failed"@,
        TaskState::Canceled => "Canceled"@,
        TaskState::InputRequired => "InputRequired"@,
        TaskState::Rejected => "Rejected"@,
        TaskState::AuthRequired => "AuthRequired"@,
    }
}

impl TaskState {
    /// The name of the state.
    pub fn label(&self) -> (r: &'static str)
        ensures
            r@ == state_label(*self),
    {
        match self {
            TaskState::Unspecified => "Unspecified",
            TaskState::Submitted => "Submitted",
            TaskState::Working => "Working",
            TaskState::Completed => "Completed",
            TaskState::Failed => "Failed",
            TaskState::Canceled => "Canceled",
            TaskState::InputRequired => "InputRequired",
            TaskState::Rejected => "Rejected",
            TaskState::AuthRequired => "AuthRequired",
        }
    }
}

/// The texts of the text parts, in order.
pub open spec fn part_texts(parts: Seq<Part>) -> Seq<Seq<char>>
    decreases parts.len(),
{
    if parts.len() == 0 {
        Seq::empty()
    } else {
        match parts.last() {
            Part::Text(s) => part_texts(parts.drop_last()).push(s@),
            Part::Other => part_texts(parts.drop_last()),
        }
    }
}

/// The texts of all artifacts, in order.
pub open spec fn artifact_texts(v: Seq<Artifact>) -> Seq<Seq<char>>
    decreases v.len(),
{
    if v.len() == 0 {
        Seq::empty()
    } else {
        artifact_texts(v.drop_last()) + part_texts(v.last().parts@)
    }
}

/// The text of a message: that of its first text part.
pub open spec fn message_text(m: Message) -> Option<Seq<char>> {
    let t = part_texts(m.parts@);
    if t.len() > 0 {
        Some(t[0])
    } else {
        None
    }
}

/// The text of a task: that of its status message, else those of its artifacts,
/// else a note of its state.
pub open spec fn text_of_task(t: Task) -> Seq<char> {
    let said = match t.status.message {
        Some(m) => message_text(m),
        None => None,
    };
    let made = match t.artifacts {
        Some(a) => artifact_texts(a@),
        None => Seq::empty(),
    };
    match said {
        Some(s) => s,
        None => if made.len() > 0 {
            crate::text::joined(made, "\n"@)
        } else {
            "[task "@ + t.id@ + " — "@ + state_label(t.status.state) + ", no text]"@
        },
    }
}

proof fn lemma_part_texts_prefix(parts: Seq<Part>, k: int)
    requires
        0 <= k <= parts.len(),
        part_texts(parts.take(k)).len() > 0,
    ensures
        part_texts(parts).len() > 0,
        part_texts(parts)[0] == part_texts(parts.take(k))[0],
    decreases parts.len() - k,
{
    if k == parts.len() {
        assert(parts.take(k) =~= parts);
    } else {
        assert(parts.take(k + 1).drop_last() =~= parts.take(k));
        lemma_part_texts_prefix(parts, k + 1);
    }
}

impl Message {
    /// The text of the first text part.
    pub fn text(&self) -> (r: Option<&str>)
        ensures
            crate::text::opt_str_view(r) == message_text(*self),
    {
        let ghost all = self.parts@;
        let mut i: usize = 0;
        assert(part_texts(all.take(0)) =~= Seq::<Seq<char>>::empty());
        while i < self.parts.len()
            invariant
                all == self.parts@,
                i <= all.len(),
                part_texts(all.take(i as int)).len() == 0,
            decreases all.len() - i,
        {
            assert(all.take(i + 1).drop_last() =~= all.take(i as int));
            if let Part::Text(s) = &self.parts[i] {
                proof {
                    lemma_part_texts_prefix(all, i + 1);
                }
                return Some(s.as_str());
            }
            i = i + 1;
        }
        assert(all.take(all.len() as int) =~= all);
        None
    }
}

fn collect_parts(parts: &Vec<Part>, out: &mut Vec<String>)
    ensures
        crate::text::views(final(out)@) == crate::text::views(old(out)@) + part_texts(parts@),
{
    let ghost start = crate::text::views(out@);
    let ghost all = parts@;
    let mut i: usize = 0;
    assert(start + part_texts(all.take(0)) =~= start);
    while i < parts.len()
        invariant
            all == parts@,
            i <= all.len(),
            crate::text::views(out@) == start + part_texts(all.take(i as int)),
        decreases all.len() - i,
    {
        let ghost before = out@;
        assert(all.take(i + 1).drop_last() =~= all.take(i as int));
        if let Part::Text(s) = &parts[i] {
            out.push(s.clone());
            assert(crate::text::views(out@) =~= crate::text::views(before).push(s@));
            assert(start + part_texts(all.take(i + 1)) =~= (start + part_texts(
                all.take(i as int),
            )).push(s@));
        }
        i = i + 1;
    }
    assert(all.take(all.len() as int) =~= all);
}

/// The text of a task.
pub fn task_text(task: &Task) -> (r: String)
    ensures
        r@ == text_of_task(*task),
{
    if let Some(m) = &task.status.message {
        if let Some(t) = m.text() {
            return t.to_string();
        }
    }
    if let Some(arts) = &task.artifacts {
        let mut parts: Vec<String> = Vec::new();
        let ghost all = arts@;
        let mut i: usize = 0;
        assert(crate::text::views(parts@) =~= artifact_texts(all.take(0)));
        while i < arts.len()
            invariant
                all == arts@,
                i <= all.len(),
                crate::text::views(parts@) == artifact_texts(all.take(i as int)),
            decreases all.len() - i,
        {
            assert(all.take(i + 1).drop_last() =~= all.take(i as int));
            collect_parts(&arts[i].parts, &mut parts);
            i = i + 1;
        }
        assert(all.take(all.len() as int) =~= all);
        assert(crate::text::views(parts@).len() == parts@.len());
        if parts.len() > 0 {
            return join(&parts, "\n");
        }
    }
    let a: String = cat(&cat("[task ", &task.id), " — ");
    cat(&cat(&a, task.status.state.label()), ", no text]")
}

/// An answer as text.
pub fn result_of(resp: &SendResponse) -> (r: A2aResult)
    ensures
        match *resp {
            SendResponse::Task(t) => {
                &&& r.text@ == text_of_task(t)
                &&& crate::text::opt_view(r.state) == Some(state_label(t.status.state))
            },
            SendResponse::Message(m) => {
                &&& r.text@ == (match message_text(m) {
                    Some(s) => s,
                    None => Seq::empty(),
                })
                &&& r.state is None
            },
        },
{
    match resp {
        SendResponse::Task(t) => A2aResult {
            text: task_text(t),
            state: Some(t.status.state.label().to_string()),
        },
        SendResponse::Message(m) => {
            let text: String = match m.text() {
                Some(s) => s.to_string(),
                None => String::new(),
            };
            assert(message_text(*m) is None ==> text@ =~= Seq::<char>::empty());
            A2aResult { text, state: None }
        },
    }
}

/// Where the card of an agent is, given its base URL.
pub open spec fn card_url_of(base: Seq<char>) -> Seq<char> {
    crate::text::strip_trailing(base, '/') + "/.well-known/agent-card.json"@
}

/// Where the card of an agent is.
pub fn card_url(base: &str) -> (r: String)
    ensures
        r@ == card_url_of(base@),
{
    cat(&trim_end_matches(base, '/'), "/.well-known/agent-card.json")
}

/// The token to authenticate with; an empty one counts as none.
pub fn bearer(token: Option<&str>) -> (r: Option<&str>)
    ensures
        r == (match token {
            Some(t) => if t@.len() == 0 { None } else { Some(t) },
            None => None,
        }),
{
    match token {
        Some(t) => if t.is_empty() {
            None
        } else {
            Some(t)
        },
        None => None,
    }
}

/// The endpoints of configured agents.
pub open spec fn endpoints(v: Seq<A2aAgentConfig>) -> Seq<Endpoint> {
    v.map_values(|c: A2aAgentConfig| Endpoint { name: c.name, url: c.url })
}

/// The connected agents.
pub struct A2aRegistry {
    registry: Registry<()>,
}

impl View for A2aRegistry {
    type V = Map<Seq<char>, Live<()>>;

    closed spec fn view(&self) -> Map<Seq<char>, Live<()>> {
        self.registry@
    }
}

impl A2aRegistry {
    /// The table is in order.
    pub closed spec fn wf(&self) -> bool {
        self.registry.wf()
    }

    /// The ordered names list the connected agents.
    pub proof fn lemma_names(&self)
        requires
            self.wf(),
        ensures
            crate::table::lists(crate::table::sorted(self@.dom()), self@.dom()),
    {
        self.registry.lemma_names();
    }

    /// A registry without agents.
    pub fn new() -> (r: Self)
        ensures
            r.wf(),
            r@ == Map::<Seq<char>, Live<()>>::empty(),
    {
        A2aRegistry { registry: Registry::new() }
    }

    /// Adds a connected agent.
    pub fn add_agent(&mut self, cfg: &A2aAgentConfig)
        requires
            old(self).wf(),
        ensures
            final(self).wf(),
            final(self)@ == old(self)@.insert(cfg.name@, (Live { url: cfg.url, data: () })),
    {
        self.registry.insert(cfg.name.clone(), cfg.url.clone(), ());
    }

    /// Starts a reload that follows the desired agents: drops those that are not
    /// desired, and those whose URL differs.
    pub fn begin_reload(&mut self, desired: &Vec<A2aAgentConfig>) -> (r: Reload)
        requires
            old(self).wf(),
        ensures
            final(self).wf(),
            crate::reload::reload_ok(r, final(self)@),
            r.desired@ == endpoints(desired@),
            r.at == 0,
            final(self)@ == crate::reload::kept(old(self)@, endpoints(desired@)),
            crate::text::views(r.report.removed@) == crate::reload::dropped(
                old(self)@,
                endpoints(desired@),
            ),
            r.report.added@.len() == 0,
            r.report.failed@.len() == 0,
    {
        let mut list: Vec<Endpoint> = Vec::new();
        let mut i: usize = 0;
        while i < desired.len()
            invariant
                i <= desired@.len(),
                list@ == endpoints(desired@.take(i as int)),
            decreases desired@.len() - i,
        {
            let ghost before = list@;
            list.push(Endpoint { name: desired[i].name.clone(), url: desired[i].url.clone() });
            assert(endpoints(desired@.take(i + 1)) =~= before.push(
                Endpoint { name: desired@[i as int].name, url: desired@[i as int].url },
            ));
            i = i + 1;
        }
        assert(desired@.take(desired@.len() as int) =~= desired@);
        self.registry.begin_reload(list)
    }

    /// The index of the desired agent that has to be connected next.
    pub fn next(&self, r: &mut Reload) -> (e: Option<usize>)
        requires
            self.wf(),
            crate::reload::reload_ok(*old(r), self@),
        ensures
            crate::reload::reload_ok(*final(r), self@),
            crate::reload::passes(*old(r), *final(r), self@),
            final(r).at < final(r).desired@.len() ==> !self@.dom().contains(
                final(r).desired@[final(r).at as int].name@,
            ),
            e == (if final(r).at < final(r).desired@.len() {
                Some(final(r).at)
            } else {
                None
            }),
    {
        match self.registry.next(r) {
            Some(_) => Some(r.at),
            None => None,
        }
    }

    /// Takes the outcome of connecting the agent that was next.
    pub fn settle(&mut self, r: &mut Reload, outcome: Result<(), String>)
        requires
            old(self).wf(),
            crate::reload::reload_ok(*old(r), old(self)@),
            old(r).at < old(r).desired@.len(),
            !old(self)@.dom().contains(old(r).desired@[old(r).at as int].name@),
        ensures
            final(self).wf(),
            crate::reload::reload_ok(*final(r), final(self)@),
            crate::reload::settles(*old(r), old(self)@, outcome, *final(r), final(self)@),
    {
        self.registry.settle(r, outcome);
    }

    /// The number of connected agents.
    pub fn agent_count(&self) -> (r: usize)
        requires
            self.wf(),
        ensures
            r == crate::table::sorted(self@.dom()).len(),
            crate::table::lists(crate::table::sorted(self@.dom()), self@.dom()),
    {
        proof {
            self.lemma_names();
        }
        self.registry.count()
    }

    /// The names of the connected agents, in order.
    pub fn agent_names(&self) -> (r: Vec<String>)
        requires
            self.wf(),
        ensures
            crate::text::views(r@) == crate::table::sorted(self@.dom()),
            crate::table::lists(crate::text::views(r@), self@.dom()),
    {
        proof {
            self.lemma_names();
        }
        self.registry.names()
    }

    /// Whether a prompt can be sent to an agent; why not otherwise.
    pub fn send(&self, name: &str) -> (r: Result<(), String>)
        requires
            self.wf(),
        ensures
            r is Ok == self@.dom().contains(name@),
            r matches Err(e) ==> e@ == "unknown A2A agent: "@ + name@,
    {
        if self.registry.get(name).is_some() {
            Ok(())
        } else {
            Err(cat("unknown A2A agent: ", name))
        }
    }
}

impl Default for A2aRegistry {
    fn default() -> (r: Self)
        ensures
            r.wf(),
            r@ == Map::<Seq<char>, Live<()>>::empty(),
    {
        A2aRegistry::new()
    }
}

// ---- laws --------------------------------------------------------------------------

/// The texts of parts are those of the parts that are texts, in their order.
pub proof fn parts_tell_their_texts(v: Seq<Part>, p: Part, a: Seq<Artifact>, x: Artifact)
    ensures
        part_texts(Seq::empty()) == Seq::<Seq<char>>::empty(),
        p matches Part::Text(t) ==> part_texts(v.push(p)) == part_texts(v).push(t@),
        p is Other ==> part_texts(v.push(p)) == part_texts(v),
        artifact_texts(Seq::empty()) == Seq::<Seq<char>>::empty(),
        artifact_texts(a.push(x)) == artifact_texts(a) + part_texts(x.parts@),
{
    assert(v.push(p).drop_last() =~= v);
    assert(a.push(x).drop_last() =~= a);
}

/// What an agent says of a task: the first text of its message, else the texts of what it made,
/// one on a line, and else that there is none and how the task stands.
pub proof fn tasks_tell_what_was_said_or_made(t: &Task, r: String)
    requires
        call_ensures(task_text, (t,), r),
    ensures
        ({
            let said = match t.status.message {
                Some(m) => part_texts(m.parts@),
                None => Seq::empty(),
            };
            let made = match t.artifacts {
                Some(a) => artifact_texts(a@),
                None => Seq::empty(),
            };
            &&& said.len() > 0 ==> r@ == said[0]
            &&& said.len() == 0 && made.len() > 0 ==> r@ == crate::text::joined(made, seq!['\n'])
            &&& said.len() == 0 && made.len() == 0 ==> r@ == "[task "@ + t.id@ + " — "@
                + state_label(t.status.state) + ", no text]"@
        }),
{
    reveal_strlit("\n");
    assert("\n"@ =~= seq!['\n']);
}

/// An answer is a task, with how it stands, or a message with its first text.
pub proof fn answers_are_tasks_or_messages(resp: &SendResponse, r: A2aResult)
    requires
        call_ensures(result_of, (resp,), r),
    ensures
        resp matches SendResponse::Task(t) ==> r.text@ == text_of_task(*t) && (r.state matches
            Some(s) && s@ == state_label(t.status.state)),
        resp matches SendResponse::Message(m) ==> r.state is None && (part_texts(m.parts@).len() > 0
            ==> r.text@ == part_texts(m.parts@)[0]) && (part_texts(m.parts@).len() == 0
            ==> r.text@.len() == 0),
        state_label(TaskState::Completed) == "Completed"@,
        state_label(TaskState::Failed) == "Failed"@,
        state_label(TaskState::Working) == "Working"@,
        state_label(TaskState::Submitted) == "Submitted"@,
        state_label(TaskState::Canceled) == "Canceled"@,
        state_label(TaskState::Rejected) == "Rejected"@,
        state_label(TaskState::InputRequired) == "InputRequired"@,
        state_label(TaskState::AuthRequired) == "AuthRequired"@,
{
}

/// The card of an agent lies at the well-known path below its URL, whether that ends with
/// slashes or not.
pub proof fn cards_lie_at_the_well_known_path(base: &str, r: String, host: Seq<char>, n: nat)
    requires
        call_ensures(card_url, (base,), r),
        base@ == host + Seq::new(n, |i: int| '/'),
        host.len() > 0 ==> host.last() != '/',
    ensures
        r@ == host + "/.well-known/agent-card.json"@,
{
    crate::text::trailing_runs_are_stripped(host, '/', n);
}

/// A configured agent is an endpoint with its name and its URL.
pub proof fn agents_are_endpoints(v: Seq<A2aAgentConfig>, i: int)
    requires
        0 <= i < v.len(),
    ensures
        endpoints(v).len() == v.len(),
        endpoints(v)[i].name == v[i].name,
        endpoints(v)[i].url == v[i].url,
{
}

/// An empty token is no token.
pub proof fn empty_tokens_are_none(token: Option<&str>, r: Option<&str>)
    requires
        call_ensures(bearer, (token,), r),
    ensures
        r is Some <==> (token matches Some(t) && t@.len() > 0),
        r is Some ==> r == token,
{
}

/// An agent is live under its name with its URL, and the others stay.
pub proof fn agents_are_added_by_name(
    m: &mut A2aRegistry,
    cfg: &A2aAgentConfig,
    other: Seq<char>,
)
    requires
        old(m).wf(),
        call_ensures(A2aRegistry::add_agent, (m, cfg), ()),
    ensures
        final(m)@.dom().contains(cfg.name@) && final(m)@[cfg.name@].url == cfg.url,
        other != cfg.name@ ==> final(m)@.dom().contains(other) == old(m)@.dom().contains(other)
            && final(m)@[other] == old(m)@[other],
{
}

/// A reload of the agents takes the steps of a reload, with the agents as its endpoints.
pub proof fn agent_reloads_take_their_steps(
    a: &mut A2aRegistry,
    desired: &Vec<A2aAgentConfig>,
    x: Reload,
    b: &A2aRegistry,
    y: &mut Reload,
    e: Option<usize>,
    c: &mut A2aRegistry,
    z: &mut Reload,
    outcome: Result<(), String>,
)
    requires
        old(a).wf(),
        call_ensures(A2aRegistry::begin_reload, (a, desired), x),
        b.wf() && crate::reload::reload_ok(*old(y), b@),
        call_ensures(A2aRegistry::next, (b, y), e),
        old(c).wf() && crate::reload::reload_ok(*old(z), old(c)@) && old(z).at < old(
            z).desired@.len(),
        !old(c)@.dom().contains(old(z).desired@[old(z).at as int].name@),
        call_ensures(A2aRegistry::settle, (c, z, outcome), ()),
    ensures
        final(a)@ == crate::reload::kept(old(a)@, endpoints(desired@)),
        x.desired@ == endpoints(desired@) && x.at == 0 && x.report.added@.len() == 0
            && x.report.failed@.len() == 0,
        crate::text::views(x.report.removed@) == crate::reload::dropped(
            old(a)@,
            endpoints(desired@),
        ),
        crate::reload::passes(*old(y), *final(y), b@),
        e == (if final(y).at < final(y).desired@.len() {
            Some(final(y).at)
        } else {
            None
        }),
        crate::reload::settles(*old(z), old(c)@, outcome, *final(z), final(c)@),
{
}

} // verus!
