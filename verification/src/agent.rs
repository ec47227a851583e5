//! The chat agent: what it remembers of a conversation, what it sends to the
//! model, and how it goes on from what the model answers.

use dashmap::DashMap;
use std::hash::RandomState;
use vstd::prelude::*;
use crate::compact::Compactor;
use crate::config::LlmConfig;
use crate::json::{parse_json, Json, JsonView};
use crate::text::{cat, trim};

verus! {

// ---- conversations -----------------------------------------------------------------

/// A message of a conversation.
#[derive(Debug, PartialEq, Eq)]
pub enum Stored {
    User(String),
    Assistant(String),
}

impl Stored {
    /// A copy.
    pub fn dup(&self) -> (r: Self)
        ensures
            r == *self,
    {
        match self {
            Stored::User(t) => Stored::User(t.clone()),
            Stored::Assistant(t) => Stored::Assistant(t.clone()),
        }
    }
}

/// The conversation with one sender.
#[derive(Debug)]
pub struct Conversation {
    pub messages: Vec<Stored>,
}

/// The most recent `cap` messages.
pub open spec fn recent(v: Seq<Stored>, cap: nat) -> Seq<Stored> {
    if v.len() > cap {
        v.skip(v.len() - cap)
    } else {
        v
    }
}

/// A history with one turn more.
pub open spec fn with_turn(v: Seq<Stored>, user: Stored, reply: Stored, cap: nat) -> Seq<Stored> {
    recent(recent(v.push(user), cap).push(reply), cap)
}

impl Conversation {
    /// An empty conversation.
    pub fn new() -> (r: Self)
        ensures
            r.messages@ == Seq::<Stored>::empty(),
    {
        Conversation { messages: Vec::new() }
    }

    /// Adds a message and keeps the most recent `cap`.
    pub fn push(&mut self, m: Stored, cap: usize)
        ensures
            final(self).messages@ == recent(old(self).messages@.push(m), cap as nat),
    {
        self.messages.push(m);
        let n: usize = self.messages.len();
        if n > cap {
            let tail: Vec<Stored> = self.messages.split_off(n - cap);
            self.messages = tail;
        }
        assert(self.messages@ =~= recent(old(self).messages@.push(m), cap as nat));
    }

    /// A copy.
    pub fn dup(&self) -> (r: Self)
        ensures
            r.messages@ == self.messages@,
    {
        let mut messages: Vec<Stored> = Vec::new();
        let mut i: usize = 0;
        while i < self.messages.len()
            invariant
                i <= self.messages@.len(),
                messages@ == self.messages@.take(i as int),
            decreases self.messages@.len() - i,
        {
            messages.push(self.messages[i].dup());
            i = i + 1;
        }
        assert(messages@ =~= self.messages@);
        Conversation { messages }
    }
}

impl Default for Conversation {
    fn default() -> (r: Self)
        ensures
            r.messages@ == Seq::<Stored>::empty(),
    {
        Conversation::new()
    }
}

/// The messages that a table of conversations holds, by key.
pub uninterp spec fn histories_of(t: DashMap<String, Conversation, RandomState>) -> Map<Seq<char>, Seq<Stored>>;

/// `DashMap::new`: an empty map.
#[verifier::external_body]
fn histories_new() -> (r: DashMap<String, Conversation, RandomState>)
    ensures
        histories_of(r).dom() == Set::<Seq<char>>::empty(),
{
    DashMap::new()
}

/// `DashMap::insert`: the key maps to the value, whatever it mapped to before; the
/// other keys keep their values.
#[verifier::external_body]
fn histories_insert(t: &mut DashMap<String, Conversation, RandomState>, key: String, c: Conversation)
    ensures
        histories_of(*final(t)) == histories_of(*old(t)).insert(key@, c.messages@),
{
    t.insert(key, c);
}

/// `DashMap::get`: a copy of the value of the key, or nothing when the key is not
/// there.
#[verifier::external_body]
fn histories_get(t: &DashMap<String, Conversation, RandomState>, key: &str) -> (r: Option<Conversation>)
    ensures
        r is Some == histories_of(*t).dom().contains(key@),
        r matches Some(c) ==> c.messages@ == histories_of(*t)[key@],
{
    t.get(key).map(|e| e.value().dup())
}

// ---- the exchange with the model -----------------------------------------------------

/// Token usage of one or more requests.
#[derive(Debug, Clone, Copy, PartialEq, Eq, Structural)]
pub struct TokenUsage {
    pub prompt_tokens: u32,
    pub completion_tokens: u32,
    pub total_tokens: u32,
}

impl Default for TokenUsage {
    fn default() -> (r: Self)
        ensures
            r.prompt_tokens == 0 && r.completion_tokens == 0 && r.total_tokens == 0,
    {
        TokenUsage { prompt_tokens: 0, completion_tokens: 0, total_tokens: 0 }
    }
}

/// What came of a message.
#[derive(Debug)]
pub struct Reply {
    pub text: String,
    /// Usage over all requests, if the model reported any.
    pub usage: Option<TokenUsage>,
    pub model: String,
}

/// A call of a tool that the model asks for.
#[derive(Debug)]
pub struct ToolCall {
    pub id: String,
    pub name: String,
    /// The arguments as JSON text.
    pub arguments: String,
    /// Whether it is a function call; calls of other kinds are not run.
    pub is_function: bool,
}

impl ToolCall {
    /// A copy.
    pub fn dup(&self) -> (r: Self)
        ensures
            r == *self,
    {
        ToolCall {
            id: self.id.clone(),
            name: self.name.clone(),
            arguments: self.arguments.clone(),
            is_function: self.is_function,
        }
    }
}

/// A message to the model.
#[derive(Debug)]
pub enum ChatMessage {
    System(String),
    User(String),
    Assistant(String),
    /// A request for tool calls, with the text that came with it.
    ToolCalls(String, Vec<ToolCall>),
    /// The result of a tool call: its id and the text.
    ToolResult(String, String),
}

/// What a message says.
pub enum MessageView {
    System(Seq<char>),
    User(Seq<char>),
    Assistant(Seq<char>),
    ToolCalls(Seq<char>, Seq<ToolCall>),
    ToolResult(Seq<char>, Seq<char>),
}

impl View for ChatMessage {
    type V = MessageView;

    open spec fn view(&self) -> MessageView {
        match self {
            ChatMessage::System(t) => MessageView::System(t@),
            ChatMessage::User(t) => MessageView::User(t@),
            ChatMessage::Assistant(t) => MessageView::Assistant(t@),
            ChatMessage::ToolCalls(t, c) => MessageView::ToolCalls(t@, c@),
            ChatMessage::ToolResult(i, t) => MessageView::ToolResult(i@, t@),
        }
    }
}

/// What a list of messages says.
pub open spec fn message_views(v: Seq<ChatMessage>) -> Seq<MessageView> {
    v.map_values(|m: ChatMessage| m@)
}

/// A stored message as a message to the model.
pub open spec fn as_message(m: Stored) -> MessageView {
    match m {
        Stored::User(t) => MessageView::User(t@),
        Stored::Assistant(t) => MessageView::Assistant(t@),
    }
}

/// The messages to the model: the system prompt, the history, the message of the
/// user.
pub open spec fn opening(system: Seq<char>, history: Seq<Stored>, user: Seq<char>) -> Seq<MessageView> {
    (seq![MessageView::System(system)] + history.map_values(|m: Stored| as_message(m))).push(
        MessageView::User(user),
    )
}

/// What the model answered.
#[derive(Debug)]
pub struct Completion {
    pub usage: Option<TokenUsage>,
    /// The first choice, if there is one.
    pub choice: Option<Choice>,
    pub model: String,
}

/// A choice of the model.
#[derive(Debug)]
pub struct Choice {
    pub content: Option<String>,
    pub tool_calls: Vec<ToolCall>,
}

/// The text of a choice.
pub open spec fn content_of(c: Choice) -> Seq<char> {
    match c.content {
        Some(t) => t@,
        None => Seq::empty(),
    }
}

/// What to do next in a turn.
#[derive(Debug)]
pub enum Step {
    /// Send the messages to the model.
    Ask,
    /// Run these function calls, in order.
    RunTools(Vec<ToolCall>),
    /// The turn is over with this text.
    Finish(String),
    /// The turn has failed.
    Fail(String),
}

/// Where a turn stands.
#[derive(Debug)]
pub enum Phase {
    /// The model can be asked.
    Ready,
    /// The model has been asked.
    Asked,
    /// Function calls are being run, of which the first `done` are.
    Running { calls: Vec<ToolCall>, done: usize },
    /// The turn is over with this text.
    Done(String),
    /// The turn has failed.
    Failed(String),
}

/// A turn in progress.
pub struct Turn {
    pub messages: Vec<ChatMessage>,
    pub usage: Option<TokenUsage>,
    /// How many times the model has been asked.
    pub steps: usize,
    pub max_steps: usize,
    pub phase: Phase,
}

/// The text of a turn that ran out of steps.
pub open spec fn cap_text() -> Seq<char> {
    "I reached the maximum number of tool steps; stopping here."@
}

/// Whether the usage of two requests can be added.
pub open spec fn can_add(a: Option<TokenUsage>, b: Option<TokenUsage>) -> bool {
    match (a, b) {
        (Some(x), Some(y)) => {
            &&& x.prompt_tokens + y.prompt_tokens <= u32::MAX
            &&& x.completion_tokens + y.completion_tokens <= u32::MAX
            &&& x.total_tokens + y.total_tokens <= u32::MAX
        },
        _ => true,
    }
}

/// The usage of two requests together.
pub open spec fn added(a: Option<TokenUsage>, b: Option<TokenUsage>) -> Option<TokenUsage> {
    match (a, b) {
        (Some(x), Some(y)) => Some(
            TokenUsage {
                prompt_tokens: (x.prompt_tokens + y.prompt_tokens) as u32,
                completion_tokens: (x.completion_tokens + y.completion_tokens) as u32,
                total_tokens: (x.total_tokens + y.total_tokens) as u32,
            },
        ),
        (None, b) => b,
        (a, None) => a,
    }
}

/// Whether the usage of two requests can be added without overflow.
pub fn usage_fits(a: &Option<TokenUsage>, b: &Option<TokenUsage>) -> (r: bool)
    ensures
        r == can_add(*a, *b),
{
    match (a, b) {
        (Some(x), Some(y)) => x.prompt_tokens <= u32::MAX - y.prompt_tokens && x.completion_tokens
            <= u32::MAX - y.completion_tokens && x.total_tokens <= u32::MAX - y.total_tokens,
        _ => true,
    }
}

/// The usage of two requests together.
pub fn add_usage(a: Option<TokenUsage>, b: Option<TokenUsage>) -> (r: Option<TokenUsage>)
    requires
        can_add(a, b),
    ensures
        r == added(a, b),
{
    match (a, b) {
        (Some(x), Some(y)) => Some(
            TokenUsage {
                prompt_tokens: x.prompt_tokens + y.prompt_tokens,
                completion_tokens: x.completion_tokens + y.completion_tokens,
                total_tokens: x.total_tokens + y.total_tokens,
            },
        ),
        (None, b) => b,
        (a, None) => a,
    }
}

/// The model is asked once more: the step that this takes is within the cap.
pub open spec fn asks(before: nat, after: nat, max_steps: nat) -> bool {
    before < max_steps && after == before + 1
}

/// The function calls among calls; calls of other kinds are not run.
pub open spec fn functions(calls: Seq<ToolCall>) -> Seq<ToolCall> {
    calls.filter(|c: ToolCall| c.is_function)
}

/// Where a turn stands when these calls are to be run.
pub open spec fn runs(p: Phase, calls: Seq<ToolCall>) -> bool {
    if calls.len() == 0 {
        p is Ready
    } else {
        p matches Phase::Running { calls: c, done } && c@ == calls && done == 0
    }
}

/// What going on to the next request does to a turn: it asks, or ends at the cap.
pub open spec fn goes_on(pre: Turn, post: Turn, r: Step) -> bool {
    &&& pre.phase is Ready
    &&& post.messages == pre.messages
    &&& post.usage == pre.usage
    &&& post.max_steps == pre.max_steps
    &&& if pre.steps < pre.max_steps {
        &&& r is Ask
        &&& post.phase is Asked
        &&& asks(pre.steps as nat, post.steps as nat, pre.max_steps as nat)
    } else {
        &&& r matches Step::Finish(t)
        &&& t@ == cap_text()
        &&& post.phase matches Phase::Done(u)
        &&& u@ == cap_text()
        &&& post.steps == pre.steps
    }
}

/// What an answer of the model does to a turn: without tool calls the text ends it, with
/// some their functions are to be run.
pub open spec fn takes(pre: Turn, c: Completion, post: Turn, r: Step) -> bool {
    &&& pre.phase is Asked
    &&& post.usage == added(pre.usage, c.usage)
    &&& post.steps == pre.steps
    &&& post.max_steps == pre.max_steps
    &&& match c.choice {
        None => {
            &&& r matches Step::Fail(e)
            &&& e@ == "no choices in completion response"@
            &&& post.phase matches Phase::Failed(f)
            &&& f@ == e@
            &&& message_views(post.messages@) == message_views(pre.messages@)
        },
        Some(ch) => if ch.tool_calls@.len() == 0 {
            &&& r matches Step::Finish(t)
            &&& t@ == crate::text::trimmed(content_of(ch))
            &&& post.phase matches Phase::Done(u)
            &&& u@ == t@
            &&& message_views(post.messages@) == message_views(pre.messages@)
        } else {
            &&& r matches Step::RunTools(calls)
            &&& calls@ == functions(ch.tool_calls@)
            &&& runs(post.phase, calls@)
            &&& message_views(post.messages@) == message_views(pre.messages@).push(
                MessageView::ToolCalls(content_of(ch), ch.tool_calls@),
            )
        },
    }
}

/// What the result of the next function call does to a turn.
pub open spec fn answers(pre: Turn, content: Seq<char>, post: Turn) -> bool {
    &&& pre.phase matches Phase::Running { calls, done }
    &&& post.usage == pre.usage
    &&& post.steps == pre.steps
    &&& post.max_steps == pre.max_steps
    &&& message_views(post.messages@) == message_views(pre.messages@).push(
        MessageView::ToolResult(calls@[done as int].id@, content),
    )
    &&& if done + 1 == calls@.len() {
        post.phase is Ready
    } else {
        post.phase matches Phase::Running { calls: c, done: d } && c@ == calls@ && d == done + 1
    }
}

/// What a request that failed does to a turn.
pub open spec fn breaks(pre: Turn, error: Seq<char>, post: Turn) -> bool {
    &&& pre.phase is Asked
    &&& post.usage == pre.usage
    &&& post.steps == pre.steps
    &&& post.max_steps == pre.max_steps
    &&& post.messages == pre.messages
    &&& post.phase matches Phase::Failed(e)
    &&& e@ == error
}

impl Turn {
    /// The cap is kept, and calls that are being run are not all done.
    pub open spec fn wf(&self) -> bool {
        &&& self.steps <= self.max_steps
        &&& self.phase matches Phase::Running { calls, done } ==> done < calls@.len()
    }

    /// Goes on to the next request, unless the step cap is reached.
    pub fn next(&mut self) -> (r: Step)
        requires
            old(self).wf(),
            old(self).phase is Ready,
        ensures
            final(self).wf(),
            goes_on(*old(self), *final(self), r),
    {
        if self.steps >= self.max_steps {
            self.phase = Phase::Done(
                "I reached the maximum number of tool steps; stopping here.".to_string(),
            );
            return Step::Finish(
                "I reached the maximum number of tool steps; stopping here.".to_string(),
            );
        }
        self.steps = self.steps + 1;
        self.phase = Phase::Asked;
        Step::Ask
    }

    /// Takes what the model answered.
    pub fn received(&mut self, c: Completion) -> (r: Step)
        requires
            old(self).wf(),
            old(self).phase is Asked,
            can_add(old(self).usage, c.usage),
        ensures
            final(self).wf(),
            takes(*old(self), c, *final(self), r),
    {
        self.usage = add_usage(self.usage, c.usage);
        match c.choice {
            None => {
                self.phase = Phase::Failed("no choices in completion response".to_string());
                Step::Fail("no choices in completion response".to_string())
            },
            Some(ch) => {
                let content: String = match ch.content {
                    Some(t) => t,
                    None => String::new(),
                };
                assert(content@ =~= content_of(ch));
                if ch.tool_calls.len() == 0 {
                    let text: String = trim(&content);
                    self.phase = Phase::Done(text.clone());
                    return Step::Finish(text);
                }
                let calls: Vec<ToolCall> = function_calls(&ch.tool_calls);
                self.phase = if calls.len() == 0 {
                    Phase::Ready
                } else {
                    Phase::Running { calls: dup_calls(&calls), done: 0 }
                };
                let ghost before = self.messages@;
                let m: ChatMessage = ChatMessage::ToolCalls(content, ch.tool_calls);
                self.messages.push(m);
                assert(message_views(self.messages@) =~= message_views(before).push(m@));
                Step::RunTools(calls)
            },
        }
    }

    /// Takes the result of the next of the function calls that are being run.
    pub fn tool_result(&mut self, content: &str)
        requires
            old(self).wf(),
            old(self).phase is Running,
        ensures
            final(self).wf(),
            answers(*old(self), content@, *final(self)),
    {
        let ghost before = self.messages@;
        let (id, last): (String, bool) = match &self.phase {
            Phase::Running { calls, done } => (
                calls[*done].id.clone(),
                *done == calls.len() - 1,
            ),
            _ => (String::new(), true),
        };
        let m: ChatMessage = ChatMessage::ToolResult(id, content.to_string());
        self.messages.push(m);
        assert(message_views(self.messages@) =~= message_views(before).push(m@));
        self.phase = match &self.phase {
            Phase::Running { calls, done } => if last {
                Phase::Ready
            } else {
                Phase::Running { calls: dup_calls(calls), done: *done + 1 }
            },
            _ => Phase::Ready,
        };
    }

    /// Takes that the request to the model failed, and why.
    pub fn failed(&mut self, error: &str)
        requires
            old(self).wf(),
            old(self).phase is Asked,
        ensures
            final(self).wf(),
            breaks(*old(self), error@, *final(self)),
    {
        self.phase = Phase::Failed(error.to_string());
    }
}

fn function_calls(v: &Vec<ToolCall>) -> (r: Vec<ToolCall>)
    ensures
        r@ == functions(v@),
{
    let ghost pred = |c: ToolCall| c.is_function;
    let mut out: Vec<ToolCall> = Vec::new();
    let mut i: usize = 0;
    assert(v@.take(0).filter(pred) =~= Seq::<ToolCall>::empty()) by {
        reveal(Seq::filter);
    }
    while i < v.len()
        invariant
            pred == (|c: ToolCall| c.is_function),
            i <= v@.len(),
            out@ == v@.take(i as int).filter(pred),
        decreases v@.len() - i,
    {
        proof {
            crate::seqs::lemma_filter_step(v@, pred, i as int);
        }
        if v[i].is_function {
            out.push(v[i].dup());
        }
        i = i + 1;
    }
    assert(v@.take(v@.len() as int) =~= v@);
    out
}

fn dup_calls(v: &Vec<ToolCall>) -> (r: Vec<ToolCall>)
    ensures
        r@ == v@,
{
    let mut out: Vec<ToolCall> = Vec::new();
    let mut i: usize = 0;
    while i < v.len()
        invariant
            i <= v@.len(),
            out@ == v@.take(i as int),
        decreases v@.len() - i,
    {
        out.push(v[i].dup());
        i = i + 1;
    }
    assert(out@ =~= v@);
    out
}

/// The text that ends a turn without tools: that of the first choice, if any.
pub fn plain_text(c: &Completion) -> (r: String)
    ensures
        r@ == crate::text::trimmed(
            match c.choice {
                Some(ch) => content_of(ch),
                None => Seq::empty(),
            },
        ),
{
    let none: String = String::new();
    assert(none@ =~= Seq::<char>::empty());
    match &c.choice {
        Some(ch) => match &ch.content {
            Some(t) => trim(t),
            None => trim(&none),
        },
        None => trim(&none),
    }
}

/// The arguments of a tool call, given what its text parses as: null for an empty
/// text and for one that is not JSON.
pub open spec fn arguments_of(text: Seq<char>, parsed: Option<JsonView>) -> JsonView {
    if text.len() == 0 {
        JsonView::Null
    } else {
        match parsed {
            Some(v) => v,
            None => JsonView::Null,
        }
    }
}

/// The arguments of a tool call, given what its text parses as.
pub fn arguments_from(text: &str, parsed: Option<Json>) -> (r: Json)
    ensures
        r@ == arguments_of(text@, crate::json::opt_json(parsed)),
{
    if text.is_empty() {
        return Json::Null;
    }
    match parsed {
        Some(v) => v,
        None => Json::Null,
    }
}

/// The arguments of a tool call.
pub fn parse_arguments(text: &str) -> (r: Json)
    ensures
        r@ == arguments_of(text@, crate::json::parsed_json(text@)),
{
    let parsed: Option<Json> = parse_json(text);
    arguments_from(text, parsed)
}

// ---- the agent ---------------------------------------------------------------------

/// The agent.
pub struct ChatAgent {
    model: String,
    system_prompt: String,
    max_tokens: Option<u32>,
    history_cap: usize,
    conversations: DashMap<String, Conversation, RandomState>,
    compactor: Option<Compactor>,
    inject_memory: bool,
}

/// The system prompt with recalled facts.
pub open spec fn prompt_with(base: Seq<char>, inject: bool, snippet: Option<Seq<char>>) -> Seq<char> {
    match snippet {
        Some(s) => if inject {
            base + "\n\n"@ + s
        } else {
            base
        },
        None => base,
    }
}

/// The history of a key; empty when there is none.
pub open spec fn history_in(m: Map<Seq<char>, Seq<Stored>>, key: Seq<char>) -> Seq<Stored> {
    if m.dom().contains(key) {
        m[key]
    } else {
        Seq::empty()
    }
}

/// What recording a turn does: the history of the key has the message and the reply at
/// its end, within its cap, and it is told whether it is now to be compacted.
pub open spec fn records(
    pre: ChatAgent,
    post: ChatAgent,
    key: Seq<char>,
    user_text: Seq<char>,
    reply: Seq<char>,
    due: bool,
) -> bool {
    &&& post.same_settings(&pre)
    &&& exists|u: String, a: String|
        u@ == user_text && a@ == reply && post.histories() == pre.histories().insert(
            key,
            #[trigger] with_turn(
                history_in(pre.histories(), key),
                Stored::User(u),
                Stored::Assistant(a),
                pre.cap(),
            ),
        )
    &&& due == pre.compacts(history_in(post.histories(), key).len())
}

impl ChatAgent {
    /// The histories, by key.
    pub closed spec fn histories(&self) -> Map<Seq<char>, Seq<Stored>> {
        histories_of(self.conversations)
    }

    /// How many messages a history keeps.
    pub closed spec fn cap(&self) -> nat {
        self.history_cap as nat
    }

    /// The model.
    pub closed spec fn model_id(&self) -> Seq<char> {
        self.model@
    }

    /// The system prompt without recalled facts.
    pub closed spec fn base_prompt(&self) -> Seq<char> {
        self.system_prompt@
    }

    /// The limit on generated tokens.
    pub closed spec fn token_limit(&self) -> Option<u32> {
        self.max_tokens
    }

    /// Whether recalled facts go into the prompt.
    pub closed spec fn injects(&self) -> bool {
        self.inject_memory
    }

    /// Whether a history of `len` messages is to be compacted.
    pub closed spec fn compacts(&self, len: nat) -> bool {
        match self.compactor {
            Some(c) => crate::compact::due(c.settings(), len),
            None => false,
        }
    }

    /// How many messages a compaction keeps.
    pub closed spec fn keeps(&self) -> nat {
        match self.compactor {
            Some(c) => c.settings().keep_recent as nat,
            None => 0,
        }
    }

    /// The model that summarizes.
    pub closed spec fn summarizer(&self) -> Seq<char> {
        match self.compactor {
            Some(c) => c.model_id(),
            None => Seq::empty(),
        }
    }

    /// The instruction for the summary.
    pub closed spec fn instruction(&self) -> Seq<char> {
        match self.compactor {
            Some(c) => c.settings().prompt@,
            None => Seq::empty(),
        }
    }

    /// Everything but the histories is the same.
    pub open spec fn same_settings(&self, other: &ChatAgent) -> bool {
        &&& self.cap() == other.cap()
        &&& self.model_id() == other.model_id()
        &&& self.base_prompt() == other.base_prompt()
        &&& self.token_limit() == other.token_limit()
        &&& self.injects() == other.injects()
        &&& forall|n: nat| self.compacts(n) == other.compacts(n)
        &&& self.keeps() == other.keeps()
        &&& self.summarizer() == other.summarizer()
        &&& self.instruction() == other.instruction()
    }

    /// An agent without histories that neither compacts them nor recalls facts.
    pub fn new(llm: &LlmConfig, history_cap: usize) -> (r: Self)
        ensures
            r.histories() == Map::<Seq<char>, Seq<Stored>>::empty(),
            r.cap() == history_cap,
            r.model_id() == llm.model@,
            r.base_prompt() == llm.system_prompt@,
            r.token_limit() == llm.max_tokens,
            !r.injects(),
            forall|n: nat| !r.compacts(n),
    {
        ChatAgent::with_compactor(llm, history_cap, None)
    }

    /// An agent without histories that compacts them with a compactor, if any.
    pub fn with_compactor(llm: &LlmConfig, history_cap: usize, compactor: Option<Compactor>) -> (r:
        Self)
        ensures
            r.histories() == Map::<Seq<char>, Seq<Stored>>::empty(),
            r.cap() == history_cap,
            r.model_id() == llm.model@,
            r.base_prompt() == llm.system_prompt@,
            r.token_limit() == llm.max_tokens,
            !r.injects(),
            forall|n: nat|
                r.compacts(n) == (compactor is Some && crate::compact::due(
                    compactor->Some_0.settings(),
                    n,
                )),
            compactor matches Some(c) ==> r.keeps() == c.settings().keep_recent && r.summarizer()
                == c.model_id() && r.instruction() == c.settings().prompt@,
    {
        ChatAgent::with_compactor_and_memory(llm, history_cap, compactor, false)
    }

    /// An agent without histories that compacts them with a compactor, if any, and
    /// puts recalled facts into the prompt or not.
    pub fn with_compactor_and_memory(
        llm: &LlmConfig,
        history_cap: usize,
        compactor: Option<Compactor>,
        inject_memory: bool,
    ) -> (r: Self)
        ensures
            r.histories() == Map::<Seq<char>, Seq<Stored>>::empty(),
            r.cap() == history_cap,
            r.model_id() == llm.model@,
            r.base_prompt() == llm.system_prompt@,
            r.token_limit() == llm.max_tokens,
            r.injects() == inject_memory,
            forall|n: nat|
                r.compacts(n) == (compactor is Some && crate::compact::due(
                    compactor->Some_0.settings(),
                    n,
                )),
            compactor matches Some(c) ==> r.keeps() == c.settings().keep_recent && r.summarizer()
                == c.model_id() && r.instruction() == c.settings().prompt@,
    {
        let r: ChatAgent = ChatAgent {
            model: llm.model.clone(),
            system_prompt: llm.system_prompt.clone(),
            max_tokens: llm.max_tokens,
            history_cap,
            conversations: histories_new(),
            compactor,
            inject_memory,
        };
        assert(r.histories() =~= Map::<Seq<char>, Seq<Stored>>::empty());
        r
    }

    /// The system prompt of a sender, with the recalled facts when they go into it.
    pub fn system_prompt_for(&self, snippet: Option<&str>) -> (r: String)
        ensures
            r@ == prompt_with(
                self.base_prompt(),
                self.injects(),
                crate::text::opt_str_view(snippet),
            ),
    {
        match snippet {
            Some(s) => if self.inject_memory {
                cat(&cat(&self.system_prompt, "\n\n"), s)
            } else {
                self.system_prompt.clone()
            },
            None => self.system_prompt.clone(),
        }
    }

    /// The history of a key.
    pub fn history(&self, key: &str) -> (r: Vec<Stored>)
        ensures
            r@ == history_in(self.histories(), key@),
    {
        match histories_get(&self.conversations, key) {
            Some(c) => c.messages,
            None => Vec::new(),
        }
    }

    /// Starts a turn: the system prompt, the history of the key and the user's text.
    pub fn begin_turn(
        &self,
        key: &str,
        user_text: &str,
        snippet: Option<&str>,
        max_steps: usize,
    ) -> (r: Turn)
        ensures
            message_views(r.messages@) == opening(
                prompt_with(
                    self.base_prompt(),
                    self.injects(),
                    crate::text::opt_str_view(snippet),
                ),
                history_in(self.histories(), key@),
                user_text@,
            ),
            r.usage is None,
            r.steps == 0,
            r.max_steps == max_steps,
            r.phase is Ready,
            r.wf(),
    {
        let system: String = self.system_prompt_for(snippet);
        let history: Vec<Stored> = self.history(key);
        let ghost past = history@;
        let ghost prompt = system@;
        let mut messages: Vec<ChatMessage> = Vec::new();
        messages.push(ChatMessage::System(system));
        let mut i: usize = 0;
        assert(message_views(messages@) =~= seq![MessageView::System(prompt)]
            + past.take(0).map_values(|m: Stored| as_message(m)));
        while i < history.len()
            invariant
                past == history@,
                i <= past.len(),
                message_views(messages@) == seq![MessageView::System(prompt)]
                    + past.take(i as int).map_values(|m: Stored| as_message(m)),
            decreases past.len() - i,
        {
            let ghost before = messages@;
            let m: ChatMessage = match &history[i] {
                Stored::User(t) => ChatMessage::User(t.clone()),
                Stored::Assistant(t) => ChatMessage::Assistant(t.clone()),
            };
            messages.push(m);
            proof {
                assert(message_views(messages@) =~= message_views(before).push(m@));
                assert(past.take(i + 1).map_values(|m: Stored| as_message(m)) =~= past.take(
                    i as int,
                ).map_values(|m: Stored| as_message(m)).push(as_message(past[i as int])));
                assert(message_views(messages@) =~= seq![MessageView::System(prompt)]
                    + past.take(i + 1).map_values(|m: Stored| as_message(m)));
            }
            i = i + 1;
        }
        let ghost before = messages@;
        let last: ChatMessage = ChatMessage::User(user_text.to_string());
        messages.push(last);
        proof {
            assert(past.take(past.len() as int) =~= past);
            assert(message_views(messages@) =~= message_views(before).push(last@));
        }
        Turn { messages, usage: None, steps: 0, max_steps, phase: Phase::Ready }
    }

    /// The reply to a message without tools: what the model answered, which becomes a turn
    /// of the history. And whether the history is now to be compacted.
    pub fn reply(&mut self, key: &str, user_text: &str, c: &Completion) -> (r: (Reply, bool))
        ensures
            r.0.text@ == crate::text::trimmed(
                match c.choice {
                    Some(ch) => content_of(ch),
                    None => Seq::empty(),
                },
            ),
            r.0.usage == c.usage,
            r.0.model == c.model,
            records(*old(self), *final(self), key@, user_text@, r.0.text@, r.1),
    {
        let text: String = plain_text(c);
        let due: bool = self.record_turn(key, user_text, &text);
        (Reply { text, usage: c.usage, model: c.model.clone() }, due)
    }

    /// The reply to a message with tools, once its turn is over: the text that ended it and
    /// the usage of all its requests. The message and the text become a turn of the history,
    /// and it is told whether that is now to be compacted. A turn that failed gives its
    /// error and leaves no trace.
    pub fn reply_with_tools(&mut self, key: &str, user_text: &str, turn: &Turn) -> (r: Result<
        (Reply, bool),
        String,
    >)
        requires
            turn.phase is Done || turn.phase is Failed,
        ensures
            match turn.phase {
                Phase::Done(text) => {
                    &&& r matches Ok(p)
                    &&& p.0.text@ == text@
                    &&& p.0.usage == turn.usage
                    &&& p.0.model@ == old(self).model_id()
                    &&& records(*old(self), *final(self), key@, user_text@, text@, p.1)
                },
                Phase::Failed(e) => {
                    &&& r matches Err(f)
                    &&& f@ == e@
                    &&& *final(self) == *old(self)
                },
                _ => true,
            },
    {
        match &turn.phase {
            Phase::Done(text) => {
                let due: bool = self.record_turn(key, user_text, text);
                Ok(
                    (
                        Reply {
                            text: text.clone(),
                            usage: turn.usage,
                            model: self.model.clone(),
                        },
                        due,
                    ),
                )
            },
            Phase::Failed(e) => Err(e.clone()),
            _ => Err(String::new()),
        }
    }

    /// Adds a turn to the history of a key. Whether the history is now to be
    /// compacted.
    pub fn record_turn(&mut self, key: &str, user_text: &str, reply: &str) -> (r: bool)
        ensures
            records(*old(self), *final(self), key@, user_text@, reply@, r),
    {
        let mut c: Conversation = match histories_get(&self.conversations, key) {
            Some(c) => c,
            None => Conversation::new(),
        };
        let u: String = user_text.to_string();
        let a: String = reply.to_string();
        let ghost before = c.messages@;
        assert(before =~= history_in(old(self).histories(), key@));
        c.push(Stored::User(u), self.history_cap);
        c.push(Stored::Assistant(a), self.history_cap);
        assert(c.messages@ == with_turn(
            before,
            Stored::User(u),
            Stored::Assistant(a),
            self.cap(),
        ));
        let n: usize = c.messages.len();
        histories_insert(&mut self.conversations, key.to_string(), c);
        match &self.compactor {
            Some(k) => k.should_compact(n),
            None => false,
        }
    }

    /// The request that summarizes the old part of a history; nothing when none is
    /// due.
    pub fn summary_request(&self, key: &str) -> (r: Option<crate::compact::SummaryRequest>)
        ensures
            ({
                let history = history_in(self.histories(), key@);
                if self.compacts(history.len()) {
                    &&& r matches Some(q)
                    &&& q.model@ == self.summarizer()
                    &&& q.system@ == crate::compact::instruction_with(self.instruction())
                    &&& q.transcript@ == crate::compact::transcript_of(
                        crate::compact::old_part(history, self.keeps()),
                    )
                    &&& q.max_tokens == crate::compact::SUMMARY_TOKENS
                } else {
                    r is None
                }
            }),
    {
        let history: Vec<Stored> = self.history(key);
        match &self.compactor {
            Some(k) => {
                if k.should_compact(history.len()) {
                    k.summarize(&history)
                } else {
                    None
                }
            },
            None => None,
        }
    }

    /// Compacts the history of a key with a summary. Whether it did; with an empty
    /// summary, or when compaction is not due, the history stays as it is.
    pub fn compact_history(&mut self, key: &str, summary: &str) -> (r: bool)
        ensures
            final(self).same_settings(old(self)),
            r == (old(self).compacts(history_in(old(self).histories(), key@).len())
                && summary@.len() > 0),
            if r {
                exists|text: String|
                    text@ == crate::compact::summary_text(summary@) && final(self).histories()
                        == old(self).histories().insert(
                        key@,
                        #[trigger] crate::compact::compacted(
                            history_in(old(self).histories(), key@),
                            old(self).keeps(),
                            Stored::Assistant(text),
                        ),
                    )
            } else {
                final(self).histories() == old(self).histories()
            },
    {
        let mut history: Vec<Stored> = self.history(key);
        let done: bool = match &self.compactor {
            Some(k) => k.compact(&mut history, summary),
            None => false,
        };
        if done {
            histories_insert(
                &mut self.conversations,
                key.to_string(),
                Conversation { messages: history },
            );
        }
        done
    }
}

// ---- laws --------------------------------------------------------------------------

/// A history never holds more than its cap.
pub proof fn histories_are_capped(v: Seq<Stored>, user: Stored, reply: Stored, cap: nat)
    ensures
        with_turn(v, user, reply, cap).len() <= cap,
{
}

/// With room for a turn, its two messages are the last of the history.
pub proof fn last_turn_is_kept(v: Seq<Stored>, user: Stored, reply: Stored, cap: nat)
    requires
        cap >= 2,
    ensures
        with_turn(v, user, reply, cap).len() >= 2,
        with_turn(v, user, reply, cap)[with_turn(v, user, reply, cap).len() - 2] == user,
        with_turn(v, user, reply, cap).last() == reply,
{
}

/// A turn keeps what was there but for the oldest messages: the new history is the
/// end of the old one with the turn added.
pub proof fn turns_are_appended(v: Seq<Stored>, user: Stored, reply: Stored, cap: nat)
    ensures
        with_turn(v, user, reply, cap) == recent(v.push(user).push(reply), cap),
{
    let a = with_turn(v, user, reply, cap);
    let b = recent(v.push(user).push(reply), cap);
    assert(a =~= b);
}

/// A turn of one key leaves the histories of the others as they are.
pub proof fn histories_are_apart(
    m: Map<Seq<char>, Seq<Stored>>,
    key: Seq<char>,
    v: Seq<Stored>,
    other: Seq<char>,
)
    requires
        other != key,
    ensures
        history_in(m.insert(key, v), other) == history_in(m, other),
        history_in(m.insert(key, v), key) == v,
{
}

/// A turn asks the model at most as often as its cap says: `steps` is the count
/// before the first request and after each one.
pub proof fn turns_are_bounded(steps: Seq<nat>, max_steps: nat)
    requires
        steps.len() > 0,
        steps[0] == 0,
        forall|i: int| 0 < i < steps.len() ==> asks(steps[i - 1], #[trigger] steps[i], max_steps),
    ensures
        steps.len() - 1 <= max_steps,
        steps.last() == steps.len() - 1,
    decreases steps.len(),
{
    if steps.len() > 1 {
        let t = steps.drop_last();
        assert forall|i: int| 0 < i < t.len() implies asks(t[i - 1], #[trigger] t[i], max_steps) by {
            assert(steps[i] == t[i]);
        }
        turns_are_bounded(t, max_steps);
        assert(asks(steps[steps.len() - 2], steps[steps.len() - 1], max_steps));
    }
}

/// The ids of the function calls that no result has answered yet.
pub open spec fn unanswered(v: Seq<MessageView>) -> Seq<Seq<char>>
    decreases v.len(),
{
    if v.len() == 0 {
        Seq::empty()
    } else {
        match v.last() {
            MessageView::ToolCalls(_, calls) => functions(calls).map_values(|c: ToolCall| c.id@),
            MessageView::ToolResult(id, _) => {
                let u = unanswered(v.drop_last());
                if u.len() > 0 && u[0] == id {
                    u.drop_first()
                } else {
                    u
                }
            },
            _ => Seq::empty(),
        }
    }
}

/// The ids of the function calls that are still to be run.
pub open spec fn pending(p: Phase) -> Seq<Seq<char>> {
    match p {
        Phase::Running { calls, done } => calls@.skip(done as int).map_values(
            |c: ToolCall| c.id@,
        ),
        _ => Seq::empty(),
    }
}

/// What holds of a turn with the given opening all along: the model has been asked no more
/// often than the cap allows, the messages begin with the opening, and the function calls
/// without a result are those that are still to be run.
pub open spec fn in_order(opening: Seq<MessageView>, t: Turn) -> bool {
    let v = message_views(t.messages@);
    &&& t.wf()
    &&& opening.len() <= v.len() && v.take(opening.len() as int) == opening
    &&& unanswered(v) == pending(t.phase)
}

/// One step of a turn.
pub open spec fn turn_steps(pre: Turn, post: Turn) -> bool {
    &&& post.wf()
    &&& {
        ||| exists|r: Step| #[trigger] goes_on(pre, post, r)
        ||| exists|c: Completion, r: Step| #[trigger] takes(pre, c, post, r)
        ||| exists|content: Seq<char>| #[trigger] answers(pre, content, post)
        ||| exists|error: Seq<char>| #[trigger] breaks(pre, error, post)
    }
}

proof fn lemma_opening_is_answered(system: Seq<char>, history: Seq<Stored>, user: Seq<char>)
    ensures
        unanswered(opening(system, history, user)).len() == 0,
{
}

proof fn lemma_step_in_order(head: Seq<MessageView>, pre: Turn, post: Turn)
    requires
        in_order(head, pre),
        turn_steps(pre, post),
    ensures
        in_order(head, post),
{
    let v = message_views(pre.messages@);
    let w = message_views(post.messages@);
    let n = head.len() as int;
    if exists|r: Step| #[trigger] goes_on(pre, post, r) {
        assert(pending(post.phase) =~= pending(pre.phase));
    } else if exists|c: Completion, r: Step| #[trigger] takes(pre, c, post, r) {
        let (c, r) = choose|c: Completion, r: Step| #[trigger] takes(pre, c, post, r);
        match c.choice {
            None => {},
            Some(ch) => if ch.tool_calls@.len() > 0 {
                let f = functions(ch.tool_calls@);
                assert(w.take(n) =~= v.take(n));
                assert(w.last() == MessageView::ToolCalls(content_of(ch), ch.tool_calls@));
                assert(f.skip(0) =~= f);
                assert(pending(post.phase) =~= f.map_values(|c: ToolCall| c.id@));
            },
        }
    } else if exists|content: Seq<char>| #[trigger] answers(pre, content, post) {
        let content = choose|content: Seq<char>| #[trigger] answers(pre, content, post);
        let u = pending(pre.phase);
        assert(w.take(n) =~= v.take(n));
        assert(w.drop_last() =~= v);
        match pre.phase {
            Phase::Running { calls, done } => {
                assert(u[0] == calls@[done as int].id@);
                assert(u.drop_first() =~= pending(post.phase));
            },
            _ => {},
        }
    } else {
        assert(pending(post.phase) =~= pending(pre.phase));
    }
}

/// However a turn goes, it keeps its order: `states` are the states of a turn from its
/// beginning on. The model is asked at most as often as the cap says. It is asked again, or
/// the turn is over, only once every function call that it asked for has its result, in the
/// order of the calls. And the opening stays in front of everything.
pub proof fn turns_keep_their_order(
    states: Seq<Turn>,
    system: Seq<char>,
    history: Seq<Stored>,
    user: Seq<char>,
    i: int,
)
    requires
        states.len() > 0,
        message_views(states[0].messages@) == opening(system, history, user),
        states[0].steps == 0,
        states[0].phase is Ready,
        forall|j: int| 0 < j < states.len() ==> turn_steps(states[j - 1], #[trigger] states[j]),
        0 <= i < states.len(),
    ensures
        in_order(opening(system, history, user), states[i]),
        states[i].steps <= states[i].max_steps,
        !(states[i].phase is Running) ==> unanswered(message_views(states[i].messages@)).len() == 0,
    decreases i,
{
    let head = opening(system, history, user);
    if i == 0 {
        lemma_opening_is_answered(system, history, user);
        assert(head.take(head.len() as int) =~= head);
        assert(unanswered(head) =~= pending(states[0].phase));
    } else {
        turns_keep_their_order(states, system, history, user, i - 1);
        assert(turn_steps(states[i - 1], states[i]));
        lemma_step_in_order(head, states[i - 1], states[i]);
    }
}

/// A turn that is over stays so: nothing can be asked, run or recorded of it any more.
pub proof fn finished_turns_stay(pre: Turn, post: Turn)
    requires
        pre.phase is Done || pre.phase is Failed,
    ensures
        !turn_steps(pre, post),
{
}

/// How a turn is over: with the cap text once the cap is reached, or with the text of an
/// answer that asks for no tools.
pub proof fn turns_end_with_an_answer(pre: Turn, post: Turn)
    requires
        turn_steps(pre, post),
        post.phase is Done,
    ensures
        (post.phase->Done_0@ == cap_text() && pre.steps >= pre.max_steps) || exists|c: Choice|
            #[trigger] c.tool_calls@.len() == 0 && post.phase->Done_0@ == crate::text::trimmed(
                content_of(c),
            ),
{
    if exists|c: Completion, r: Step| #[trigger] takes(pre, c, post, r) {
        let (c, r) = choose|c: Completion, r: Step| #[trigger] takes(pre, c, post, r);
        assert(c.choice->Some_0.tool_calls@.len() == 0);
    }
}

/// Usage adds up: it does not matter how requests are grouped.
pub proof fn usage_is_additive(a: Option<TokenUsage>, b: Option<TokenUsage>, c: Option<TokenUsage>)
    requires
        can_add(a, b),
        can_add(added(a, b), c),
        can_add(b, c),
        can_add(a, added(b, c)),
    ensures
        added(added(a, b), c) == added(a, added(b, c)),
{
}

/// The messages of a turn at its beginning: the system prompt, with what is remembered of the
/// sender behind it where it goes there, each message of the history in the role that it was
/// stored in, and what the user writes now.
pub proof fn turns_open_with_the_history(
    agent: &ChatAgent,
    key: &str,
    user_text: &str,
    snippet: Option<&str>,
    max_steps: usize,
    turn: Turn,
    h: Seq<Stored>,
    i: int,
)
    requires
        call_ensures(ChatAgent::begin_turn, (agent, key, user_text, snippet, max_steps), turn),
        if agent.histories().dom().contains(key@) {
            h == agent.histories()[key@]
        } else {
            h.len() == 0
        },
    ensures
        turn.messages@.len() == h.len() + 2,
        turn.messages@[0] matches ChatMessage::System(p) && p@ == (match snippet {
            Some(f) => if agent.injects() {
                agent.base_prompt() + "\n\n"@ + f@
            } else {
                agent.base_prompt()
            },
            None => agent.base_prompt(),
        }),
        turn.messages@.last() matches ChatMessage::User(t) && t@ == user_text@,
        0 <= i < h.len() ==> match h[i] {
            Stored::User(t) => turn.messages@[i + 1] matches ChatMessage::User(u) && u@ == t@,
            Stored::Assistant(t) => turn.messages@[i + 1] matches ChatMessage::Assistant(u) && u@
                == t@,
        },
        turn.phase is Ready && turn.steps == 0 && turn.max_steps == max_steps && turn.usage is None,
{
    let v = message_views(turn.messages@);
    assert(history_in(agent.histories(), key@) =~= h);
    assert(v.len() == h.len() + 2);
    assert(v[0] == turn.messages@[0]@);
    assert(v.last() == turn.messages@.last()@);
    if 0 <= i < h.len() {
        assert(v[i + 1] == turn.messages@[i + 1]@);
        assert(v[i + 1] == as_message(h[i]));
    }
}

/// A turn that is recorded becomes the end of the history of its key: what the user wrote as
/// the user's and the reply as the assistant's, behind as much of the past as the cap leaves
/// room for. The histories of other keys stay.
pub proof fn recorded_turns_end_the_history(
    pre: ChatAgent,
    post: ChatAgent,
    key: Seq<char>,
    user_text: Seq<char>,
    reply: Seq<char>,
    due: bool,
    h: Seq<Stored>,
    g: Seq<Stored>,
    k: int,
    other: Seq<char>,
)
    requires
        records(pre, post, key, user_text, reply, due),
        if pre.histories().dom().contains(key) {
            h == pre.histories()[key]
        } else {
            h.len() == 0
        },
        g == post.histories()[key],
    ensures
        post.histories().dom().contains(key),
        g.len() == (if h.len() + 2 <= pre.cap() {
            h.len() + 2
        } else {
            pre.cap()
        }),
        1 <= k <= g.len() ==> if k == 1 {
            g[g.len() - k] matches Stored::Assistant(a) && a@ == reply
        } else if k == 2 {
            g[g.len() - k] matches Stored::User(u) && u@ == user_text
        } else {
            g[g.len() - k] == h[h.len() + 2 - k]
        },
        other != key ==> post.histories().dom().contains(other) == pre.histories().dom().contains(
            other,
        ) && post.histories()[other] == pre.histories()[other],
        post.cap() == pre.cap(),
        due == pre.compacts(g.len()),
{
    let past = history_in(pre.histories(), key);
    assert(past =~= h);
    let (u, a) = choose|u: String, a: String|
        u@ == user_text && a@ == reply && post.histories() == pre.histories().insert(
            key,
            #[trigger] with_turn(past, Stored::User(u), Stored::Assistant(a), pre.cap()),
        );
    turns_are_appended(past, Stored::User(u), Stored::Assistant(a), pre.cap());
    let all = past.push(Stored::User(u)).push(Stored::Assistant(a));
    assert(g == recent(all, pre.cap()));
    if 1 <= k <= g.len() {
        assert(g[g.len() - k] == all[all.len() - k]);
    }
}

/// An answer of the model that asks for tools is kept with its text and all of its calls, and
/// its function calls are run in the order in which they stand; an answer that asks for none
/// ends the turn with its text without the white space around it, and an answer without a
/// choice is a failure. The tokens of the request are added to those of the turn.
pub proof fn answers_are_followed(pre: Turn, c: Completion, post: Turn, r: Step)
    requires
        takes(pre, c, post, r),
        can_add(pre.usage, c.usage),
    ensures
        forall|i: int|
            0 <= i < pre.messages@.len() ==> (#[trigger] post.messages@[i])@ == pre.messages@[i]@,
        match c.choice {
            None => {
                &&& post.phase matches Phase::Failed(e)
                &&& e@ == "no choices in completion response"@
                &&& post.messages@.len() == pre.messages@.len()
            },
            Some(ch) => if ch.tool_calls@.len() == 0 {
                &&& post.phase matches Phase::Done(t)
                &&& post.messages@.len() == pre.messages@.len()
                &&& ch.content matches Some(text) ==> t@ == crate::text::trimmed(text@)
                &&& ch.content is None ==> t@.len() == 0
            } else {
                &&& r matches Step::RunTools(calls)
                &&& calls@ == ch.tool_calls@.filter(|x: ToolCall| x.is_function)
                &&& calls@.len() == 0 ==> post.phase is Ready
                &&& calls@.len() > 0 ==> (post.phase matches Phase::Running { calls: k, done }
                    && k@ == calls@ && done == 0)
                &&& post.messages@.len() == pre.messages@.len() + 1
                &&& post.messages@.last() matches ChatMessage::ToolCalls(t, k)
                &&& k@ == ch.tool_calls@
                &&& ch.content matches Some(text) ==> t@ == text@
                &&& ch.content is None ==> t@.len() == 0
            },
        },
        match (pre.usage, c.usage) {
            (Some(x), Some(y)) => post.usage matches Some(z) && z.prompt_tokens == x.prompt_tokens
                + y.prompt_tokens && z.completion_tokens == x.completion_tokens
                + y.completion_tokens && z.total_tokens == x.total_tokens + y.total_tokens,
            (None, y) => post.usage == y,
            (x, None) => post.usage == x,
        },
        post.steps == pre.steps,
        post.max_steps == pre.max_steps,
{
    let a = message_views(pre.messages@);
    let b = message_views(post.messages@);
    assert(a.len() == pre.messages@.len() && b.len() == post.messages@.len());
    assert forall|i: int| 0 <= i < pre.messages@.len() implies (#[trigger] post.messages@[i])@
        == pre.messages@[i]@ by {
        assert(b[i] == a[i]);
    }
    if b.len() > a.len() {
        assert(b.last() == post.messages@.last()@);
    }
    if let Some(ch) = c.choice {
        if ch.content is None && ch.tool_calls@.len() == 0 {
            assert(crate::text::trimmed(Seq::<char>::empty()).len() == 0);
        }
        assert(functions(ch.tool_calls@) == ch.tool_calls@.filter(|x: ToolCall| x.is_function));
    }
}

/// The result of a tool is handed to the model under the id of its call, behind everything
/// else, and the next call is run after it, or the model asked again after the last.
pub proof fn results_are_handed_on(pre: Turn, content: Seq<char>, post: Turn)
    requires
        answers(pre, content, post),
    ensures
        post.messages@.len() == pre.messages@.len() + 1,
        forall|i: int|
            0 <= i < pre.messages@.len() ==> (#[trigger] post.messages@[i])@ == pre.messages@[i]@,
        pre.phase matches Phase::Running { calls, done } && (post.messages@.last() matches
            ChatMessage::ToolResult(id, text) && id@ == calls@[done as int].id@ && text@ == content)
            && (done + 1 == calls@.len() ==> post.phase is Ready) && (done + 1 != calls@.len() ==> (
        post.phase matches Phase::Running { calls: k, done: d } && k@ == calls@ && d == done + 1)),
        post.usage == pre.usage,
        post.steps == pre.steps,
        post.max_steps == pre.max_steps,
{
    let a = message_views(pre.messages@);
    let b = message_views(post.messages@);
    assert(a.len() == pre.messages@.len() && b.len() == post.messages@.len());
    assert forall|i: int| 0 <= i < pre.messages@.len() implies (#[trigger] post.messages@[i])@
        == pre.messages@[i]@ by {
        assert(b[i] == a[i]);
    }
    assert(b.last() == post.messages@.last()@);
}

/// The model is asked while the cap leaves a step, with the messages as they are, and at the
/// cap the turn ends with a text that says so.
pub proof fn caps_end_turns(pre: Turn, post: Turn, r: Step)
    requires
        goes_on(pre, post, r),
    ensures
        pre.steps < pre.max_steps ==> r is Ask && post.phase is Asked && post.steps == pre.steps + 1,
        pre.steps >= pre.max_steps ==> (post.phase matches Phase::Done(t) && t@
            == "I reached the maximum number of tool steps; stopping here."@) && post.steps
            == pre.steps,
        post.messages == pre.messages,
        post.usage == pre.usage,
        post.max_steps == pre.max_steps,
{
}

/// A request that fails ends the turn with why, and the reply to such a turn is that error:
/// nothing of it is recorded.
pub proof fn failures_are_told(pre: Turn, error: Seq<char>, post: Turn)
    requires
        breaks(pre, error, post),
    ensures
        post.phase matches Phase::Failed(e) && e@ == error,
        post.messages == pre.messages,
        post.usage == pre.usage,
        post.steps == pre.steps,
{
}

/// The arguments of a call are those that its text holds; a text that is empty or holds no
/// JSON gives none.
pub proof fn arguments_are_what_the_text_holds(text: &str, r: Json)
    requires
        call_ensures(parse_arguments, (text,), r),
    ensures
        match crate::json::parsed_json(text@) {
            Some(v) => text@.len() > 0 ==> r@ == v,
            None => r@ == JsonView::Null,
        },
        text@.len() == 0 ==> r@ == JsonView::Null,
{
}

/// A turn that is recorded is the end of its history: what the user wrote, then the answer, within
/// the cap; the other histories stay.
pub proof fn turns_are_recorded(
    agent: &mut ChatAgent,
    key: &str,
    user_text: &str,
    reply: &str,
    due: bool,
    h: Seq<Stored>,
    g: Seq<Stored>,
    k: int,
    other: Seq<char>,
)
    requires
        call_ensures(ChatAgent::record_turn, (agent, key, user_text, reply), due),
        if old(agent).histories().dom().contains(key@) {
            h == old(agent).histories()[key@]
        } else {
            h.len() == 0
        },
        g == final(agent).histories()[key@],
    ensures
        g.len() == (if h.len() + 2 <= old(agent).cap() {
            h.len() + 2
        } else {
            old(agent).cap()
        }),
        1 <= k <= g.len() ==> if k == 1 {
            g[g.len() - k] matches Stored::Assistant(a) && a@ == reply@
        } else if k == 2 {
            g[g.len() - k] matches Stored::User(u) && u@ == user_text@
        } else {
            g[g.len() - k] == h[h.len() + 2 - k]
        },
        other != key@ ==> final(agent).histories()[other] == old(agent).histories()[other],
        due == old(agent).compacts(g.len()),
{
    recorded_turns_end_the_history(
        *old(agent),
        *final(agent),
        key@,
        user_text@,
        reply@,
        due,
        h,
        g,
        k,
        other,
    );
}

/// A reply is the trimmed text of the answer, with its usage and its model, and is recorded; a
/// turn with tools ends with its text recorded, and one that failed changes nothing.
pub proof fn replies_are_the_answers(
    agent: &mut ChatAgent,
    worker: &mut ChatAgent,
    key: &str,
    user_text: &str,
    c: &Completion,
    turn: &Turn,
    r: (Reply, bool),
    s: Result<(Reply, bool), String>,
)
    requires
        call_ensures(ChatAgent::reply, (agent, key, user_text, c), r),
        turn.phase is Done || turn.phase is Failed,
        call_ensures(ChatAgent::reply_with_tools, (worker, key, user_text, turn), s),
    ensures
        match c.choice {
            Some(ch) => match ch.content {
                Some(t) => r.0.text@ == crate::text::trimmed(t@),
                None => r.0.text@.len() == 0,
            },
            None => r.0.text@.len() == 0,
        },
        r.0.usage == c.usage && r.0.model == c.model,
        records(*old(agent), *final(agent), key@, user_text@, r.0.text@, r.1),
        turn.phase matches Phase::Done(t) ==> {
            &&& s matches Ok(p)
            &&& p.0.text@ == t@ && p.0.usage == turn.usage && p.0.model@ == old(worker).model_id()
            &&& records(*old(worker), *final(worker), key@, user_text@, t@, p.1)
        },
        turn.phase matches Phase::Failed(e) ==> *final(worker) == *old(worker) && (s matches Err(f)
            && f@ == e@),
{
    assert(crate::text::trimmed(Seq::empty()).len() == 0);
}

/// The steps of a turn are those that the laws of turns speak of.
pub proof fn turns_take_their_steps(
    asked: &mut Turn,
    c: Completion,
    step: Step,
    running: &mut Turn,
    content: &str,
    ready: &mut Turn,
    next: Step,
    broken: &mut Turn,
    error: &str,
)
    requires
        old(asked).wf() && old(asked).phase is Asked && can_add(old(asked).usage, c.usage),
        call_ensures(Turn::received, (asked, c), step),
        old(running).wf() && old(running).phase is Running,
        call_ensures(Turn::tool_result, (running, content), ()),
        old(ready).wf() && old(ready).phase is Ready,
        call_ensures(Turn::next, (ready,), next),
        old(broken).wf() && old(broken).phase is Asked,
        call_ensures(Turn::failed, (broken, error), ()),
    ensures
        takes(*old(asked), c, *final(asked), step),
        answers(*old(running), content@, *final(running)),
        goes_on(*old(ready), *final(ready), next),
        breaks(*old(broken), error@, *final(broken)),
{
}

/// A history is compacted when it is due and there is a summary: the summary stands for all but
/// the recent messages. Else nothing changes, and the other histories never do.
pub proof fn histories_are_compacted_when_due(
    agent: &mut ChatAgent,
    key: &str,
    summary: &str,
    r: bool,
    h: Seq<Stored>,
    i: int,
    other: Seq<char>,
)
    requires
        call_ensures(ChatAgent::compact_history, (agent, key, summary), r),
        if old(agent).histories().dom().contains(key@) {
            h == old(agent).histories()[key@]
        } else {
            h.len() == 0
        },
        h.len() > old(agent).keeps(),
    ensures
        r <==> old(agent).compacts(h.len()) && summary@.len() > 0,
        !r ==> final(agent).histories() == old(agent).histories(),
        r ==> {
            let g = final(agent).histories()[key@];
            &&& g.len() == old(agent).keeps() + 1
            &&& g[0] matches Stored::Assistant(t)
            &&& t@ == "[summary of earlier conversation]\n"@ + summary@
            &&& 0 < i < g.len() ==> g[i] == h[h.len() - g.len() + i]
        },
        other != key@ ==> final(agent).histories()[other] == old(agent).histories()[other],
{
    assert(history_in(old(agent).histories(), key@) =~= h);
}

/// Usages fit together when their sums fit, count by count.
pub proof fn usages_fit_by_count(x: TokenUsage, y: TokenUsage, r: bool)
    requires
        call_ensures(usage_fits, (&Some(x), &Some(y)), r),
    ensures
        r <==> x.prompt_tokens + y.prompt_tokens <= u32::MAX && x.completion_tokens
            + y.completion_tokens <= u32::MAX && x.total_tokens + y.total_tokens <= u32::MAX,
{
}

/// A summary is asked for when it is due: of all but the recent messages, from the summarizer,
/// with its own instruction.
pub proof fn summaries_are_asked_for_when_due(
    agent: &ChatAgent,
    key: &str,
    r: Option<crate::compact::SummaryRequest>,
    h: Seq<Stored>,
)
    requires
        call_ensures(ChatAgent::summary_request, (agent, key), r),
        if agent.histories().dom().contains(key@) {
            h == agent.histories()[key@]
        } else {
            h.len() == 0
        },
        h.len() >= agent.keeps(),
    ensures
        r is Some <==> agent.compacts(h.len()),
        r matches Some(q) ==> {
            &&& q.model@ == agent.summarizer()
            &&& q.transcript@ == crate::compact::transcript_of(h.take(h.len() - agent.keeps()))
            &&& q.max_tokens == 512
            &&& crate::text::has_text(q.system@, agent.instruction())
        },
{
    assert(history_in(agent.histories(), key@) =~= h);
    if let Some(q) = r {
        let a = "You are a conversation summarizer. "@;
        let b = " Reply with only the summary — no preamble."@;
        assert(q.system@ == a + agent.instruction() + b);
        crate::text::texts_begin_and_hold(q.system@, agent.instruction());
    }
}

/// Neither a recorded turn nor a compaction changes how an agent works.
pub proof fn settings_stay(
    a: &mut ChatAgent,
    b: &mut ChatAgent,
    key: &str,
    user_text: &str,
    reply: &str,
    due: bool,
    summary: &str,
    done: bool,
    n: nat,
)
    requires
        call_ensures(ChatAgent::record_turn, (a, key, user_text, reply), due),
        call_ensures(ChatAgent::compact_history, (b, key, summary), done),
    ensures
        final(a).cap() == old(a).cap() && final(a).model_id() == old(a).model_id(),
        final(a).base_prompt() == old(a).base_prompt() && final(a).injects() == old(a).injects(),
        final(a).token_limit() == old(a).token_limit() && final(a).keeps() == old(a).keeps(),
        final(a).compacts(n) == old(a).compacts(n),
        final(a).summarizer() == old(a).summarizer() && final(a).instruction() == old(
            a).instruction(),
        final(b).cap() == old(b).cap() && final(b).model_id() == old(b).model_id(),
        final(b).base_prompt() == old(b).base_prompt() && final(b).injects() == old(b).injects(),
        final(b).token_limit() == old(b).token_limit() && final(b).keeps() == old(b).keeps(),
        final(b).compacts(n) == old(b).compacts(n),
        final(b).summarizer() == old(b).summarizer() && final(b).instruction() == old(
            b).instruction(),
{
}

} // verus!
