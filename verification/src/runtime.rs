//! What happens between the bridge and the agent: the reaction to every event of a
//! connection, the reconnects, and what everything is built from.

use vstd::prelude::*;
use crate::a2a::A2aRegistry;
use crate::agent::ChatAgent;
use crate::bridge::{Envelope, Inbound, InboundMessage, SendTextPayload, SubscribePayload};
use crate::compact::Compactor;
use crate::config::{BridgeConfig, CompactConfig, Config, HitlConfig, LlmConfig};
use crate::hitl::{HitlBroker, Outcome, PendingConfirmation};
use crate::json::Json;
use crate::mcp::McpRegistry;
use crate::memory::MemoryStore;
use crate::model_catalog::{Catalog, Strategy};
use crate::scheduler::{FiredJob, Scheduler};
use crate::session::SessionManager;
use crate::skill::SkillRegistry;
use crate::tenant::{tenant_id_from_subscription, Principal, Tenants};
use crate::text::{
    cat,
    contains_char,
    decimal_text,
    dup_all,
    dup_opt,
    same,
    same_ignoring_case,
    split_words,
    to_lower,
    trim,
};
use crate::tools::dispatch::{dup_agents, dup_servers};
use crate::tools::{Action, Exposure, ToolRouter};

verus! {

// ---- replies of humans to confirmations ------------------------------------------

/// A word that approves.
pub open spec fn approves(w: Seq<char>) -> bool {
    w == "yes"@ || w == "y"@ || w == "approve"@ || w == "confirm"@
}

/// The first word of a text; the empty text when there is none.
pub open spec fn head(s: Seq<char>) -> Seq<char> {
    let w = crate::text::words(s);
    if w.len() > 0 {
        w[0]
    } else {
        Seq::empty()
    }
}

/// What a reply that was trimmed and put in lowercase means.
pub open spec fn meaning(lowered: Seq<char>) -> Outcome {
    if approves(head(lowered)) {
        Outcome::Approved
    } else {
        Outcome::Denied
    }
}

/// What a reply that was trimmed and put in lowercase means: approval if its first
/// word approves, else refusal.
pub fn meaning_of(lowered: &str) -> (r: Outcome)
    ensures
        r == meaning(lowered@),
{
    let words: Vec<String> = split_words(lowered);
    let ghost all = crate::text::views(words@);
    if words.len() == 0 {
        proof {
            reveal_strlit("yes");
            reveal_strlit("y");
            reveal_strlit("approve");
            reveal_strlit("confirm");
            assert(all.len() == 0);
            assert(head(lowered@).len() == 0);
            assert("yes"@.len() > 0 && "y"@.len() > 0 && "approve"@.len() > 0);
            assert("confirm"@.len() > 0);
        }
        return Outcome::Denied;
    }
    let w: &str = words[0].as_str();
    assert(all[0] == w@);
    if same(w, "yes") || same(w, "y") || same(w, "approve") || same(w, "confirm") {
        Outcome::Approved
    } else {
        Outcome::Denied
    }
}

/// What a reply to a confirmation means.
pub open spec fn reply_meaning(text: Seq<char>) -> Outcome {
    meaning(crate::text::lower(crate::text::trimmed(text)))
}

/// What a reply to a confirmation means. Upper and lower case are one; anything but
/// a clear approval is a refusal.
pub fn parse_hitl_reply(text: &str) -> (r: Outcome)
    ensures
        r == reply_meaning(text@),
{
    let t: String = to_lower(&trim(text));
    meaning_of(&t)
}

/// What a user's text decides about a confirmation.
pub open spec fn decision(text: Seq<char>) -> Outcome {
    let t = crate::text::ascii_lowered(text);
    if t == crate::text::ascii_lowered("yes"@) || t == crate::text::ascii_lowered("y"@) || t
        == crate::text::ascii_lowered("approve"@) {
        Outcome::Approved
    } else {
        reply_meaning(text)
    }
}

fn decide(text: &str) -> (r: Outcome)
    ensures
        r == decision(text@),
{
    if same_ignoring_case(text, "yes") || same_ignoring_case(text, "y") || same_ignoring_case(
        text,
        "approve",
    ) {
        Outcome::Approved
    } else {
        parse_hitl_reply(text)
    }
}

/// What the user is told about their decision.
pub open spec fn note(o: Outcome) -> Seq<char> {
    match o {
        Outcome::Approved => "✅ Approved."@,
        Outcome::Denied => "🚫 Denied."@,
        Outcome::TimedOut => "⏱️ Timed out."@,
    }
}

fn note_text(o: Outcome) -> (r: &'static str)
    ensures
        r@ == note(o),
{
    match o {
        Outcome::Approved => "✅ Approved.",
        Outcome::Denied => "🚫 Denied.",
        Outcome::TimedOut => "⏱️ Timed out.",
    }
}

/// The question that asks a human for approval.
pub open spec fn question(p: PendingConfirmation, timeout_secs: u64) -> Seq<char> {
    "🔑 Approval needed for `"@ + p.tool@ + "` (id `"@ + p.id@ + "`):\n"@ + p.summary@
        + "\nReply yes/no (auto-denies in "@ + crate::text::decimal(
        timeout_secs as nat,
    ) + "s)."@
}

fn question_text(p: &PendingConfirmation, timeout_secs: u64) -> (r: String)
    ensures
        r@ == question(*p, timeout_secs),
{
    let mut out: String = cat("🔑 Approval needed for `", &p.tool);
    out.append("` (id `");
    out.append(p.id.as_str());
    out.append("`):\n");
    out.append(p.summary.as_str());
    out.append("\nReply yes/no (auto-denies in ");
    out.append(decimal_text(timeout_secs).as_str());
    out.append("s).");
    out
}

// ---- where replies go ------------------------------------------------------------

/// Where a reply to a sender goes: Mattermost wants bare ids marked as users.
pub open spec fn target_of(channel: Seq<char>, sender: Seq<char>) -> Seq<char> {
    if !sender.contains(':') && channel == "mattermost"@ {
        "user:"@ + sender
    } else {
        sender
    }
}

/// Where a reply to a sender goes when the bridge does not say.
pub fn format_reply_target(channel: &str, sender_id: &str) -> (r: String)
    ensures
        r@ == target_of(channel@, sender_id@),
{
    if !contains_char(sender_id, ':') && same(channel, "mattermost") {
        cat("user:", sender_id)
    } else {
        sender_id.to_string()
    }
}

/// Where the reply to a message goes.
pub open spec fn reply_target(channel: Seq<char>, m: crate::bridge::MessageView) -> Seq<char> {
    match m.reply_to {
        Some(t) => if t.len() > 0 {
            t
        } else {
            target_of(channel, m.sender_id)
        },
        None => target_of(channel, m.sender_id),
    }
}

/// Where the reply to a message goes: where the bridge says, if it does.
pub fn resolve_reply_target(channel: &str, msg: &InboundMessage) -> (r: String)
    ensures
        r@ == reply_target(channel@, msg@),
{
    if let Some(t) = &msg.reply_to {
        if !t.as_str().is_empty() {
            return t.clone();
        }
    }
    format_reply_target(channel, &msg.sender_id)
}

/// An envelope that sends a text to a target of a channel.
pub open spec fn sends(
    e: Envelope,
    channel: Seq<char>,
    account: Seq<char>,
    to: Seq<char>,
    text: Seq<char>,
    reply_to: Option<Seq<char>>,
    token: Option<Seq<char>>,
) -> bool {
    &&& e.v == crate::bridge::PROTOCOL_VERSION
    &&& crate::ids::is_fresh_id(e.id@, "sloth-"@)
    &&& e.message_type@ == "send_text"@
    &&& e.channel@ == channel
    &&& crate::text::opt_view(e.account_id) == Some(account)
    &&& e.payload@ == crate::bridge::send_text_json(to, text, reply_to, token)
    &&& e.ts is None
}

/// An envelope that sends a text.
pub fn build_send_text(
    channel: &str,
    account_id: &str,
    to: &str,
    text: &str,
    reply_to_message_id: Option<&str>,
    context_token: Option<&str>,
) -> (r: Envelope)
    ensures
        sends(
            r,
            channel@,
            account_id@,
            to@,
            text@,
            crate::text::opt_str_view(reply_to_message_id),
            crate::text::opt_str_view(context_token),
        ),
{
    let payload: Json = SendTextPayload { to, text, reply_to_message_id, context_token }.to_json();
    Envelope::outgoing("send_text", channel, payload).with_account(account_id)
}

// ---- a connection ----------------------------------------------------------------

/// A text that the agent has to answer.
#[derive(Debug)]
pub struct Prompt {
    /// On whose behalf.
    pub principal: Principal,
    pub text: String,
    /// Where the answer goes.
    pub to: String,
    pub reply_to_message_id: Option<String>,
    pub context_token: Option<String>,
    /// Whether the target is told when there is no answer.
    pub notify: bool,
}

/// What happens on a connection.
#[derive(Debug)]
pub enum Event {
    /// A scheduled job is due.
    Job(FiredJob),
    /// A tool call waits for a human.
    Pending(PendingConfirmation),
    /// The bridge sent an envelope.
    Envelope(Envelope),
    /// The bridge sent a text frame that is no envelope.
    Malformed,
    /// The bridge sent a frame that is no text, and no close frame.
    Noise,
    /// The bridge closed the connection, with or without a close frame.
    Closed,
    /// Nothing came in time.
    TimedOut,
    /// A frame could not be read.
    Failed,
}

/// What to do about an event.
#[derive(Debug)]
pub enum Step {
    /// Nothing.
    Wait,
    /// Send an envelope.
    Send(Envelope),
    /// Hand a decision to the call that waits for it, and send a note.
    Decide { id: String, outcome: Outcome, note: Envelope },
    /// Let the agent answer.
    Answer(Prompt),
    /// End the connection.
    End,
}

/// What a scheduled job asks the agent.
pub open spec fn job_prompt(name: Seq<char>, prompt: Seq<char>) -> Seq<char> {
    "[scheduled task: "@ + name + "]\n"@ + prompt
}

/// The tenant on whose behalf a job runs; the empty one for a job without.
pub open spec fn job_tenant(j: FiredJob) -> Seq<char> {
    match crate::text::opt_view(j.tenant_id) {
        Some(t) => t,
        None => Seq::empty(),
    }
}

/// The sender on whose behalf a job runs: whoever scheduled it, else its session.
pub open spec fn job_sender(j: FiredJob) -> Seq<char> {
    match crate::text::opt_view(j.reply_to) {
        Some(s) => s,
        None => j.session_id@,
    }
}

/// A prompt is that of a due job.
pub open spec fn asks_for_job(p: Prompt, channel: Seq<char>, j: FiredJob) -> bool {
    &&& p.principal.tenant_id@ == job_tenant(j)
    &&& p.principal.sender_id@ == job_sender(j)
    &&& p.text@ == job_prompt(j.name@, j.prompt@)
    &&& p.to@ == (match crate::text::opt_view(j.reply_to) {
        Some(s) => target_of(channel, s),
        None => channel,
    })
    &&& p.reply_to_message_id is None
    &&& p.context_token is None
    &&& !p.notify
}

/// A prompt is that of a user's message.
pub open spec fn asks_for_message(
    p: Prompt,
    channel: Seq<char>,
    account: Seq<char>,
    m: crate::bridge::MessageView,
) -> bool {
    &&& p.principal.tenant_id@ == crate::tenant::tenant_of(channel, account)
    &&& p.principal.sender_id@ == m.sender_id
    &&& p.text@ == crate::text::trimmed(m.text)
    &&& p.to@ == reply_target(channel, m)
    &&& crate::text::opt_view(p.reply_to_message_id) == m.reply_to_message_id
    &&& crate::text::opt_view(p.context_token) == m.context_token
    &&& p.notify
}

/// Whether a message is one that the agent answers: text that is not blank.
pub open spec fn is_answered(m: crate::bridge::MessageView) -> bool {
    (m.msg_type == "text"@ || m.msg_type == "markdown"@) && crate::text::trimmed(m.text).len() > 0
}

/// What is said when there is no answer.
pub const NO_ANSWER: &'static str =
    "⚠️ Sorry, I couldn't generate a reply just now. Please try again.";

/// One connection to the bridge.
pub struct Connection {
    pub channel: String,
    pub account_id: String,
    /// The confirmation that a human was asked for last and has not answered.
    pub asked: Option<PendingConfirmation>,
}

impl Connection {
    /// A connection on which nobody was asked yet.
    pub fn new(channel: &str, account_id: &str) -> (r: Self)
        ensures
            r.channel@ == channel@,
            r.account_id@ == account_id@,
            r.asked is None,
    {
        Connection { channel: channel.to_string(), account_id: account_id.to_string(), asked: None }
    }

    /// The first envelope, which subscribes to the channel.
    pub fn subscribe(&self) -> (r: Envelope)
        ensures
            r.v == crate::bridge::PROTOCOL_VERSION,
            crate::ids::is_fresh_id(r.id@, "sloth-"@),
            r.message_type@ == "subscribe"@,
            r.channel@ == self.channel@,
            r.account_id is None,
            r.payload@ == crate::bridge::subscribe_json(self.channel@, self.account_id@),
            r.ts is None,
    {
        let payload: Json = SubscribePayload {
            channel: self.channel.as_str(),
            account_id: self.account_id.as_str(),
        }.to_json();
        Envelope::outgoing("subscribe", &self.channel, payload)
    }

    /// The envelope of the heartbeat.
    pub fn ping(&self) -> (r: Envelope)
        ensures
            r.v == crate::bridge::PROTOCOL_VERSION,
            crate::ids::is_fresh_id(r.id@, "sloth-"@),
            r.message_type@ == "ping"@,
            r.channel@ == self.channel@,
            r.account_id is None,
            r.payload@ == crate::json::JsonView::Null,
            r.ts is None,
    {
        Envelope::outgoing("ping", &self.channel, Json::Null)
    }

    /// The prompt of a due job.
    pub fn handle_fired_job(&self, job: FiredJob) -> (r: Prompt)
        ensures
            asks_for_job(r, self.channel@, job),
    {
        let mut text: String = cat("[scheduled task: ", &job.name);
        text.append("]\n");
        text.append(job.prompt.as_str());
        let to: String = match &job.reply_to {
            Some(s) => format_reply_target(&self.channel, s),
            None => self.channel.clone(),
        };
        let tenant_id: String = match job.tenant_id {
            Some(t) => t,
            None => String::new(),
        };
        assert(tenant_id@ =~= job_tenant(job));
        let sender_id: String = match job.reply_to {
            Some(s) => s,
            None => job.session_id,
        };
        Prompt {
            principal: Principal::new(&tenant_id, &sender_id),
            text,
            to,
            reply_to_message_id: None,
            context_token: None,
            notify: false,
        }
    }

    /// Asks for a confirmation. The next message of a user answers it.
    pub fn ask_hitl(&mut self, p: PendingConfirmation, timeout_secs: u64) -> (r: Envelope)
        ensures
            sends(
                r,
                old(self).channel@,
                old(self).account_id@,
                old(self).channel@,
                question(p, timeout_secs),
                None,
                None,
            ),
            *final(self) == (Connection { asked: Some(p), ..*old(self) }),
    {
        let text: String = question_text(&p, timeout_secs);
        let e: Envelope = build_send_text(
            &self.channel,
            &self.account_id,
            &self.channel,
            &text,
            None,
            None,
        );
        self.asked = Some(p);
        e
    }

    /// Reacts to a user's message. While a human is asked for a confirmation, the
    /// message is the answer, if the confirmation is still pending; otherwise the
    /// agent answers it.
    pub fn handle_message(&mut self, msg: InboundMessage, hitl: &mut HitlBroker) -> (r: Step)
        requires
            old(hitl).wf(),
        ensures
            final(hitl).wf(),
            final(hitl).config() == old(hitl).config(),
            handled(
                *old(self),
                *final(self),
                old(hitl).waiting(),
                final(hitl).waiting(),
                crate::bridge::InboundView::Message(msg@),
                r,
            ),
    {
        if !same(&msg.msg_type, "text") && !same(&msg.msg_type, "markdown") {
            return Step::Wait;
        }
        let text: String = trim(&msg.text);
        if text.as_str().is_empty() {
            return Step::Wait;
        }
        let to: String = resolve_reply_target(&self.channel, &msg);
        let asked: Option<PendingConfirmation> = match &self.asked {
            Some(p) => Some(p.dup()),
            None => None,
        };
        self.asked = None;
        if let Some(p) = asked {
            let outcome: Outcome = decide(&text);
            if hitl.resolve(&p.id, outcome).is_some() {
                let reply_to: Option<&str> = match &msg.reply_to_message_id {
                    Some(s) => Some(s.as_str()),
                    None => None,
                };
                let token: Option<&str> = match &msg.context_token {
                    Some(s) => Some(s.as_str()),
                    None => None,
                };
                let e: Envelope = build_send_text(
                    &self.channel,
                    &self.account_id,
                    &to,
                    note_text(outcome),
                    reply_to,
                    token,
                );
                return Step::Decide { id: p.id, outcome, note: e };
            }
        }
        let tenant: String = tenant_id_from_subscription(&self.channel, &self.account_id);
        Step::Answer(
            Prompt {
                principal: Principal::new(&tenant, &msg.sender_id),
                text,
                to,
                reply_to_message_id: msg.reply_to_message_id,
                context_token: msg.context_token,
                notify: true,
            },
        )
    }

    /// Reacts to an envelope: only a user's message asks for anything.
    pub fn handle_envelope(&mut self, env: Envelope, hitl: &mut HitlBroker) -> (r: Step)
        requires
            old(hitl).wf(),
        ensures
            final(hitl).wf(),
            final(hitl).config() == old(hitl).config(),
            handled(
                *old(self),
                *final(self),
                old(hitl).waiting(),
                final(hitl).waiting(),
                crate::bridge::event_of(env.message_type@, env.payload@),
                r,
            ),
    {
        match env.into_event() {
            Inbound::Message(m) => self.handle_message(m, hitl),
            Inbound::Status(_) => Step::Wait,
            Inbound::Welcome(_) => Step::Wait,
            Inbound::SendAck(_) => Step::Wait,
            Inbound::SendError(_) => Step::Wait,
            Inbound::Pong => Step::Wait,
            Inbound::Other { .. } => Step::Wait,
        }
    }

    /// Reacts to an event of the connection.
    pub fn handle(&mut self, e: Event, hitl: &mut HitlBroker, timeout_secs: u64) -> (r: Step)
        requires
            old(hitl).wf(),
        ensures
            final(hitl).wf(),
            final(hitl).config() == old(hitl).config(),
            stepped(
                *old(self),
                *final(self),
                old(hitl).waiting(),
                final(hitl).waiting(),
                e,
                timeout_secs,
                r,
            ),
    {
        match e {
            Event::Job(j) => Step::Answer(self.handle_fired_job(j)),
            Event::Pending(p) => Step::Send(self.ask_hitl(p, timeout_secs)),
            Event::Envelope(env) => self.handle_envelope(env, hitl),
            Event::Malformed => Step::Wait,
            Event::Noise => Step::Wait,
            Event::Closed => Step::End,
            Event::TimedOut => Step::End,
            Event::Failed => Step::End,
        }
    }

    /// The envelope that delivers the answer to a prompt. Without an answer it says
    /// so to a user, and nothing after a job.
    pub fn deliver(&self, p: &Prompt, answer: Option<&str>) -> (r: Option<Envelope>)
        ensures
            match (answer, p.notify) {
                (None, false) => r is None,
                (None, true) => r matches Some(e) && sends(
                    e,
                    self.channel@,
                    self.account_id@,
                    p.to@,
                    NO_ANSWER@,
                    crate::text::opt_view(p.reply_to_message_id),
                    crate::text::opt_view(p.context_token),
                ),
                (Some(text), _) => r matches Some(e) && sends(
                    e,
                    self.channel@,
                    self.account_id@,
                    p.to@,
                    text@,
                    crate::text::opt_view(p.reply_to_message_id),
                    crate::text::opt_view(p.context_token),
                ),
            },
    {
        let text: &str = match answer {
            Some(t) => t,
            None => {
                if !p.notify {
                    return None;
                }
                NO_ANSWER
            },
        };
        let reply_to: Option<&str> = match &p.reply_to_message_id {
            Some(s) => Some(s.as_str()),
            None => None,
        };
        let token: Option<&str> = match &p.context_token {
            Some(s) => Some(s.as_str()),
            None => None,
        };
        Some(build_send_text(&self.channel, &self.account_id, &p.to, text, reply_to, token))
    }
}

/// How a connection reacts to what an envelope says.
pub open spec fn handled(
    pre: Connection,
    post: Connection,
    waiting: Map<Seq<char>, PendingConfirmation>,
    still: Map<Seq<char>, PendingConfirmation>,
    event: crate::bridge::InboundView,
    r: Step,
) -> bool {
    let c = pre.channel@;
    let a = pre.account_id@;
    let quiet = r is Wait && post == pre && still == waiting;
    match event {
        crate::bridge::InboundView::Message(m) => if !is_answered(m) {
            quiet
        } else {
            &&& post == (Connection { asked: None, ..pre })
            &&& match pre.asked {
                Some(p) => {
                    &&& still == waiting.remove(p.id@)
                    &&& if waiting.dom().contains(p.id@) {
                        &&& r matches Step::Decide { id, outcome, note: e }
                        &&& id@ == p.id@
                        &&& outcome == decision(crate::text::trimmed(m.text))
                        &&& sends(
                            e,
                            c,
                            a,
                            reply_target(c, m),
                            note(outcome),
                            m.reply_to_message_id,
                            m.context_token,
                        )
                    } else {
                        r matches Step::Answer(q) && asks_for_message(q, c, a, m)
                    }
                },
                None => {
                    &&& still == waiting
                    &&& r matches Step::Answer(q)
                    &&& asks_for_message(q, c, a, m)
                },
            }
        },
        _ => quiet,
    }
}

/// How a connection reacts to an event.
pub open spec fn stepped(
    pre: Connection,
    post: Connection,
    waiting: Map<Seq<char>, PendingConfirmation>,
    still: Map<Seq<char>, PendingConfirmation>,
    e: Event,
    timeout_secs: u64,
    r: Step,
) -> bool {
    let same_state = post == pre && still == waiting;
    match e {
        Event::Job(j) => {
            &&& same_state
            &&& r matches Step::Answer(p)
            &&& asks_for_job(p, pre.channel@, j)
        },
        Event::Pending(p) => {
            &&& still == waiting
            &&& post == (Connection { asked: Some(p), ..pre })
            &&& r matches Step::Send(env)
            &&& sends(
                env,
                pre.channel@,
                pre.account_id@,
                pre.channel@,
                question(p, timeout_secs),
                None,
                None,
            )
        },
        Event::Envelope(env) => handled(
            pre,
            post,
            waiting,
            still,
            crate::bridge::event_of(env.message_type@, env.payload@),
            r,
        ),
        Event::Malformed => same_state && r is Wait,
        Event::Noise => same_state && r is Wait,
        Event::Closed => same_state && r is End,
        Event::TimedOut => same_state && r is End,
        Event::Failed => same_state && r is End,
    }
}

// ---- time ------------------------------------------------------------------------

/// How long to wait before a reconnect, in milliseconds: the base, at least a second,
/// up to the cap.
pub open spec fn backoff(b: BridgeConfig) -> u64 {
    let base: u64 = if b.reconnect_ms < 1000 {
        1000
    } else {
        b.reconnect_ms
    };
    if base < b.reconnect_max_ms {
        base
    } else {
        b.reconnect_max_ms
    }
}

/// How long to wait before a reconnect, in milliseconds.
pub fn reconnect_delay(b: &BridgeConfig) -> (r: u64)
    ensures
        r == backoff(*b),
{
    let base: u64 = if b.reconnect_ms < 1000 {
        1000
    } else {
        b.reconnect_ms
    };
    if base < b.reconnect_max_ms {
        base
    } else {
        b.reconnect_max_ms
    }
}

/// How long to wait for a frame, in seconds: three heartbeats, at least a minute.
pub open spec fn patience(heartbeat_ms: u64) -> int {
    let beat: int = if heartbeat_ms < 5000 {
        5000
    } else {
        heartbeat_ms as int
    };
    let secs: int = beat * 3 / 1000;
    if secs < 60 {
        60
    } else {
        secs
    }
}

/// How long to wait for a frame, in seconds. Three heartbeats have to fit in a
/// number of milliseconds.
pub fn read_timeout(heartbeat_ms: u64) -> (r: u64)
    requires
        heartbeat_ms <= 6_148_914_691_236_517_205,
    ensures
        r == patience(heartbeat_ms),
{
    let beat: u64 = if heartbeat_ms < 5000 {
        5000
    } else {
        heartbeat_ms
    };
    let secs: u64 = beat * 3 / 1000;
    if secs < 60 {
        60
    } else {
        secs
    }
}

/// How often a ping is sent, in milliseconds; never for 0.
pub fn heartbeat_interval(heartbeat_ms: u64) -> (r: Option<u64>)
    ensures
        r == (if heartbeat_ms == 0 { None } else { Some(heartbeat_ms) }),
{
    if heartbeat_ms == 0 {
        None
    } else {
        Some(heartbeat_ms)
    }
}

/// How often a directory is rescanned, in seconds; never without a directory, or
/// with an interval of 0.
pub fn rescan_interval(dir: &Option<String>, poll_secs: u64) -> (r: Option<u64>)
    ensures
        r == (if dir is Some && poll_secs != 0 { Some(poll_secs) } else { None }),
{
    if dir.is_some() && poll_secs != 0 {
        Some(poll_secs)
    } else {
        None
    }
}

/// How often due jobs are looked for, in seconds; at least every second.
pub fn tick_interval(tick_secs: u64) -> (r: u64)
    ensures
        r == (if tick_secs < 1 { 1 } else { tick_secs }),
{
    if tick_secs < 1 {
        1
    } else {
        tick_secs
    }
}

/// What happened to the agent as a whole.
#[derive(Debug, Clone, Copy, PartialEq, Eq, Structural)]
pub enum RunEvent {
    /// It was started.
    Started,
    /// A connection ended, for whatever reason.
    Disconnected,
    /// The wait before a reconnect is over.
    Waited,
    /// It is to stop.
    Shutdown,
}

/// What the agent does next.
#[derive(Debug, Clone, Copy, PartialEq, Eq, Structural)]
pub enum RunStep {
    Connect,
    /// Wait for a number of milliseconds.
    Wait(u64),
    Stop,
}

/// What the agent does next: it reconnects for ever, until it is to stop.
pub fn run_next(e: RunEvent, b: &BridgeConfig) -> (r: RunStep)
    ensures
        r == (match e {
            RunEvent::Started => RunStep::Connect,
            RunEvent::Disconnected => RunStep::Wait(backoff(*b)),
            RunEvent::Waited => RunStep::Connect,
            RunEvent::Shutdown => RunStep::Stop,
        }),
{
    match e {
        RunEvent::Started => RunStep::Connect,
        RunEvent::Disconnected => RunStep::Wait(reconnect_delay(b)),
        RunEvent::Waited => RunStep::Connect,
        RunEvent::Shutdown => RunStep::Stop,
    }
}

// ---- what everything is built from -----------------------------------------------------

/// The selection strategy that a configuration names.
pub fn parse_strategy(s: &str) -> (r: Strategy)
    ensures
        r == crate::model_catalog::strategy_of(s@),
{
    Strategy::parse(s)
}

/// The context window that a configuration asks for; none for 0.
pub open spec fn wanted_window(n: Option<u32>) -> Option<u32> {
    match n {
        Some(k) => if k > 0 {
            Some(k)
        } else {
            None
        },
        None => None,
    }
}

/// The context window that a configuration asks for.
pub fn context_window(n: Option<u32>) -> (r: Option<u32>)
    ensures
        r == wanted_window(n),
{
    match n {
        Some(k) => if k > 0 {
            Some(k)
        } else {
            None
        },
        None => None,
    }
}

/// The agent with everything that it works with.
pub struct AgentContext {
    pub agent: ChatAgent,
    pub router: ToolRouter,
    /// Most rounds of tool calls for one answer.
    pub max_tool_steps: usize,
    /// The model: the picked one, or the configured one.
    pub model: String,
}

/// Most rounds of tool calls for one answer.
pub const MAX_TOOL_STEPS: usize = 8;

/// The parts of a fresh agent are empty, and set up as configured.
pub open spec fn built_from(r: AgentContext, cfg: Config, picked: Option<Seq<char>>) -> bool {
    &&& r.router.wf()
    &&& r.max_tool_steps == MAX_TOOL_STEPS
    &&& r.model@ == (match picked {
        Some(id) => id,
        None => cfg.llm.model@,
    })
    &&& r.agent.model_id() == r.model@
    &&& r.agent.base_prompt() == cfg.llm.system_prompt@
    &&& r.agent.token_limit() == cfg.llm.max_tokens
    &&& r.agent.cap() == cfg.history.max_messages
    &&& r.agent.injects() == cfg.memory.inject_into_prompt
    &&& r.agent.histories() == Map::<Seq<char>, Seq<crate::agent::Stored>>::empty()
    &&& forall|n: nat| r.agent.compacts(n) == crate::compact::due(cfg.compact, n)
    &&& cfg.compact.enabled ==> r.agent.keeps() == cfg.compact.keep_recent && r.agent.summarizer()
        == r.model@ && r.agent.instruction() == cfg.compact.prompt@
    &&& r.router.scheduler@ == Map::<Seq<char>, crate::scheduler::Entry>::empty()
    &&& r.router.sessions.initial() == cfg.sessions.default_session@
    &&& r.router.sessions.sessions().dom() == set![cfg.sessions.default_session@]
    &&& r.router.sessions.active_map() == Map::<Seq<char>, Seq<char>>::empty()
    &&& r.router.mcp@ == Map::<
        Seq<char>,
        crate::reload::Live<Vec<crate::mcp::McpTool>>,
    >::empty()
    &&& r.router.skills@ == Seq::<crate::skill::SkillView>::empty()
    &&& r.router.skills.folder() == crate::text::opt_view(cfg.skills.dir)
    &&& r.router.a2a@ == Map::<Seq<char>, crate::reload::Live<()>>::empty()
    &&& r.router.catalog@ == Seq::<crate::model_catalog::ModelInfo>::empty()
    &&& r.router.catalog.folder() == crate::text::opt_view(cfg.models.dir)
    &&& r.router.memory.known() == Map::<Seq<char>, Map<Seq<char>, Seq<char>>>::empty()
    &&& r.router.memory.folder() == crate::text::opt_view(cfg.memory.dir)
    &&& r.router.hitl.config().enabled == cfg.hitl.enabled
    &&& r.router.hitl.config().timeout_secs == cfg.hitl.timeout_secs
    &&& r.router.hitl.config().confirm_tools@ == cfg.hitl.confirm_tools@
    &&& r.router.hitl.waiting() == Map::<Seq<char>, PendingConfirmation>::empty()
    &&& r.router.tenants@ == crate::tenant::model_from(cfg.tenancy)
    &&& r.router.tenancy_enabled == cfg.tenancy.enabled
    &&& r.router.mcp_desired@ == cfg.mcp.servers@
    &&& r.router.a2a_desired@ == cfg.a2a.agents@
    &&& r.router.expose == (Exposure {
        mcp: cfg.mcp.expose_tools,
        skills: cfg.skills.expose_tools,
        a2a: cfg.a2a.expose_tools,
        models: cfg.models.expose_tools,
        memory: cfg.memory.expose_tools,
    })
    &&& r.router.model_strategy == crate::model_catalog::strategy_of(cfg.models.strategy@)
    &&& r.router.model_min_context == wanted_window(cfg.models.min_context_window)
}

impl AgentContext {
    /// The agent of a configuration, with the model that was picked from the catalog,
    /// if any. Nothing is connected or loaded yet: `startup` says what is to be.
    pub fn build(cfg: &Config, picked: Option<String>) -> (r: Self)
        ensures
            built_from(r, *cfg, crate::text::opt_view(picked)),
    {
        let model: String = match picked {
            Some(id) => id,
            None => cfg.llm.model.clone(),
        };
        let llm: LlmConfig = LlmConfig {
            base_url: cfg.llm.base_url.clone(),
            model: model.clone(),
            api_key: dup_opt(&cfg.llm.api_key),
            system_prompt: cfg.llm.system_prompt.clone(),
            max_tokens: cfg.llm.max_tokens,
            timeout_secs: cfg.llm.timeout_secs,
        };
        let compactor: Option<Compactor> = if cfg.compact.enabled {
            let settings: CompactConfig = CompactConfig {
                enabled: cfg.compact.enabled,
                threshold_messages: cfg.compact.threshold_messages,
                keep_recent: cfg.compact.keep_recent,
                prompt: cfg.compact.prompt.clone(),
            };
            Some(Compactor::new(&llm, settings))
        } else {
            None
        };
        let agent: ChatAgent = ChatAgent::with_compactor_and_memory(
            &llm,
            cfg.history.max_messages,
            compactor,
            cfg.memory.inject_into_prompt,
        );
        let sessions: SessionManager = SessionManager::new(
            &cfg.sessions.default_session,
            &cfg.sessions.store_dir,
        );
        let mut catalog: Catalog = Catalog::new();
        if let Some(dir) = &cfg.models.dir {
            catalog.set_dir(dir);
        }
        let mut skills: SkillRegistry = SkillRegistry::new();
        if let Some(dir) = &cfg.skills.dir {
            skills.set_dir(dir);
        }
        let mut memory: MemoryStore = MemoryStore::new();
        if let Some(dir) = &cfg.memory.dir {
            memory.set_dir(dir);
        }
        let rules: HitlConfig = HitlConfig {
            enabled: cfg.hitl.enabled,
            timeout_secs: cfg.hitl.timeout_secs,
            confirm_tools: dup_all(&cfg.hitl.confirm_tools),
        };
        let router: ToolRouter = ToolRouter::with_model_opts(
            Scheduler::new(),
            sessions,
            McpRegistry::new(),
            skills,
            A2aRegistry::new(),
            catalog,
            memory,
            HitlBroker::new(rules),
            dup_servers(&cfg.mcp.servers),
            dup_agents(&cfg.a2a.agents),
            Exposure {
                mcp: cfg.mcp.expose_tools,
                skills: cfg.skills.expose_tools,
                a2a: cfg.a2a.expose_tools,
                models: cfg.models.expose_tools,
                memory: cfg.memory.expose_tools,
            },
            parse_strategy(&cfg.models.strategy),
            context_window(cfg.models.min_context_window),
        );
        let mut router: ToolRouter = router.with_tenants(Tenants::from_config(&cfg.tenancy));
        router.set_tenancy_enabled(cfg.tenancy.enabled);
        AgentContext { agent, router, max_tool_steps: MAX_TOOL_STEPS, model }
    }
}

/// What is done before the first connection.
pub open spec fn starts_with_actions(v: Seq<Action>, cfg: Config) -> bool {
    let servers: int = if cfg.mcp.servers@.len() > 0 {
        1
    } else {
        0
    };
    let skills: int = if cfg.skills.dir is Some {
        1
    } else {
        0
    };
    let agents: int = if cfg.a2a.agents@.len() > 0 {
        1
    } else {
        0
    };
    &&& v.len() == servers + skills + agents
    &&& servers == 1 ==> (v[0] matches Action::ReloadMcp(s) && s@ == cfg.mcp.servers@)
    &&& skills == 1 ==> v[servers] is ReloadSkills
    &&& agents == 1 ==> (v[servers + skills] matches Action::ReloadA2a(s) && s@
        == cfg.a2a.agents@)
}

/// What is done before the first connection: the configured servers are connected,
/// the skills are loaded, the configured agents are connected.
pub fn startup(cfg: &Config) -> (r: Vec<Action>)
    ensures
        starts_with_actions(r@, *cfg),
{
    let mut out: Vec<Action> = Vec::new();
    if cfg.mcp.servers.len() > 0 {
        out.push(Action::ReloadMcp(dup_servers(&cfg.mcp.servers)));
    }
    if cfg.skills.dir.is_some() {
        out.push(Action::ReloadSkills);
    }
    if cfg.a2a.agents.len() > 0 {
        out.push(Action::ReloadA2a(dup_agents(&cfg.a2a.agents)));
    }
    out
}

// ---- laws --------------------------------------------------------------------------

/// A reply decides: it approves or refuses, and never counts as silence.
pub proof fn replies_decide(text: Seq<char>)
    ensures
        reply_meaning(text) == Outcome::Approved || reply_meaning(text) == Outcome::Denied,
        decision(text) == Outcome::Approved || decision(text) == Outcome::Denied,
{
}

/// A reply approves exactly when its first word in lowercase is one of those that
/// approve; any other refuses.
pub proof fn unclear_replies_refuse(text: Seq<char>)
    ensures
        ({
            let w = head(crate::text::lower(crate::text::trimmed(text)));
            reply_meaning(text) == Outcome::Approved <==> (w == "yes"@ || w == "y"@ || w
                == "approve"@ || w == "confirm"@)
        }),
        reply_meaning(text) != Outcome::Approved ==> reply_meaning(text) == Outcome::Denied,
{
}

/// Upper and lower case of an ASCII reply are one.
pub proof fn case_of_replies_does_not_matter(a: Seq<char>, b: Seq<char>)
    requires
        crate::text::all_ascii(a),
        crate::text::all_ascii(b),
        crate::text::ascii_lowered(a) == crate::text::ascii_lowered(b),
    ensures
        reply_meaning(a) == reply_meaning(b),
        decision(a) == decision(b),
{
    lemma_trim_lowered(a);
    lemma_trim_lowered(b);
}

/// Trimming an ASCII text and putting it in lowercase can be swapped.
proof fn lemma_trim_lowered(s: Seq<char>)
    requires
        crate::text::all_ascii(s),
    ensures
        crate::text::all_ascii(crate::text::trimmed(s)),
        crate::text::ascii_lowered(crate::text::trimmed(s)) == crate::text::trimmed(
            crate::text::ascii_lowered(s),
        ),
{
    lemma_trim_start_lowered(s);
    lemma_trim_end_lowered(crate::text::trim_start_of(s));
}

proof fn lemma_lower_keeps_white(c: char)
    requires
        crate::text::ascii(c),
    ensures
        crate::text::white(crate::text::ascii_lower(c)) == crate::text::white(c),
{
}

proof fn lemma_trim_start_lowered(s: Seq<char>)
    requires
        crate::text::all_ascii(s),
    ensures
        crate::text::all_ascii(crate::text::trim_start_of(s)),
        crate::text::ascii_lowered(crate::text::trim_start_of(s)) == crate::text::trim_start_of(
            crate::text::ascii_lowered(s),
        ),
    decreases s.len(),
{
    let t = crate::text::ascii_lowered(s);
    if s.len() > 0 {
        lemma_lower_keeps_white(s[0]);
        assert(t[0] == crate::text::ascii_lower(s[0]));
        if crate::text::white(s[0]) {
            assert(crate::text::ascii_lowered(s.drop_first()) =~= t.drop_first());
            lemma_trim_start_lowered(s.drop_first());
        }
    }
}

proof fn lemma_trim_end_lowered(s: Seq<char>)
    requires
        crate::text::all_ascii(s),
    ensures
        crate::text::all_ascii(crate::text::trim_end_of(s)),
        crate::text::ascii_lowered(crate::text::trim_end_of(s)) == crate::text::trim_end_of(
            crate::text::ascii_lowered(s),
        ),
    decreases s.len(),
{
    let t = crate::text::ascii_lowered(s);
    if s.len() > 0 {
        lemma_lower_keeps_white(s.last());
        assert(t.last() == crate::text::ascii_lower(s.last()));
        if crate::text::white(s.last()) {
            assert(crate::text::ascii_lowered(s.drop_last()) =~= t.drop_last());
            lemma_trim_end_lowered(s.drop_last());
        }
    }
}

/// A job that was scheduled by a call runs, when it fires, on behalf of the tenant and
/// the sender of that call.
pub proof fn jobs_run_as_their_scheduler(
    e: crate::scheduler::Entry,
    id: Seq<char>,
    args: crate::json::JsonView,
    tenant: Seq<char>,
    sender: Seq<char>,
    now: int,
    fired_at: int,
)
    requires
        crate::tools::dispatch::scheduled_as(e, id, args, tenant, sender, now),
    ensures
        job_tenant(crate::scheduler::fired(e, fired_at)) == tenant,
        job_sender(crate::scheduler::fired(e, fired_at)) == sender,
{
}

/// A message that answers a confirmation is not answered by the agent, and the
/// confirmation is pending no more: no message decides twice.
pub proof fn a_confirmation_is_decided_once(
    pre: Connection,
    post: Connection,
    waiting: Map<Seq<char>, PendingConfirmation>,
    still: Map<Seq<char>, PendingConfirmation>,
    m: crate::bridge::MessageView,
    r: Step,
)
    requires
        handled(pre, post, waiting, still, crate::bridge::InboundView::Message(m), r),
        r is Decide,
    ensures
        post.asked is None,
        pre.asked matches Some(p) && waiting.dom().contains(p.id@) && !still.dom().contains(p.id@),
{
}

/// The wait before a reconnect is never longer than its cap, and a second or more if
/// the cap is.
pub proof fn backoff_is_bounded(b: BridgeConfig)
    ensures
        backoff(b) <= b.reconnect_max_ms,
        b.reconnect_max_ms >= 1000 ==> backoff(b) >= 1000,
{
}

/// Whether the first word of a text is one of the four that approve.
pub open spec fn says_yes(t: Seq<char>) -> bool {
    exists|a: Seq<char>, w: Seq<char>, b: Seq<char>|
        {
            &&& t == #[trigger] (a + w + b)
            &&& w == seq!['y', 'e', 's'] || w == seq!['y'] || w == seq![
                'a',
                'p',
                'p',
                'r',
                'o',
                'v',
                'e',
            ] || w == seq!['c', 'o', 'n', 'f', 'i', 'r', 'm']
            &&& forall|k: int| 0 <= k < a.len() ==> crate::text::white(#[trigger] a[k])
            &&& b.len() > 0 ==> crate::text::white(b[0])
        }
}

proof fn lemma_words_of_approval()
    ensures
        "yes"@ == seq!['y', 'e', 's'],
        "y"@ == seq!['y'],
        "approve"@ == seq!['a', 'p', 'p', 'r', 'o', 'v', 'e'],
        "confirm"@ == seq!['c', 'o', 'n', 'f', 'i', 'r', 'm'],
        crate::text::ascii_lowered("yes"@) == "yes"@,
        crate::text::ascii_lowered("y"@) == "y"@,
        crate::text::ascii_lowered("approve"@) == "approve"@,
        crate::text::all_ascii("yes"@),
        crate::text::all_ascii("y"@),
        crate::text::all_ascii("approve"@),
{
    reveal_strlit("yes");
    reveal_strlit("y");
    reveal_strlit("approve");
    reveal_strlit("confirm");
    assert("yes"@ =~= seq!['y', 'e', 's']);
    assert("y"@ =~= seq!['y']);
    assert("approve"@ =~= seq!['a', 'p', 'p', 'r', 'o', 'v', 'e']);
    assert("confirm"@ =~= seq!['c', 'o', 'n', 'f', 'i', 'r', 'm']);
    assert(crate::text::ascii_lowered("yes"@) =~= "yes"@);
    assert(crate::text::ascii_lowered("y"@) =~= "y"@);
    assert(crate::text::ascii_lowered("approve"@) =~= "approve"@);
}

proof fn lemma_says_yes(t: Seq<char>)
    ensures
        says_yes(t) <==> approves(head(t)),
{
    lemma_words_of_approval();
    crate::text::first_words_stand_in_front(t, "yes"@);
    crate::text::first_words_stand_in_front(t, "y"@);
    crate::text::first_words_stand_in_front(t, "approve"@);
    crate::text::first_words_stand_in_front(t, "confirm"@);
    if says_yes(t) {
        let (a, w, b) = choose|a: Seq<char>, w: Seq<char>, b: Seq<char>|
            {
                &&& t == #[trigger] (a + w + b)
                &&& w == seq!['y', 'e', 's'] || w == seq!['y'] || w == seq![
                    'a',
                    'p',
                    'p',
                    'r',
                    'o',
                    'v',
                    'e',
                ] || w == seq!['c', 'o', 'n', 'f', 'i', 'r', 'm']
                &&& forall|k: int| 0 <= k < a.len() ==> crate::text::white(#[trigger] a[k])
                &&& b.len() > 0 ==> crate::text::white(b[0])
            };
        assert(t == a + w + b);
        assert(crate::text::words(t).len() > 0 && crate::text::words(t)[0] == w);
    }
    if approves(head(t)) {
        let w = head(t);
        assert(w.len() > 0);
        assert(crate::text::words(t).len() > 0);
        let (a, b) = choose|a: Seq<char>, b: Seq<char>|
            {
                &&& t == #[trigger] (a + w + b)
                &&& forall|k: int| 0 <= k < a.len() ==> crate::text::white(#[trigger] a[k])
                &&& b.len() > 0 ==> crate::text::white(b[0])
            };
        assert(t == a + w + b);
    }
}

proof fn lemma_decision(text: Seq<char>)
    ensures
        decision(text) == reply_meaning(text),
{
    lemma_words_of_approval();
    let t = crate::text::ascii_lowered(text);
    if t == "yes"@ || t == "y"@ || t == "approve"@ {
        crate::text::lemma_ascii_by_letters(text, t);
        assert forall|k: int| 0 <= k < t.len() implies !crate::text::white(#[trigger] t[k]) by {}
        lemma_trim_lowered(text);
        let e = Seq::<char>::empty();
        crate::text::trimming_takes_the_white_space_off(e, t, e);
        assert(e + t + e =~= t);
        assert(crate::text::ascii_lowered(crate::text::trimmed(text)) == t);
        crate::text::solid_texts_are_words(t);
        assert(head(t) == t);
    }
}

/// What a reply means: it approves exactly when its first word, whatever its case and the
/// white space around it, is yes, y, approve or confirm, and any other reply refuses.
pub proof fn replies_approve_by_their_first_word(text: &str, r: Outcome)
    requires
        call_ensures(parse_hitl_reply, (text,), r),
    ensures
        r == Outcome::Approved <==> says_yes(crate::text::lower(crate::text::trimmed(text@))),
        r != Outcome::Approved ==> r == Outcome::Denied,
{
    lemma_says_yes(crate::text::lower(crate::text::trimmed(text@)));
}

/// What the message of a user decides about the confirmation that was asked of them: it
/// approves exactly when its first word, whatever its case and the white space around it, is
/// yes, y, approve or confirm. It refuses else, decides that confirmation and no other, and
/// the user is told which.
pub proof fn messages_decide_by_their_first_word(
    pre: Connection,
    post: Connection,
    waiting: Map<Seq<char>, PendingConfirmation>,
    still: Map<Seq<char>, PendingConfirmation>,
    m: crate::bridge::MessageView,
    r: Step,
    p: PendingConfirmation,
)
    requires
        handled(pre, post, waiting, still, crate::bridge::InboundView::Message(m), r),
        m.msg_type == "text"@ || m.msg_type == "markdown"@,
        crate::text::trimmed(m.text).len() > 0,
        pre.asked == Some(p),
        waiting.dom().contains(p.id@),
    ensures
        r matches Step::Decide { id, outcome, note: e } && id@ == p.id@ && (outcome
            == Outcome::Approved <==> says_yes(crate::text::lower(crate::text::trimmed(m.text))))
            && (outcome != Outcome::Approved ==> outcome == Outcome::Denied) && sends(
            e,
            pre.channel@,
            pre.account_id@,
            reply_target(pre.channel@, m),
            if outcome == Outcome::Approved {
                "✅ Approved."@
            } else {
                "🚫 Denied."@
            },
            m.reply_to_message_id,
            m.context_token,
        ),
        post.asked is None,
        still == waiting.remove(p.id@),
{
    let t = crate::text::trimmed(m.text);
    let e = Seq::<char>::empty();
    lemma_decision(t);
    crate::text::trimmed_texts_have_solid_ends(m.text);
    crate::text::trimming_takes_the_white_space_off(e, t, e);
    assert(e + t + e =~= t);
    lemma_says_yes(crate::text::lower(t));
}

/// A message with a text is answered on behalf of its sender within the tenant of the
/// connection: with the text that it holds, and the answer goes back to where it came from.
pub proof fn messages_are_answered_to_their_sender(
    pre: Connection,
    post: Connection,
    waiting: Map<Seq<char>, PendingConfirmation>,
    still: Map<Seq<char>, PendingConfirmation>,
    m: crate::bridge::MessageView,
    r: Step,
)
    requires
        handled(pre, post, waiting, still, crate::bridge::InboundView::Message(m), r),
        pre.asked is None,
    ensures
        still == waiting,
        (m.msg_type == "text"@ || m.msg_type == "markdown"@) && crate::text::trimmed(m.text).len()
            > 0 ==> (r matches Step::Answer(q) && q.principal.sender_id@ == m.sender_id
            && q.principal.tenant_id@ == crate::tenant::tenant_of(pre.channel@, pre.account_id@)
            && q.text@ == crate::text::trimmed(m.text) && q.notify && (match m.reply_to {
            Some(t) => t.len() > 0 ==> q.to@ == t,
            None => pre.channel@ == "mattermost"@ && !m.sender_id.contains(':') ==> q.to@
                == "user:"@ + m.sender_id,
        }) && (m.reply_to is None && (pre.channel@ != "mattermost"@ || m.sender_id.contains(':'))
            ==> q.to@ == m.sender_id) && (match m.reply_to_message_id {
            Some(i) => q.reply_to_message_id matches Some(j) && j@ == i,
            None => q.reply_to_message_id is None,
        }) && (match m.context_token {
            Some(i) => q.context_token matches Some(j) && j@ == i,
            None => q.context_token is None,
        })),
        !((m.msg_type == "text"@ || m.msg_type == "markdown"@) && crate::text::trimmed(
            m.text,
        ).len() > 0) ==> r is Wait && post == pre,
{
}

/// A due job is put to the agent as a message of whoever scheduled it: with its name in front
/// of its prompt, and the answer goes to where the job says, or else to the channel.
pub proof fn jobs_are_put_as_messages(c: &Connection, j: FiredJob, r: Prompt)
    requires
        call_ensures(Connection::handle_fired_job, (c, j), r),
    ensures
        r.text@ == "[scheduled task: "@ + j.name@ + "]\n"@ + j.prompt@,
        j.tenant_id matches Some(t) ==> r.principal.tenant_id@ == t@,
        j.tenant_id is None ==> r.principal.tenant_id@.len() == 0,
        j.reply_to matches Some(s) ==> r.principal.sender_id@ == s@ && (if c.channel@
            == "mattermost"@ && !s@.contains(':') {
            r.to@ == "user:"@ + s@
        } else {
            r.to@ == s@
        }),
        j.reply_to is None ==> r.principal.sender_id@ == j.session_id@ && r.to@ == c.channel@,
        r.reply_to_message_id is None,
        r.context_token is None,
        !r.notify,
{
}

/// An answer is sent to where the prompt says, with its text; a prompt without an answer is
/// told so where somebody waits for one, and is silent else.
pub proof fn answers_are_delivered(
    c: &Connection,
    p: &Prompt,
    answer: Option<&str>,
    r: Option<Envelope>,
)
    requires
        call_ensures(Connection::deliver, (c, p, answer), r),
    ensures
        r is None <==> answer is None && !p.notify,
        r matches Some(e) ==> {
            &&& e.v == 1
            &&& e.message_type@ == "send_text"@
            &&& e.channel@ == c.channel@
            &&& e.account_id matches Some(a)
            &&& a@ == c.account_id@
            &&& crate::json::field(e.payload@, "to"@) == Some(crate::json::JsonView::Str(p.to@))
            &&& answer matches Some(t) ==> crate::json::field(e.payload@, "text"@) == Some(
                crate::json::JsonView::Str(t@),
            )
            &&& crate::json::field(e.payload@, "replyToMessageId"@) == (match p.reply_to_message_id {
                Some(m) => Some(crate::json::JsonView::Str(m@)),
                None => None,
            })
            &&& crate::json::field(e.payload@, "contextToken"@) == (match p.context_token {
                Some(m) => Some(crate::json::JsonView::Str(m@)),
                None => None,
            })
        },
{
    let text: Seq<char> = match answer {
        Some(t) => t@,
        None => NO_ANSWER@,
    };
    crate::bridge::lemma_sent(
        p.to@,
        text,
        crate::text::opt_view(p.reply_to_message_id),
        crate::text::opt_view(p.context_token),
    );
}

/// A confirmation is asked for on the channel, with the tool, the id and the summary of the
/// call and the time there is, and the next message answers it. A job is put to the agent, and
/// the end of the connection ends it.
pub proof fn events_are_followed(
    pre: Connection,
    post: Connection,
    waiting: Map<Seq<char>, PendingConfirmation>,
    still: Map<Seq<char>, PendingConfirmation>,
    e: Event,
    timeout_secs: u64,
    r: Step,
)
    requires
        stepped(pre, post, waiting, still, e, timeout_secs, r),
    ensures
        e matches Event::Pending(p) ==> {
            &&& post.asked == Some(p)
            &&& still == waiting
            &&& r matches Step::Send(env)
            &&& env.message_type@ == "send_text"@
            &&& env.channel@ == pre.channel@
            &&& crate::json::field(env.payload@, "to"@) == Some(
                crate::json::JsonView::Str(pre.channel@),
            )
            &&& crate::json::field(env.payload@, "text"@) == Some(
                crate::json::JsonView::Str(
                    "🔑 Approval needed for `"@ + p.tool@ + "` (id `"@ + p.id@ + "`):\n"@
                        + p.summary@ + "\nReply yes/no (auto-denies in "@ + crate::text::decimal(
                        timeout_secs as nat,
                    ) + "s)."@,
                ),
            )
        },
        e matches Event::Job(j) ==> r is Answer && post == pre && still == waiting,
        e is Closed || e is TimedOut || e is Failed ==> r is End && still == waiting,
        e is Malformed || e is Noise ==> r is Wait && post == pre && still == waiting,
        e matches Event::Envelope(env) ==> handled(
            pre,
            post,
            waiting,
            still,
            crate::bridge::event_of(env.message_type@, env.payload@),
            r,
        ),
{
    if let Event::Pending(p) = e {
        crate::bridge::lemma_sent(pre.channel@, question(p, timeout_secs), None, None);
    }
}

/// What is no message is noticed and nothing more: nobody is answered, and what is asked for
/// stays asked for.
pub proof fn other_events_change_nothing(
    pre: Connection,
    post: Connection,
    waiting: Map<Seq<char>, PendingConfirmation>,
    still: Map<Seq<char>, PendingConfirmation>,
    event: crate::bridge::InboundView,
    r: Step,
)
    requires
        handled(pre, post, waiting, still, event, r),
        !(event is Message),
    ensures
        r is Wait,
        post == pre,
        still == waiting,
{
}

/// The wait before a reconnect is the configured one, but at least a second and at most its
/// cap; and a connection is given up after three heartbeats of at least five seconds, but not
/// before a minute.
pub proof fn waits_are_as_configured(b: &BridgeConfig, d: u64, heartbeat_ms: u64, t: u64)
    requires
        call_ensures(reconnect_delay, (b,), d),
        call_ensures(read_timeout, (heartbeat_ms,), t),
    ensures
        b.reconnect_max_ms <= 1000 ==> d == b.reconnect_max_ms,
        1000 <= b.reconnect_ms <= b.reconnect_max_ms ==> d == b.reconnect_ms,
        b.reconnect_ms < 1000 <= b.reconnect_max_ms ==> d == 1000,
        b.reconnect_max_ms <= b.reconnect_ms ==> d == b.reconnect_max_ms,
        heartbeat_ms <= 20_000 ==> t == 60,
        heartbeat_ms >= 20_000 ==> 1000 * t <= 3 * heartbeat_ms < 1000 * t + 1000,
{
}

/// An agent works as its settings say: with the model that was picked or else the configured
/// one, its prompt and its limits, with memory, history, compaction, confirmation and tenants
/// as they are set, and with no more than eight rounds of tools for an answer.
pub proof fn agents_work_as_configured(cfg: &Config, picked: Option<String>, r: AgentContext)
    requires
        call_ensures(AgentContext::build, (cfg, picked), r),
    ensures
        picked matches Some(id) ==> r.model@ == id@ && r.agent.model_id() == id@,
        picked is None ==> r.model@ == cfg.llm.model@ && r.agent.model_id() == cfg.llm.model@,
        r.max_tool_steps == 8,
        r.agent.base_prompt() == cfg.llm.system_prompt@,
        r.agent.token_limit() == cfg.llm.max_tokens,
        r.agent.cap() == cfg.history.max_messages,
        r.agent.injects() == cfg.memory.inject_into_prompt,
        forall|n: nat|
            r.agent.compacts(n) <==> cfg.compact.enabled && cfg.compact.threshold_messages >= 1 && n
                >= cfg.compact.threshold_messages && n > cfg.compact.keep_recent,
        r.router.hitl.config().enabled == cfg.hitl.enabled,
        r.router.hitl.config().confirm_tools@ == cfg.hitl.confirm_tools@,
        r.router.hitl.config().timeout_secs == cfg.hitl.timeout_secs,
        r.router.tenancy_enabled == cfg.tenancy.enabled,
        r.router.tenants@ == crate::tenant::model_from(cfg.tenancy),
        r.router.expose.mcp == cfg.mcp.expose_tools,
        r.router.expose.skills == cfg.skills.expose_tools,
        r.router.expose.a2a == cfg.a2a.expose_tools,
        r.router.expose.models == cfg.models.expose_tools,
        r.router.expose.memory == cfg.memory.expose_tools,
        r.router.sessions.sessions().dom().contains(cfg.sessions.default_session@),
        r.router.sessions.active_of(Seq::empty()) == cfg.sessions.default_session@,
        r.router.mcp_desired@ == cfg.mcp.servers@,
        r.router.a2a_desired@ == cfg.a2a.agents@,
        match cfg.models.min_context_window {
            Some(k) => r.router.model_min_context == (if k > 0 {
                Some(k)
            } else {
                None
            }),
            None => r.router.model_min_context is None,
        },
{
}

/// Before the first connection the configured servers and agents are connected and the skills
/// are loaded, in this order and where there are any.
pub proof fn starts_do_what_is_configured(cfg: &Config, r: Vec<Action>)
    requires
        call_ensures(startup, (cfg,), r),
    ensures
        cfg.mcp.servers@.len() > 0 <==> exists|i: int|
            0 <= i < r@.len() && (#[trigger] r@[i] matches Action::ReloadMcp(s) && s@
                == cfg.mcp.servers@),
        cfg.skills.dir is Some <==> exists|i: int|
            0 <= i < r@.len() && #[trigger] r@[i] is ReloadSkills,
        cfg.a2a.agents@.len() > 0 <==> exists|i: int|
            0 <= i < r@.len() && (#[trigger] r@[i] matches Action::ReloadA2a(s) && s@
                == cfg.a2a.agents@),
        r@.len() <= 3,
{
    let a: int = if cfg.mcp.servers@.len() > 0 {
        1
    } else {
        0
    };
    let b: int = if cfg.skills.dir is Some {
        1
    } else {
        0
    };
    if a == 1 {
        assert(r@[0] is ReloadMcp);
    }
    if b == 1 {
        assert(r@[a] is ReloadSkills);
    }
    if cfg.a2a.agents@.len() > 0 {
        assert(r@[a + b] is ReloadA2a);
    }
    assert(r@.len() > 0 ==> (r@[0] is ReloadMcp || r@[0] is ReloadSkills || r@[0] is ReloadA2a));
    assert(r@.len() > 1 ==> (r@[1] is ReloadSkills || r@[1] is ReloadA2a));
    assert(r@.len() > 2 ==> r@[2] is ReloadA2a);
}

/// A message that comes when nothing waits any more is a message like any other.
pub proof fn late_answers_are_messages(
    pre: Connection,
    post: Connection,
    waiting: Map<Seq<char>, PendingConfirmation>,
    still: Map<Seq<char>, PendingConfirmation>,
    m: crate::bridge::MessageView,
    r: Step,
    p: PendingConfirmation,
)
    requires
        handled(pre, post, waiting, still, crate::bridge::InboundView::Message(m), r),
        pre.asked == Some(p),
        !waiting.dom().contains(p.id@),
        m.msg_type == "text"@ || m.msg_type == "markdown"@,
        crate::text::trimmed(m.text).len() > 0,
    ensures
        r matches Step::Answer(q) && q.principal.sender_id@ == m.sender_id
            && q.principal.tenant_id@ == crate::tenant::tenant_of(pre.channel@, pre.account_id@)
            && q.text@ == crate::text::trimmed(m.text),
        post.asked is None,
        still =~= waiting,
{
}

/// Replies go where the message says, else to its sender, whom one channel knows by a prefix; an
/// empty place is no place.
pub proof fn replies_go_back(channel: &str, msg: &InboundMessage, r: String)
    requires
        call_ensures(resolve_reply_target, (channel, msg), r),
    ensures
        (msg.reply_to matches Some(t) && t@.len() > 0) ==> r@ == msg.reply_to->Some_0@,
        !(msg.reply_to matches Some(t) && t@.len() > 0) ==> if channel@ == "mattermost"@ && (forall|
            i: int,
        |
            0 <= i < msg.sender_id@.len() ==> #[trigger] msg.sender_id@[i] != ':') {
            r@ == "user:"@ + msg.sender_id@
        } else {
            r@ == msg.sender_id@
        },
{
    let s = msg.sender_id@;
    if s.contains(':') {
        let i = choose|i: int| 0 <= i < s.len() && s[i] == ':';
        assert(s[i] == ':');
    } else {
        assert forall|i: int| 0 <= i < s.len() implies #[trigger] s[i] != ':' by {
            assert(s.contains(s[i]));
        }
    }
}

/// A user who waits for an answer that does not come is told so.
pub proof fn missing_answers_are_told(c: &Connection, p: &Prompt, r: Option<Envelope>)
    requires
        call_ensures(Connection::deliver, (c, p, None), r),
        p.notify,
    ensures
        r matches Some(e) && crate::json::field(e.payload@, "text"@) == Some(
            crate::json::JsonView::Str(
                "⚠️ Sorry, I couldn't generate a reply just now. Please try again."@,
            ),
        ),
{
    answers_are_delivered(c, p, None, r);
    if let Some(e) = r {
        crate::bridge::lemma_sent(
            p.to@,
            NO_ANSWER@,
            crate::text::opt_view(p.reply_to_message_id),
            crate::text::opt_view(p.context_token),
        );
    }
}

/// A connection takes messages, envelopes and other events as the laws of events say.
pub proof fn connections_take_events(
    a: &mut Connection,
    b: &mut Connection,
    c: &mut Connection,
    x: &mut HitlBroker,
    y: &mut HitlBroker,
    z: &mut HitlBroker,
    msg: InboundMessage,
    env: Envelope,
    e: Event,
    timeout_secs: u64,
    r: Step,
    s: Step,
    t: Step,
)
    requires
        old(x).wf() && old(y).wf() && old(z).wf(),
        call_ensures(Connection::handle_message, (a, msg, x), r),
        call_ensures(Connection::handle_envelope, (b, env, y), s),
        call_ensures(Connection::handle, (c, e, z, timeout_secs), t),
    ensures
        handled(
            *old(a),
            *final(a),
            old(x).waiting(),
            final(x).waiting(),
            crate::bridge::InboundView::Message(msg@),
            r,
        ),
        handled(
            *old(b),
            *final(b),
            old(y).waiting(),
            final(y).waiting(),
            crate::bridge::event_of(env.message_type@, env.payload@),
            s,
        ),
        stepped(
            *old(c),
            *final(c),
            old(z).waiting(),
            final(z).waiting(),
            e,
            timeout_secs,
            t,
        ),
        final(x).config() == old(x).config(),
        final(y).config() == old(y).config(),
        final(z).config() == old(z).config(),
{
}

/// A reply to a question decides by its first word: the one that waits is approved or denied, and
/// nothing waits under its id any more.
pub proof fn replies_decide_what_waits(
    c: &mut Connection,
    hitl: &mut HitlBroker,
    msg: InboundMessage,
    r: Step,
    p: PendingConfirmation,
)
    requires
        old(hitl).wf(),
        call_ensures(Connection::handle_message, (c, msg, hitl), r),
        msg.msg_type@ == "text"@ || msg.msg_type@ == "markdown"@,
        crate::text::trimmed(msg.text@).len() > 0,
        old(c).asked == Some(p),
        old(hitl).waiting().dom().contains(p.id@),
    ensures
        r matches Step::Decide { id, outcome, note: e } && id@ == p.id@ && (outcome
            == Outcome::Approved <==> says_yes(crate::text::lower(crate::text::trimmed(msg.text@)))),
        !final(hitl).waiting().dom().contains(p.id@),
        final(c).asked is None,
{
    messages_decide_by_their_first_word(
        *old(c),
        *final(c),
        old(hitl).waiting(),
        final(hitl).waiting(),
        msg@,
        r,
        p,
    );
}

/// An agent begins with nothing: no history, no job, no other session, nothing connected, loaded
/// or remembered and nothing that waits; and it compacts with its own model, as configured.
pub proof fn agents_begin_with_nothing(
    cfg: &Config,
    picked: Option<String>,
    r: AgentContext,
    k: Seq<char>,
)
    requires
        call_ensures(AgentContext::build, (cfg, picked), r),
    ensures
        !r.agent.histories().dom().contains(k),
        !r.router.scheduler@.dom().contains(k),
        r.router.sessions.sessions().dom().contains(k) <==> k == cfg.sessions.default_session@,
        r.router.sessions.active_of(k) == cfg.sessions.default_session@,
        !r.router.mcp@.dom().contains(k) && !r.router.a2a@.dom().contains(k),
        r.router.skills@.len() == 0 && r.router.catalog@.len() == 0,
        !r.router.memory.known().dom().contains(k),
        !r.router.hitl.waiting().dom().contains(k),
        cfg.compact.enabled ==> r.agent.keeps() == cfg.compact.keep_recent,
        cfg.compact.enabled ==> r.agent.summarizer() == r.model@,
        cfg.compact.enabled ==> r.agent.instruction() == cfg.compact.prompt@,
        match cfg.skills.dir {
            Some(d) => r.router.skills.folder() == Some(d@),
            None => r.router.skills.folder() is None,
        },
        match cfg.models.dir {
            Some(d) => r.router.catalog.folder() == Some(d@),
            None => r.router.catalog.folder() is None,
        },
        match cfg.memory.dir {
            Some(d) => r.router.memory.folder() == Some(d@),
            None => r.router.memory.folder() is None,
        },
        r.router.model_strategy == crate::model_catalog::strategy_of(cfg.models.strategy@),
{
}

/// A window of nothing is no demand.
pub proof fn empty_windows_demand_nothing(n: Option<u32>, r: Option<u32>)
    requires
        call_ensures(context_window, (n,), r),
    ensures
        n == Some(0u32) ==> r is None,
        n matches Some(k) ==> k > 0 ==> r == n,
        n is None ==> r is None,
{
}

/// A text that is sent goes out in an envelope of its own: of the protocol's version, with a fresh
/// id, to the channel and the account, and with no time.
pub proof fn texts_go_out_in_envelopes(
    channel: &str,
    account: &str,
    to: &str,
    text: &str,
    reply_to: Option<&str>,
    token: Option<&str>,
    e: Envelope,
)
    requires
        call_ensures(build_send_text, (channel, account, to, text, reply_to, token), e),
    ensures
        e.v == 1,
        e.id@.len() == 38 && crate::text::begins(e.id@, "sloth-"@),
        e.message_type@ == "send_text"@,
        e.channel@ == channel@,
        e.account_id matches Some(a) && a@ == account@,
        e.ts is None,
        crate::json::field(e.payload@, "to"@) == Some(crate::json::JsonView::Str(to@)),
        crate::json::field(e.payload@, "text"@) == Some(crate::json::JsonView::Str(text@)),
{
    reveal_strlit("sloth-");
    crate::bridge::lemma_sent(
        to@,
        text@,
        crate::text::opt_str_view(reply_to),
        crate::text::opt_str_view(token),
    );
}

} // verus!
