//! The protocol of the bridge: envelopes, the payloads that are sent, and what the
//! received ones say.

use vstd::prelude::*;
use crate::ids::fresh_id;
use crate::json::{close, object, put, render_json, text_value, Json, JsonView};
use crate::text::same;

verus! {

/// Protocol version.
pub const PROTOCOL_VERSION: u32 = 1;

/// What every frame carries.
#[derive(Debug)]
pub struct Envelope {
    pub v: u32,
    /// Correlation id, which the bridge repeats in its answer.
    pub id: String,
    /// `type` on the wire.
    pub message_type: String,
    pub channel: String,
    /// `accountId` on the wire.
    pub account_id: Option<String>,
    pub payload: Json,
    pub ts: Option<u64>,
}

// ---- what is sent ----------------------------------------------------------------

/// The payload of `subscribe`.
#[derive(Debug)]
pub struct SubscribePayload<'a> {
    pub channel: &'a str,
    pub account_id: &'a str,
}

/// The payload of `send_text`.
#[derive(Debug)]
pub struct SendTextPayload<'a> {
    pub to: &'a str,
    pub text: &'a str,
    pub reply_to_message_id: Option<&'a str>,
    pub context_token: Option<&'a str>,
}

/// The payload of `subscribe`.
pub open spec fn subscribe_json(channel: Seq<char>, account: Seq<char>) -> JsonView {
    JsonView::Object(
        seq![("accountId"@, JsonView::Str(account)), ("channel"@, JsonView::Str(channel))],
    )
}

/// A member that is there only with a text.
pub open spec fn if_text(key: Seq<char>, o: Option<Seq<char>>) -> Seq<(Seq<char>, JsonView)> {
    match o {
        Some(s) => seq![(key, JsonView::Str(s))],
        None => Seq::empty(),
    }
}

/// A member that is there only with a number.
pub open spec fn if_number(key: Seq<char>, o: Option<u64>) -> Seq<(Seq<char>, JsonView)> {
    match o {
        Some(n) => seq![(key, JsonView::UInt(n))],
        None => Seq::empty(),
    }
}

/// The payload of `send_text`.
pub open spec fn send_text_json(
    to: Seq<char>,
    text: Seq<char>,
    reply_to: Option<Seq<char>>,
    token: Option<Seq<char>>,
) -> JsonView {
    JsonView::Object(
        if_text("contextToken"@, token) + if_text("replyToMessageId"@, reply_to) + seq![
            ("text"@, JsonView::Str(text)),
            ("to"@, JsonView::Str(to)),
        ],
    )
}

fn put_if_text(m: Vec<(String, Json)>, key: &str, o: Option<&str>) -> (r: Vec<(String, Json)>)
    ensures
        crate::json::member_views(r@) == crate::json::member_views(m@) + if_text(
            key@,
            crate::text::opt_str_view(o),
        ),
{
    match o {
        None => {
            assert(crate::json::member_views(m@) + if_text(key@, None)
                =~= crate::json::member_views(m@));
            m
        },
        Some(s) => {
            let ghost before = crate::json::member_views(m@);
            let r: Vec<(String, Json)> = put(m, key, text_value(s));
            assert(crate::json::member_views(r@) =~= before + if_text(key@, Some(s@)));
            r
        },
    }
}

impl<'a> SubscribePayload<'a> {
    /// The payload as JSON.
    pub fn to_json(&self) -> (r: Json)
        ensures
            r@ == subscribe_json(self.channel@, self.account_id@),
    {
        let m: Vec<(String, Json)> = put(object(), "accountId", text_value(self.account_id));
        let r: Json = close(put(m, "channel", text_value(self.channel)));
        assert(r@->Object_0 =~= subscribe_json(self.channel@, self.account_id@)->Object_0);
        r
    }
}

impl<'a> SendTextPayload<'a> {
    /// The payload as JSON.
    pub fn to_json(&self) -> (r: Json)
        ensures
            r@ == send_text_json(
                self.to@,
                self.text@,
                crate::text::opt_str_view(self.reply_to_message_id),
                crate::text::opt_str_view(self.context_token),
            ),
    {
        let m: Vec<(String, Json)> = put_if_text(object(), "contextToken", self.context_token);
        let m: Vec<(String, Json)> = put_if_text(m, "replyToMessageId", self.reply_to_message_id);
        let m: Vec<(String, Json)> = put(m, "text", text_value(self.text));
        let r: Json = close(put(m, "to", text_value(self.to)));
        assert(r@->Object_0 =~= send_text_json(
            self.to@,
            self.text@,
            crate::text::opt_str_view(self.reply_to_message_id),
            crate::text::opt_str_view(self.context_token),
        )->Object_0);
        r
    }
}

// ---- envelopes ------------------------------------------------------------------

/// An envelope as it is written: members without a value are left out.
pub open spec fn envelope_json(e: Envelope) -> JsonView {
    JsonView::Object(
        seq![
            ("v"@, JsonView::UInt(e.v as u64)),
            ("id"@, JsonView::Str(e.id@)),
            ("type"@, JsonView::Str(e.message_type@)),
            ("channel"@, JsonView::Str(e.channel@)),
        ] + if_text("accountId"@, crate::text::opt_view(e.account_id)) + seq![
            ("payload"@, e.payload@),
        ] + if_number("ts"@, e.ts),
    )
}

impl Envelope {
    /// An envelope to send, with a fresh correlation id.
    pub fn outgoing(message_type: &str, channel: &str, payload: Json) -> (r: Self)
        ensures
            r.v == PROTOCOL_VERSION,
            crate::ids::is_fresh_id(r.id@, "sloth-"@),
            r.message_type@ == message_type@,
            r.channel@ == channel@,
            r.account_id is None,
            r.payload == payload,
            r.ts is None,
    {
        Envelope {
            v: PROTOCOL_VERSION,
            id: fresh_id("sloth-"),
            message_type: message_type.to_string(),
            channel: channel.to_string(),
            account_id: None,
            payload,
            ts: None,
        }
    }

    /// The envelope for an account.
    pub fn with_account(self, account_id: &str) -> (r: Self)
        ensures
            crate::text::opt_view(r.account_id) == Some(account_id@),
            r == (Envelope { account_id: r.account_id, ..self }),
    {
        let mut r: Envelope = self;
        r.account_id = Some(account_id.to_string());
        r
    }

    /// The envelope as JSON.
    pub fn to_json(&self) -> (r: Json)
        ensures
            r@ == envelope_json(*self),
    {
        let m: Vec<(String, Json)> = put(object(), "v", Json::UInt(self.v as u64));
        let m: Vec<(String, Json)> = put(m, "id", text_value(&self.id));
        let m: Vec<(String, Json)> = put(m, "type", text_value(&self.message_type));
        let m: Vec<(String, Json)> = put(m, "channel", text_value(&self.channel));
        assert(crate::json::member_views(m@) =~= seq![
            ("v"@, JsonView::UInt(self.v as u64)),
            ("id"@, JsonView::Str(self.id@)),
            ("type"@, JsonView::Str(self.message_type@)),
            ("channel"@, JsonView::Str(self.channel@)),
        ]);
        let account: Option<&str> = match &self.account_id {
            Some(a) => Some(a.as_str()),
            None => None,
        };
        let m: Vec<(String, Json)> = put_if_text(m, "accountId", account);
        let m: Vec<(String, Json)> = put(m, "payload", self.payload.dup());
        let r: Json = match self.ts {
            Some(n) => close(put(m, "ts", Json::UInt(n))),
            None => close(m),
        };
        assert(r@->Object_0 =~= envelope_json(*self)->Object_0);
        r
    }

    /// The text of the frame.
    pub fn to_text(&self) -> (r: String)
        ensures
            r@ == crate::json::json_text(envelope_json(*self)),
    {
        render_json(&self.to_json())
    }
}

// ---- what is received --------------------------------------------------------------

/// The payload of `inbound_message`.
#[derive(Debug)]
pub struct InboundMessage {
    pub message_id: String,
    pub chat_id: String,
    pub sender_id: String,
    pub sender_name: Option<String>,
    /// For example `text`, `markdown` or `image`.
    pub msg_type: String,
    pub text: String,
    pub timestamp: u64,
    pub context_token: Option<String>,
    pub media_url: Option<String>,
    pub reply_to_message_id: Option<String>,
    /// Where the bridge wants the reply to go.
    pub reply_to: Option<String>,
}

/// The payload of `channel_status`.
#[derive(Debug)]
pub struct ChannelStatus {
    pub status: String,
    pub detail: Option<String>,
    pub error: Option<String>,
}

/// The payload of `welcome`.
#[derive(Debug)]
pub struct Welcome {
    pub version: Option<String>,
}

/// The payload of `send_ack`.
#[derive(Debug)]
pub struct SendAck {
    pub request_id: String,
    pub message_id: Option<String>,
}

/// The payload of `send_error`.
#[derive(Debug)]
pub struct SendError {
    pub request_id: String,
    pub code: String,
    pub message: String,
}

/// What an envelope says.
#[derive(Debug)]
pub enum Inbound {
    /// A message of a user.
    Message(InboundMessage),
    /// A change of the channel's connection.
    Status(ChannelStatus),
    /// The greeting on connect.
    Welcome(Welcome),
    /// Something sent has arrived.
    SendAck(SendAck),
    /// Something sent has not.
    SendError(SendError),
    /// The answer to a ping.
    Pong,
    /// Anything else.
    Other { message_type: String, payload: Json },
}

/// What a user's message says.
pub struct MessageView {
    pub message_id: Seq<char>,
    pub chat_id: Seq<char>,
    pub sender_id: Seq<char>,
    pub sender_name: Option<Seq<char>>,
    pub msg_type: Seq<char>,
    pub text: Seq<char>,
    pub timestamp: u64,
    pub context_token: Option<Seq<char>>,
    pub media_url: Option<Seq<char>>,
    pub reply_to_message_id: Option<Seq<char>>,
    pub reply_to: Option<Seq<char>>,
}

impl View for InboundMessage {
    type V = MessageView;

    open spec fn view(&self) -> MessageView {
        MessageView {
            message_id: self.message_id@,
            chat_id: self.chat_id@,
            sender_id: self.sender_id@,
            sender_name: crate::text::opt_view(self.sender_name),
            msg_type: self.msg_type@,
            text: self.text@,
            timestamp: self.timestamp,
            context_token: crate::text::opt_view(self.context_token),
            media_url: crate::text::opt_view(self.media_url),
            reply_to_message_id: crate::text::opt_view(self.reply_to_message_id),
            reply_to: crate::text::opt_view(self.reply_to),
        }
    }
}

/// What an envelope says.
pub enum InboundView {
    Message(MessageView),
    Status { status: Seq<char>, detail: Option<Seq<char>>, error: Option<Seq<char>> },
    Welcome { version: Option<Seq<char>> },
    SendAck { request_id: Seq<char>, message_id: Option<Seq<char>> },
    SendError { request: Seq<char>, code: Seq<char>, message: Seq<char> },
    Pong,
    Other { message_type: Seq<char>, payload: JsonView },
}

impl View for Inbound {
    type V = InboundView;

    open spec fn view(&self) -> InboundView {
        match *self {
            Inbound::Message(m) => InboundView::Message(m@),
            Inbound::Status(s) => InboundView::Status {
                status: s.status@,
                detail: crate::text::opt_view(s.detail),
                error: crate::text::opt_view(s.error),
            },
            Inbound::Welcome(w) => InboundView::Welcome {
                version: crate::text::opt_view(w.version),
            },
            Inbound::SendAck(a) => InboundView::SendAck {
                request_id: a.request_id@,
                message_id: crate::text::opt_view(a.message_id),
            },
            Inbound::SendError(e) => InboundView::SendError {
                request: e.request_id@,
                code: e.code@,
                message: e.message@,
            },
            Inbound::Pong => InboundView::Pong,
            Inbound::Other { message_type, payload } => InboundView::Other {
                message_type: message_type@,
                payload: payload@,
            },
        }
    }
}

/// A record is an object, or an array of its at most `n` fields in order.
pub open spec fn is_record(v: JsonView, n: nat) -> bool {
    match v {
        JsonView::Object(_) => true,
        JsonView::Array(a) => a.len() <= n,
        _ => false,
    }
}

/// The field of a record with a key, the `i`-th in order.
pub open spec fn slot(v: JsonView, key: Seq<char>, i: int) -> Option<JsonView> {
    match v {
        JsonView::Object(m) => crate::json::member(m, key),
        JsonView::Array(a) => if i < a.len() {
            Some(a[i])
        } else {
            None
        },
        _ => None,
    }
}

/// The text of a field that may be missing: the empty text then. Nothing for a
/// field of another type.
pub open spec fn text_or_empty(o: Option<JsonView>) -> Option<Seq<char>> {
    match o {
        None => Some(Seq::empty()),
        Some(JsonView::Str(s)) => Some(s),
        _ => None,
    }
}

/// The text of a field that may be missing or null. Nothing for a field of another
/// type.
pub open spec fn text_if_any(o: Option<JsonView>) -> Option<Option<Seq<char>>> {
    match o {
        None => Some(None),
        Some(JsonView::Null) => Some(None),
        Some(JsonView::Str(s)) => Some(Some(s)),
        _ => None,
    }
}

/// The number of a field. Nothing for a field of another type.
pub open spec fn number(o: Option<JsonView>) -> Option<u64> {
    match o {
        Some(JsonView::UInt(n)) => Some(n),
        _ => None,
    }
}

/// The user's message that a payload holds; nothing when it is malformed.
pub open spec fn message_of(v: JsonView) -> Option<MessageView> {
    let message_id = crate::json::string(slot(v, "messageId"@, 0));
    let chat_id = text_or_empty(slot(v, "chatId"@, 1));
    let sender_id = crate::json::string(slot(v, "senderId"@, 2));
    let sender_name = text_if_any(slot(v, "senderName"@, 3));
    let msg_type = crate::json::string(slot(v, "msgType"@, 4));
    let text = text_or_empty(slot(v, "text"@, 5));
    let timestamp = number(slot(v, "timestamp"@, 6));
    let context_token = text_if_any(slot(v, "contextToken"@, 7));
    let media_url = text_if_any(slot(v, "mediaUrl"@, 8));
    let reply_to_message_id = text_if_any(slot(v, "replyToMessageId"@, 9));
    let reply_to = text_if_any(slot(v, "replyTo"@, 10));
    if is_record(v, 11) && message_id is Some && chat_id is Some && sender_id is Some
        && sender_name is Some && msg_type is Some && text is Some && timestamp is Some
        && context_token is Some && media_url is Some && reply_to_message_id is Some
        && reply_to is Some {
        Some(
            MessageView {
                message_id: message_id->Some_0,
                chat_id: chat_id->Some_0,
                sender_id: sender_id->Some_0,
                sender_name: sender_name->Some_0,
                msg_type: msg_type->Some_0,
                text: text->Some_0,
                timestamp: timestamp->Some_0,
                context_token: context_token->Some_0,
                media_url: media_url->Some_0,
                reply_to_message_id: reply_to_message_id->Some_0,
                reply_to: reply_to->Some_0,
            },
        )
    } else {
        None
    }
}

/// The change of the channel's connection that a payload holds.
pub open spec fn status_of(v: JsonView) -> Option<InboundView> {
    match (
        crate::json::string(slot(v, "status"@, 0)),
        text_if_any(slot(v, "detail"@, 1)),
        text_if_any(slot(v, "error"@, 2)),
    ) {
        (Some(status), Some(detail), Some(error)) => if is_record(v, 3) {
            Some(InboundView::Status { status, detail, error })
        } else {
            None
        },
        _ => None,
    }
}

/// The greeting that a payload holds; one without a version when it is malformed.
pub open spec fn welcome_of(v: JsonView) -> InboundView {
    match text_if_any(slot(v, "version"@, 0)) {
        Some(version) => if is_record(v, 1) {
            InboundView::Welcome { version }
        } else {
            InboundView::Welcome { version: None }
        },
        None => InboundView::Welcome { version: None },
    }
}

/// The acknowledgement that a payload holds; an empty one when it is malformed.
pub open spec fn ack_of(v: JsonView) -> InboundView {
    let none = InboundView::SendAck { request_id: Seq::empty(), message_id: None };
    match (
        crate::json::string(slot(v, "requestId"@, 0)),
        text_if_any(slot(v, "messageId"@, 1)),
    ) {
        (Some(request_id), Some(message_id)) => if is_record(v, 2) {
            InboundView::SendAck { request_id, message_id }
        } else {
            none
        },
        _ => none,
    }
}

/// The failure that a payload holds; an unknown one when it is malformed.
pub open spec fn error_of(v: JsonView) -> InboundView {
    let none = InboundView::SendError {
        request: Seq::empty(),
        code: "unknown"@,
        message: "malformed send_error"@,
    };
    match (
        crate::json::string(slot(v, "requestId"@, 0)),
        crate::json::string(slot(v, "code"@, 1)),
        crate::json::string(slot(v, "message"@, 2)),
    ) {
        (Some(request), Some(code), Some(message)) => if is_record(v, 3) {
            InboundView::SendError { request, code, message }
        } else {
            none
        },
        _ => none,
    }
}

/// What an envelope of a type with a payload says. A malformed message or status is
/// like an envelope of an unknown type.
pub open spec fn event_of(message_type: Seq<char>, payload: JsonView) -> InboundView {
    let other = InboundView::Other { message_type, payload };
    if message_type == "inbound_message"@ {
        match message_of(payload) {
            Some(m) => InboundView::Message(m),
            None => other,
        }
    } else if message_type == "channel_status"@ {
        match status_of(payload) {
            Some(s) => s,
            None => other,
        }
    } else if message_type == "welcome"@ {
        welcome_of(payload)
    } else if message_type == "send_ack"@ {
        ack_of(payload)
    } else if message_type == "send_error"@ {
        error_of(payload)
    } else if message_type == "pong"@ {
        InboundView::Pong
    } else {
        other
    }
}

fn record(v: &Json, n: usize) -> (r: bool)
    ensures
        r == is_record(v@, n as nat),
{
    match v {
        Json::Object(_) => true,
        Json::Array(a) => {
            proof {
                crate::json::lemma_array_view(*a);
            }
            a.len() <= n
        },
        _ => false,
    }
}

fn slot_of<'a>(v: &'a Json, key: &str, i: usize) -> (r: Option<&'a Json>)
    ensures
        crate::json::opt_json_ref(r) == slot(v@, key@, i as int),
{
    match v {
        Json::Array(a) => {
            proof {
                crate::json::lemma_array_view(*a);
            }
            if i < a.len() {
                Some(&a[i])
            } else {
                None
            }
        },
        _ => v.get(key),
    }
}

fn text_at(v: &Json, key: &str, i: usize) -> (r: Option<String>)
    ensures
        crate::text::opt_view(r) == crate::json::string(slot(v@, key@, i as int)),
{
    match slot_of(v, key, i) {
        Some(Json::Str(s)) => Some(s.clone()),
        _ => None,
    }
}

fn text_or_empty_at(v: &Json, key: &str, i: usize) -> (r: Option<String>)
    ensures
        crate::text::opt_view(r) == text_or_empty(slot(v@, key@, i as int)),
{
    match slot_of(v, key, i) {
        None => {
            let r: String = String::new();
            assert(r@ =~= Seq::<char>::empty());
            Some(r)
        },
        Some(Json::Str(s)) => Some(s.clone()),
        _ => None,
    }
}

/// The view of an optional text that may be malformed.
spec fn twice(o: Option<Option<String>>) -> Option<Option<Seq<char>>> {
    match o {
        None => None,
        Some(s) => Some(crate::text::opt_view(s)),
    }
}

fn text_if_any_at(v: &Json, key: &str, i: usize) -> (r: Option<Option<String>>)
    ensures
        twice(r) == text_if_any(slot(v@, key@, i as int)),
{
    match slot_of(v, key, i) {
        None => Some(None),
        Some(Json::Null) => Some(None),
        Some(Json::Str(s)) => Some(Some(s.clone())),
        _ => None,
    }
}

fn number_at(v: &Json, key: &str, i: usize) -> (r: Option<u64>)
    ensures
        r == number(slot(v@, key@, i as int)),
{
    match slot_of(v, key, i) {
        Some(Json::UInt(n)) => Some(*n),
        _ => None,
    }
}

/// The user's message that a payload holds.
pub fn decode_message(v: &Json) -> (r: Option<InboundMessage>)
    ensures
        match r {
            Some(m) => message_of(v@) == Some(m@),
            None => message_of(v@) is None,
        },
{
    if !record(v, 11) {
        return None;
    }
    let message_id: String = match text_at(v, "messageId", 0) {
        Some(s) => s,
        None => return None,
    };
    let chat_id: String = match text_or_empty_at(v, "chatId", 1) {
        Some(s) => s,
        None => return None,
    };
    let sender_id: String = match text_at(v, "senderId", 2) {
        Some(s) => s,
        None => return None,
    };
    let sender_name: Option<String> = match text_if_any_at(v, "senderName", 3) {
        Some(s) => s,
        None => return None,
    };
    let msg_type: String = match text_at(v, "msgType", 4) {
        Some(s) => s,
        None => return None,
    };
    let text: String = match text_or_empty_at(v, "text", 5) {
        Some(s) => s,
        None => return None,
    };
    let timestamp: u64 = match number_at(v, "timestamp", 6) {
        Some(n) => n,
        None => return None,
    };
    let context_token: Option<String> = match text_if_any_at(v, "contextToken", 7) {
        Some(s) => s,
        None => return None,
    };
    let media_url: Option<String> = match text_if_any_at(v, "mediaUrl", 8) {
        Some(s) => s,
        None => return None,
    };
    let reply_to_message_id: Option<String> = match text_if_any_at(v, "replyToMessageId", 9) {
        Some(s) => s,
        None => return None,
    };
    let reply_to: Option<String> = match text_if_any_at(v, "replyTo", 10) {
        Some(s) => s,
        None => return None,
    };
    Some(
        InboundMessage {
            message_id,
            chat_id,
            sender_id,
            sender_name,
            msg_type,
            text,
            timestamp,
            context_token,
            media_url,
            reply_to_message_id,
            reply_to,
        },
    )
}

/// The change of the channel's connection that a payload holds.
pub fn decode_status(v: &Json) -> (r: Option<ChannelStatus>)
    ensures
        match r {
            Some(s) => status_of(v@) == Some(Inbound::Status(s)@),
            None => status_of(v@) is None,
        },
{
    if !record(v, 3) {
        return None;
    }
    match text_at(v, "status", 0) {
        None => None,
        Some(status) => match text_if_any_at(v, "detail", 1) {
            None => None,
            Some(detail) => match text_if_any_at(v, "error", 2) {
                None => None,
                Some(error) => Some(ChannelStatus { status, detail, error }),
            },
        },
    }
}

/// The greeting that a payload holds.
pub fn decode_welcome(v: &Json) -> (r: Welcome)
    ensures
        Inbound::Welcome(r)@ == welcome_of(v@),
{
    if record(v, 1) {
        if let Some(version) = text_if_any_at(v, "version", 0) {
            return Welcome { version };
        }
    }
    Welcome { version: None }
}

/// The acknowledgement that a payload holds.
pub fn decode_ack(v: &Json) -> (r: SendAck)
    ensures
        Inbound::SendAck(r)@ == ack_of(v@),
{
    if record(v, 2) {
        if let Some(request_id) = text_at(v, "requestId", 0) {
            if let Some(message_id) = text_if_any_at(v, "messageId", 1) {
                return SendAck { request_id, message_id };
            }
        }
    }
    let request_id: String = String::new();
    assert(request_id@ =~= Seq::<char>::empty());
    SendAck { request_id, message_id: None }
}

/// The failure that a payload holds.
pub fn decode_error(v: &Json) -> (r: SendError)
    ensures
        Inbound::SendError(r)@ == error_of(v@),
{
    if record(v, 3) {
        if let Some(request_id) = text_at(v, "requestId", 0) {
            if let Some(code) = text_at(v, "code", 1) {
                if let Some(message) = text_at(v, "message", 2) {
                    return SendError { request_id, code, message };
                }
            }
        }
    }
    let request_id: String = String::new();
    assert(request_id@ =~= Seq::<char>::empty());
    SendError {
        request_id,
        code: "unknown".to_string(),
        message: "malformed send_error".to_string(),
    }
}

impl Envelope {
    /// What the envelope says.
    pub fn into_event(self) -> (r: Inbound)
        ensures
            r@ == event_of(self.message_type@, self.payload@),
    {
        if same(&self.message_type, "inbound_message") {
            match decode_message(&self.payload) {
                Some(m) => Inbound::Message(m),
                None => Inbound::Other { message_type: self.message_type, payload: self.payload },
            }
        } else if same(&self.message_type, "channel_status") {
            match decode_status(&self.payload) {
                Some(s) => Inbound::Status(s),
                None => Inbound::Other { message_type: self.message_type, payload: self.payload },
            }
        } else if same(&self.message_type, "welcome") {
            Inbound::Welcome(decode_welcome(&self.payload))
        } else if same(&self.message_type, "send_ack") {
            Inbound::SendAck(decode_ack(&self.payload))
        } else if same(&self.message_type, "send_error") {
            Inbound::SendError(decode_error(&self.payload))
        } else if same(&self.message_type, "pong") {
            Inbound::Pong
        } else {
            Inbound::Other { message_type: self.message_type, payload: self.payload }
        }
    }
}

// ---- laws --------------------------------------------------------------------------

proof fn lemma_send_keys()
    ensures
        "contextToken"@.len() == 12,
        "replyToMessageId"@.len() == 16,
        "text"@.len() == 4,
        "to"@.len() == 2,
{
    reveal_strlit("contextToken");
    reveal_strlit("replyToMessageId");
    reveal_strlit("text");
    reveal_strlit("to");
}

/// What is sent says what is to be sent: the text and where it goes, and the message that it
/// answers and the token of its context where there are any.
pub proof fn sent_texts_say_where_they_go(
    p: &SendTextPayload<'_>,
    r: Json,
)
    requires
        call_ensures(SendTextPayload::to_json, (p,), r),
    ensures
        crate::json::field(r@, "to"@) == Some(JsonView::Str(p.to@)),
        crate::json::field(r@, "text"@) == Some(JsonView::Str(p.text@)),
        crate::json::field(r@, "replyToMessageId"@) == (match p.reply_to_message_id {
            Some(m) => Some(JsonView::Str(m@)),
            None => None,
        }),
        crate::json::field(r@, "contextToken"@) == (match p.context_token {
            Some(t) => Some(JsonView::Str(t@)),
            None => None,
        }),
{
    lemma_sent(
        p.to@,
        p.text@,
        crate::text::opt_str_view(p.reply_to_message_id),
        crate::text::opt_str_view(p.context_token),
    );
}

/// The members of a payload that sends a text.
pub proof fn lemma_sent(
    to: Seq<char>,
    text: Seq<char>,
    reply_to: Option<Seq<char>>,
    token: Option<Seq<char>>,
)
    ensures
        ({
            let v = send_text_json(to, text, reply_to, token);
            &&& crate::json::field(v, "to"@) == Some(JsonView::Str(to))
            &&& crate::json::field(v, "text"@) == Some(JsonView::Str(text))
            &&& crate::json::field(v, "replyToMessageId"@) == (match reply_to {
                Some(m) => Some(JsonView::Str(m)),
                None => None,
            })
            &&& crate::json::field(v, "contextToken"@) == (match token {
                Some(t) => Some(JsonView::Str(t)),
                None => None,
            })
        }),
{
    lemma_send_keys();
    reveal_with_fuel(crate::json::member, 6);
    let m = send_text_json(to, text, reply_to, token)->Object_0;
    let x = ("contextToken"@, JsonView::Str(token->Some_0));
    let y = ("replyToMessageId"@, JsonView::Str(reply_to->Some_0));
    let z = ("text"@, JsonView::Str(text));
    let w = ("to"@, JsonView::Str(to));
    let e = Seq::<(Seq<char>, JsonView)>::empty();
    assert(seq![z, w].drop_first() =~= seq![w]);
    assert(seq![w].drop_first() =~= e);
    assert(seq![y, z, w].drop_first() =~= seq![z, w]);
    assert(seq![x, y, z, w].drop_first() =~= seq![y, z, w]);
    assert(seq![x, z, w].drop_first() =~= seq![z, w]);
    match (token, reply_to) {
        (Some(_), Some(_)) => {
            assert(m =~= seq![x, y, z, w]);
        },
        (Some(_), None) => {
            assert(m =~= seq![x, z, w]);
        },
        (None, Some(_)) => {
            assert(m =~= seq![y, z, w]);
        },
        (None, None) => {
            assert(m =~= seq![z, w]);
        },
    }
}

/// A subscription names the channel and the account.
pub proof fn subscriptions_name_channel_and_account(p: &SubscribePayload<'_>, r: Json)
    requires
        call_ensures(SubscribePayload::to_json, (p,), r),
    ensures
        crate::json::field(r@, "channel"@) == Some(JsonView::Str(p.channel@)),
        crate::json::field(r@, "accountId"@) == Some(JsonView::Str(p.account_id@)),
{
    lemma_envelope_keys();
    reveal_with_fuel(crate::json::member, 3);
    let a = ("accountId"@, JsonView::Str(p.account_id@));
    let c = ("channel"@, JsonView::Str(p.channel@));
    assert(seq![a, c].drop_first() =~= seq![c]);
    assert("accountId"@ != "channel"@);
}

proof fn lemma_envelope_keys()
    ensures
        "v"@.len() == 1,
        "id"@.len() == 2,
        "type"@.len() == 4,
        "channel"@.len() == 7,
        "payload"@.len() == 7,
        "accountId"@.len() == 9,
        "ts"@.len() == 2,
        "id"@ != "ts"@,
        "channel"@ != "payload"@,
{
    reveal_strlit("v");
    reveal_strlit("id");
    reveal_strlit("type");
    reveal_strlit("channel");
    reveal_strlit("payload");
    reveal_strlit("accountId");
    reveal_strlit("ts");
    assert("id"@[0] != "ts"@[0]);
    assert("channel"@[0] != "payload"@[0]);
}

/// Keys of other lengths are other keys.
proof fn lemma_other_keys(m: Seq<(Seq<char>, JsonView)>, key: Seq<char>)
    requires
        forall|i: int|
            0 <= i < m.len() ==> (#[trigger] m[i]).0.len() != key.len() || m[i].0 != key,
    ensures
        forall|i: int| 0 <= i < m.len() ==> (#[trigger] m[i]).0 != key,
{
}

/// An envelope is written with its version, id, type, channel and payload, and with its account
/// and its time where it has them.
pub proof fn envelopes_are_written_whole(e: &Envelope, r: Json)
    requires
        call_ensures(Envelope::to_json, (e,), r),
    ensures
        crate::json::field(r@, "v"@) == Some(JsonView::UInt(e.v as u64)),
        crate::json::field(r@, "id"@) == Some(JsonView::Str(e.id@)),
        crate::json::field(r@, "type"@) == Some(JsonView::Str(e.message_type@)),
        crate::json::field(r@, "channel"@) == Some(JsonView::Str(e.channel@)),
        crate::json::field(r@, "payload"@) == Some(e.payload@),
        crate::json::field(r@, "accountId"@) == (match e.account_id {
            Some(a) => Some(JsonView::Str(a@)),
            None => None,
        }),
        crate::json::field(r@, "ts"@) == (match e.ts {
            Some(n) => Some(JsonView::UInt(n)),
            None => None,
        }),
{
    lemma_envelope_keys();
    let m = envelope_json(*e)->Object_0;
    let none = Seq::<(Seq<char>, JsonView)>::empty();
    let v: (Seq<char>, JsonView) = ("v"@, JsonView::UInt(e.v as u64));
    let i: (Seq<char>, JsonView) = ("id"@, JsonView::Str(e.id@));
    let t = ("type"@, JsonView::Str(e.message_type@));
    let c = ("channel"@, JsonView::Str(e.channel@));
    let a = if_text("accountId"@, crate::text::opt_view(e.account_id));
    let p = ("payload"@, e.payload@);
    let s = if_number("ts"@, e.ts);
    assert(m =~= none.push(v) + (seq![i, t, c] + a + seq![p] + s));
    assert(m =~= seq![v].push(i) + (seq![t, c] + a + seq![p] + s));
    assert(m =~= seq![v, i].push(t) + (seq![c] + a + seq![p] + s));
    assert(m =~= seq![v, i, t].push(c) + (a + seq![p] + s));
    assert(m =~= (seq![v, i, t, c] + a).push(p) + s);
    lemma_other_keys(seq![v], "id"@);
    lemma_other_keys(seq![v, i], "type"@);
    lemma_other_keys(seq![v, i, t], "channel"@);
    lemma_other_keys(seq![v, i, t, c], "accountId"@);
    lemma_other_keys(seq![v, i, t, c] + a, "payload"@);
    crate::json::members_are_found_by_key(none, "v"@, v.1, seq![i, t, c] + a + seq![p] + s);
    crate::json::members_are_found_by_key(seq![v], "id"@, i.1, seq![t, c] + a + seq![p] + s);
    crate::json::members_are_found_by_key(seq![v, i], "type"@, t.1, seq![c] + a + seq![p] + s);
    crate::json::members_are_found_by_key(seq![v, i, t], "channel"@, c.1, a + seq![p] + s);
    crate::json::members_are_found_by_key(seq![v, i, t, c] + a, "payload"@, p.1, s);
    match e.account_id {
        Some(x) => {
            let y = ("accountId"@, JsonView::Str(x@));
            assert(m =~= seq![v, i, t, c].push(y) + (seq![p] + s));
            crate::json::members_are_found_by_key(
                seq![v, i, t, c],
                "accountId"@,
                y.1,
                seq![p] + s,
            );
        },
        None => {
            assert forall|k: int| 0 <= k < m.len() implies (#[trigger] m[k]).0 != "accountId"@ by {}
            crate::json::members_are_found_by_key(m, "accountId"@, JsonView::Null, none);
        },
    }
    match e.ts {
        Some(n) => {
            let y = ("ts"@, JsonView::UInt(n));
            assert(m =~= (seq![v, i, t, c] + a + seq![p]).push(y) + none);
            crate::json::members_are_found_by_key(
                seq![v, i, t, c] + a + seq![p],
                "ts"@,
                y.1,
                none,
            );
        },
        None => {
            assert forall|k: int| 0 <= k < m.len() implies (#[trigger] m[k]).0 != "ts"@ by {}
            crate::json::members_are_found_by_key(m, "ts"@, JsonView::Null, none);
        },
    }
}

/// Whether an optional text is that of a field: the text of one that is a text, and none of one
/// that is missing or null.
pub open spec fn read_from(o: Option<String>, f: Option<JsonView>) -> bool {
    match f {
        Some(JsonView::Str(s)) => o matches Some(t) && t@ == s,
        Some(JsonView::Null) => o is None,
        None => o is None,
        _ => false,
    }
}

/// A message is what the fields of its payload say, each under its own name.
pub proof fn messages_are_read_from_their_fields(v: &Json, r: Option<InboundMessage>)
    requires
        call_ensures(decode_message, (v,), r),
        v@ is Object,
    ensures
        r matches Some(m) ==> {
            &&& crate::json::field(v@, "messageId"@) == Some(JsonView::Str(m.message_id@))
            &&& crate::json::field(v@, "senderId"@) == Some(JsonView::Str(m.sender_id@))
            &&& crate::json::field(v@, "msgType"@) == Some(JsonView::Str(m.msg_type@))
            &&& crate::json::field(v@, "timestamp"@) == Some(JsonView::UInt(m.timestamp))
            &&& match crate::json::field(v@, "text"@) {
                Some(JsonView::Str(s)) => m.text@ == s,
                None => m.text@.len() == 0,
                _ => false,
            }
            &&& match crate::json::field(v@, "chatId"@) {
                Some(JsonView::Str(s)) => m.chat_id@ == s,
                None => m.chat_id@.len() == 0,
                _ => false,
            }
            &&& read_from(m.sender_name, crate::json::field(v@, "senderName"@))
            &&& read_from(m.context_token, crate::json::field(v@, "contextToken"@))
            &&& read_from(m.media_url, crate::json::field(v@, "mediaUrl"@))
            &&& read_from(m.reply_to_message_id, crate::json::field(v@, "replyToMessageId"@))
            &&& read_from(m.reply_to, crate::json::field(v@, "replyTo"@))
        },
        (crate::json::field(v@, "messageId"@) matches Some(JsonView::Str(_))) && (
        crate::json::field(v@, "senderId"@) matches Some(JsonView::Str(_))) && (crate::json::field(
            v@,
            "msgType"@,
        ) matches Some(JsonView::Str(_))) && (crate::json::field(v@, "timestamp"@) matches Some(
            JsonView::UInt(_),
        )) && (crate::json::field(v@, "text"@) matches Some(JsonView::Str(_)))
            && crate::json::field(v@, "chatId"@) is None && crate::json::field(v@, "senderName"@)
            is None && crate::json::field(v@, "contextToken"@) is None && crate::json::field(
            v@,
            "mediaUrl"@,
        ) is None && crate::json::field(v@, "replyToMessageId"@) is None && crate::json::field(
            v@,
            "replyTo"@,
        ) is None ==> r is Some,
{
}

/// An envelope is taken by its type: a message, a status, a welcome, an acknowledgement, an
/// error or a pong; one of another type is handed on as it is.
pub proof fn envelopes_are_taken_by_their_type(e: Envelope, r: Inbound)
    requires
        call_ensures(Envelope::into_event, (e,), r),
    ensures
        r is Message ==> e.message_type@ == "inbound_message"@,
        r is Status ==> e.message_type@ == "channel_status"@,
        r is Welcome <==> e.message_type@ == "welcome"@,
        r is SendAck <==> e.message_type@ == "send_ack"@,
        r is SendError <==> e.message_type@ == "send_error"@,
        r is Pong <==> e.message_type@ == "pong"@,
        r matches Inbound::Other { message_type, payload } ==> message_type@ == e.message_type@
            && payload@ == e.payload@,
        e.message_type@ == "inbound_message"@ && message_of(e.payload@) is Some ==> (r matches
            Inbound::Message(m) && message_of(e.payload@) == Some(m@)),
{
    reveal_strlit("inbound_message");
    reveal_strlit("channel_status");
    reveal_strlit("welcome");
    reveal_strlit("send_ack");
    reveal_strlit("send_error");
    reveal_strlit("pong");
    assert("inbound_message"@.len() == 15 && "channel_status"@.len() == 14 && "welcome"@.len() == 7
        && "send_ack"@.len() == 8 && "send_error"@.len() == 10 && "pong"@.len() == 4);
}

/// A member that may stand for a text: it is missing, null or a text.
pub open spec fn may_be_text(f: Option<JsonView>) -> bool {
    f is None || f == Some(JsonView::Null) || (f matches Some(JsonView::Str(_)))
}

/// A message is read whenever its needed fields are there and its other fields, where they are
/// there, hold texts.
pub proof fn messages_need_their_fields(v: &Json, r: Option<InboundMessage>)
    requires
        call_ensures(decode_message, (v,), r),
    ensures
        v@ is Object ==> (r is Some <==> {
            &&& crate::json::field(v@, "messageId"@) matches Some(JsonView::Str(_))
            &&& crate::json::field(v@, "senderId"@) matches Some(JsonView::Str(_))
            &&& crate::json::field(v@, "msgType"@) matches Some(JsonView::Str(_))
            &&& crate::json::field(v@, "timestamp"@) matches Some(JsonView::UInt(_))
            &&& may_be_text(crate::json::field(v@, "text"@)) && crate::json::field(v@, "text"@)
                != Some(JsonView::Null)
            &&& may_be_text(crate::json::field(v@, "chatId"@)) && crate::json::field(v@, "chatId"@)
                != Some(JsonView::Null)
            &&& may_be_text(crate::json::field(v@, "senderName"@))
            &&& may_be_text(crate::json::field(v@, "contextToken"@))
            &&& may_be_text(crate::json::field(v@, "mediaUrl"@))
            &&& may_be_text(crate::json::field(v@, "replyToMessageId"@))
            &&& may_be_text(crate::json::field(v@, "replyTo"@))
        }),
        !(v@ is Object) && !(v@ is Array) ==> r is None,
        v@ matches JsonView::Array(a) ==> (r matches Some(m) ==> {
            &&& 7 <= a.len() <= 11
            &&& a[0] == JsonView::Str(m.message_id@)
            &&& a[1] == JsonView::Str(m.chat_id@)
            &&& a[2] == JsonView::Str(m.sender_id@)
            &&& read_from(m.sender_name, Some(a[3]))
            &&& a[4] == JsonView::Str(m.msg_type@)
            &&& a[5] == JsonView::Str(m.text@)
            &&& a[6] == JsonView::UInt(m.timestamp)
        }),
{
}

/// The bridge's other answers are read from their fields; one that lacks a needed field, or
/// holds something else in it, counts for one that says nothing.
pub proof fn answers_of_the_bridge_are_read(e: Envelope, r: Inbound)
    requires
        call_ensures(Envelope::into_event, (e,), r),
        e.payload@ is Object,
    ensures
        r matches Inbound::Status(s) ==> {
            &&& crate::json::field(e.payload@, "status"@) == Some(JsonView::Str(s.status@))
            &&& read_from(s.detail, crate::json::field(e.payload@, "detail"@))
            &&& read_from(s.error, crate::json::field(e.payload@, "error"@))
        },
        e.message_type@ == "channel_status"@ && (crate::json::field(e.payload@, "status"@) matches
            Some(JsonView::Str(_))) && may_be_text(crate::json::field(e.payload@, "detail"@))
            && may_be_text(crate::json::field(e.payload@, "error"@)) ==> r is Status,
        r matches Inbound::Welcome(w) ==> if may_be_text(
            crate::json::field(e.payload@, "version"@),
        ) {
            read_from(w.version, crate::json::field(e.payload@, "version"@))
        } else {
            w.version is None
        },
        r matches Inbound::SendAck(a) ==> match crate::json::field(e.payload@, "requestId"@) {
            Some(JsonView::Str(q)) => if may_be_text(
                crate::json::field(e.payload@, "messageId"@),
            ) {
                a.request_id@ == q && read_from(
                    a.message_id,
                    crate::json::field(e.payload@, "messageId"@),
                )
            } else {
                a.request_id@.len() == 0 && a.message_id is None
            },
            _ => a.request_id@.len() == 0 && a.message_id is None,
        },
        r matches Inbound::SendError(a) ==> match (
            crate::json::field(e.payload@, "requestId"@),
            crate::json::field(e.payload@, "code"@),
            crate::json::field(e.payload@, "message"@),
        ) {
            (Some(JsonView::Str(q)), Some(JsonView::Str(c)), Some(JsonView::Str(m))) => a.request_id@
                == q && a.code@ == c && a.message@ == m,
            _ => a.request_id@.len() == 0 && a.code@ == "unknown"@ && a.message@
                == "malformed send_error"@,
        },
{
    reveal_strlit("inbound_message");
    reveal_strlit("channel_status");
    assert("inbound_message"@.len() == 15 && "channel_status"@.len() == 14);
    envelopes_are_taken_by_their_type(e, r);
}

} // verus!
