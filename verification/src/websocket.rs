//! WebSocket connections: which upgrade requests are accepted, and what the
//! actor of a connection does with the frames of the client and the
//! messages of the application.

use vstd::prelude::*;
use ahash::AHashMap;
use regex::Regex;
use crate::cors::{any_regex_matches, opt_str, CorsConfig};
use crate::core_handler::{
    bytes_of, explains, validate_auth_and_guards, verdict_of, AuthGuardResult,
};
use crate::headers::HeaderSeq;
use crate::metadata::{RateLimitConfig, RouteMetadata};
use crate::middleware::auth::{context_model, may_authenticate, AuthContext};
use crate::middleware::rate_limit::{rate_limit_body, retry_after};
use crate::permissions::{caller_of, guards_verdict, GuardResult};
use crate::response_builder::rate_limit_headers;
use crate::handler::text_reply;
use crate::maps::{
    id_map, id_map_get, id_map_insert, id_map_is_empty, id_map_keys, id_map_new,
    regex_is_match, regex_matches, text_map, text_map_get, text_map_insert, text_map_new,
    text_set, text_set_contains, tree_match, utf8, Captures, IdPairs, RouteSeq, TextPairs,
};
use crate::middleware::auth::carried;
use crate::middleware::rate_limit::RateLimitStore;
use crate::response_builder::HttpReply;
use crate::response_meta::{opt_text, pairs};
use crate::router::{
    captures_map, convert_path, converted_path, gathered, is_static, takes, MatchModel,
    PatternTree, RegistrationError,
};
use crate::state::{numeric_setting, resolve_setting, AppState};
use crate::text::{
    ascii_lower, chars_of, contains_sub, eq_ignore_case, find_char, has_sub, lemma_first_index,
    lowercase, same_ignoring_case, slice_of, string_of, string_views,
};

verus! {

/// The greatest size of a message, in bytes.
pub const MAX_MESSAGE_SIZE: usize = 1048576;

/// The close code for a normal closure.
pub const CLOSE_NORMAL: u16 = 1000;

/// The close code for an endpoint that is going away; it is used for a client
/// that fell silent.
pub const CLOSE_AWAY: u16 = 1001;

/// The close code for a protocol error.
pub const CLOSE_PROTOCOL: u16 = 1002;

/// The close code for a message that is too big.
pub const CLOSE_SIZE: u16 = 1009;

/// The close code for an error of the handler.
pub const CLOSE_ERROR: u16 = 1011;

/// A message between the actor of a connection and the application.
#[derive(Debug)]
pub enum WsMessage {
    /// A text message of the client.
    Text(String),
    /// A binary message of the client.
    Binary(Vec<u8>),
    /// The client is gone.
    Disconnect { code: u16 },
    /// The application accepts the connection.
    Accept { subprotocol: Option<String> },
    /// Text to send to the client.
    SendText(String),
    /// Bytes to send to the client.
    SendBinary(Vec<u8>),
    /// The application closes the connection.
    Close { code: u16, reason: String },
}

/// A message of the application for the actor.
#[derive(Debug)]
pub struct SendToClient(pub WsMessage);

/// The states of a connection.
#[derive(Debug, Clone, Copy, PartialEq, Eq, Structural)]
pub enum WsState {
    /// The connection is open; the application has not accepted it yet.
    Connecting,
    /// The application has accepted the connection.
    Accepted,
    /// The connection is being closed.
    Closing,
    /// The actor has stopped.
    Closed,
}

/// The reason that a close frame gives.
#[derive(Debug, Clone, Copy, PartialEq, Eq, Structural)]
pub enum CloseKind {
    Normal,
    Away,
    Protocol,
    Unsupported,
    Abnormal,
    Invalid,
    Policy,
    Size,
    Extension,
    Error,
    Restart,
    Again,
    /// A code that has no name.
    Other(u16),
    /// A reason that is not known.
    Unknown,
}

/// A frame of the client, as the actor sees it.
#[derive(Debug)]
pub enum ClientFrame {
    Ping(Vec<u8>),
    Pong,
    Text(String),
    Binary(Vec<u8>),
    /// A close frame, with its reason if it gives one.
    Close(Option<CloseKind>),
    /// What arrived is no frame.
    ProtocolError,
    /// A frame that the actor does not act on.
    Other,
}

/// Something that the actor does.
#[derive(Debug)]
pub enum WsEffect {
    /// Send text to the client.
    SendText(String),
    /// Send bytes to the client.
    SendBinary(Vec<u8>),
    /// Answer a ping with the same payload.
    Pong(Vec<u8>),
    /// Send a ping.
    Ping,
    /// Send a close frame with a code and, if there is one, a reason.
    Close { code: u16, reason: Option<String> },
    /// Echo the close frame of the client.
    EchoClose,
    /// Hand a message to the application. If its channel is full the message
    /// is dropped.
    ToApplication(WsMessage),
    /// Stop the actor.
    Stop,
}

/// The actor of one connection.
pub struct WebSocketActor {
    /// When the client was last heard, in milliseconds.
    hb: u64,
    accepted: bool,
    close_code: Option<u16>,
    stopping: bool,
    /// The milliseconds between pings.
    heartbeat_interval: u64,
    /// The milliseconds of silence after which the client counts as gone.
    client_timeout: u64,
}

/// The model of a `WsMessage`.
pub enum MessageModel {
    Text(Seq<char>),
    Binary(Seq<u8>),
    Disconnect { code: u16 },
    Accept { subprotocol: Option<Seq<char>> },
    SendText(Seq<char>),
    SendBinary(Seq<u8>),
    Close { code: u16, reason: Seq<char> },
}

/// The model of a `WsEffect`.
pub enum EffectModel {
    SendText(Seq<char>),
    SendBinary(Seq<u8>),
    Pong(Seq<u8>),
    Ping,
    Close { code: u16, reason: Option<Seq<char>> },
    EchoClose,
    ToApplication(MessageModel),
    Stop,
}

impl View for WsMessage {
    type V = MessageModel;

    open spec fn view(&self) -> MessageModel {
        match *self {
            WsMessage::Text(t) => MessageModel::Text(t@),
            WsMessage::Binary(b) => MessageModel::Binary(b@),
            WsMessage::Disconnect { code } => MessageModel::Disconnect { code },
            WsMessage::Accept { subprotocol } => MessageModel::Accept {
                subprotocol: opt_text(subprotocol),
            },
            WsMessage::SendText(t) => MessageModel::SendText(t@),
            WsMessage::SendBinary(b) => MessageModel::SendBinary(b@),
            WsMessage::Close { code, reason } => MessageModel::Close { code, reason: reason@ },
        }
    }
}

impl View for WsEffect {
    type V = EffectModel;

    open spec fn view(&self) -> EffectModel {
        match *self {
            WsEffect::SendText(t) => EffectModel::SendText(t@),
            WsEffect::SendBinary(b) => EffectModel::SendBinary(b@),
            WsEffect::Pong(b) => EffectModel::Pong(b@),
            WsEffect::Ping => EffectModel::Ping,
            WsEffect::Close { code, reason } => EffectModel::Close {
                code,
                reason: opt_text(reason),
            },
            WsEffect::EchoClose => EffectModel::EchoClose,
            WsEffect::ToApplication(m) => EffectModel::ToApplication(m@),
            WsEffect::Stop => EffectModel::Stop,
        }
    }
}

/// The models of a list of effects.
pub open spec fn effects(v: Seq<WsEffect>) -> Seq<EffectModel> {
    Seq::new(v.len(), |i: int| v[i]@)
}

/// The model of an actor.
pub struct ActorModel {
    pub hb: u64,
    pub accepted: bool,
    pub close_code: Option<u16>,
    pub stopping: bool,
    pub heartbeat_interval: u64,
    pub client_timeout: u64,
}

/// The state of the connection of an actor.
pub open spec fn state_of(a: ActorModel) -> WsState {
    if a.stopping {
        WsState::Closing
    } else if a.accepted {
        WsState::Accepted
    } else {
        WsState::Connecting
    }
}

/// The number of a close reason. A reason that is not known counts as a
/// normal closure.
pub open spec fn close_number(kind: CloseKind) -> u16 {
    match kind {
        CloseKind::Normal => 1000,
        CloseKind::Away => 1001,
        CloseKind::Protocol => 1002,
        CloseKind::Unsupported => 1003,
        CloseKind::Abnormal => 1006,
        CloseKind::Invalid => 1007,
        CloseKind::Policy => 1008,
        CloseKind::Size => 1009,
        CloseKind::Extension => 1010,
        CloseKind::Error => 1011,
        CloseKind::Restart => 1012,
        CloseKind::Again => 1013,
        CloseKind::Other(c) => c,
        CloseKind::Unknown => 1000,
    }
}

/// The actor with the client heard at `now`.
pub open spec fn heard(a: ActorModel, now: u64) -> ActorModel {
    ActorModel { hb: now, ..a }
}

/// The actor on its way to stop, with a close code.
pub open spec fn closing(a: ActorModel, code: u16) -> ActorModel {
    ActorModel { close_code: Some(code), stopping: true, ..a }
}

/// What the actor does with a message of the application, and the actor
/// after it.
///
/// `Accept` marks the connection as accepted. Text and bytes are sent to the
/// client once the connection is accepted and are dropped before. `Close`
/// sends a close frame with the code and the reason, if it is not empty, and
/// stops the actor. Any other message does nothing.
pub open spec fn on_message(a: ActorModel, msg: MessageModel) -> (ActorModel, Seq<EffectModel>) {
    match msg {
        MessageModel::Accept { .. } => (ActorModel { accepted: true, ..a }, Seq::empty()),
        MessageModel::SendText(t) => (
            a,
            if a.accepted {
                seq![EffectModel::SendText(t)]
            } else {
                Seq::empty()
            },
        ),
        MessageModel::SendBinary(b) => (
            a,
            if a.accepted {
                seq![EffectModel::SendBinary(b)]
            } else {
                Seq::empty()
            },
        ),
        MessageModel::Close { code, reason } => (
            closing(a, code),
            seq![
                EffectModel::Close {
                    code,
                    reason: if reason.len() == 0 {
                        None
                    } else {
                        Some(reason)
                    },
                },
                EffectModel::Stop,
            ],
        ),
        _ => (a, Seq::empty()),
    }
}

/// What closes a connection over a message that is too big.
pub open spec fn too_big(a: ActorModel) -> (ActorModel, Seq<EffectModel>) {
    (
        closing(a, CLOSE_SIZE),
        seq![
            EffectModel::Close { code: CLOSE_SIZE, reason: Some("Message too large"@) },
            EffectModel::Stop,
        ],
    )
}

/// What the actor does with a frame of the client that arrives at `now`,
/// and the actor after it.
///
/// Pings, pongs, text and bytes count as a sign of life. A ping is answered;
/// text and bytes are handed to the application unless they are too big, in
/// which case the connection is closed with code 1009. A close frame is
/// echoed, the application is told, and the actor stops. What is no frame
/// closes the connection with code 1002.
pub open spec fn on_frame(a: ActorModel, frame: ClientFrame, now: u64) -> (
    ActorModel,
    Seq<EffectModel>,
) {
    match frame {
        ClientFrame::Ping(payload) => (heard(a, now), seq![EffectModel::Pong(payload@)]),
        ClientFrame::Pong => (heard(a, now), Seq::empty()),
        ClientFrame::Text(t) => if utf8(t@).len() > MAX_MESSAGE_SIZE {
            too_big(heard(a, now))
        } else {
            (heard(a, now), seq![EffectModel::ToApplication(MessageModel::Text(t@))])
        },
        ClientFrame::Binary(b) => if b@.len() > MAX_MESSAGE_SIZE {
            too_big(heard(a, now))
        } else {
            (heard(a, now), seq![EffectModel::ToApplication(MessageModel::Binary(b@))])
        },
        ClientFrame::Close(reason) => {
            let code = match reason {
                Some(kind) => close_number(kind),
                None => 1000u16,
            };
            (
                closing(a, code),
                seq![
                    EffectModel::ToApplication(MessageModel::Disconnect { code }),
                    EffectModel::EchoClose,
                    EffectModel::Stop,
                ],
            )
        },
        ClientFrame::ProtocolError => (
            closing(a, CLOSE_PROTOCOL),
            seq![
                EffectModel::ToApplication(MessageModel::Disconnect { code: CLOSE_PROTOCOL }),
                EffectModel::Stop,
            ],
        ),
        ClientFrame::Other => (a, Seq::empty()),
    }
}

/// What the actor does when the heartbeat is due at `now`: a client that was
/// not heard for longer than the timeout counts as gone: the connection is
/// closing with code 1001, the application is told so and the actor stops.
/// Any other client is pinged.
pub open spec fn on_heartbeat(a: ActorModel, now: u64) -> (ActorModel, Seq<EffectModel>) {
    if now > a.hb && now - a.hb > a.client_timeout {
        (
            ActorModel { stopping: true, close_code: Some(CLOSE_AWAY), ..a },
            seq![
                EffectModel::ToApplication(MessageModel::Disconnect { code: CLOSE_AWAY }),
                EffectModel::Stop,
            ],
        )
    } else {
        (a, seq![EffectModel::Ping])
    }
}

/// The code with which the application is told that the actor has stopped.
pub open spec fn final_code(a: ActorModel) -> u16 {
    match a.close_code {
        Some(c) => c,
        None => 1000,
    }
}

impl View for WebSocketActor {
    type V = ActorModel;

    closed spec fn view(&self) -> ActorModel {
        ActorModel {
            hb: self.hb,
            accepted: self.accepted,
            close_code: self.close_code,
            stopping: self.stopping,
            heartbeat_interval: self.heartbeat_interval,
            client_timeout: self.client_timeout,
        }
    }
}

impl WebSocketActor {
    /// The actor of a connection that was opened at `now`.
    pub fn new(now: u64, heartbeat_interval: u64, client_timeout: u64) -> (a: Self)
        ensures
            a@ == (ActorModel {
                hb: now,
                accepted: false,
                close_code: None,
                stopping: false,
                heartbeat_interval,
                client_timeout,
            }),
            state_of(a@) == WsState::Connecting,
    {
        WebSocketActor {
            hb: now,
            accepted: false,
            close_code: None,
            stopping: false,
            heartbeat_interval,
            client_timeout,
        }
    }

    /// The state of the connection.
    pub fn state(&self) -> (s: WsState)
        ensures
            s == state_of(self@),
    {
        if self.stopping {
            WsState::Closing
        } else if self.accepted {
            WsState::Accepted
        } else {
            WsState::Connecting
        }
    }

    /// The milliseconds between two heartbeats.
    pub fn heartbeat_interval(&self) -> (ms: u64)
        ensures
            ms == self@.heartbeat_interval,
    {
        self.heartbeat_interval
    }

    /// Acts on a message of the application.
    pub fn handle(&mut self, msg: SendToClient) -> (done: Vec<WsEffect>)
        ensures
            (final(self)@, effects(done@)) == on_message(old(self)@, msg.0@),
    {
        let mut done: Vec<WsEffect> = Vec::new();
        match msg.0 {
            WsMessage::Accept { subprotocol } => {
                self.accepted = true;
            },
            WsMessage::SendText(text) => {
                if self.accepted {
                    done.push(WsEffect::SendText(text));
                }
            },
            WsMessage::SendBinary(data) => {
                if self.accepted {
                    done.push(WsEffect::SendBinary(data));
                }
            },
            WsMessage::Close { code, reason } => {
                self.close_code = Some(code);
                self.stopping = true;
                let reason = if reason.as_str().is_empty() {
                    None
                } else {
                    Some(reason)
                };
                done.push(WsEffect::Close { code, reason });
                done.push(WsEffect::Stop);
            },
            _ => {},
        }
        assert(effects(done@) =~= on_message(old(self)@, msg.0@).1);
        done
    }

    /// Closes the connection over a message that is too big.
    fn close_too_big(&mut self) -> (done: Vec<WsEffect>)
        ensures
            (final(self)@, effects(done@)) == too_big(old(self)@),
    {
        self.close_code = Some(CLOSE_SIZE);
        self.stopping = true;
        let mut done: Vec<WsEffect> = Vec::new();
        done.push(WsEffect::Close { code: CLOSE_SIZE, reason: Some("Message too large".to_owned()) });
        done.push(WsEffect::Stop);
        assert(effects(done@) =~= too_big(old(self)@).1);
        done
    }

    /// Acts on a frame of the client that arrives at `now`.
    pub fn handle_frame(&mut self, frame: ClientFrame, now: u64) -> (done: Vec<WsEffect>)
        ensures
            (final(self)@, effects(done@)) == on_frame(old(self)@, frame, now),
    {
        let mut done: Vec<WsEffect> = Vec::new();
        match frame {
            ClientFrame::Ping(payload) => {
                self.hb = now;
                done.push(WsEffect::Pong(payload));
            },
            ClientFrame::Pong => {
                self.hb = now;
            },
            ClientFrame::Text(text) => {
                self.hb = now;
                if text.as_str().as_bytes().len() > MAX_MESSAGE_SIZE {
                    return self.close_too_big();
                }
                done.push(WsEffect::ToApplication(WsMessage::Text(text)));
            },
            ClientFrame::Binary(data) => {
                self.hb = now;
                if data.len() > MAX_MESSAGE_SIZE {
                    return self.close_too_big();
                }
                done.push(WsEffect::ToApplication(WsMessage::Binary(data)));
            },
            ClientFrame::Close(reason) => {
                let code: u16 = match reason {
                    Some(kind) => close_code_number(kind),
                    None => 1000,
                };
                self.close_code = Some(code);
                self.stopping = true;
                done.push(WsEffect::ToApplication(WsMessage::Disconnect { code }));
                done.push(WsEffect::EchoClose);
                done.push(WsEffect::Stop);
            },
            ClientFrame::ProtocolError => {
                self.close_code = Some(CLOSE_PROTOCOL);
                self.stopping = true;
                done.push(WsEffect::ToApplication(WsMessage::Disconnect { code: CLOSE_PROTOCOL }));
                done.push(WsEffect::Stop);
            },
            ClientFrame::Other => {},
        }
        assert(effects(done@) =~= on_frame(old(self)@, frame, now).1);
        done
    }

    /// Acts on a heartbeat that is due at `now`.
    pub fn start_heartbeat(&mut self, now: u64) -> (done: Vec<WsEffect>)
        ensures
            (final(self)@, effects(done@)) == on_heartbeat(old(self)@, now),
    {
        let mut done: Vec<WsEffect> = Vec::new();
        if now > self.hb && now - self.hb > self.client_timeout {
            self.stopping = true;
            self.close_code = Some(CLOSE_AWAY);
            done.push(WsEffect::ToApplication(WsMessage::Disconnect { code: CLOSE_AWAY }));
            done.push(WsEffect::Stop);
        } else {
            done.push(WsEffect::Ping);
        }
        assert(effects(done@) =~= on_heartbeat(old(self)@, now).1);
        done
    }

    /// What the application is told when the actor has stopped: that the
    /// client is gone, with the close code of the connection or 1000.
    pub fn stopped(&self) -> (m: WsMessage)
        ensures
            m@ == (MessageModel::Disconnect { code: final_code(self@) }),
    {
        WsMessage::Disconnect {
            code: match self.close_code {
                Some(c) => c,
                None => 1000,
            },
        }
    }
}

/// The number of a close reason.
pub fn close_code_number(kind: CloseKind) -> (code: u16)
    ensures
        code == close_number(kind),
{
    match kind {
        CloseKind::Normal => 1000,
        CloseKind::Away => 1001,
        CloseKind::Protocol => 1002,
        CloseKind::Unsupported => 1003,
        CloseKind::Abnormal => 1006,
        CloseKind::Invalid => 1007,
        CloseKind::Policy => 1008,
        CloseKind::Size => 1009,
        CloseKind::Extension => 1010,
        CloseKind::Error => 1011,
        CloseKind::Restart => 1012,
        CloseKind::Again => 1013,
        CloseKind::Other(c) => c,
        CloseKind::Unknown => 1000,
    }
}

/// What the actor does with a sequence of messages of the application, one
/// after the other.
pub open spec fn on_messages(a: ActorModel, msgs: Seq<MessageModel>) -> (
    ActorModel,
    Seq<EffectModel>,
)
    decreases msgs.len(),
{
    if msgs.len() == 0 {
        (a, Seq::empty())
    } else {
        let before = on_messages(a, msgs.drop_last());
        let last = on_message(before.0, msgs.last());
        (last.0, before.1 + last.1)
    }
}

/// A message that carries text or bytes for the client.
pub open spec fn is_payload(m: MessageModel) -> bool {
    m is SendText || m is SendBinary
}

/// What is sent to the client for a message that carries text or bytes.
pub open spec fn payload_effect(m: MessageModel) -> EffectModel {
    match m {
        MessageModel::SendText(t) => EffectModel::SendText(t),
        MessageModel::SendBinary(b) => EffectModel::SendBinary(b),
        _ => EffectModel::Ping,
    }
}

/// Before the connection is accepted, text and bytes for the client change
/// nothing and nothing is sent.
pub proof fn lemma_send_before_accept(a: ActorModel, msgs: Seq<MessageModel>)
    requires
        !a.accepted,
        forall|i: int| 0 <= i < msgs.len() ==> is_payload(#[trigger] msgs[i]),
    ensures
        on_messages(a, msgs) == (a, Seq::<EffectModel>::empty()),
    decreases msgs.len(),
{
    if msgs.len() > 0 {
        lemma_send_before_accept(a, msgs.drop_last());
        assert(is_payload(msgs[msgs.len() - 1]));
    }
}

/// Once the connection is accepted, each text and each run of bytes for the
/// client is sent exactly once, in the order of the messages.
pub proof fn lemma_send_after_accept(a: ActorModel, msgs: Seq<MessageModel>)
    requires
        a.accepted,
        forall|i: int| 0 <= i < msgs.len() ==> is_payload(#[trigger] msgs[i]),
    ensures
        on_messages(a, msgs).0 == a,
        on_messages(a, msgs).1 == Seq::new(msgs.len(), |i: int| payload_effect(msgs[i])),
    decreases msgs.len(),
{
    if msgs.len() > 0 {
        let init = msgs.drop_last();
        lemma_send_after_accept(a, init);
        assert(is_payload(msgs[msgs.len() - 1]));
        assert(on_messages(a, msgs).1 =~= Seq::new(msgs.len(), |i: int| payload_effect(msgs[i])));
    } else {
        assert(on_messages(a, msgs).1 =~= Seq::new(msgs.len(), |i: int| payload_effect(msgs[i])));
    }
}

/// What the application may hand to the actor: the fields of a message as
/// the application gave them.
pub struct AppMessage {
    /// The `type` of the message.
    pub kind: Option<String>,
    pub subprotocol: Option<String>,
    pub text: Option<String>,
    pub bytes: Option<Vec<u8>>,
    pub code: Option<u16>,
    pub reason: Option<String>,
}

/// Why a message of the application is refused.
#[derive(Debug)]
pub enum SendError {
    /// The message has no type.
    MissingType,
    /// A message to send has neither text nor bytes.
    MissingPayload,
    /// The type is none that the actor knows.
    UnknownType(String),
}

/// The model of a `SendError`.
pub enum SendErrorModel {
    MissingType,
    MissingPayload,
    UnknownType(Seq<char>),
}

/// The outcome of reading a message of the application.
pub type SendOutcome = Result<MessageModel, SendErrorModel>;

/// The model of the outcome of reading a message of the application.
pub open spec fn send_view(r: Result<WsMessage, SendError>) -> SendOutcome {
    match r {
        Ok(m) => Ok(m@),
        Err(SendError::MissingType) => Err(SendErrorModel::MissingType),
        Err(SendError::MissingPayload) => Err(SendErrorModel::MissingPayload),
        Err(SendError::UnknownType(t)) => Err(SendErrorModel::UnknownType(t@)),
    }
}

/// The message for the actor that a message of the application stands for.
/// A message to send carries its text if it has one and else its bytes; a
/// message to close has code 1000 and no reason unless it says otherwise.
pub open spec fn app_message(m: AppMessage) -> SendOutcome {
    match m.kind {
        None => Err(SendErrorModel::MissingType),
        Some(kind) => if kind@ == "websocket.accept"@ {
            Ok(MessageModel::Accept { subprotocol: opt_text(m.subprotocol) })
        } else if kind@ == "websocket.send"@ {
            match m.text {
                Some(t) => Ok(MessageModel::SendText(t@)),
                None => match m.bytes {
                    Some(b) => Ok(MessageModel::SendBinary(b@)),
                    None => Err(SendErrorModel::MissingPayload),
                },
            }
        } else if kind@ == "websocket.close"@ {
            Ok(
                MessageModel::Close {
                    code: match m.code {
                        Some(c) => c,
                        None => 1000u16,
                    },
                    reason: match m.reason {
                        Some(r) => r@,
                        None => Seq::empty(),
                    },
                },
            )
        } else {
            Err(SendErrorModel::UnknownType(kind@))
        },
    }
}

/// Reads a message of the application.
pub fn create_send_fn(m: AppMessage) -> (r: Result<WsMessage, SendError>)
    ensures
        send_view(r) == app_message(m),
{
    let kind = match m.kind {
        Some(k) => k,
        None => {
            return Err(SendError::MissingType);
        },
    };
    if kind.as_str().eq("websocket.accept") {
        Ok(WsMessage::Accept { subprotocol: m.subprotocol })
    } else if kind.as_str().eq("websocket.send") {
        match m.text {
            Some(t) => Ok(WsMessage::SendText(t)),
            None => match m.bytes {
                Some(b) => Ok(WsMessage::SendBinary(b)),
                None => Err(SendError::MissingPayload),
            },
        }
    } else if kind.as_str().eq("websocket.close") {
        Ok(
            WsMessage::Close {
                code: match m.code {
                    Some(c) => c,
                    None => 1000,
                },
                reason: match m.reason {
                    Some(r) => r,
                    None => String::new(),
                },
            },
        )
    } else {
        Err(SendError::UnknownType(kind))
    }
}

/// What the application receives.
#[derive(Debug)]
pub enum AppEvent {
    /// A message of the client: its text or its bytes, or neither.
    Receive { text: Option<String>, bytes: Option<Vec<u8>> },
    /// The client is gone.
    Disconnect { code: u16 },
}

/// The event that the application receives for what the channel of the
/// actor hands out: text and bytes as they are, a disconnect with its code,
/// and a normal disconnect when the channel is closed.
pub fn create_receive_fn(msg: Option<WsMessage>) -> (e: AppEvent)
    ensures
        match msg {
            Some(WsMessage::Text(t)) => e matches AppEvent::Receive {
                text: Some(x),
                bytes: None,
            } && x@ == t@,
            Some(WsMessage::Binary(b)) => e matches AppEvent::Receive {
                text: None,
                bytes: Some(x),
            } && x@ == b@,
            Some(WsMessage::Disconnect { code }) => e matches AppEvent::Disconnect { code: c } && c
                == code,
            None => e matches AppEvent::Disconnect { code: c } && c == 1000,
            _ => e matches AppEvent::Receive { text: None, bytes: None },
        },
{
    match msg {
        Some(WsMessage::Text(t)) => AppEvent::Receive { text: Some(t), bytes: None },
        Some(WsMessage::Binary(b)) => AppEvent::Receive { text: None, bytes: Some(b) },
        Some(WsMessage::Disconnect { code }) => AppEvent::Disconnect { code },
        None => AppEvent::Disconnect { code: 1000 },
        _ => AppEvent::Receive { text: None, bytes: None },
    }
}

/// A route for WebSocket connections.
#[derive(Debug)]
pub struct WebSocketRoute {
    pub path: String,
    pub handler_id: usize,
}

/// The routes for WebSocket connections: a table of static paths that is
/// asked first, and a tree of patterns with captures.
pub struct WebSocketRouter {
    static_routes: AHashMap<String, usize>,
    dynamic_router: PatternTree,
    has_dynamic_routes: bool,
    dynamic_paths: Vec<String>,
}

/// The model of a `WebSocketRouter`.
pub struct WsRoutes {
    pub exact: IdPairs,
    pub dynamic: RouteSeq,
    pub has_dynamic: bool,
    pub dynamic_paths: Seq<Seq<char>>,
}

/// What the routes find for a path: the static route for exactly that path,
/// or else what the tree finds, if it holds any pattern.
pub open spec fn ws_lookup(r: WsRoutes, path: Seq<char>) -> MatchModel {
    if r.exact.contains_key(path) {
        Some((r.exact[path], TextPairs::empty()))
    } else if r.has_dynamic {
        gathered(tree_match(r.dynamic, path))
    } else {
        None
    }
}

impl View for WebSocketRouter {
    type V = WsRoutes;

    closed spec fn view(&self) -> WsRoutes {
        WsRoutes {
            exact: id_map(self.static_routes),
            dynamic: self.dynamic_router.routes(),
            has_dynamic: self.has_dynamic_routes,
            dynamic_paths: string_views(self.dynamic_paths@),
        }
    }
}

impl WebSocketRouter {
    /// Routes for nothing.
    pub fn new() -> (r: Self)
        ensures
            r@ == (WsRoutes {
                exact: IdPairs::empty(),
                dynamic: RouteSeq::empty(),
                has_dynamic: false,
                dynamic_paths: Seq::empty(),
            }),
    {
        let dynamic_paths: Vec<String> = Vec::new();
        assert(string_views(dynamic_paths@) =~= Seq::<Seq<char>>::empty());
        WebSocketRouter {
            static_routes: id_map_new(),
            dynamic_router: PatternTree::new(),
            has_dynamic_routes: false,
            dynamic_paths,
        }
    }

    /// Registers a handler for a path pattern. A static path replaces an
    /// earlier route for the same path. A pattern with captures is taken
    /// exactly when the tree takes its converted form; a pattern that is
    /// refused changes nothing.
    pub fn register(&mut self, path: &str, handler_id: usize) -> (r: Result<(), RegistrationError>)
        ensures
            is_static(path@) ==> r is Ok && final(self)@ == (WsRoutes {
                exact: old(self)@.exact.insert(path@, handler_id),
                ..old(self)@
            }),
            !is_static(path@) ==> (r is Ok <==> takes(old(self)@.dynamic, converted_path(path@))),
            !is_static(path@) && r is Ok ==> final(self)@ == (WsRoutes {
                dynamic: old(self)@.dynamic.push((converted_path(path@), handler_id)),
                has_dynamic: true,
                dynamic_paths: old(self)@.dynamic_paths.push(path@),
                ..old(self)@
            }),
            !is_static(path@) && r is Err ==> final(self)@ == old(self)@,
            r matches Err(e) ==> e is Rejected,
    {
        let chars = chars_of(path);
        proof {
            lemma_first_index(path@, '{');
        }
        if find_char(chars.as_slice(), '{').is_none() {
            id_map_insert(&mut self.static_routes, path.to_owned(), handler_id);
            Ok(())
        } else {
            let converted = convert_path(path);
            let mut held = PatternTree::new();
            core::mem::swap(&mut held, &mut self.dynamic_router);
            let (next, taken) = held.insert(converted.as_str(), handler_id);
            self.dynamic_router = next;
            match taken {
                Ok(()) => {
                    self.has_dynamic_routes = true;
                    let ghost before = string_views(self.dynamic_paths@);
                    self.dynamic_paths.push(path.to_owned());
                    assert(string_views(self.dynamic_paths@) =~= before.push(path@));
                    Ok(())
                },
                Err(reason) => Err(RegistrationError::Rejected(reason)),
            }
        }
    }

    /// Finds the route for a path.
    pub fn find(&self, path: &str) -> (r: Option<(WebSocketRoute, AHashMap<String, String>)>)
        ensures
            (match r {
                Some((route, params)) => Some((route.handler_id, text_map(params))),
                None => None,
            }) == ws_lookup(self@, path@),
    {
        match id_map_get(&self.static_routes, path) {
            Some(id) => {
                return Some(
                    (WebSocketRoute { path: path.to_owned(), handler_id: id }, text_map_new()),
                );
            },
            None => {},
        }
        if !self.has_dynamic_routes {
            return None;
        }
        match self.dynamic_router.at(path) {
            Some((id, caps)) => {
                let ghost model: Captures = Seq::new(
                    caps@.len(),
                    |i: int| (caps@[i].0@, caps@[i].1@),
                );
                let mut params = text_map_new();
                let mut i: usize = 0;
                assert(model.take(0) =~= Captures::empty());
                while i < caps.len()
                    invariant
                        i <= caps.len(),
                        model == Seq::new(caps@.len(), |i: int| (caps@[i].0@, caps@[i].1@)),
                        text_map(params) == captures_map(model.take(i as int)),
                    decreases caps.len() - i,
                {
                    proof {
                        assert(model.take(i + 1).drop_last() =~= model.take(i as int));
                    }
                    text_map_insert(&mut params, caps[i].0.clone(), caps[i].1.clone());
                    i += 1;
                }
                assert(model.take(caps.len() as int) =~= model);
                Some((WebSocketRoute { path: path.to_owned(), handler_id: id }, params))
            },
            None => None,
        }
    }

    /// Whether no route is registered.
    pub fn is_empty(&self) -> (r: bool)
        ensures
            r == (self@.exact == IdPairs::empty() && !self@.has_dynamic),
    {
        id_map_is_empty(&self.static_routes) && !self.has_dynamic_routes
    }

    /// The registered paths: the static paths in some order, then the
    /// patterns in the order of their registration.
    pub fn get_all_paths(&self) -> (paths: Vec<String>)
        ensures
            exists|statics: Seq<Seq<char>>|
                #![trigger statics.to_set()]
                statics.no_duplicates() && statics.to_set() == self@.exact.dom() && string_views(
                    paths@,
                ) == statics + self@.dynamic_paths,
    {
        let mut paths = id_map_keys(&self.static_routes);
        let ghost statics = paths@.map_values(|s: String| s@);
        assert(string_views(paths@) =~= statics);
        let mut i: usize = 0;
        assert(string_views(self.dynamic_paths@).take(0) =~= Seq::<Seq<char>>::empty());
        assert(statics + string_views(self.dynamic_paths@).take(0) =~= statics);
        while i < self.dynamic_paths.len()
            invariant
                i <= self.dynamic_paths.len(),
                string_views(paths@) == statics + string_views(self.dynamic_paths@).take(i as int),
            decreases self.dynamic_paths.len() - i,
        {
            let ghost before = string_views(paths@);
            paths.push(self.dynamic_paths[i].clone());
            assert(string_views(paths@) =~= before.push(self.dynamic_paths@[i as int]@));
            assert(string_views(paths@) =~= statics + string_views(self.dynamic_paths@).take(
                i + 1,
            ));
            i += 1;
        }
        assert(string_views(self.dynamic_paths@).take(self.dynamic_paths.len() as int)
            =~= string_views(self.dynamic_paths@));
        paths
    }
}

/// A path as it is looked up: without a slash at its end, unless it is the
/// root.
pub open spec fn normal_path(path: Seq<char>) -> Seq<char> {
    if path.len() > 1 && path.last() == '/' {
        path.drop_last()
    } else {
        path
    }
}

/// Removes a slash at the end of a path that is not the root.
pub fn normalize_path(path: &str) -> (r: String)
    ensures
        r@ == normal_path(path@),
{
    let chars = chars_of(path);
    if chars.len() > 1 && chars[chars.len() - 1] == '/' {
        let cut = slice_of(chars.as_slice(), 0, chars.len() - 1);
        assert(cut@ =~= path@.drop_last());
        string_of(cut.as_slice())
    } else {
        string_of(chars.as_slice())
    }
}

/// Whether the headers of a request ask for an upgrade to WebSocket:
/// `Connection` names `upgrade` and `Upgrade` is `websocket`, in any case.
pub open spec fn upgrade_asked(connection: Option<Seq<char>>, upgrade: Option<Seq<char>>) -> bool {
    (connection matches Some(c) && has_sub(ascii_lower(c), "upgrade"@)) && (upgrade matches Some(
        u,
    ) && eq_ignore_case(u, "websocket"@))
}

/// Decides whether the headers of a request ask for an upgrade to WebSocket.
pub fn is_websocket_upgrade(connection: Option<&str>, upgrade: Option<&str>) -> (r: bool)
    ensures
        r == upgrade_asked(opt_str(connection), opt_str(upgrade)),
{
    let named = match connection {
        Some(c) => {
            let chars = chars_of(c);
            let lower = lowercase(chars.as_slice());
            let word = chars_of("upgrade");
            contains_sub(lower.as_slice(), word.as_slice())
        },
        None => false,
    };
    if !named {
        return false;
    }
    match upgrade {
        Some(u) => {
            let chars = chars_of(u);
            let word = chars_of("websocket");
            same_ignoring_case(chars.as_slice(), word.as_slice())
        },
        None => false,
    }
}

/// Whether an origin is allowed by a configuration: every origin is if the
/// configuration allows all, and else an origin that is in its set or
/// matches one of its expressions or of the global expressions.
pub open spec fn ws_origin_allowed(origin: Seq<char>, cfg: CorsConfig, global: Seq<Regex>) -> bool {
    cfg.allow_all_origins || text_set(cfg.origin_set).contains(origin) || any_regex_matches(
        cfg.compiled_origin_regexes@,
        origin,
    ) || any_regex_matches(global, origin)
}

/// Whether a connection from an origin may be opened. A request without
/// `Origin` comes from the same origin and may. A request from another
/// origin may only if there is a global CORS configuration that allows it.
pub open spec fn origin_valid(origin: Option<Seq<char>>, state: &AppState) -> bool {
    match origin {
        None => true,
        Some(o) => match state.global_cors_config {
            Some(cfg) => ws_origin_allowed(o, cfg, state.cors_origin_regexes@),
            None => false,
        },
    }
}

/// Tests an origin against each expression in turn.
fn matches_one(res: &Vec<Regex>, origin: &str) -> (r: bool)
    ensures
        r == any_regex_matches(res@, origin@),
{
    let mut i: usize = 0;
    while i < res.len()
        invariant
            i <= res.len(),
            forall|j: int| 0 <= j < i ==> !regex_matches(#[trigger] res@[j], origin@),
        decreases res.len() - i,
    {
        if regex_is_match(&res[i], origin) {
            return true;
        }
        i += 1;
    }
    false
}

/// Decides whether an origin is allowed by a configuration.
pub fn is_origin_allowed(origin: &str, cors_config: &CorsConfig, global_regexes: &Vec<Regex>) -> (r:
    bool)
    ensures
        r == ws_origin_allowed(origin@, *cors_config, global_regexes@),
{
    if cors_config.allow_all_origins {
        return true;
    }
    if text_set_contains(&cors_config.origin_set, origin) {
        return true;
    }
    if matches_one(&cors_config.compiled_origin_regexes, origin) {
        return true;
    }
    matches_one(global_regexes, origin)
}

/// Decides whether a connection from an origin may be opened.
pub fn validate_origin(origin: Option<&str>, state: &AppState) -> (r: bool)
    ensures
        r == origin_valid(opt_str(origin), state),
{
    match origin {
        None => true,
        Some(o) => match &state.global_cors_config {
            Some(cfg) => is_origin_allowed(o, cfg, &state.cors_origin_regexes),
            None => false,
        },
    }
}

/// Whether a further connection may be opened while `active` connections are
/// open and at most `cap` may be: the number of open connections after it
/// was opened, or nothing if the cap is reached.
pub open spec fn admitted(active: usize, cap: usize) -> Option<usize> {
    if active >= cap {
        None
    } else {
        Some((active + 1) as usize)
    }
}

/// Decides whether a further connection may be opened.
pub fn admit_connection(active: usize, cap: usize) -> (r: Option<usize>)
    ensures
        r == admitted(active, cap),
        r matches Some(n) ==> n <= cap,
{
    if active >= cap {
        None
    } else {
        Some(active + 1)
    }
}

/// The number of open connections after one was closed.
pub fn release_connection(active: usize) -> (r: usize)
    ensures
        r == (if active > 0 {
            (active - 1) as usize
        } else {
            0usize
        }),
{
    if active > 0 {
        active - 1
    } else {
        0
    }
}

/// What happens to the number of open connections.
pub enum CounterEvent {
    /// An upgrade request arrives.
    Upgrade,
    /// An actor stops.
    Stop,
}

/// The number of open connections after a sequence of events, with a cap.
pub open spec fn connections_after(start: usize, cap: usize, events: Seq<CounterEvent>) -> usize
    decreases events.len(),
{
    if events.len() == 0 {
        start
    } else {
        let before = connections_after(start, cap, events.drop_last());
        match events.last() {
            CounterEvent::Upgrade => match admitted(before, cap) {
                Some(n) => n,
                None => before,
            },
            CounterEvent::Stop => if before > 0 {
                (before - 1) as usize
            } else {
                0usize
            },
        }
    }
}

/// Whatever upgrade requests arrive and whatever actors stop, the number of
/// open connections never passes the cap; an upgrade request that arrives
/// when the cap is reached is refused and leaves the number as it is.
pub proof fn lemma_cap_never_passed(start: usize, cap: usize, events: Seq<CounterEvent>)
    requires
        start <= cap,
    ensures
        connections_after(start, cap, events) <= cap,
        connections_after(start, cap, events) == cap ==> admitted(
            connections_after(start, cap, events),
            cap,
        ) is None && connections_after(start, cap, events.push(CounterEvent::Upgrade)) == cap,
    decreases events.len(),
{
    if events.len() > 0 {
        lemma_cap_never_passed(start, cap, events.drop_last());
    }
    assert(events.push(CounterEvent::Upgrade).drop_last() =~= events);
}

/// The greatest number of connections that may be open: the number given in
/// the environment, else the number given in the settings, else 10000.
pub fn get_max_connections(env: Option<&str>, setting: Option<u64>) -> (r: u64)
    ensures
        r == numeric_setting(opt_str(env), setting, 0, 10000),
{
    resolve_setting(env, setting, 0, 10000)
}

/// The size of the channel between actor and application: the number given
/// in the environment, else the number given in the settings, else 100.
pub fn get_channel_buffer_size(env: Option<&str>, setting: Option<u64>) -> (r: u64)
    ensures
        r == numeric_setting(opt_str(env), setting, 0, 100),
{
    resolve_setting(env, setting, 0, 100)
}

/// The seconds between two heartbeats: the number given in the environment,
/// else the number given in the settings, else 5.
pub fn get_heartbeat_interval(env: Option<&str>, setting: Option<u64>) -> (r: u64)
    ensures
        r == numeric_setting(opt_str(env), setting, 0, 5),
{
    resolve_setting(env, setting, 0, 5)
}

/// The seconds of silence after which a client counts as gone: the number
/// given in the environment, else the number given in the settings, else 10.
pub fn get_client_timeout(env: Option<&str>, setting: Option<u64>) -> (r: u64)
    ensures
        r == numeric_setting(opt_str(env), setting, 0, 10),
{
    resolve_setting(env, setting, 0, 10)
}

/// A JSON answer with a message.
fn json_reply(status: u16, body: &str) -> (r: HttpReply)
    ensures
        r.status == status,
        pairs(r.headers@) == seq![("content-type"@, "application/json"@)],
        r.body@ == utf8(body@),
{
    let mut headers: Vec<(String, String)> = Vec::new();
    headers.push(("content-type".to_owned(), "application/json".to_owned()));
    assert(pairs(headers@) =~= seq![("content-type"@, "application/json"@)]);
    HttpReply { status, headers, body: bytes_of(body) }
}

/// What is decided about an upgrade request.
pub enum UpgradeDecision {
    /// The connection is opened; `active` connections are open then.
    Accept { active: usize },
    /// The request is answered without an upgrade.
    Reject(HttpReply),
}

/// The model of an answer: its status, its headers and its body.
pub open spec fn answer(r: HttpReply) -> (u16, HeaderSeq, Seq<u8>) {
    (r.status, pairs(r.headers@), r.body@)
}

/// A JSON answer with a message.
pub open spec fn json_answer(status: u16, body: Seq<char>) -> (u16, HeaderSeq, Seq<u8>) {
    (status, seq![("content-type"@, "application/json"@)], utf8(body))
}

/// Whether an answer is that to a request over a rate limit.
pub open spec fn limited_answer(a: (u16, HeaderSeq, Seq<u8>), config: RateLimitConfig) -> bool {
    exists|wait: u64|
        #![trigger retry_after(wait)]
        a == (
            429u16,
            rate_limit_headers(retry_after(wait), config.rps, config.burst),
            utf8(rate_limit_body(retry_after(wait))),
        )
}

/// The answer to a caller that the guards turn away: 403 where they forbid,
/// else 401 with a challenge.
pub open spec fn guard_answer(verdict: GuardResult) -> (u16, HeaderSeq, Seq<u8>) {
    if verdict == GuardResult::Forbidden {
        json_answer(403, "{\"detail\":\"Permission denied\"}"@)
    } else {
        (
            401u16,
            seq![("content-type"@, "application/json"@), ("www-authenticate"@, "Bearer"@)],
            utf8("{\"detail\":\"Authentication required\"}"@),
        )
    }
}

/// Whether the guards of a route, asked about a caller that its backends may
/// have authenticated from the headers, say `verdict`.
pub open spec fn guards_say(headers: TextPairs, m: RouteMetadata, verdict: GuardResult) -> bool {
    exists|ctx: Option<AuthContext>|
        #![trigger context_model(ctx)]
        may_authenticate(headers, m.auth_backends@, context_model(ctx)) && guards_verdict(
            m.guards@,
            caller_of(ctx),
        ) == verdict
}

/// Whether a decision about an upgrade request is right.
///
/// In this order: a request that does not ask for an upgrade is answered
/// with 400; with the cap on open connections reached, with 503; over the
/// rate limit of the route, with 429; from an origin that is not allowed,
/// with 403; and a caller that the guards of the route turn away, with 401 or
/// 403. Otherwise the connection is opened and counted. A route without
/// metadata has no rate limit and no guards.
pub open spec fn upgrade_outcome(
    d: UpgradeDecision,
    headers: TextPairs,
    meta: Option<RouteMetadata>,
    origin_ok: bool,
    active: usize,
    max_connections: usize,
) -> bool {
    if !upgrade_asked(carried(headers, "connection"@), carried(headers, "upgrade"@)) {
        d matches UpgradeDecision::Reject(r) && answer(r) == (
            400u16,
            seq![("content-type"@, "text/plain; charset=utf-8"@)],
            utf8("Expected WebSocket upgrade request"@),
        )
    } else if active >= max_connections {
        d matches UpgradeDecision::Reject(r) && answer(r) == json_answer(
            503,
            "{\"detail\":\"Too many WebSocket connections\"}"@,
        )
    } else {
        match d {
            UpgradeDecision::Accept { active: n } => {
                &&& n == active + 1
                &&& origin_ok
                &&& meta matches Some(m) ==> guards_say(headers, m, GuardResult::Allow)
            },
            UpgradeDecision::Reject(r) => {
                ||| meta matches Some(m) && m.rate_limit_config matches Some(c) && limited_answer(
                    answer(r),
                    c,
                )
                ||| !origin_ok && answer(r) == json_answer(403, "{\"detail\":\"Origin not allowed\"}"@)
                ||| meta matches Some(m) && origin_ok && exists|verdict: GuardResult|
                    #![trigger guard_answer(verdict)]
                    verdict != GuardResult::Allow && guards_say(headers, m, verdict) && answer(r)
                        == guard_answer(verdict)
            },
        }
    }
}

/// Decides about an upgrade request for a route, as `upgrade_outcome` says.
/// A connection is only opened while fewer than `max_connections` are open.
pub fn handle_websocket_upgrade_with_handler(
    headers: &AHashMap<String, String>,
    peer_addr: Option<&str>,
    handler_id: usize,
    state: &AppState,
    rate_limits: &RateLimitStore,
    active: usize,
    max_connections: usize,
) -> (d: UpgradeDecision)
    ensures
        upgrade_outcome(
            d,
            text_map(*headers),
            state.metadata_of(handler_id),
            origin_valid(carried(text_map(*headers), "origin"@), state),
            active,
            max_connections,
        ),
        d matches UpgradeDecision::Accept { active: n } ==> n <= max_connections,
{
    let connection: Option<&str> = match text_map_get(headers, "connection") {
        Some(v) => Some(v.as_str()),
        None => None,
    };
    let upgrade: Option<&str> = match text_map_get(headers, "upgrade") {
        Some(v) => Some(v.as_str()),
        None => None,
    };
    if !is_websocket_upgrade(connection, upgrade) {
        return UpgradeDecision::Reject(text_reply(400, "Expected WebSocket upgrade request"));
    }
    let opened = match admit_connection(active, max_connections) {
        Some(n) => n,
        None => {
            return UpgradeDecision::Reject(
                json_reply(503, "{\"detail\":\"Too many WebSocket connections\"}"),
            );
        },
    };
    let meta = state.get_route_metadata(handler_id);
    match meta {
        Some(m) => {
            match &m.rate_limit_config {
                Some(config) => {
                    match crate::middleware::rate_limit::check_rate_limit(
                        rate_limits,
                        handler_id,
                        headers,
                        peer_addr,
                        config,
                    ) {
                        Some(reply) => {
                            proof {
                                let wait = choose|wait: u64|
                                    reply.status == 429 && pairs(reply.headers@)
                                        == rate_limit_headers(
                                        retry_after(wait),
                                        config.rps,
                                        config.burst,
                                    ) && reply.body@ == utf8(rate_limit_body(retry_after(wait)));
                                assert(retry_after(wait) == retry_after(wait));
                                assert(limited_answer(answer(reply), *config));
                            }
                            return UpgradeDecision::Reject(reply);
                        },
                        None => {},
                    }
                },
                None => {},
            }
        },
        None => {},
    }
    let origin: Option<&str> = match text_map_get(headers, "origin") {
        Some(v) => Some(v.as_str()),
        None => None,
    };
    if !validate_origin(origin, state) {
        return UpgradeDecision::Reject(json_reply(403, "{\"detail\":\"Origin not allowed\"}"));
    }
    match meta {
        Some(m) => {
            let verdict = validate_auth_and_guards(headers, &m.auth_backends, &m.guards);
            proof {
                let ctx = choose|ctx: Option<AuthContext>|
                    #![trigger context_model(ctx)]
                    explains(verdict, ctx, text_map(*headers), m.auth_backends@, m.guards@);
                assert(context_model(ctx) == context_model(ctx));
                assert(guards_say(text_map(*headers), *m, verdict_of(verdict)));
            }
            match verdict {
                AuthGuardResult::Allow(_) => {},
                AuthGuardResult::Unauthorized => {
                    let mut challenge: Vec<(String, String)> = Vec::new();
                    challenge.push(("content-type".to_owned(), "application/json".to_owned()));
                    challenge.push(("www-authenticate".to_owned(), "Bearer".to_owned()));
                    let reply = HttpReply {
                        status: 401,
                        headers: challenge,
                        body: bytes_of("{\"detail\":\"Authentication required\"}"),
                    };
                    proof {
                        assert(pairs(reply.headers@) =~= seq![
                            ("content-type"@, "application/json"@),
                            ("www-authenticate"@, "Bearer"@),
                        ]);
                        assert(answer(reply) == guard_answer(GuardResult::Unauthorized));
                    }
                    return UpgradeDecision::Reject(reply);
                },
                AuthGuardResult::Forbidden => {
                    let reply = json_reply(403, "{\"detail\":\"Permission denied\"}");
                    proof {
                        assert(answer(reply) == guard_answer(GuardResult::Forbidden));
                    }
                    return UpgradeDecision::Reject(reply);
                },
            }
        },
        None => {},
    }
    UpgradeDecision::Accept { active: opened }
}

/// What is decided about a connection that a test client asks for.
pub enum TestUpgrade {
    /// The origin of the request is not allowed.
    OriginDenied(String),
    /// No route serves the path.
    NotFound,
    /// The request is over the rate limit of the route.
    RateLimited,
    /// The guards of the route turn the caller away because nobody is
    /// authenticated.
    Unauthorized,
    /// The guards of the route turn the caller away.
    Forbidden,
    /// The connection is opened.
    Found {
        handler_id: usize,
        path_params: AHashMap<String, String>,
        /// The headers under their names in lower case.
        headers: AHashMap<String, String>,
        cookies: AHashMap<String, String>,
        auth_ctx: Option<AuthContext>,
    },
}

/// Whether a decision about a connection that a test client asks for is
/// right, for the headers under their names in lower case and for what the
/// router finds for the path.
///
/// The origin is checked first. Then the route decides: without one nothing
/// is found; with one the connection is opened, unless the route has
/// metadata and its rate limit or its guards turn the request away.
pub open spec fn test_upgrade_outcome(
    r: TestUpgrade,
    headers: TextPairs,
    state: &AppState,
    found: Option<(usize, TextPairs)>,
) -> bool {
    let origin = carried(headers, "origin"@);
    if !origin_valid(origin, state) {
        r matches TestUpgrade::OriginDenied(o) && Some(o@) == origin
    } else {
        match found {
            None => r is NotFound,
            Some((id, params)) => {
                let meta = state.metadata_of(id);
                match r {
                    TestUpgrade::Found { handler_id, path_params, headers: map, cookies, auth_ctx } => {
                        &&& handler_id == id
                        &&& text_map(path_params) == params
                        &&& text_map(map) == headers
                        &&& text_map(cookies) == crate::core_handler::cookies_of_header(
                            carried(headers, "cookie"@),
                        )
                        &&& meta is None ==> auth_ctx is None
                        &&& meta matches Some(m) ==> exists|ctx: Option<AuthContext>|
                            #![trigger context_model(ctx)]
                            explains(
                                AuthGuardResult::Allow(auth_ctx),
                                ctx,
                                headers,
                                m.auth_backends@,
                                m.guards@,
                            )
                    },
                    TestUpgrade::RateLimited => meta matches Some(m) && m.rate_limit_config is Some,
                    TestUpgrade::Unauthorized => meta matches Some(m) && guards_say(
                        headers,
                        m,
                        GuardResult::Unauthorized,
                    ),
                    TestUpgrade::Forbidden => meta matches Some(m) && guards_say(
                        headers,
                        m,
                        GuardResult::Forbidden,
                    ),
                    _ => false,
                }
            },
        }
    }
}

/// Decides about a connection that a test client asks for, with the checks
/// of a real upgrade: the origin is checked first, then the route is looked
/// up for the path without a slash at its end, then the rate limit of the
/// route is applied for the client address `127.0.0.1`, and then the guards
/// of the route are asked.
pub fn handle_test_websocket(
    router: &WebSocketRouter,
    state: &AppState,
    rate_limits: &RateLimitStore,
    path: &str,
    headers: &Vec<(String, String)>,
) -> (r: TestUpgrade)
    ensures
        test_upgrade_outcome(
            r,
            crate::handler::lowered_map(pairs(headers@)),
            state,
            ws_lookup(router@, normal_path(path@)),
        ),
{
    let map = crate::handler::headers_vec_to_map(headers);
    let origin: Option<&str> = match text_map_get(&map, "origin") {
        Some(v) => Some(v.as_str()),
        None => None,
    };
    if !validate_origin(origin, state) {
        return match origin {
            Some(o) => TestUpgrade::OriginDenied(o.to_owned()),
            None => TestUpgrade::NotFound,
        };
    }
    let normalized = normalize_path(path);
    let (route, path_params) = match router.find(normalized.as_str()) {
        Some(found) => found,
        None => {
            return TestUpgrade::NotFound;
        },
    };
    let handler_id = route.handler_id;
    let mut auth_ctx: Option<AuthContext> = None;
    match state.get_route_metadata(handler_id) {
        Some(m) => {
            match &m.rate_limit_config {
                Some(config) => {
                    if crate::middleware::rate_limit::check_rate_limit(
                        rate_limits,
                        handler_id,
                        &map,
                        Some("127.0.0.1"),
                        config,
                    ).is_some() {
                        return TestUpgrade::RateLimited;
                    }
                },
                None => {},
            }
            let verdict = validate_auth_and_guards(&map, &m.auth_backends, &m.guards);
            proof {
                let ctx = choose|ctx: Option<AuthContext>|
                    #![trigger context_model(ctx)]
                    explains(verdict, ctx, text_map(map), m.auth_backends@, m.guards@);
                assert(context_model(ctx) == context_model(ctx));
                assert(guards_say(text_map(map), *m, verdict_of(verdict)));
            }
            match verdict {
                AuthGuardResult::Allow(ctx) => {
                    auth_ctx = ctx;
                },
                AuthGuardResult::Unauthorized => {
                    return TestUpgrade::Unauthorized;
                },
                AuthGuardResult::Forbidden => {
                    return TestUpgrade::Forbidden;
                },
            }
        },
        None => {},
    }
    let cookies = match text_map_get(&map, "cookie") {
        Some(c) => crate::core_handler::parse_cookies_inline(Some(c.as_str())),
        None => crate::core_handler::parse_cookies_inline(None),
    };
    TestUpgrade::Found { handler_id, path_params, headers: map, cookies, auth_ctx }
}

} // verus!
