//! Mounted ASGI applications: which mount a path belongs to, what the
//! application is told about the request, and how its messages are put
//! together into a response.

use vstd::prelude::*;
use crate::core_handler::{bytes_of, failure_reply, shown_failure};
use crate::cors::opt_str;
use crate::handler::text_reply;
use crate::headers::HeaderSeq;
use crate::maps::utf8;
use crate::request_pipeline::detail_body;
use crate::numbers::{bounded_text, read_unsigned};
use crate::response_builder::{normal_status, HttpReply};
use crate::response_meta::pairs;
use crate::text::{
    chars_of, find_char, first_index, has_prefix, last_index, lemma_first_index,
    lemma_last_index, rfind_char, same_chars, slice_of, starts_with, string_of,
};

verus! {

/// An application that is mounted under a prefix of the paths.
#[derive(Debug)]
pub struct AsgiMount {
    pub prefix: String,
}

/// Whether a path belongs to a mount: every path belongs to the mount at
/// `/`; otherwise the path must be the prefix or begin with the prefix and a
/// slash.
pub open spec fn mount_matches(prefix: Seq<char>, path: Seq<char>) -> bool {
    prefix == seq!['/'] || path == prefix || has_prefix(path, prefix + seq!['/'])
}

/// The path that the mounted application sees: the request path without the
/// prefix of the mount, and `/` where nothing is left. The application at `/`
/// sees the request path.
pub open spec fn subpath(path: Seq<char>, prefix: Seq<char>) -> Seq<char> {
    if prefix == seq!['/'] {
        path
    } else if path == prefix {
        seq!['/']
    } else if has_prefix(path, prefix) {
        if path.skip(prefix.len() as int).len() == 0 {
            seq!['/']
        } else {
            path.skip(prefix.len() as int)
        }
    } else {
        path
    }
}

/// The root path that the mounted application is told: the prefix of the
/// mount, and nothing for the mount at `/`.
pub open spec fn root_path(prefix: Seq<char>) -> Seq<char> {
    if prefix == seq!['/'] {
        Seq::<char>::empty()
    } else {
        prefix
    }
}

/// Decides whether a path belongs to a mount.
pub fn path_in_mount(prefix: &str, path: &str) -> (r: bool)
    ensures
        r == mount_matches(prefix@, path@),
{
    let p = chars_of(prefix);
    let q = chars_of(path);
    let root = chars_of("/");
    proof {
        reveal_strlit("/");
        assert("/"@ =~= seq!['/']);
    }
    if same_chars(p.as_slice(), root.as_slice()) {
        return true;
    }
    if same_chars(p.as_slice(), q.as_slice()) {
        return true;
    }
    let mut with_slash = p;
    with_slash.push('/');
    assert(with_slash@ =~= prefix@ + seq!['/']);
    starts_with(q.as_slice(), with_slash.as_slice())
}

/// Whether `r` is the position of the mount that a path belongs to: of the
/// mounts that the path belongs to, one with the longest prefix, and of
/// those the first; or nothing if the path belongs to no mount.
pub open spec fn mount_choice(mounts: Seq<AsgiMount>, path: Seq<char>, r: Option<usize>) -> bool {
    match r {
        Some(i) => i < mounts.len() && mount_matches(mounts[i as int].prefix@, path) && forall|j: int|
            0 <= j < mounts.len() && mount_matches((#[trigger] mounts[j]).prefix@, path) ==> {
                ||| mounts[j].prefix@.len() < mounts[i as int].prefix@.len()
                ||| (mounts[j].prefix@.len() == mounts[i as int].prefix@.len() && i <= j)
            },
        None => forall|j: int| 0 <= j < mounts.len() ==> !mount_matches((#[trigger] mounts[j]).prefix@, path),
    }
}

/// Finds the mount that a path belongs to.
pub fn find_mount(mounts: &Vec<AsgiMount>, path: &str) -> (r: Option<usize>)
    ensures
        mount_choice(mounts@, path@, r),
{
    let mut best: Option<usize> = None;
    let mut best_len: usize = 0;
    let mut i: usize = 0;
    while i < mounts.len()
        invariant
            i <= mounts.len(),
            match best {
                Some(b) => b < i && best_len == mounts@[b as int].prefix@.len() && mount_matches(
                    mounts@[b as int].prefix@,
                    path@,
                ) && forall|j: int|
                    0 <= j < i && mount_matches((#[trigger] mounts@[j]).prefix@, path@) ==> {
                        ||| mounts@[j].prefix@.len() < mounts@[b as int].prefix@.len()
                        ||| (mounts@[j].prefix@.len() == mounts@[b as int].prefix@.len() && b <= j)
                    },
                None => forall|j: int|
                    0 <= j < i ==> !mount_matches((#[trigger] mounts@[j]).prefix@, path@),
            },
        decreases mounts.len() - i,
    {
        if path_in_mount(mounts[i].prefix.as_str(), path) {
            let len = chars_of(mounts[i].prefix.as_str()).len();
            match best {
                Some(_) => {
                    if len > best_len {
                        best = Some(i);
                        best_len = len;
                    }
                },
                None => {
                    best = Some(i);
                    best_len = len;
                },
            }
        }
        i += 1;
    }
    best
}

/// Computes the path that the mounted application sees.
pub fn mounted_subpath(request_path: &str, mount_prefix: &str) -> (r: String)
    ensures
        r@ == subpath(request_path@, mount_prefix@),
{
    let path = chars_of(request_path);
    let prefix = chars_of(mount_prefix);
    let root = chars_of("/");
    proof {
        reveal_strlit("/");
        assert("/"@ =~= seq!['/']);
    }
    if same_chars(prefix.as_slice(), root.as_slice()) {
        return request_path.to_owned();
    }
    if same_chars(path.as_slice(), prefix.as_slice()) {
        return "/".to_owned();
    }
    if starts_with(path.as_slice(), prefix.as_slice()) {
        let rest = slice_of(path.as_slice(), prefix.len(), path.len());
        assert(rest@ =~= request_path@.skip(mount_prefix@.len() as int));
        if rest.len() == 0 {
            "/".to_owned()
        } else {
            string_of(rest.as_slice())
        }
    } else {
        request_path.to_owned()
    }
}

/// The root path that the mounted application is told.
pub fn mount_root_path(mount_prefix: &str) -> (r: String)
    ensures
        r@ == root_path(mount_prefix@),
{
    let prefix = chars_of(mount_prefix);
    let root = chars_of("/");
    proof {
        reveal_strlit("/");
        assert("/"@ =~= seq!['/']);
    }
    if same_chars(prefix.as_slice(), root.as_slice()) {
        String::new()
    } else {
        mount_prefix.to_owned()
    }
}

/// The port that a text names, if it names one.
pub open spec fn port_text(s: Seq<char>) -> Option<u16> {
    match bounded_text(s, 65535) {
        Some(p) => Some(p as u16),
        None => None,
    }
}

/// The host and the port of a `Host` value. The port is 80 unless the value
/// names one after its last colon; an address in brackets ends at the
/// closing bracket.
pub open spec fn host_port(host: Seq<char>) -> (Seq<char>, u16) {
    let bracket = first_index(host, ']');
    if bracket < host.len() {
        let name = host.take(bracket + 1);
        if host.len() > bracket + 2 && host[bracket + 1] == ':' {
            match port_text(host.skip(bracket + 2)) {
                Some(p) => (name, p),
                None => (name, 80),
            }
        } else {
            (name, 80)
        }
    } else {
        let colon = last_index(host, ':');
        if colon >= 0 {
            match port_text(host.skip(colon + 1)) {
                Some(p) => (host.take(colon), p),
                None => (host, 80),
            }
        } else {
            (host, 80)
        }
    }
}

/// Reads a port.
fn read_port(s: &[char]) -> (r: Option<u16>)
    ensures
        r == port_text(s@),
{
    match read_unsigned(s, 65535) {
        Some(p) => Some(p as u16),
        None => None,
    }
}

/// Splits a `Host` value into host and port.
pub fn parse_host_port(host: &str) -> (r: (String, u16))
    ensures
        (r.0@, r.1) == host_port(host@),
{
    let chars = chars_of(host);
    proof {
        lemma_first_index(host@, ']');
        lemma_last_index(host@, ':');
    }
    match find_char(chars.as_slice(), ']') {
        Some(bracket) => {
            let name = slice_of(chars.as_slice(), 0, bracket + 1);
            assert(name@ =~= host@.take(bracket + 1));
            if chars.len() - bracket > 2 && chars[bracket + 1] == ':' {
                let rest = slice_of(chars.as_slice(), bracket + 2, chars.len());
                assert(rest@ =~= host@.skip(bracket + 2));
                match read_port(rest.as_slice()) {
                    Some(p) => {
                        return (string_of(name.as_slice()), p);
                    },
                    None => {},
                }
            }
            (string_of(name.as_slice()), 80)
        },
        None => {
            match rfind_char(chars.as_slice(), ':') {
                Some(colon) => {
                    let rest = slice_of(chars.as_slice(), colon + 1, chars.len());
                    assert(rest@ =~= host@.skip(colon + 1));
                    match read_port(rest.as_slice()) {
                        Some(p) => {
                            let name = slice_of(chars.as_slice(), 0, colon);
                            assert(name@ =~= host@.take(colon as int));
                            return (string_of(name.as_slice()), p);
                        },
                        None => {},
                    }
                },
                None => {},
            }
            (host.to_owned(), 80)
        },
    }
}

/// The versions of HTTP.
#[derive(Debug, Clone, Copy, PartialEq, Eq, Structural)]
pub enum HttpVersion {
    Http09,
    Http10,
    Http11,
    Http2,
    Http3,
    /// A version that is not known.
    Unknown,
}

/// How a version is written for the application.
pub open spec fn version_text(v: HttpVersion) -> Seq<char> {
    match v {
        HttpVersion::Http09 => "0.9"@,
        HttpVersion::Http10 => "1"@,
        HttpVersion::Http11 => "1.1"@,
        HttpVersion::Http2 => "2"@,
        HttpVersion::Http3 => "3"@,
        HttpVersion::Unknown => "1.1"@,
    }
}

/// Writes a version for the application.
pub fn http_version(v: HttpVersion) -> (r: &'static str)
    ensures
        r@ == version_text(v),
{
    match v {
        HttpVersion::Http09 => "0.9",
        HttpVersion::Http10 => "1",
        HttpVersion::Http11 => "1.1",
        HttpVersion::Http2 => "2",
        HttpVersion::Http3 => "3",
        HttpVersion::Unknown => "1.1",
    }
}

/// What a mounted application is told about a request.
#[derive(Debug)]
pub struct AsgiScope {
    pub http_version: String,
    pub method: String,
    pub scheme: String,
    pub path: String,
    pub raw_path: Vec<u8>,
    pub query_string: Vec<u8>,
    pub root_path: String,
    /// The headers as (name, value) pairs of bytes; `host` is added if the
    /// request did not carry it.
    pub headers: Vec<(Vec<u8>, Vec<u8>)>,
    pub server: (String, u16),
    pub client: (String, u16),
}

/// What is known of a request that goes to a mounted application.
pub struct AsgiRequest<'a> {
    pub version: HttpVersion,
    pub method: &'a str,
    pub scheme: &'a str,
    pub path: &'a str,
    pub query_string: &'a str,
    /// The headers as they arrived.
    pub headers: &'a Vec<(String, Vec<u8>)>,
    /// The host that the connection names.
    pub host: &'a str,
    /// The address of the client, if it is known.
    pub client: Option<&'a str>,
}

/// The model of a list of headers in bytes.
pub open spec fn byte_pairs(h: Seq<(Vec<u8>, Vec<u8>)>) -> Seq<(Seq<u8>, Seq<u8>)> {
    Seq::new(h.len(), |i: int| (h[i].0@, h[i].1@))
}

/// The headers of a request as the application is told them.
pub open spec fn scope_headers(h: Seq<(String, Vec<u8>)>) -> Seq<(Seq<u8>, Seq<u8>)> {
    Seq::new(h.len(), |i: int| (utf8(h[i].0@), h[i].1@))
}

/// Whether one of the headers is `host`.
pub open spec fn names_host(h: Seq<(String, Vec<u8>)>) -> bool {
    exists|i: int| 0 <= i < h.len() && crate::text::eq_ignore_case((#[trigger] h[i]).0@, "host"@)
}

/// Builds what a mounted application is told about a request.
pub fn build_scope(req: &AsgiRequest<'_>, mount: &AsgiMount) -> (scope: AsgiScope)
    ensures
        scope.http_version@ == version_text(req.version),
        scope.method@ == req.method@,
        scope.scheme@ == req.scheme@,
        scope.path@ == subpath(req.path@, mount.prefix@),
        scope.raw_path@ == utf8(subpath(req.path@, mount.prefix@)),
        scope.query_string@ == utf8(req.query_string@),
        scope.root_path@ == root_path(mount.prefix@),
        byte_pairs(scope.headers@) == (if names_host(req.headers@) {
            scope_headers(req.headers@)
        } else {
            scope_headers(req.headers@).push((utf8("host"@), utf8(req.host@)))
        }),
        (scope.server.0@, scope.server.1) == host_port(req.host@),
        scope.client.1 == 0,
        scope.client.0@ == (match req.client {
            Some(c) => c@,
            None => "127.0.0.1"@,
        }),
{
    let path = mounted_subpath(req.path, mount.prefix.as_str());
    let raw_path = bytes_of(path.as_str());
    let mut headers: Vec<(Vec<u8>, Vec<u8>)> = Vec::new();
    let mut has_host = false;
    let host_name = chars_of("host");
    let mut i: usize = 0;
    while i < req.headers.len()
        invariant
            i <= req.headers.len(),
            host_name@ == "host"@,
            headers@.len() == i,
            forall|j: int|
                0 <= j < i ==> (#[trigger] headers@[j]).0@ == utf8(req.headers@[j].0@)
                    && headers@[j].1@ == req.headers@[j].1@,
            has_host == exists|j: int|
                0 <= j < i && crate::text::eq_ignore_case((#[trigger] req.headers@[j]).0@, "host"@),
        decreases req.headers.len() - i,
    {
        let name = &req.headers[i].0;
        let chars = chars_of(name.as_str());
        if crate::text::same_ignoring_case(chars.as_slice(), host_name.as_slice()) {
            has_host = true;
        }
        headers.push((bytes_of(name.as_str()), req.headers[i].1.clone()));
        i += 1;
    }
    assert(byte_pairs(headers@) =~= scope_headers(req.headers@));
    if !has_host {
        let ghost before = byte_pairs(headers@);
        headers.push((bytes_of("host"), bytes_of(req.host)));
        assert(byte_pairs(headers@) =~= before.push((utf8("host"@), utf8(req.host@))));
    }
    AsgiScope {
        http_version: http_version(req.version).to_owned(),
        method: req.method.to_owned(),
        scheme: req.scheme.to_owned(),
        path,
        raw_path,
        query_string: bytes_of(req.query_string),
        root_path: mount_root_path(mount.prefix.as_str()),
        headers,
        server: parse_host_port(req.host),
        client: (
            match req.client {
                Some(c) => c.to_owned(),
                None => "127.0.0.1".to_owned(),
            },
            0,
        ),
    }
}

/// The start of a response: its status and its headers.
#[derive(Debug)]
pub struct AsgiResponseStart {
    pub status: u16,
    pub headers: Vec<(Vec<u8>, Vec<u8>)>,
}

/// A message that a mounted application sends.
#[derive(Debug)]
pub enum AsgiMessage {
    /// `http.response.start`
    Start { status: u16, headers: Vec<(Vec<u8>, Vec<u8>)> },
    /// `http.response.body`
    Body { body: Vec<u8>, more_body: bool },
    /// A message of any other type.
    Other(String),
}

/// Why a message of a mounted application is refused.
#[derive(Debug)]
pub enum AsgiError {
    /// The response was started before.
    StartTwice,
    /// A body arrived before the response was started.
    BodyBeforeStart,
    /// A body arrived after the last body.
    BodyAfterEnd,
    /// The type of the message is not supported.
    Unsupported(String),
}

/// What the messages of a mounted application have added up to.
pub struct AsgiSendState {
    response_start: Option<AsgiResponseStart>,
    body_open: bool,
}

/// The model of `AsgiSendState`.
pub struct SendModel {
    /// The start of the response, once it has arrived.
    pub start: Option<(u16, Seq<(Seq<u8>, Seq<u8>)>)>,
    /// Whether further bodies may arrive.
    pub body_open: bool,
}

/// The model of `AsgiMessage`.
pub enum AsgiMessageModel {
    Start { status: u16, headers: Seq<(Seq<u8>, Seq<u8>)> },
    Body { body: Seq<u8>, more_body: bool },
    Other(Seq<char>),
}

/// The model of `AsgiError`.
pub enum AsgiErrorModel {
    StartTwice,
    BodyBeforeStart,
    BodyAfterEnd,
    Unsupported(Seq<char>),
}

impl View for AsgiMessage {
    type V = AsgiMessageModel;

    open spec fn view(&self) -> AsgiMessageModel {
        match *self {
            AsgiMessage::Start { status, headers } => AsgiMessageModel::Start {
                status,
                headers: byte_pairs(headers@),
            },
            AsgiMessage::Body { body, more_body } => AsgiMessageModel::Body {
                body: body@,
                more_body,
            },
            AsgiMessage::Other(t) => AsgiMessageModel::Other(t@),
        }
    }
}

impl View for AsgiError {
    type V = AsgiErrorModel;

    open spec fn view(&self) -> AsgiErrorModel {
        match *self {
            AsgiError::StartTwice => AsgiErrorModel::StartTwice,
            AsgiError::BodyBeforeStart => AsgiErrorModel::BodyBeforeStart,
            AsgiError::BodyAfterEnd => AsgiErrorModel::BodyAfterEnd,
            AsgiError::Unsupported(t) => AsgiErrorModel::Unsupported(t@),
        }
    }
}

impl View for AsgiSendState {
    type V = SendModel;

    closed spec fn view(&self) -> SendModel {
        SendModel {
            start: match self.response_start {
                Some(s) => Some((s.status, byte_pairs(s.headers@))),
                None => None,
            },
            body_open: self.body_open,
        }
    }
}

/// The outcome of a message: the state afterwards and the bytes to pass on
/// to the client, if any; or the reason why the message is refused.
pub type SendStep = Result<(SendModel, Option<Seq<u8>>), AsgiErrorModel>;

/// What a message of a mounted application does.
///
/// The response starts exactly once. A body may only follow the start; its
/// bytes are passed on unless it is empty, and a body that is not followed by
/// more ends the response. After the end, only an empty last body is let
/// through.
pub open spec fn on_send(s: SendModel, m: AsgiMessageModel) -> SendStep {
    match m {
        AsgiMessageModel::Start { status, headers } => if s.start is Some {
            Err(AsgiErrorModel::StartTwice)
        } else {
            Ok((SendModel { start: Some((status, headers)), body_open: s.body_open }, None))
        },
        AsgiMessageModel::Body { body, more_body } => if s.start is None {
            Err(AsgiErrorModel::BodyBeforeStart)
        } else if s.body_open {
            Ok(
                (
                    SendModel { start: s.start, body_open: more_body },
                    if body.len() > 0 {
                        Some(body)
                    } else {
                        None
                    },
                ),
            )
        } else if more_body || body.len() > 0 {
            Err(AsgiErrorModel::BodyAfterEnd)
        } else {
            Ok((s, None))
        },
        AsgiMessageModel::Other(t) => Err(AsgiErrorModel::Unsupported(t)),
    }
}

/// The model of the outcome of a message.
pub open spec fn step_view(state: AsgiSendState, r: Result<Option<Vec<u8>>, AsgiError>) -> SendStep {
    match r {
        Ok(chunk) => Ok(
            (
                state@,
                match chunk {
                    Some(b) => Some(b@),
                    None => None,
                },
            ),
        ),
        Err(e) => Err(e@),
    }
}

impl AsgiSendState {
    /// The state before any message: no start yet, bodies may arrive.
    pub fn new() -> (s: Self)
        ensures
            s@ == (SendModel { start: None, body_open: true }),
    {
        AsgiSendState { response_start: None, body_open: true }
    }

    /// Whether the response was started.
    pub fn started(&self) -> (r: bool)
        ensures
            r == self@.start is Some,
    {
        self.response_start.is_some()
    }

    /// Takes a message of the application. Hands back the bytes to pass on to
    /// the client, if any. A message that is refused leaves the state as it
    /// is.
    pub fn send(&mut self, message: AsgiMessage) -> (r: Result<Option<Vec<u8>>, AsgiError>)
        ensures
            step_view(*final(self), r) == on_send(old(self)@, message@),
            r is Err ==> final(self)@ == old(self)@,
    {
        match message {
            AsgiMessage::Start { status, headers } => {
                if self.response_start.is_some() {
                    return Err(AsgiError::StartTwice);
                }
                self.response_start = Some(AsgiResponseStart { status, headers });
                Ok(None)
            },
            AsgiMessage::Body { body, more_body } => {
                if self.response_start.is_none() {
                    return Err(AsgiError::BodyBeforeStart);
                }
                if self.body_open {
                    self.body_open = more_body;
                    if body.len() > 0 {
                        Ok(Some(body))
                    } else {
                        Ok(None)
                    }
                } else if more_body || body.len() > 0 {
                    Err(AsgiError::BodyAfterEnd)
                } else {
                    Ok(None)
                }
            },
            AsgiMessage::Other(t) => Err(AsgiError::Unsupported(t)),
        }
    }

    /// Ends the response: no further body is passed on.
    pub fn close(&mut self)
        ensures
            final(self)@ == (SendModel { start: old(self)@.start, body_open: false }),
    {
        self.body_open = false;
    }

    /// Takes the start of the response out of the state.
    pub fn take_start(&mut self) -> (r: Option<AsgiResponseStart>)
        ensures
            final(self)@ == (SendModel { start: None, body_open: old(self)@.body_open }),
            (match r {
                Some(s) => Some((s.status, byte_pairs(s.headers@))),
                None => None,
            }) == old(self)@.start,
    {
        self.response_start.take()
    }
}

/// What the application receives when it asks for the request.
#[derive(Debug)]
pub enum AsgiEvent {
    /// `http.request` with the whole body.
    Request { body: Vec<u8>, more_body: bool },
    /// `http.disconnect`
    Disconnect,
}

/// What the application is given when it asks for the request: the body the
/// first time, and the word that the client is gone every time after.
pub struct AsgiReceive {
    body: Option<Vec<u8>>,
}

impl AsgiReceive {
    /// A request with the given body, not yet handed out.
    pub fn new(body: Vec<u8>) -> (r: Self)
        ensures
            r.pending() == Some(body@),
    {
        AsgiReceive { body: Some(body) }
    }

    /// The body that is still to be handed out.
    pub closed spec fn pending(&self) -> Option<Seq<u8>> {
        match self.body {
            Some(b) => Some(b@),
            None => None,
        }
    }

    /// Hands out the next event.
    pub fn call(&mut self) -> (e: AsgiEvent)
        ensures
            final(self).pending() is None,
            match old(self).pending() {
                Some(b) => e matches AsgiEvent::Request { body, more_body } && body@ == b
                    && !more_body,
                None => e is Disconnect,
            },
    {
        match self.body.take() {
            Some(body) => AsgiEvent::Request { body, more_body: false },
            None => AsgiEvent::Disconnect,
        }
    }
}

/// A byte that may stand in the name of a header.
pub open spec fn name_byte(b: u8) -> bool {
    (0x61 <= b <= 0x7a) || (0x41 <= b <= 0x5a) || (0x30 <= b <= 0x39) || b == 0x21 || b == 0x22
        || b == 0x23 || b == 0x24 || b == 0x25 || b == 0x26 || b == 0x27 || b == 0x2a || b == 0x2b
        || b == 0x2d || b == 0x2e || b == 0x5e || b == 0x5f || b == 0x60 || b == 0x7c || b == 0x7e
}

/// A header of bytes that can be sent: a name of name bytes, and a value
/// without control bytes other than the tab.
pub open spec fn sendable_bytes(name: Seq<u8>, value: Seq<u8>) -> bool {
    0 < name.len() < 65536 && (forall|i: int| 0 <= i < name.len() ==> name_byte(#[trigger] name[i]))
        && (forall|i: int|
        0 <= i < value.len() ==> (#[trigger] value[i] == 9 || (value[i] >= 32 && value[i] != 127)))
}

/// The headers of bytes that can be sent, in their order.
pub open spec fn kept_headers(h: Seq<(Seq<u8>, Seq<u8>)>) -> Seq<(Seq<u8>, Seq<u8>)>
    decreases h.len(),
{
    if h.len() == 0 {
        h
    } else if sendable_bytes(h.last().0, h.last().1) {
        kept_headers(h.drop_last()).push(h.last())
    } else {
        kept_headers(h.drop_last())
    }
}

/// Decides whether a header of bytes can be sent.
fn is_sendable(name: &Vec<u8>, value: &Vec<u8>) -> (r: bool)
    ensures
        r == sendable_bytes(name@, value@),
{
    if name.len() == 0 || name.len() >= 65536 {
        return false;
    }
    let mut i: usize = 0;
    while i < name.len()
        invariant
            i <= name.len(),
            forall|j: int| 0 <= j < i ==> name_byte(#[trigger] name@[j]),
        decreases name.len() - i,
    {
        let b = name[i];
        let ok = (0x61 <= b && b <= 0x7a) || (0x41 <= b && b <= 0x5a) || (0x30 <= b && b <= 0x39)
            || b == 0x21 || b == 0x22 || b == 0x23 || b == 0x24 || b == 0x25 || b == 0x26 || b
            == 0x27 || b == 0x2a || b == 0x2b || b == 0x2d || b == 0x2e || b == 0x5e || b == 0x5f
            || b == 0x60 || b == 0x7c || b == 0x7e;
        if !ok {
            assert(!name_byte(name@[i as int]));
            return false;
        }
        i += 1;
    }
    let mut k: usize = 0;
    while k < value.len()
        invariant
            k <= value.len(),
            forall|j: int|
                0 <= j < k ==> (#[trigger] value@[j] == 9 || (value@[j] >= 32 && value@[j] != 127)),
        decreases value.len() - k,
    {
        let b = value[k];
        if !(b == 9 || (b >= 32 && b != 127)) {
            assert(!(value@[k as int] == 9 || (value@[k as int] >= 32 && value@[k as int] != 127)));
            return false;
        }
        k += 1;
    }
    true
}

/// The response of a mounted application, as far as it is known when the
/// application has returned.
#[derive(Debug)]
pub enum AsgiOutcome {
    /// The response was started: its status and headers. The body follows
    /// from the channel unless the request is `HEAD`.
    Started { status: u16, headers: Vec<(Vec<u8>, Vec<u8>)>, send_body: bool },
    /// The application failed before it started the response: the answer.
    Failed(HttpReply),
    /// The application returned without starting the response: the answer.
    Missing(HttpReply),
}

/// What is answered for a mounted application that did not start its
/// response: 500, for a failure with what may be shown of its message, else
/// with the note that the start is missing.
pub open spec fn unstarted_answer(failure: Option<Seq<char>>, debug: bool) -> (u16, HeaderSeq, Seq<u8>) {
    match failure {
        Some(message) => (
            500u16,
            seq![("content-type"@, "application/json"@)],
            utf8(detail_body(shown_failure(message, debug))),
        ),
        None => (
            500u16,
            seq![("content-type"@, "text/plain; charset=utf-8"@)],
            utf8("ASGI app did not send http.response.start"@),
        ),
    }
}

/// Says what is answered when a mounted application has returned, with the
/// message of its failure if it failed.
///
/// An application that failed before it started the response is answered for
/// as a handler that failed; one that failed later has its response sent as
/// far as it got. An application that returned without a start is answered
/// for with 500. Otherwise the status and the headers that can be sent are
/// those of the start, and the body is sent unless the request is `HEAD`.
pub fn handle_asgi_mount_request(
    start: Option<AsgiResponseStart>,
    failure: Option<&str>,
    debug: bool,
    is_head: bool,
) -> (r: AsgiOutcome)
    ensures
        match start {
            None => (match r {
                AsgiOutcome::Failed(reply) => failure is Some && (
                    reply.status,
                    pairs(reply.headers@),
                    reply.body@,
                ) == unstarted_answer(opt_str(failure), debug),
                AsgiOutcome::Missing(reply) => failure is None && (
                    reply.status,
                    pairs(reply.headers@),
                    reply.body@,
                ) == unstarted_answer(None, debug),
                _ => false,
            }),
            Some(s) => r matches AsgiOutcome::Started { status, headers, send_body } && status
                == normal_status(s.status) && byte_pairs(headers@) == kept_headers(
                byte_pairs(s.headers@),
            ) && send_body == !is_head,
        },
{
    let start = match start {
        Some(s) => s,
        None => {
            return match failure {
                Some(message) => AsgiOutcome::Failed(failure_reply(message, debug)),
                None => AsgiOutcome::Missing(
                    text_reply(500, "ASGI app did not send http.response.start"),
                ),
            };
        },
    };
    let ghost all = byte_pairs(start.headers@);
    let mut headers: Vec<(Vec<u8>, Vec<u8>)> = Vec::new();
    let mut i: usize = 0;
    assert(all.take(0) =~= Seq::<(Seq<u8>, Seq<u8>)>::empty());
    assert(byte_pairs(headers@) =~= Seq::<(Seq<u8>, Seq<u8>)>::empty());
    while i < start.headers.len()
        invariant
            i <= start.headers.len(),
            all == byte_pairs(start.headers@),
            byte_pairs(headers@) == kept_headers(all.take(i as int)),
        decreases start.headers.len() - i,
    {
        proof {
            assert(all.take(i + 1).drop_last() =~= all.take(i as int));
            assert(all.take(i + 1).last() == (start.headers@[i as int].0@, start.headers@[i as int].1@));
        }
        if is_sendable(&start.headers[i].0, &start.headers[i].1) {
            let ghost before = byte_pairs(headers@);
            headers.push((start.headers[i].0.clone(), start.headers[i].1.clone()));
            assert(byte_pairs(headers@) =~= before.push(all[i as int]));
        }
        i += 1;
    }
    assert(all.take(start.headers.len() as int) =~= all);
    AsgiOutcome::Started {
        status: crate::core_handler::normalize_status(start.status),
        headers,
        send_body: !is_head,
    }
}

/// Whether a request may carry a body that has to be read before the
/// application is called: it names a length or a transfer encoding.
pub fn has_request_body(has_content_length: bool, has_transfer_encoding: bool) -> (r: bool)
    ensures
        r == (has_content_length || has_transfer_encoding),
{
    has_content_length || has_transfer_encoding
}

} // verus!
