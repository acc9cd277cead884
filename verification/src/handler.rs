//! The handling of one request, as far as it is decided here: what is done
//! with a request up to the call of its handler, the header budget, the
//! delivery of file responses, and the answers for a handler that does not
//! answer.

use vstd::prelude::*;
use ahash::AHashMap;
use crate::asgi_http::{find_mount, mount_choice, AsgiMount};
use crate::core_handler::{
    build_py_request, bytes_of, cookies_of_header, effective_policy, explains,
    get_effective_cors_config, metadata_for, needs_cookies, needs_headers, opt_policy, over_limit,
    process_request_pre_dispatch, query_for, turned_away, unrouted, AuthGuardResult,
    CoreHandlerResult, PreDispatchResult, RequestDependencies, RequestInput, ResponseFlags,
    ResultModel,
};
use crate::cors::{
    apply_cors_headers, apply_cors_preflight, cors_headers, preflight_headers, CorsConfig,
    CorsPolicy,
};
use crate::headers::HeaderSeq;
use crate::maps::{
    text_map, text_map_get, text_map_insert, text_map_new, type_map, utf8, value_map,
    value_map_new, TextPairs, ValuePairs,
};
use crate::metadata::RouteMetadata;
use crate::middleware::auth::{carried, context_model, AuthContext};
use crate::numbers::{decimal, decimal_of};
use crate::request::PyRequest;
use crate::request_pipeline::{
    all_valid, invalid_answer, typed_values, validate_and_cache_typed_params,
};
use crate::type_coercion::CoercedValue;
use crate::response_builder::{
    build_response_with_headers, lowercase_string, sendable_headers, with_identity, HttpReply,
};
use crate::response_meta::{opt_text, pairs};
use crate::text::{ascii_lower, chars_of, extend_chars, string_of};

verus! {

/// The greatest number of headers that a request may carry.
pub const MAX_HEADERS: usize = 100;

/// Files below this size are read into memory; larger files are streamed.
pub const FILE_BUFFER_LIMIT: u64 = 10485760;

/// The size of the pieces in which a large file is streamed.
pub const FILE_CHUNK_SIZE: u64 = 65536;

/// The seconds that a handler that runs on the worker queue is given.
pub const HANDLER_TIMEOUT_SECS: u64 = 30;

/// A header as it was received: its name, and its value if the value is
/// text.
pub type RawHeaders = Seq<(Seq<char>, Option<Seq<char>>)>;

/// The model of a list of received headers.
pub open spec fn raw_view(raw: Seq<(String, Option<String>)>) -> RawHeaders {
    Seq::new(raw.len(), |i: int| (raw[i].0@, opt_text(raw[i].1)))
}

/// What is wrong with the headers of a request, if anything.
#[derive(Debug, Clone, Copy, PartialEq, Eq, Structural)]
pub enum BudgetError {
    TooManyHeaders,
    ValueTooLarge,
}

/// The first thing that is wrong with the headers, going through them in
/// order: a header beyond the hundredth, or a value of more bytes than
/// allowed.
pub open spec fn budget_error(raw: RawHeaders, max_size: usize) -> Option<BudgetError>
    decreases raw.len(),
{
    if raw.len() == 0 {
        None
    } else {
        match budget_error(raw.drop_last(), max_size) {
            Some(e) => Some(e),
            None => if raw.len() > MAX_HEADERS {
                Some(BudgetError::TooManyHeaders)
            } else {
                match raw.last().1 {
                    Some(v) if utf8(v).len() > max_size => Some(BudgetError::ValueTooLarge),
                    _ => None,
                }
            },
        }
    }
}

/// The map of the headers whose values are text, under their names in lower
/// case. Of several headers with one name the last counts.
pub open spec fn header_map(raw: RawHeaders) -> TextPairs
    decreases raw.len(),
{
    if raw.len() == 0 {
        TextPairs::empty()
    } else {
        match raw.last().1 {
            Some(v) => header_map(raw.drop_last()).insert(ascii_lower(raw.last().0), v),
            None => header_map(raw.drop_last()),
        }
    }
}

/// The text of the answer to a request whose headers are over the budget.
pub open spec fn budget_text(e: BudgetError, max_size: usize) -> Seq<char> {
    match e {
        BudgetError::TooManyHeaders => "Too many headers"@,
        BudgetError::ValueTooLarge => "Header value too large (max "@ + decimal(max_size as nat)
            + " bytes)"@,
    }
}

/// A plain-text answer.
pub fn text_reply(status: u16, text: &str) -> (r: HttpReply)
    ensures
        r.status == status,
        pairs(r.headers@) == seq![("content-type"@, "text/plain; charset=utf-8"@)],
        r.body@ == utf8(text@),
{
    let mut headers: Vec<(String, String)> = Vec::new();
    headers.push(("content-type".to_owned(), "text/plain; charset=utf-8".to_owned()));
    assert(pairs(headers@) =~= seq![("content-type"@, "text/plain; charset=utf-8"@)]);
    HttpReply { status, headers, body: bytes_of(text) }
}

/// Gathers the headers of a request whose values are text into a map, under
/// their names in lower case.
pub fn gather_headers(raw: &Vec<(String, Option<String>)>) -> (map: AHashMap<String, String>)
    ensures
        text_map(map) == header_map(raw_view(raw@)),
{
    let ghost all = raw_view(raw@);
    let mut map = text_map_new();
    let mut i: usize = 0;
    assert(all.take(0) =~= RawHeaders::empty());
    while i < raw.len()
        invariant
            i <= raw.len(),
            all == raw_view(raw@),
            text_map(map) == header_map(all.take(i as int)),
        decreases raw.len() - i,
    {
        proof {
            assert(all.take(i + 1).drop_last() =~= all.take(i as int));
            assert(all.take(i + 1).last() == all[i as int]);
        }
        match &raw[i].1 {
            Some(v) => {
                text_map_insert(&mut map, lowercase_string(raw[i].0.as_str()), v.clone());
            },
            None => {},
        }
        i += 1;
    }
    assert(all.take(raw.len() as int) =~= all);
    map
}

/// The answer to a request whose headers are over the budget: 400.
pub open spec fn budget_answer(raw: RawHeaders, max_size: usize) -> Option<(u16, HeaderSeq, Seq<u8>)> {
    match budget_error(raw, max_size) {
        Some(e) => Some(
            (
                400u16,
                seq![("content-type"@, "text/plain; charset=utf-8"@)],
                utf8(budget_text(e, max_size)),
            ),
        ),
        None => None,
    }
}

/// Holds the headers of a request to the budget. A request over the budget
/// is answered with 400.
pub fn check_header_budget(raw: &Vec<(String, Option<String>)>, max_header_size: usize) -> (r:
    Option<HttpReply>)
    ensures
        crate::middleware::reply_view(r) == budget_answer(raw_view(raw@), max_header_size),
{
    let ghost all = raw_view(raw@);
    let mut i: usize = 0;
    assert(all.take(0) =~= RawHeaders::empty());
    while i < raw.len()
        invariant
            i <= raw.len(),
            all == raw_view(raw@),
            budget_error(all.take(i as int), max_header_size) is None,
        decreases raw.len() - i,
    {
        proof {
            assert(all.take(i + 1).drop_last() =~= all.take(i as int));
            assert(all.take(i + 1).last() == all[i as int]);
        }
        if i + 1 > MAX_HEADERS {
            proof {
                lemma_budget_error_stays(all, i + 1, max_header_size);
            }
            return Some(text_reply(400, "Too many headers"));
        }
        match &raw[i].1 {
            Some(v) => {
                if v.as_str().as_bytes().len() > max_header_size {
                    proof {
                        lemma_budget_error_stays(all, i + 1, max_header_size);
                    }
                    let mut text = chars_of("Header value too large (max ");
                    let digits = decimal_of(max_header_size as u64);
                    extend_chars(&mut text, digits.as_slice());
                    let end = chars_of(" bytes)");
                    extend_chars(&mut text, end.as_slice());
                    let message = string_of(text.as_slice());
                    return Some(text_reply(400, message.as_str()));
                }
            },
            None => {},
        }
        i += 1;
    }
    assert(all.take(raw.len() as int) =~= all);
    None
}

/// Gathers the headers of a request into a map and holds them to the
/// budget. A request over the budget is answered with 400.
pub fn collect_headers(raw: &Vec<(String, Option<String>)>, max_header_size: usize) -> (r: Result<
    AHashMap<String, String>,
    HttpReply,
>)
    ensures
        match r {
            Ok(map) => budget_error(raw_view(raw@), max_header_size) is None && text_map(map)
                == header_map(raw_view(raw@)),
            Err(reply) => budget_answer(raw_view(raw@), max_header_size) == Some(
                (reply.status, pairs(reply.headers@), reply.body@),
            ),
        },
{
    match check_header_budget(raw, max_header_size) {
        Some(reply) => Err(reply),
        None => Ok(gather_headers(raw)),
    }
}

/// What is wrong with the first `k` headers is wrong with all of them.
proof fn lemma_budget_error_stays(raw: RawHeaders, k: int, max_size: usize)
    requires
        0 <= k <= raw.len(),
        budget_error(raw.take(k), max_size) is Some,
    ensures
        budget_error(raw, max_size) == budget_error(raw.take(k), max_size),
    decreases raw.len() - k,
{
    if k < raw.len() {
        assert(raw.take(k + 1).drop_last() =~= raw.take(k));
        lemma_budget_error_stays(raw, k + 1, max_size);
    } else {
        assert(raw.take(k) =~= raw);
    }
}

/// The map of a list of headers, under their names in lower case.
pub open spec fn lowered_map(h: HeaderSeq) -> TextPairs
    decreases h.len(),
{
    if h.len() == 0 {
        TextPairs::empty()
    } else {
        lowered_map(h.drop_last()).insert(ascii_lower(h.last().0), h.last().1)
    }
}

/// Gathers a list of headers into a map, under their names in lower case.
pub fn headers_vec_to_map(headers: &Vec<(String, String)>) -> (map: AHashMap<String, String>)
    ensures
        text_map(map) == lowered_map(pairs(headers@)),
{
    let ghost all = pairs(headers@);
    let mut map = text_map_new();
    let mut i: usize = 0;
    assert(all.take(0) =~= HeaderSeq::empty());
    while i < headers.len()
        invariant
            i <= headers.len(),
            all == pairs(headers@),
            text_map(map) == lowered_map(all.take(i as int)),
        decreases headers.len() - i,
    {
        proof {
            assert(all.take(i + 1).drop_last() =~= all.take(i as int));
            assert(all.take(i + 1).last() == all[i as int]);
        }
        text_map_insert(&mut map, lowercase_string(headers[i].0.as_str()), headers[i].1.clone());
        i += 1;
    }
    assert(all.take(headers.len() as int) =~= all);
    map
}

/// How the body of a file response is delivered.
#[derive(Debug, Clone, Copy, PartialEq, Eq, Structural)]
pub enum FileDelivery {
    /// The file is read into memory and sent as one body.
    Buffered,
    /// The file is sent in pieces of `FILE_CHUNK_SIZE` bytes.
    Chunked,
    /// Nothing is read: the request is `HEAD` and the file is large.
    Omitted,
}

/// How a file of a given size is delivered.
pub open spec fn delivery_of(size: u64, is_head: bool) -> FileDelivery {
    if size < FILE_BUFFER_LIMIT {
        FileDelivery::Buffered
    } else if is_head {
        FileDelivery::Omitted
    } else {
        FileDelivery::Chunked
    }
}

/// Decides how a file of a given size is delivered.
pub fn plan_file_delivery(size: u64, is_head: bool) -> (d: FileDelivery)
    ensures
        d == delivery_of(size, is_head),
{
    if size < FILE_BUFFER_LIMIT {
        FileDelivery::Buffered
    } else if is_head {
        FileDelivery::Omitted
    } else {
        FileDelivery::Chunked
    }
}

/// The length of the next piece of a file of which `remaining` bytes are
/// left.
pub fn next_chunk_len(remaining: u64) -> (n: u64)
    ensures
        n == (if remaining < FILE_CHUNK_SIZE {
            remaining
        } else {
            FILE_CHUNK_SIZE
        }),
{
    if remaining < FILE_CHUNK_SIZE {
        remaining
    } else {
        FILE_CHUNK_SIZE
    }
}

/// The headers of a file response: the handler's headers that can be sent,
/// the compression switched off where asked, and the length of the file.
pub open spec fn file_headers(h: HeaderSeq, skip_compression: bool, size: u64) -> HeaderSeq {
    with_identity(sendable_headers(h), skip_compression).push(
        ("content-length"@, decimal(size as nat)),
    )
}

/// Builds the response for a file. The headers are the same for `GET` and
/// for `HEAD`; for `HEAD` there is no body.
pub fn build_file_response(
    status: u16,
    headers: Vec<(String, String)>,
    skip_compression: bool,
    is_head_request: bool,
    size: u64,
    contents: Vec<u8>,
) -> (r: HttpReply)
    ensures
        r.status == status,
        pairs(r.headers@) == file_headers(pairs(headers@), skip_compression, size),
        r.body@ == (if is_head_request {
            Seq::<u8>::empty()
        } else {
            contents@
        }),
{
    let body = if is_head_request {
        Vec::new()
    } else {
        contents
    };
    let mut reply = build_response_with_headers(status, headers, skip_compression, body);
    let digits = decimal_of(size);
    let ghost before = pairs(reply.headers@);
    reply.headers.push(("content-length".to_owned(), string_of(digits.as_slice())));
    assert(pairs(reply.headers@) =~= before.push(("content-length"@, decimal(size as nat))));
    reply
}

/// Why a file could not be opened.
#[derive(Debug)]
pub enum FileFailure {
    NotFound,
    PermissionDenied,
    /// Any other failure, with its description.
    Other(String),
}

/// The status and text of the answer for a file that could not be opened.
pub open spec fn file_failure_answer(f: FileFailure) -> (u16, Seq<char>) {
    match f {
        FileFailure::NotFound => (404, "File not found"@),
        FileFailure::PermissionDenied => (403, "Permission denied"@),
        FileFailure::Other(why) => (500, "File error: "@ + why@),
    }
}

/// The answer for a file that could not be opened.
pub fn file_error_response(failure: &FileFailure) -> (r: HttpReply)
    ensures
        r.status == file_failure_answer(*failure).0,
        r.body@ == utf8(file_failure_answer(*failure).1),
        pairs(r.headers@) == seq![("content-type"@, "text/plain; charset=utf-8"@)],
{
    match failure {
        FileFailure::NotFound => text_reply(404, "File not found"),
        FileFailure::PermissionDenied => text_reply(403, "Permission denied"),
        FileFailure::Other(why) => {
            let mut text = "File error: ".to_owned();
            vstd::string::StringExecFns::append(&mut text, why.as_str());
            text_reply(500, text.as_str())
        },
    }
}

/// How the wait for a handler on the worker queue ended.
#[derive(Debug, Clone, Copy, PartialEq, Eq, Structural)]
pub enum WaitFailure {
    /// The handler did not answer in `HANDLER_TIMEOUT_SECS` seconds.
    TimedOut,
    /// The worker dropped the request without an answer.
    ChannelClosed,
    /// There is no worker queue.
    NoWorker,
}

/// The status and text of the answer for a handler that did not answer.
pub open spec fn wait_failure_answer(f: WaitFailure) -> (u16, Seq<char>) {
    match f {
        WaitFailure::TimedOut => (504, "Request timeout waiting for Python worker"@),
        WaitFailure::ChannelClosed => (500, "Python worker channel closed unexpectedly"@),
        WaitFailure::NoWorker => (500, "Python event loop worker not initialized"@),
    }
}

/// The answer for a handler that did not answer.
pub fn wait_failure_response(failure: WaitFailure) -> (r: HttpReply)
    ensures
        r.status == wait_failure_answer(failure).0,
        r.body@ == utf8(wait_failure_answer(failure).1),
        pairs(r.headers@) == seq![("content-type"@, "text/plain; charset=utf-8"@)],
{
    match failure {
        WaitFailure::TimedOut => text_reply(504, "Request timeout waiting for Python worker"),
        WaitFailure::ChannelClosed => text_reply(500, "Python worker channel closed unexpectedly"),
        WaitFailure::NoWorker => text_reply(500, "Python event loop worker not initialized"),
    }
}

/// The headers of a file response do not depend on whether the request is
/// `GET` or `HEAD`, and neither does the way a small file is read.
pub proof fn lemma_file_head_like_get(h: HeaderSeq, skip_compression: bool, size: u64)
    ensures
        delivery_of(size, true) == FileDelivery::Buffered <==> delivery_of(size, false)
            == FileDelivery::Buffered,
        delivery_of(size, true) != FileDelivery::Chunked,
        delivery_of(size, false) != FileDelivery::Omitted,
{
}

/// A request as it was read from the connection.
pub struct RawRequest {
    pub method: String,
    pub path: String,
    pub query_string: Option<String>,
    /// The headers in the order in which they arrived. The value of a header
    /// is there if it is text.
    pub headers: Vec<(String, Option<String>)>,
    pub body: Vec<u8>,
    pub peer_addr: Option<String>,
}

/// What a server holds for the handling of its requests.
pub struct Site<'a> {
    pub deps: RequestDependencies<'a>,
    /// The mounted applications.
    pub mounts: &'a Vec<AsgiMount>,
    /// The greatest number of bytes that the value of a header may have.
    pub max_header_size: usize,
}

/// What is to be done with a request.
pub enum Dispatch<'a> {
    /// The request belongs to the mounted application at this position.
    Mounted(usize),
    /// The request is answered without a handler.
    Answer(CoreHandlerResult),
    /// The handler is to be called with the request. What it returns is
    /// processed under `flags`, for `origin` and with the policy `cors`.
    Call {
        handler_id: usize,
        request: PyRequest,
        /// The path parameters with a declared type, coerced.
        path_values: AHashMap<String, CoercedValue>,
        /// The query parameters with a declared type, coerced.
        query_values: AHashMap<String, CoercedValue>,
        flags: ResponseFlags,
        origin: Option<String>,
        cors: Option<&'a CorsConfig>,
    },
}

/// The CORS policy that applies to a handler: that of its route, else the
/// global one.
pub open spec fn policy_for(meta: Option<RouteMetadata>, global: Option<CorsPolicy>) -> Option<
    CorsPolicy,
> {
    match meta {
        Some(m) => effective_policy(m, global),
        None => global,
    }
}

/// Whether a request asks what a request from another origin may do.
pub open spec fn is_preflight(method: Seq<char>, headers: TextPairs) -> bool {
    method == "OPTIONS"@ && headers.contains_key("access-control-request-method"@)
}

/// The answer of the two steps that follow the guards, if one of them
/// answers: a preflight request for a route with a CORS policy is answered
/// with 204 and the headers of the policy; a request over the header budget
/// with 400.
pub open spec fn gate_answer(
    method: Seq<char>,
    raw: RawHeaders,
    cfg: Option<CorsPolicy>,
    max_size: usize,
) -> Option<ResultModel> {
    let headers = header_map(raw);
    if is_preflight(method, headers) && cfg is Some {
        Some(
            ResultModel::Simple {
                status: 204,
                headers: preflight_headers(
                    cors_headers(HeaderSeq::empty(), cfg->0, carried(headers, "origin"@), None, None),
                    cfg->0,
                ),
                body: Seq::empty(),
            },
        )
    } else {
        match budget_answer(raw, max_size) {
            Some(a) => Some(ResultModel::Error { status: a.0, headers: a.1, body: a.2 }),
            None => None,
        }
    }
}

/// The flags under which the value of a handler is processed.
pub open spec fn flags_for(meta: Option<RouteMetadata>, method: Seq<char>) -> ResponseFlags {
    ResponseFlags {
        skip_compression: meta matches Some(m) && m.skips("compression"@),
        skip_cors: meta matches Some(m) && m.skips("cors"@),
        is_head_request: method == "HEAD"@,
    }
}

/// Whether what is done with a request is right, for a request that the
/// route of handler `id` matches with the captures `params`.
///
/// The steps are taken in this order, and the first that answers gives the
/// answer: the rate limit of the route (429); authentication and the guards
/// (401 or 403); the preflight answer and the header budget, as
/// `gate_answer` says; the typed parameters (422). If none answers the
/// handler is called, with the request that the metadata of the route asks
/// for and with the coerced parameters. A route without metadata has no rate
/// limit, no guards and no typed parameters.
pub open spec fn routed_dispatch(
    r: Dispatch<'_>,
    raw: RawRequest,
    site: &Site<'_>,
    id: usize,
    params: TextPairs,
) -> bool {
    let headers = header_map(raw_view(raw.headers@));
    let meta = metadata_for(&site.deps, id);
    let cfg = policy_for(meta, opt_policy(site.deps.global_cors_config));
    let query = query_for(meta, opt_text(raw.query_string));
    let gate = gate_answer(raw.method@, raw_view(raw.headers@), cfg, site.max_header_size);
    match r {
        Dispatch::Answer(e) => {
            ||| meta matches Some(m) && m.rate_limit_config matches Some(c) && over_limit(
                e@,
                c.rps,
                c.burst,
            )
            ||| meta matches Some(m) && turned_away(e@, headers, m, carried(headers, "origin"@), cfg)
            ||| gate == Some(e@)
            ||| meta matches Some(m) && e matches CoreHandlerResult::Error(reply) && gate is None
                && invalid_answer(reply, params, query, type_map(m.param_types))
        },
        Dispatch::Call { handler_id, request, path_values, query_values, flags, origin, cors } => {
            &&& gate is None
            &&& handler_id == id
            &&& request.method@ == raw.method@
            &&& request.path@ == raw.path@
            &&& request.body@ == raw.body@
            &&& text_map(request.path_params) == params
            &&& text_map(request.query_params) == query
            &&& text_map(request.headers) == (if (meta matches Some(m) && !m.needs_headers) {
                TextPairs::empty()
            } else {
                headers
            })
            &&& text_map(request.cookies) == (if (meta matches Some(m) && !m.needs_cookies) {
                TextPairs::empty()
            } else {
                cookies_of_header(carried(headers, "cookie"@))
            })
            &&& flags == flags_for(meta, raw.method@)
            &&& opt_text(origin) == carried(headers, "origin"@)
            &&& opt_policy(cors) == cfg
            &&& match meta {
                None => request.context is None && value_map(path_values) == ValuePairs::empty()
                    && value_map(query_values) == ValuePairs::empty(),
                Some(m) => {
                    &&& exists|ctx: Option<AuthContext>|
                        #![trigger context_model(ctx)]
                        explains(
                            AuthGuardResult::Allow(request.context),
                            ctx,
                            headers,
                            m.auth_backends@,
                            m.guards@,
                        )
                    &&& all_valid(params, type_map(m.param_types))
                    &&& all_valid(query, type_map(m.param_types))
                    &&& value_map(path_values) == typed_values(params, type_map(m.param_types))
                    &&& value_map(query_values) == typed_values(query, type_map(m.param_types))
                },
            }
        },
        Dispatch::Mounted(_) => false,
    }
}

/// Whether what is done with a request is right.
///
/// A request whose path belongs to a mounted application is handed to it. A
/// request that no route matches is answered as `unrouted` says. Any other
/// request goes through the steps of `routed_dispatch`.
pub open spec fn dispatched(r: Dispatch<'_>, raw: RawRequest, site: &Site<'_>) -> bool {
    match r {
        Dispatch::Mounted(i) => mount_choice(site.mounts@, raw.path@, Some(i)),
        _ => mount_choice(site.mounts@, raw.path@, None) && (match site.deps.router.find_spec(
            raw.method@,
            raw.path@,
        ) {
            None => r matches Dispatch::Answer(e) && e@ == unrouted(
                raw.method@,
                site.deps.router.methods_for(raw.path@),
                carried(header_map(raw_view(raw.headers@)), "origin"@),
                opt_policy(site.deps.global_cors_config),
            ),
            Some((id, params)) => routed_dispatch(r, raw, site, id, params),
        }),
    }
}

/// Decides what is done with a request, up to the call of its handler.
pub fn handle_request<'a>(raw: RawRequest, site: &Site<'a>) -> (r: Dispatch<'a>)
    ensures
        dispatched(r, raw, site),
{
    match find_mount(site.mounts, raw.path.as_str()) {
        Some(i) => {
            return Dispatch::Mounted(i);
        },
        None => {},
    }
    let headers = gather_headers(&raw.headers);
    let input = RequestInput {
        method: raw.method.clone(),
        path: raw.path.clone(),
        headers,
        body: raw.body.clone(),
        query_string: raw.query_string.clone(),
        peer_addr: raw.peer_addr.clone(),
    };
    let (handler_id, path_params, query_params, auth_ctx, route_metadata, flags) =
        match process_request_pre_dispatch(&input, &site.deps) {
        PreDispatchResult::Error(e) => {
            return Dispatch::Answer(e);
        },
        PreDispatchResult::Ready {
            handler_id,
            path_params,
            query_params,
            auth_ctx,
            route_metadata,
            skip_compression,
            skip_cors,
            is_head_request,
        } => (
            handler_id,
            path_params,
            query_params,
            auth_ctx,
            route_metadata,
            ResponseFlags { skip_compression, skip_cors, is_head_request },
        ),
    };
    let cors = get_effective_cors_config(route_metadata, site.deps.global_cors_config);
    let origin: Option<&str> = match text_map_get(&input.headers, "origin") {
        Some(o) => Some(o.as_str()),
        None => None,
    };
    if input.method.as_str().eq("OPTIONS") && text_map_get(
        &input.headers,
        "access-control-request-method",
    ).is_some() {
        match cors {
            Some(cfg) => {
                let mut answer: Vec<(String, String)> = Vec::new();
                assert(pairs(answer@) =~= HeaderSeq::empty());
                apply_cors_headers(&mut answer, origin, cfg, None, None);
                apply_cors_preflight(&mut answer, cfg);
                let body: Vec<u8> = Vec::new();
                assert(body@ =~= Seq::<u8>::empty());
                return Dispatch::Answer(CoreHandlerResult::Simple(204, answer, body));
            },
            None => {},
        }
    }
    match check_header_budget(&raw.headers, site.max_header_size) {
        Some(reply) => {
            return Dispatch::Answer(CoreHandlerResult::Error(reply));
        },
        None => {},
    }
    let (path_values, query_values) = match route_metadata {
        Some(m) => match validate_and_cache_typed_params(&path_params, &query_params, &m.param_types) {
            Ok(values) => values,
            Err(reply) => {
                return Dispatch::Answer(CoreHandlerResult::Error(reply));
            },
        },
        None => (value_map_new(), value_map_new()),
    };
    let request = build_py_request(
        &input,
        path_params,
        query_params,
        auth_ctx,
        needs_headers(route_metadata),
        needs_cookies(route_metadata),
        &input.headers,
    );
    let kept_origin: Option<String> = match origin {
        Some(o) => Some(o.to_owned()),
        None => None,
    };
    Dispatch::Call {
        handler_id,
        request,
        path_values,
        query_values,
        flags,
        origin: kept_origin,
        cors,
    }
}

} // verus!
