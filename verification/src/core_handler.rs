//! The request-handling steps that every entry point shares: what is
//! answered without calling a handler, and what is made of the value that a
//! handler returns.

use vstd::prelude::*;
use vstd::string::StrSliceExecFns;
use ahash::AHashMap;
use crate::cors::{
    apply_cors_to_vec, cors_headers, opt_str, CorsConfig, CorsPolicy,
};
use crate::headers::{has_header, header_index, HeaderSeq};
use crate::maps::{text_map, text_map_insert, text_map_new, utf8, TextPairs};
use crate::metadata::RouteMetadata;
use crate::middleware::auth::{
    authenticate, context_model, may_authenticate, AuthBackend, AuthContext,
};
use crate::middleware::rate_limit::{rate_limit_body, retry_after, RateLimitStore};
use crate::permissions::{caller_of, evaluate_guards, guards_verdict, Guard, GuardResult};
use crate::request::PyRequest;
use crate::response_builder::rate_limit_headers;
use crate::router::{decoded_map, parse_query_string, raw_query};
use std::collections::HashMap;
use crate::response_builder::{
    extract_file_path_from_meta, meta_headers, meta_to_headers_without_file_path, normal_status,
    strip_file_mark, without_file_mark, HttpReply, ParsedResponseMeta, FILE_PATH_MARK,
};
use crate::response_meta::{opt_text, pairs, ResponseMeta};
use crate::router::Router;
use crate::text::{
    chars_of, eq_ignore_case, find_char, first_index, join_seq, join_strings, lemma_first_index,
    same_ignoring_case, slice_of, split, split_seq, string_of, texts, trim, trim_seq,
};

verus! {

/// What is known of a request before it is handled.
pub struct RequestInput {
    pub method: String,
    pub path: String,
    /// The headers, under their names in lower case.
    pub headers: AHashMap<String, String>,
    pub body: Vec<u8>,
    pub query_string: Option<String>,
    pub peer_addr: Option<String>,
}

/// The result of handling a request.
pub enum CoreHandlerResult {
    /// A response that is complete: status, headers, body.
    Simple(u16, Vec<(String, String)>, Vec<u8>),
    /// A response whose body is a file that still has to be read.
    File {
        path: String,
        status: u16,
        headers: Vec<(String, String)>,
        skip_compression: bool,
        is_head_request: bool,
    },
    /// A response whose body the handler produces piece by piece.
    Streaming {
        status: u16,
        headers: Vec<(String, String)>,
        is_async_generator: bool,
        media_type: String,
        skip_compression: bool,
        skip_cors: bool,
        is_head_request: bool,
    },
    /// An error response.
    Error(HttpReply),
}

/// The model of a `CoreHandlerResult`.
pub enum ResultModel {
    Simple { status: u16, headers: HeaderSeq, body: Seq<u8> },
    File {
        path: Seq<char>,
        status: u16,
        headers: HeaderSeq,
        skip_compression: bool,
        is_head_request: bool,
    },
    Streaming {
        status: u16,
        headers: HeaderSeq,
        is_async_generator: bool,
        media_type: Seq<char>,
        skip_compression: bool,
        skip_cors: bool,
        is_head_request: bool,
    },
    Error { status: u16, headers: HeaderSeq, body: Seq<u8> },
}

impl View for CoreHandlerResult {
    type V = ResultModel;

    open spec fn view(&self) -> ResultModel {
        match *self {
            CoreHandlerResult::Simple(status, headers, body) => ResultModel::Simple {
                status,
                headers: pairs(headers@),
                body: body@,
            },
            CoreHandlerResult::File { path, status, headers, skip_compression, is_head_request } =>
                ResultModel::File {
                path: path@,
                status,
                headers: pairs(headers@),
                skip_compression,
                is_head_request,
            },
            CoreHandlerResult::Streaming {
                status,
                headers,
                is_async_generator,
                media_type,
                skip_compression,
                skip_cors,
                is_head_request,
            } => ResultModel::Streaming {
                status,
                headers: pairs(headers@),
                is_async_generator,
                media_type: media_type@,
                skip_compression,
                skip_cors,
                is_head_request,
            },
            CoreHandlerResult::Error(reply) => ResultModel::Error {
                status: reply.status,
                headers: pairs(reply.headers@),
                body: reply.body@,
            },
        }
    }
}

/// The status of a result.
pub open spec fn status_of(r: ResultModel) -> u16 {
    match r {
        ResultModel::Simple { status, .. } => status,
        ResultModel::File { status, .. } => status,
        ResultModel::Streaming { status, .. } => status,
        ResultModel::Error { status, .. } => status,
    }
}

/// The headers of a result.
pub open spec fn headers_of(r: ResultModel) -> HeaderSeq {
    match r {
        ResultModel::Simple { headers, .. } => headers,
        ResultModel::File { headers, .. } => headers,
        ResultModel::Streaming { headers, .. } => headers,
        ResultModel::Error { headers, .. } => headers,
    }
}

/// A result as a status, headers and a body, where a file or a stream is
/// stood for by a fixed text and an error has no body.
pub open spec fn tuple_of(r: ResultModel) -> (u16, HeaderSeq, Seq<u8>) {
    match r {
        ResultModel::Simple { status, headers, body } => (status, headers, body),
        ResultModel::File { status, headers, .. } => (status, headers, utf8("[file content]"@)),
        ResultModel::Streaming { status, headers, .. } => (
            status,
            headers,
            utf8("[streaming content]"@),
        ),
        ResultModel::Error { status, headers, .. } => (status, headers, Seq::<u8>::empty()),
    }
}

impl CoreHandlerResult {
    /// The result as a status, headers and a body.
    pub fn to_tuple(self) -> (t: (u16, Vec<(String, String)>, Vec<u8>))
        ensures
            (t.0, pairs(t.1@), t.2@) == tuple_of(self@),
    {
        match self {
            CoreHandlerResult::Simple(status, headers, body) => (status, headers, body),
            CoreHandlerResult::File { status, headers, .. } => (
                status,
                headers,
                "[file content]".as_bytes_vec(),
            ),
            CoreHandlerResult::Streaming { status, headers, .. } => (
                status,
                headers,
                "[streaming content]".as_bytes_vec(),
            ),
            CoreHandlerResult::Error(reply) => (reply.status, reply.headers, Vec::new()),
        }
    }
}

/// A matched route.
pub struct MatchedRoute {
    pub handler_id: usize,
    pub path_params: AHashMap<String, String>,
}

/// Finds the route for a method and a path.
pub fn find_route(router: &Router, method: &str, path: &str) -> (r: Option<MatchedRoute>)
    ensures
        (match r {
            Some(m) => Some((m.handler_id, text_map(m.path_params))),
            None => None,
        }) == router.find_spec(method@, path@),
{
    match router.find(method, path) {
        Some(found) => Some(
            MatchedRoute { handler_id: found.route.handler_id, path_params: found.path_params },
        ),
        None => None,
    }
}

/// The bytes of a text.
pub fn bytes_of(text: &str) -> (b: Vec<u8>)
    ensures
        b@ == utf8(text@),
{
    text.as_bytes_vec()
}

/// The policy of an optional configuration.
pub open spec fn opt_policy(c: Option<&CorsConfig>) -> Option<CorsPolicy> {
    match c {
        Some(cfg) => Some(cfg@),
        None => None,
    }
}

/// The headers with the CORS headers of an optional configuration added.
pub open spec fn with_cors(h: HeaderSeq, origin: Option<Seq<char>>, cfg: Option<CorsPolicy>) -> HeaderSeq {
    match cfg {
        Some(c) => h + cors_headers(HeaderSeq::empty(), c, origin, None, None),
        None => h,
    }
}

/// What is answered to `OPTIONS` for a path that has no handler for it: 204
/// with the methods that the path has routes for in `Allow`; or a bare 204 if
/// the path has no routes but there is a global CORS configuration; or
/// nothing.
pub open spec fn automatic_options(allowed: Seq<Seq<char>>, has_global_cors: bool) -> Option<
    ResultModel,
> {
    if allowed.len() > 0 {
        Some(
            ResultModel::Simple {
                status: 204,
                headers: seq![
                    ("allow"@, join_seq(allowed, ", "@)),
                    ("content-type"@, "application/json"@),
                ],
                body: Seq::empty(),
            },
        )
    } else if has_global_cors {
        Some(ResultModel::Simple { status: 204, headers: Seq::empty(), body: Seq::empty() })
    } else {
        None
    }
}

/// The model of an optional result.
pub open spec fn opt_result(r: Option<CoreHandlerResult>) -> Option<ResultModel> {
    match r {
        Some(x) => Some(x@),
        None => None,
    }
}

/// Answers `OPTIONS` for a path that has no handler for it.
pub fn handle_automatic_options(
    router: &Router,
    path: &str,
    global_cors_config: Option<&CorsConfig>,
) -> (r: Option<CoreHandlerResult>)
    ensures
        opt_result(r) == automatic_options(router.methods_for(path@), global_cors_config is Some),
{
    let available = router.find_all_methods(path);
    if available.len() > 0 {
        let allow = join_strings(&available, ", ");
        let mut headers: Vec<(String, String)> = Vec::new();
        headers.push(("allow".to_owned(), allow));
        headers.push(("content-type".to_owned(), "application/json".to_owned()));
        let body: Vec<u8> = Vec::new();
        assert(pairs(headers@) =~= seq![
            ("allow"@, join_seq(router.methods_for(path@), ", "@)),
            ("content-type"@, "application/json"@),
        ]);
        assert(body@ =~= Seq::<u8>::empty());
        return Some(CoreHandlerResult::Simple(204, headers, body));
    }
    if global_cors_config.is_some() {
        let headers: Vec<(String, String)> = Vec::new();
        let body: Vec<u8> = Vec::new();
        assert(pairs(headers@) =~= HeaderSeq::empty());
        assert(body@ =~= Seq::<u8>::empty());
        return Some(CoreHandlerResult::Simple(204, headers, body));
    }
    None
}

/// Adds the CORS headers of a configuration to a list of headers, without
/// global fallbacks.
pub fn add_cors_headers_to_vec(
    resp_headers: &mut Vec<(String, String)>,
    request_origin: Option<&str>,
    cors_cfg: &CorsConfig,
)
    ensures
        pairs(final(resp_headers)@) == with_cors(
            pairs(old(resp_headers)@),
            opt_str(request_origin),
            Some(cors_cfg@),
        ),
{
    apply_cors_to_vec(resp_headers, request_origin, cors_cfg, None, None);
}

/// A response that is made without a handler: a status, one content type,
/// the CORS headers, and a fixed text.
pub open spec fn plain_result(
    status: u16,
    content_type: Seq<char>,
    text: Seq<char>,
    origin: Option<Seq<char>>,
    cfg: Option<CorsPolicy>,
) -> ResultModel {
    ResultModel::Simple {
        status,
        headers: with_cors(seq![("content-type"@, content_type)], origin, cfg),
        body: utf8(text),
    }
}

/// Builds a response without a handler.
fn build_plain(
    status: u16,
    content_type: &str,
    text: &str,
    request_origin: Option<&str>,
    cors_config: Option<&CorsConfig>,
) -> (r: CoreHandlerResult)
    ensures
        r@ == plain_result(
            status,
            content_type@,
            text@,
            opt_str(request_origin),
            opt_policy(cors_config),
        ),
{
    let mut headers: Vec<(String, String)> = Vec::new();
    headers.push(("content-type".to_owned(), content_type.to_owned()));
    assert(pairs(headers@) =~= seq![("content-type"@, content_type@)]);
    match cors_config {
        Some(cfg) => {
            add_cors_headers_to_vec(&mut headers, request_origin, cfg);
        },
        None => {},
    }
    CoreHandlerResult::Simple(status, headers, bytes_of(text))
}

/// The answer where no route matches: 404, with the CORS headers of the
/// global configuration.
pub fn build_404_response(request_origin: Option<&str>, global_cors_config: Option<&CorsConfig>) -> (r:
    CoreHandlerResult)
    ensures
        r@ == plain_result(
            404,
            "text/plain; charset=utf-8"@,
            "Not Found"@,
            opt_str(request_origin),
            opt_policy(global_cors_config),
        ),
{
    build_plain(404, "text/plain; charset=utf-8", "Not Found", request_origin, global_cors_config)
}

/// The answer to a caller that is not authenticated: 401 with a challenge.
pub open spec fn unauthorized_result(origin: Option<Seq<char>>, cfg: Option<CorsPolicy>) -> ResultModel {
    ResultModel::Simple {
        status: 401,
        headers: with_cors(
            seq![("content-type"@, "application/json"@), ("www-authenticate"@, "Bearer"@)],
            origin,
            cfg,
        ),
        body: utf8("{\"detail\":\"Authentication required\"}"@),
    }
}

/// The answer to a caller that is not authenticated: 401.
pub fn build_401_response(request_origin: Option<&str>, cors_config: Option<&CorsConfig>) -> (r:
    CoreHandlerResult)
    ensures
        r@ == unauthorized_result(opt_str(request_origin), opt_policy(cors_config)),
{
    let mut headers: Vec<(String, String)> = Vec::new();
    headers.push(("content-type".to_owned(), "application/json".to_owned()));
    headers.push(("www-authenticate".to_owned(), "Bearer".to_owned()));
    assert(pairs(headers@) =~= seq![
        ("content-type"@, "application/json"@),
        ("www-authenticate"@, "Bearer"@),
    ]);
    match cors_config {
        Some(cfg) => {
            add_cors_headers_to_vec(&mut headers, request_origin, cfg);
        },
        None => {},
    }
    CoreHandlerResult::Simple(401, headers, bytes_of("{\"detail\":\"Authentication required\"}"))
}

/// The answer to a caller that a guard turns away: 403.
pub fn build_403_response(request_origin: Option<&str>, cors_config: Option<&CorsConfig>) -> (r:
    CoreHandlerResult)
    ensures
        r@ == plain_result(
            403,
            "application/json"@,
            "{\"detail\":\"Permission denied\"}"@,
            opt_str(request_origin),
            opt_policy(cors_config),
        ),
{
    build_plain(
        403,
        "application/json",
        "{\"detail\":\"Permission denied\"}",
        request_origin,
        cors_config,
    )
}

/// The CORS configuration that applies to a route: its own, else the global
/// one.
pub fn get_effective_cors_config<'a>(
    route_metadata: Option<&'a RouteMetadata>,
    global_cors_config: Option<&'a CorsConfig>,
) -> (r: Option<&'a CorsConfig>)
    ensures
        r == (match route_metadata {
            Some(m) => match m.cors_config {
                Some(c) => Some(&c),
                None => global_cors_config,
            },
            None => global_cors_config,
        }),
{
    match route_metadata {
        Some(m) => match &m.cors_config {
            Some(c) => Some(c),
            None => global_cors_config,
        },
        None => global_cors_config,
    }
}

/// Whether the route bypasses CORS.
pub fn should_skip_cors(route_metadata: Option<&RouteMetadata>) -> (r: bool)
    ensures
        r == (match route_metadata {
            Some(m) => m.skips("cors"@),
            None => false,
        }),
{
    match route_metadata {
        Some(m) => m.skips_policy("cors"),
        None => false,
    }
}

/// Whether the route bypasses compression.
pub fn should_skip_compression(route_metadata: Option<&RouteMetadata>) -> (r: bool)
    ensures
        r == (match route_metadata {
            Some(m) => m.skips("compression"@),
            None => false,
        }),
{
    match route_metadata {
        Some(m) => m.skips_policy("compression"),
        None => false,
    }
}

/// Whether the handler wants the query parameters. A route without metadata
/// wants them.
pub fn needs_query_params(route_metadata: Option<&RouteMetadata>) -> (r: bool)
    ensures
        r == (match route_metadata {
            Some(m) => m.needs_query,
            None => true,
        }),
{
    match route_metadata {
        Some(m) => m.needs_query,
        None => true,
    }
}

/// Whether the handler wants the headers. A route without metadata wants
/// them.
pub fn needs_headers(route_metadata: Option<&RouteMetadata>) -> (r: bool)
    ensures
        r == (match route_metadata {
            Some(m) => m.needs_headers,
            None => true,
        }),
{
    match route_metadata {
        Some(m) => m.needs_headers,
        None => true,
    }
}

/// Whether the handler wants the cookies. A route without metadata wants
/// them.
pub fn needs_cookies(route_metadata: Option<&RouteMetadata>) -> (r: bool)
    ensures
        r == (match route_metadata {
            Some(m) => m.needs_cookies,
            None => true,
        }),
{
    match route_metadata {
        Some(m) => m.needs_cookies,
        None => true,
    }
}

/// The name and value of one piece of a `Cookie` header: the piece without
/// surrounding white space, split at its first `=`. A piece without `=` or
/// with nothing before it gives no cookie.
pub open spec fn cookie_pair(piece: Seq<char>) -> Option<(Seq<char>, Seq<char>)> {
    let part = trim_seq(piece);
    let eq = first_index(part, '=');
    if 0 < eq < part.len() {
        Some((part.take(eq), part.skip(eq + 1)))
    } else {
        None
    }
}

/// The cookies of a sequence of pieces: a later cookie replaces an earlier
/// one of the same name.
pub open spec fn cookies_from(pieces: Seq<Seq<char>>) -> TextPairs
    decreases pieces.len(),
{
    if pieces.len() == 0 {
        TextPairs::empty()
    } else {
        match cookie_pair(pieces.last()) {
            Some(p) => cookies_from(pieces.drop_last()).insert(p.0, p.1),
            None => cookies_from(pieces.drop_last()),
        }
    }
}

/// The cookies that a `Cookie` header carries: its pieces between `;`, each
/// split at its first `=`, with nothing decoded.
pub open spec fn cookies_of_header(header: Option<Seq<char>>) -> TextPairs {
    match header {
        Some(h) => cookies_from(split_seq(h, ';')),
        None => TextPairs::empty(),
    }
}

/// Reads the cookies of a request from its `Cookie` header.
pub fn parse_cookies_inline(header: Option<&str>) -> (cookies: AHashMap<String, String>)
    ensures
        text_map(cookies) == cookies_of_header(opt_str(header)),
{
    let mut cookies = text_map_new();
    let raw = match header {
        Some(h) => h,
        None => {
            return cookies;
        },
    };
    let chars = chars_of(raw);
    let pieces = split(chars.as_slice(), ';');
    let mut i: usize = 0;
    assert(texts(pieces@).take(0) =~= Seq::<Seq<char>>::empty());
    while i < pieces.len()
        invariant
            i <= pieces.len(),
            text_map(cookies) == cookies_from(texts(pieces@).take(i as int)),
        decreases pieces.len() - i,
    {
        proof {
            assert(texts(pieces@).take(i + 1).drop_last() =~= texts(pieces@).take(i as int));
            assert(texts(pieces@).take(i + 1).last() == pieces@[i as int]@);
        }
        let part = trim(pieces[i].as_slice());
        proof {
            lemma_first_index(part@, '=');
        }
        match find_char(part.as_slice(), '=') {
            Some(eq) => {
                if eq > 0 {
                    let name = slice_of(part.as_slice(), 0, eq);
                    let value = slice_of(part.as_slice(), eq + 1, part.len());
                    assert(name@ =~= part@.take(eq as int));
                    assert(value@ =~= part@.skip(eq + 1));
                    text_map_insert(
                        &mut cookies,
                        string_of(name.as_slice()),
                        string_of(value.as_slice()),
                    );
                }
            },
            None => {},
        }
        i += 1;
    }
    assert(texts(pieces@).take(pieces.len() as int) =~= texts(pieces@));
    cookies
}

/// Builds the request that is handed to the handler. The headers and the
/// cookies are filled in only if the handler wants them.
pub fn build_py_request(
    input: &RequestInput,
    path_params: AHashMap<String, String>,
    query_params: AHashMap<String, String>,
    auth_ctx: Option<AuthContext>,
    needs_headers: bool,
    needs_cookies: bool,
    headers: &AHashMap<String, String>,
) -> (request: PyRequest)
    ensures
        request.method@ == input.method@,
        request.path@ == input.path@,
        request.body@ == input.body@,
        request.path_params == path_params,
        request.query_params == query_params,
        request.context == auth_ctx,
        text_map(request.headers) == (if needs_headers {
            text_map(*headers)
        } else {
            TextPairs::empty()
        }),
        text_map(request.cookies) == (if needs_cookies {
            cookies_of_header(crate::middleware::auth::carried(text_map(*headers), "cookie"@))
        } else {
            TextPairs::empty()
        }),
{
    let headers_for_handler = if needs_headers {
        copy_map(headers)
    } else {
        text_map_new()
    };
    let cookies = if needs_cookies {
        match crate::maps::text_map_get(headers, "cookie") {
            Some(c) => parse_cookies_inline(Some(c.as_str())),
            None => parse_cookies_inline(None),
        }
    } else {
        text_map_new()
    };
    PyRequest {
        method: input.method.clone(),
        path: input.path.clone(),
        body: input.body.clone(),
        path_params,
        query_params,
        headers: headers_for_handler,
        cookies,
        context: auth_ctx,
    }
}

/// Copies a map entry by entry.
fn copy_map(m: &AHashMap<String, String>) -> (r: AHashMap<String, String>)
    ensures
        text_map(r) == text_map(*m),
{
    let entries = crate::maps::text_map_entries(m);
    let mut r = text_map_new();
    let mut i: usize = 0;
    while i < entries.len()
        invariant
            i <= entries.len(),
            crate::maps::distinct_keys(entries@),
            forall|k: Seq<char>|
                text_map(r).contains_key(k) <==> exists|j: int|
                    0 <= j < i && (#[trigger] entries@[j]).0@ == k,
            forall|j: int|
                0 <= j < i ==> text_map(r)[(#[trigger] entries@[j]).0@] == entries@[j].1@,
        decreases entries.len() - i,
    {
        let ghost before = text_map(r);
        text_map_insert(&mut r, entries[i].0.clone(), entries[i].1.clone());
        proof {
            assert forall|k: Seq<char>| text_map(r).contains_key(k) <==> exists|j: int|
                0 <= j < i + 1 && (#[trigger] entries@[j]).0@ == k by {
                if text_map(r).contains_key(k) {
                    if k == entries@[i as int].0@ {
                    } else {
                        assert(before.contains_key(k));
                        let j = choose|j: int| 0 <= j < i && (#[trigger] entries@[j]).0@ == k;
                        assert(0 <= j < i + 1 && entries@[j].0@ == k);
                    }
                }
                if exists|j: int| 0 <= j < i + 1 && (#[trigger] entries@[j]).0@ == k {
                    let j = choose|j: int| 0 <= j < i + 1 && (#[trigger] entries@[j]).0@ == k;
                    if j < i {
                        assert(before.contains_key(k));
                    }
                }
            }
        }
        i += 1;
    }
    proof {
        let target = text_map(*m);
        let model = crate::maps::entries_map(entries@);
        assert forall|k: Seq<char>| text_map(r).contains_key(k) <==> model.contains_key(k) by {}
        assert forall|k: Seq<char>| text_map(r).contains_key(k) implies text_map(r)[k]
            == model[k] by {
            let j = choose|j: int| 0 <= j < entries@.len() && (#[trigger] entries@[j]).0@ == k;
            let j2 = choose|j: int| 0 <= j < i && (#[trigger] entries@[j]).0@ == k;
            assert(j == j2) by {
                if j < j2 {
                    assert(entries@[j].0@ != entries@[j2].0@);
                } else if j2 < j {
                    assert(entries@[j2].0@ != entries@[j].0@);
                }
            }
        }
        assert(text_map(r) =~= model);
    }
    r
}

/// What a streaming response object says of itself. A part that the object
/// does not have, or has with another type, is absent.
pub struct StreamingDescriptor {
    pub status_code: Option<u16>,
    pub headers: Vec<(String, String)>,
    pub media_type: Option<String>,
    pub is_async_generator: Option<bool>,
    /// Whether the object has content to stream.
    pub has_content: bool,
}

/// What a handler returned.
pub enum HandlerOutcome {
    /// A status, headers and a body.
    Tuple(u16, Vec<(String, String)>, Vec<u8>),
    /// A status, response metadata and a body.
    Meta(ParsedResponseMeta),
    /// An object that streams its body.
    Streaming(StreamingDescriptor),
    /// Anything else.
    Unsupported,
}

/// The flags under which the value of a handler is processed.
#[derive(Debug, Clone, Copy, PartialEq, Eq, Structural)]
pub struct ResponseFlags {
    pub skip_compression: bool,
    pub skip_cors: bool,
    pub is_head_request: bool,
}

/// The value of the last file mark among the headers.
pub open spec fn last_file_mark(h: HeaderSeq) -> Option<Seq<char>>
    decreases h.len(),
{
    if h.len() == 0 {
        None
    } else if eq_ignore_case(h.last().0, FILE_PATH_MARK@) {
        Some(h.last().1)
    } else {
        last_file_mark(h.drop_last())
    }
}

/// The body of an error response with a message.
pub open spec fn error_body(detail: Seq<char>) -> Seq<char> {
    "{\"detail\":\""@ + detail + "\"}"@
}

/// An error response: a status and a message in a JSON body.
pub open spec fn error_result(status: u16, detail: Seq<char>) -> ResultModel {
    ResultModel::Error {
        status,
        headers: seq![("content-type"@, "application/json"@)],
        body: utf8(error_body(detail)),
    }
}

/// The headers with the CORS headers added unless CORS is skipped.
pub open spec fn with_cors_unless(
    h: HeaderSeq,
    skip_cors: bool,
    origin: Option<Seq<char>>,
    cfg: Option<CorsPolicy>,
) -> HeaderSeq {
    if skip_cors {
        h
    } else {
        with_cors(h, origin, cfg)
    }
}

/// What is made of a tuple that a handler returned. A file mark among the
/// headers turns the response into a file response; the mark is never sent.
/// Otherwise the CORS headers are added, and the body is dropped for `HEAD`.
pub open spec fn tuple_result(
    status: u16,
    h: HeaderSeq,
    body: Seq<u8>,
    flags: ResponseFlags,
    origin: Option<Seq<char>>,
    cfg: Option<CorsPolicy>,
) -> ResultModel {
    match last_file_mark(h) {
        Some(path) => ResultModel::File {
            path,
            status: normal_status(status),
            headers: without_file_mark(h),
            skip_compression: flags.skip_compression,
            is_head_request: flags.is_head_request,
        },
        None => ResultModel::Simple {
            status,
            headers: with_cors_unless(without_file_mark(h), flags.skip_cors, origin, cfg),
            body: if flags.is_head_request {
                Seq::empty()
            } else {
                body
            },
        },
    }
}

/// What is made of response metadata that a handler returned. The headers
/// are those that the metadata stands for, without the file mark. A file
/// mark among the handler's own headers turns the response into a file
/// response for the path of the first mark.
pub open spec fn meta_result(
    status: u16,
    meta: ResponseMeta,
    body: Seq<u8>,
    flags: ResponseFlags,
    origin: Option<Seq<char>>,
    cfg: Option<CorsPolicy>,
) -> ResultModel {
    let marked = match meta.custom_headers {
        Some(h) => crate::response_builder::file_mark_value(pairs(h@)),
        None => None,
    };
    match marked {
        Some(path) => ResultModel::File {
            path,
            status: normal_status(status),
            headers: without_file_mark(meta_headers(meta)),
            skip_compression: flags.skip_compression,
            is_head_request: flags.is_head_request,
        },
        None => ResultModel::Simple {
            status,
            headers: with_cors_unless(
                without_file_mark(meta_headers(meta)),
                flags.skip_cors,
                origin,
                cfg,
            ),
            body: if flags.is_head_request {
                Seq::empty()
            } else {
                body
            },
        },
    }
}

/// The media type of a streaming response: `application/octet-stream` unless
/// the response names one.
pub open spec fn media_type_of(media_type: Option<Seq<char>>) -> Seq<char> {
    match media_type {
        Some(m) => m,
        None => "application/octet-stream"@,
    }
}

/// What is made of a streaming response object: its status (200 unless it
/// names one), its headers with the media type as content type unless it has
/// one, and the CORS headers. An object without content is an error.
pub open spec fn streaming_result(
    status_code: Option<u16>,
    h: HeaderSeq,
    media_type: Option<Seq<char>>,
    is_async_generator: Option<bool>,
    has_content: bool,
    flags: ResponseFlags,
    origin: Option<Seq<char>>,
    cfg: Option<CorsPolicy>,
) -> ResultModel {
    if !has_content {
        error_result(500, "StreamingResponse missing content"@)
    } else {
        ResultModel::Streaming {
            status: normal_status(
                match status_code {
                    Some(c) => c,
                    None => 200u16,
                },
            ),
            headers: with_cors_unless(
                if has_header(h, "content-type"@) {
                    h
                } else {
                    h.push(("content-type"@, media_type_of(media_type)))
                },
                flags.skip_cors,
                origin,
                cfg,
            ),
            is_async_generator: is_async_generator == Some(true),
            media_type: media_type_of(media_type),
            skip_compression: flags.skip_compression,
            skip_cors: flags.skip_cors,
            is_head_request: flags.is_head_request,
        }
    }
}

/// What is made of the value that a handler returned.
pub open spec fn handler_result(
    outcome: HandlerOutcome,
    flags: ResponseFlags,
    origin: Option<Seq<char>>,
    cfg: Option<CorsPolicy>,
) -> ResultModel {
    match outcome {
        HandlerOutcome::Tuple(status, headers, body) => tuple_result(
            status,
            pairs(headers@),
            body@,
            flags,
            origin,
            cfg,
        ),
        HandlerOutcome::Meta(parsed) => meta_result(
            parsed.status_code,
            parsed.meta,
            parsed.body@,
            flags,
            origin,
            cfg,
        ),
        HandlerOutcome::Streaming(d) => streaming_result(
            d.status_code,
            pairs(d.headers@),
            opt_text(d.media_type),
            d.is_async_generator,
            d.has_content,
            flags,
            origin,
            cfg,
        ),
        HandlerOutcome::Unsupported => error_result(
            500,
            "Handler returned unsupported response type (expected tuple or StreamingResponse)"@,
        ),
    }
}

/// Finds the value of the last file mark among the headers.
fn find_file_mark(headers: &Vec<(String, String)>) -> (r: Option<String>)
    ensures
        opt_text(r) == last_file_mark(pairs(headers@)),
{
    let mark = chars_of(FILE_PATH_MARK);
    let ghost all = pairs(headers@);
    let mut i: usize = headers.len();
    assert(all.take(i as int) =~= all);
    while i > 0
        invariant
            i <= headers.len(),
            mark@ == FILE_PATH_MARK@,
            all == pairs(headers@),
            last_file_mark(all) == last_file_mark(all.take(i as int)),
        decreases i,
    {
        i -= 1;
        proof {
            assert(all.take(i + 1).drop_last() =~= all.take(i as int));
            assert(all.take(i + 1).last() == (headers@[i as int].0@, headers@[i as int].1@));
        }
        let name = chars_of(headers[i].0.as_str());
        if same_ignoring_case(name.as_slice(), mark.as_slice()) {
            return Some(headers[i].1.clone());
        }
    }
    None
}

/// Builds an error response with a message in a JSON body. The message is
/// written as it stands.
pub fn error_response(status: u16, detail: &str) -> (r: CoreHandlerResult)
    ensures
        r@ == error_result(status, detail@),
{
    let mut text = "{\"detail\":\"".to_owned();
    vstd::string::StringExecFns::append(&mut text, detail);
    vstd::string::StringExecFns::append(&mut text, "\"}");
    let mut headers: Vec<(String, String)> = Vec::new();
    headers.push(("content-type".to_owned(), "application/json".to_owned()));
    assert(pairs(headers@) =~= seq![("content-type"@, "application/json"@)]);
    CoreHandlerResult::Error(HttpReply { status, headers, body: bytes_of(text.as_str()) })
}

/// Adds the CORS headers unless CORS is skipped.
fn add_cors_unless(
    headers: &mut Vec<(String, String)>,
    skip_cors: bool,
    request_origin: Option<&str>,
    cors_config: Option<&CorsConfig>,
)
    ensures
        pairs(final(headers)@) == with_cors_unless(
            pairs(old(headers)@),
            skip_cors,
            opt_str(request_origin),
            opt_policy(cors_config),
        ),
{
    if !skip_cors {
        match cors_config {
            Some(cfg) => {
                add_cors_headers_to_vec(headers, request_origin, cfg);
            },
            None => {},
        }
    }
}

/// A status code as it is sent.
pub fn normalize_status(code: u16) -> (r: u16)
    ensures
        r == normal_status(code),
{
    if 100 <= code && code <= 999 {
        code
    } else {
        200
    }
}

/// Processes a streaming response object.
fn process_non_tuple_response(
    d: StreamingDescriptor,
    flags: ResponseFlags,
    request_origin: Option<&str>,
    cors_config: Option<&CorsConfig>,
) -> (r: CoreHandlerResult)
    ensures
        r@ == streaming_result(
            d.status_code,
            pairs(d.headers@),
            opt_text(d.media_type),
            d.is_async_generator,
            d.has_content,
            flags,
            opt_str(request_origin),
            opt_policy(cors_config),
        ),
{
    if !d.has_content {
        return error_response(500, "StreamingResponse missing content");
    }
    let status_code: u16 = match d.status_code {
        Some(c) => c,
        None => 200,
    };
    let media_type = match d.media_type {
        Some(m) => m,
        None => "application/octet-stream".to_owned(),
    };
    let mut headers = d.headers;
    if header_index(&headers, "content-type").is_none() {
        let ghost before = pairs(headers@);
        headers.push(("content-type".to_owned(), media_type.clone()));
        assert(pairs(headers@) =~= before.push(("content-type"@, media_type@)));
    }
    add_cors_unless(&mut headers, flags.skip_cors, request_origin, cors_config);
    CoreHandlerResult::Streaming {
        status: normalize_status(status_code),
        headers,
        is_async_generator: match d.is_async_generator {
            Some(b) => b,
            None => false,
        },
        media_type,
        skip_compression: flags.skip_compression,
        skip_cors: flags.skip_cors,
        is_head_request: flags.is_head_request,
    }
}

/// Processes the value that a handler returned.
pub fn process_handler_result(
    outcome: HandlerOutcome,
    flags: ResponseFlags,
    request_origin: Option<&str>,
    cors_config: Option<&CorsConfig>,
) -> (r: CoreHandlerResult)
    ensures
        r@ == handler_result(outcome, flags, opt_str(request_origin), opt_policy(cors_config)),
{
    match outcome {
        HandlerOutcome::Tuple(status, resp_headers, body) => {
            let file_path = find_file_mark(&resp_headers);
            let mut headers = strip_file_mark(resp_headers);
            match file_path {
                Some(path) => CoreHandlerResult::File {
                    path,
                    status: normalize_status(status),
                    headers,
                    skip_compression: flags.skip_compression,
                    is_head_request: flags.is_head_request,
                },
                None => {
                    add_cors_unless(&mut headers, flags.skip_cors, request_origin, cors_config);
                    let response_body = if flags.is_head_request {
                        Vec::new()
                    } else {
                        body
                    };
                    CoreHandlerResult::Simple(status, headers, response_body)
                },
            }
        },
        HandlerOutcome::Meta(parsed) => {
            let status = parsed.status_code;
            let body = parsed.body;
            let file_path = extract_file_path_from_meta(&parsed.meta);
            let mut headers = meta_to_headers_without_file_path(&parsed.meta);
            match file_path {
                Some(path) => CoreHandlerResult::File {
                    path,
                    status: normalize_status(status),
                    headers,
                    skip_compression: flags.skip_compression,
                    is_head_request: flags.is_head_request,
                },
                None => {
                    add_cors_unless(&mut headers, flags.skip_cors, request_origin, cors_config);
                    let response_body = if flags.is_head_request {
                        Vec::new()
                    } else {
                        body
                    };
                    CoreHandlerResult::Simple(status, headers, response_body)
                },
            }
        },
        HandlerOutcome::Streaming(d) => process_non_tuple_response(
            d,
            flags,
            request_origin,
            cors_config,
        ),
        HandlerOutcome::Unsupported => error_response(
            500,
            "Handler returned unsupported response type (expected tuple or StreamingResponse)",
        ),
    }
}

/// The flags of a request for the same resource with the other of `GET` and
/// `HEAD`.
pub open spec fn as_head(flags: ResponseFlags, head: bool) -> ResponseFlags {
    ResponseFlags {
        skip_compression: flags.skip_compression,
        skip_cors: flags.skip_cors,
        is_head_request: head,
    }
}

/// For a route whose policy allows every origin together with credentials,
/// the response to a handler's plain answer carries the headers of the
/// handler, followed by the CORS headers; among these
/// `Access-Control-Allow-Origin` names the origin of the request, not `*`,
/// and `Access-Control-Allow-Credentials` is `true`.
pub proof fn lemma_egress_names_origin(
    status: u16,
    h: HeaderSeq,
    body: Seq<u8>,
    flags: ResponseFlags,
    origin: Seq<char>,
    cfg: CorsPolicy,
)
    requires
        cfg.allow_all,
        cfg.credentials,
        crate::headers::header_text_ok(origin),
        !flags.skip_cors,
        last_file_mark(h) is None,
    ensures
        tuple_result(status, h, body, flags, Some(origin), Some(cfg)) matches ResultModel::Simple {
            headers,
            ..
        } && headers == without_file_mark(h) + cors_headers(
            HeaderSeq::empty(),
            cfg,
            Some(origin),
            None,
            None,
        ),
        crate::headers::header_value(
            cors_headers(HeaderSeq::empty(), cfg, Some(origin), None, None),
            crate::cors::ALLOW_ORIGIN@,
        ) == Some(origin),
        crate::headers::header_value(
            cors_headers(HeaderSeq::empty(), cfg, Some(origin), None, None),
            crate::cors::ALLOW_CREDENTIALS@,
        ) == Some("true"@),
{
    crate::cors::lemma_wildcard_with_credentials(HeaderSeq::empty(), cfg, origin, None, None);
}

/// Whatever a handler returns, the answer to `HEAD` has the status and the
/// headers of the answer to `GET`; a complete response has no body for
/// `HEAD`, and a file or a stream is marked as answering `HEAD`.
pub proof fn lemma_head_like_get(
    outcome: HandlerOutcome,
    flags: ResponseFlags,
    origin: Option<Seq<char>>,
    cfg: Option<CorsPolicy>,
)
    ensures
        status_of(handler_result(outcome, as_head(flags, true), origin, cfg)) == status_of(
            handler_result(outcome, as_head(flags, false), origin, cfg),
        ),
        headers_of(handler_result(outcome, as_head(flags, true), origin, cfg)) == headers_of(
            handler_result(outcome, as_head(flags, false), origin, cfg),
        ),
        handler_result(outcome, as_head(flags, true), origin, cfg) matches ResultModel::Simple {
            body,
            ..
        } ==> body.len() == 0,
        handler_result(outcome, as_head(flags, true), origin, cfg) matches ResultModel::File {
            is_head_request,
            ..
        } ==> is_head_request,
        handler_result(outcome, as_head(flags, true), origin, cfg) matches ResultModel::Streaming {
            is_head_request,
            ..
        } ==> is_head_request,
{
}

broadcast use vstd::std_specs::hash::group_hash_axioms;

/// What authentication and the guards say of a request.
pub enum AuthGuardResult {
    /// The request may pass, as the caller that was authenticated, if any.
    Allow(Option<AuthContext>),
    Unauthorized,
    Forbidden,
}

/// The verdict that an `AuthGuardResult` stands for.
pub open spec fn verdict_of(r: AuthGuardResult) -> GuardResult {
    match r {
        AuthGuardResult::Allow(_) => GuardResult::Allow,
        AuthGuardResult::Unauthorized => GuardResult::Unauthorized,
        AuthGuardResult::Forbidden => GuardResult::Forbidden,
    }
}

/// Whether a result is what the guards say of a caller that the backends may
/// have authenticated.
pub open spec fn explains(
    r: AuthGuardResult,
    ctx: Option<AuthContext>,
    headers: TextPairs,
    backends: Seq<AuthBackend>,
    guards: Seq<Guard>,
) -> bool {
    may_authenticate(headers, backends, context_model(ctx)) && verdict_of(r) == guards_verdict(
        guards,
        caller_of(ctx),
    ) && (r matches AuthGuardResult::Allow(c) ==> c == ctx)
}

/// Authenticates the caller with the backends of a route and asks the guards
/// of the route. The result is what the guards say of the caller that the
/// backends authenticated, or of nobody if they authenticated nobody.
pub fn validate_auth_and_guards(
    headers: &AHashMap<String, String>,
    auth_backends: &Vec<AuthBackend>,
    guards: &Vec<Guard>,
) -> (r: AuthGuardResult)
    ensures
        exists|ctx: Option<AuthContext>|
            #![trigger context_model(ctx)]
            explains(r, ctx, text_map(*headers), auth_backends@, guards@),
{
    let ctx = authenticate(headers, auth_backends);
    let seen = ctx.as_ref();
    let verdict = evaluate_guards(guards, seen);
    let ghost witness = ctx;
    proof {
        assert(crate::permissions::opt_context(seen) == ctx);
    }
    let r = match verdict {
        GuardResult::Allow => AuthGuardResult::Allow(ctx),
        GuardResult::Unauthorized => AuthGuardResult::Unauthorized,
        GuardResult::Forbidden => AuthGuardResult::Forbidden,
    };
    assert(explains(r, witness, text_map(*headers), auth_backends@, guards@));
    r
}

/// Runs authentication and the guards of a route. A request that may not
/// pass is answered with 401 or 403, with the CORS headers.
pub fn validate_request_auth(
    headers: &AHashMap<String, String>,
    route_metadata: &RouteMetadata,
    request_origin: Option<&str>,
    cors_config: Option<&CorsConfig>,
) -> (r: Result<Option<AuthContext>, CoreHandlerResult>)
    ensures
        exists|verdict: AuthGuardResult, ctx: Option<AuthContext>|
            #![trigger explains(verdict, ctx, text_map(*headers), route_metadata.auth_backends@, route_metadata.guards@)]
            explains(
                verdict,
                ctx,
                text_map(*headers),
                route_metadata.auth_backends@,
                route_metadata.guards@,
            ) && (match r {
                Ok(c) => verdict == AuthGuardResult::Allow(c),
                Err(e) => e@ == refusal(
                    verdict_of(verdict),
                    opt_str(request_origin),
                    opt_policy(cors_config),
                ) && verdict_of(verdict) != GuardResult::Allow,
            }),
{
    let verdict = validate_auth_and_guards(
        headers,
        &route_metadata.auth_backends,
        &route_metadata.guards,
    );
    let ghost seen = verdict;
    let ghost ctx = choose|ctx: Option<AuthContext>|
        #![trigger context_model(ctx)]
        explains(verdict, ctx, text_map(*headers), route_metadata.auth_backends@, route_metadata.guards@);
    let r = match verdict {
        AuthGuardResult::Allow(c) => Ok(c),
        AuthGuardResult::Unauthorized => Err(build_401_response(request_origin, cors_config)),
        AuthGuardResult::Forbidden => Err(build_403_response(request_origin, cors_config)),
    };
    assert(explains(
        seen,
        ctx,
        text_map(*headers),
        route_metadata.auth_backends@,
        route_metadata.guards@,
    ));
    r
}

/// The answer to a caller that may not pass.
pub open spec fn refusal(verdict: GuardResult, origin: Option<Seq<char>>, cfg: Option<CorsPolicy>) -> ResultModel {
    if verdict == GuardResult::Forbidden {
        plain_result(403, "application/json"@, "{\"detail\":\"Permission denied\"}"@, origin, cfg)
    } else {
        unauthorized_result(origin, cfg)
    }
}

/// Whether a result is the answer to a request over the limit of a route.
pub open spec fn over_limit(r: ResultModel, rps: u32, burst: u32) -> bool {
    exists|wait: u64|
        #![trigger retry_after(wait)]
        r == ResultModel::Simple {
            status: 429,
            headers: rate_limit_headers(retry_after(wait), rps, burst),
            body: utf8(rate_limit_body(retry_after(wait))),
        }
}

/// Draws a token for a request if its route has a rate limit. A request over
/// the limit is answered with 429; a route without a limit lets every
/// request pass.
pub fn check_rate_limit(
    store: &RateLimitStore,
    handler_id: usize,
    headers: &AHashMap<String, String>,
    peer_addr: Option<&str>,
    route_metadata: &RouteMetadata,
) -> (r: Option<CoreHandlerResult>)
    ensures
        route_metadata.rate_limit_config is None ==> r is None,
        r matches Some(x) ==> route_metadata.rate_limit_config is Some && over_limit(
            x@,
            route_metadata.rate_limit_config->0.rps,
            route_metadata.rate_limit_config->0.burst,
        ),
{
    match &route_metadata.rate_limit_config {
        Some(config) => {
            match crate::middleware::rate_limit::check_rate_limit(
                store,
                handler_id,
                headers,
                peer_addr,
                config,
            ) {
                Some(reply) => {
                    let ghost wait = choose|wait: u64|
                        reply.status == 429 && pairs(reply.headers@) == rate_limit_headers(
                            retry_after(wait),
                            config.rps,
                            config.burst,
                        ) && reply.body@ == utf8(rate_limit_body(retry_after(wait)));
                    let r = CoreHandlerResult::Simple(reply.status, reply.headers, reply.body);
                    assert(r@ == ResultModel::Simple {
                        status: 429,
                        headers: rate_limit_headers(retry_after(wait), config.rps, config.burst),
                        body: utf8(rate_limit_body(retry_after(wait))),
                    });
                    Some(r)
                },
                None => None,
            }
        },
        None => None,
    }
}

/// What the handling of a request needs besides the request.
pub struct RequestDependencies<'a> {
    pub router: &'a Router,
    pub route_metadata: &'a HashMap<usize, RouteMetadata>,
    pub global_cors_config: Option<&'a CorsConfig>,
    pub rate_limits: &'a RateLimitStore,
    pub debug: bool,
}

/// The outcome of the steps before the handler is called.
pub enum PreDispatchResult<'a> {
    /// The handler is to be called.
    Ready {
        handler_id: usize,
        path_params: AHashMap<String, String>,
        query_params: AHashMap<String, String>,
        auth_ctx: Option<AuthContext>,
        route_metadata: Option<&'a RouteMetadata>,
        skip_compression: bool,
        skip_cors: bool,
        is_head_request: bool,
    },
    /// The request is answered without the handler.
    Error(CoreHandlerResult),
}

/// The answer where no route matches the method and the path: for `OPTIONS`
/// what `automatic_options` says, if it says anything; else 404.
pub open spec fn unrouted(
    method: Seq<char>,
    allowed: Seq<Seq<char>>,
    origin: Option<Seq<char>>,
    global: Option<CorsPolicy>,
) -> ResultModel {
    let not_found = plain_result(404, "text/plain; charset=utf-8"@, "Not Found"@, origin, global);
    if method == "OPTIONS"@ {
        match automatic_options(allowed, global is Some) {
            Some(r) => r,
            None => not_found,
        }
    } else {
        not_found
    }
}

/// The metadata of a handler.
pub open spec fn metadata_for(deps: &RequestDependencies<'_>, handler_id: usize) -> Option<
    RouteMetadata,
> {
    if deps.route_metadata@.contains_key(handler_id) {
        Some(deps.route_metadata@[handler_id])
    } else {
        None
    }
}

/// The query parameters that the handler is given: those of the query
/// string, if the handler wants them.
pub open spec fn query_for(meta: Option<RouteMetadata>, query: Option<Seq<char>>) -> TextPairs {
    let wanted = match meta {
        Some(m) => m.needs_query,
        None => true,
    };
    match query {
        Some(q) if wanted => decoded_map(raw_query(q)),
        _ => TextPairs::empty(),
    }
}

/// The `Origin` of a request.
pub open spec fn origin_of(input: &RequestInput) -> Option<Seq<char>> {
    crate::middleware::auth::carried(text_map(input.headers), "origin"@)
}

/// The CORS policy that applies to a route with metadata: its own, else the
/// global one.
pub open spec fn effective_policy(m: RouteMetadata, global: Option<CorsPolicy>) -> Option<
    CorsPolicy,
> {
    match m.cors_config {
        Some(c) => Some(c@),
        None => global,
    }
}

/// Whether a result is the answer to a caller that the guards of a route
/// turn away: 401 or 403 as the guards say of the caller that the backends
/// may have authenticated.
pub open spec fn turned_away(
    r: ResultModel,
    headers: TextPairs,
    m: RouteMetadata,
    origin: Option<Seq<char>>,
    cfg: Option<CorsPolicy>,
) -> bool {
    exists|ctx: Option<AuthContext>|
        #![trigger context_model(ctx)]
        may_authenticate(headers, m.auth_backends@, context_model(ctx)) && guards_verdict(
            m.guards@,
            caller_of(ctx),
        ) != GuardResult::Allow && r == refusal(
            guards_verdict(m.guards@, caller_of(ctx)),
            origin,
            cfg,
        )
}

/// Whether the outcome is right for a request that a route matches.
///
/// The handler is called for the matched handler with the captured
/// parameters, unless the route has metadata and its rate limit answers with
/// 429 or its guards turn the caller away with 401 or 403. A route without
/// metadata never turns a request away.
pub open spec fn routed_outcome(
    r: PreDispatchResult<'_>,
    input: &RequestInput,
    deps: &RequestDependencies<'_>,
    id: usize,
    params: TextPairs,
) -> bool {
    let meta = metadata_for(deps, id);
    match r {
        PreDispatchResult::Ready {
            handler_id,
            path_params,
            query_params,
            auth_ctx,
            route_metadata,
            skip_compression,
            skip_cors,
            is_head_request,
        } => {
            &&& handler_id == id
            &&& text_map(path_params) == params
            &&& text_map(query_params) == query_for(meta, opt_text(input.query_string))
            &&& (match route_metadata {
                Some(m) => meta == Some(*m),
                None => meta is None,
            })
            &&& skip_compression == (meta matches Some(m) && m.skips("compression"@))
            &&& skip_cors == (meta matches Some(m) && m.skips("cors"@))
            &&& is_head_request == (input.method@ == "HEAD"@)
            &&& meta is None ==> auth_ctx is None
            &&& meta matches Some(m) ==> exists|ctx: Option<AuthContext>|
                #![trigger context_model(ctx)]
                explains(
                    AuthGuardResult::Allow(auth_ctx),
                    ctx,
                    text_map(input.headers),
                    m.auth_backends@,
                    m.guards@,
                )
        },
        PreDispatchResult::Error(e) => {
            meta matches Some(m) && ({
                ||| m.rate_limit_config matches Some(c) && over_limit(e@, c.rps, c.burst)
                ||| turned_away(
                    e@,
                    text_map(input.headers),
                    m,
                    origin_of(input),
                    effective_policy(m, opt_policy(deps.global_cors_config)),
                )
            })
        },
    }
}

/// Runs the steps before the handler: the route is matched, the rate limit
/// of the route is applied, the caller is authenticated and the guards are
/// asked, and the query string is read.
pub fn process_request_pre_dispatch<'a>(input: &RequestInput, deps: &RequestDependencies<'a>) -> (r:
    PreDispatchResult<'a>)
    ensures
        match deps.router.find_spec(input.method@, input.path@) {
            None => r matches PreDispatchResult::Error(e) && e@ == unrouted(
                input.method@,
                deps.router.methods_for(input.path@),
                origin_of(input),
                opt_policy(deps.global_cors_config),
            ),
            Some((id, params)) => routed_outcome(r, input, deps, id, params),
        },
{
    let origin: Option<&str> = match crate::maps::text_map_get(&input.headers, "origin") {
        Some(o) => Some(o.as_str()),
        None => None,
    };
    let found = match deps.router.find(input.method.as_str(), input.path.as_str()) {
        Some(f) => f,
        None => {
            if input.method.as_str().eq("OPTIONS") {
                match handle_automatic_options(
                    deps.router,
                    input.path.as_str(),
                    deps.global_cors_config,
                ) {
                    Some(r) => {
                        return PreDispatchResult::Error(r);
                    },
                    None => {},
                }
            }
            return PreDispatchResult::Error(build_404_response(origin, deps.global_cors_config));
        },
    };
    let handler_id = found.route.handler_id;
    let route_metadata: Option<&'a RouteMetadata> = deps.route_metadata.get(&handler_id);
    let mut auth_ctx: Option<AuthContext> = None;
    match route_metadata {
        Some(meta) => {
            let peer: Option<&str> = match &input.peer_addr {
                Some(p) => Some(p.as_str()),
                None => None,
            };
            match check_rate_limit(deps.rate_limits, handler_id, &input.headers, peer, meta) {
                Some(r) => {
                    return PreDispatchResult::Error(r);
                },
                None => {},
            }
            let cors = get_effective_cors_config(route_metadata, deps.global_cors_config);
            match validate_request_auth(&input.headers, meta, origin, cors) {
                Ok(ctx) => {
                    auth_ctx = ctx;
                },
                Err(r) => {
                    proof {
                        let (verdict, ctx) = choose|verdict: AuthGuardResult, ctx: Option<AuthContext>|
                            #![trigger explains(verdict, ctx, text_map(input.headers), meta.auth_backends@, meta.guards@)]
                            explains(
                                verdict,
                                ctx,
                                text_map(input.headers),
                                meta.auth_backends@,
                                meta.guards@,
                            ) && r@ == refusal(verdict_of(verdict), opt_str(origin), opt_policy(cors))
                                && verdict_of(verdict) != GuardResult::Allow;
                        assert(context_model(ctx) == context_model(ctx));
                        assert(turned_away(
                            r@,
                            text_map(input.headers),
                            *meta,
                            origin_of(input),
                            effective_policy(*meta, opt_policy(deps.global_cors_config)),
                        ));
                    }
                    return PreDispatchResult::Error(r);
                },
            }
        },
        None => {},
    }
    let query_params = match &input.query_string {
        Some(q) => {
            if needs_query_params(route_metadata) {
                parse_query_string(q.as_str())
            } else {
                text_map_new()
            }
        },
        None => text_map_new(),
    };
    PreDispatchResult::Ready {
        handler_id,
        path_params: found.path_params,
        query_params,
        auth_ctx,
        route_metadata,
        skip_compression: should_skip_compression(route_metadata),
        skip_cors: should_skip_cors(route_metadata),
        is_head_request: input.method.as_str().eq("HEAD"),
    }
}

/// What the client is told of a handler that failed: the message of the
/// failure when debugging, and no more than that there was an error
/// otherwise.
pub open spec fn shown_failure(message: Seq<char>, debug: bool) -> Seq<char> {
    if debug {
        message
    } else {
        "Internal Server Error"@
    }
}

/// The answer for a failure of the application: 500, with a body that says
/// what `shown_failure` allows.
pub fn failure_reply(message: &str, debug: bool) -> (r: HttpReply)
    ensures
        r.status == 500,
        pairs(r.headers@) == seq![("content-type"@, "application/json"@)],
        r.body@ == utf8(crate::request_pipeline::detail_body(shown_failure(message@, debug))),
{
    let shown: &str = if debug {
        message
    } else {
        "Internal Server Error"
    };
    crate::request_pipeline::detail_reply(500, shown)
}

/// The answer for a handler that failed, as `failure_reply` says.
pub fn handler_error_response(message: &str, debug: bool) -> (r: CoreHandlerResult)
    ensures
        r@ == (ResultModel::Error {
            status: 500,
            headers: seq![("content-type"@, "application/json"@)],
            body: utf8(crate::request_pipeline::detail_body(shown_failure(message@, debug))),
        }),
{
    CoreHandlerResult::Error(failure_reply(message, debug))
}

} // verus!
