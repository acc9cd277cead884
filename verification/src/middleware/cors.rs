//! The CORS step that runs after the handler: it finds the configuration
//! that applies to the request and adds the headers to the response,
//! whatever produced the response.

use vstd::prelude::*;
use ahash::AHashSet;
use regex::Regex;
use crate::cors::{
    add_preflight_headers_with_config, apply_cors_headers, cors_allowed, cors_headers, opt_str,
    preflight_headers, CorsConfig, CorsPolicy,
};
use crate::headers::{has_header, header_index, header_remove, without_header, HeaderSeq};
use crate::maps::text_set;
use crate::response_meta::pairs;
use crate::router::Router;
use crate::state::AppState;

verus! {

/// The response header by which a handler asks for no CORS headers. It is
/// never sent.
pub const SKIP_MARK: &'static str = "x-bolt-skip-cors";

/// The factory of the CORS step.
pub struct CorsMiddleware;

/// The CORS step.
pub struct CorsMiddlewareService;

/// The configuration that applies to a request.
pub enum CorsConfigResult<'a> {
    /// The route's own configuration.
    Route(&'a CorsConfig),
    /// The global configuration.
    Global(&'a CorsConfig),
    /// The route bypasses CORS.
    Skipped,
}

/// The model of `CorsConfigResult`.
pub enum CorsChoice {
    Route(CorsPolicy),
    Global(CorsPolicy),
    Skipped,
}

/// The model of an optional `CorsConfigResult`.
pub open spec fn choice_view(r: Option<CorsConfigResult<'_>>) -> Option<CorsChoice> {
    match r {
        Some(CorsConfigResult::Route(c)) => Some(CorsChoice::Route(c@)),
        Some(CorsConfigResult::Global(c)) => Some(CorsChoice::Global(c@)),
        Some(CorsConfigResult::Skipped) => Some(CorsChoice::Skipped),
        None => None,
    }
}

/// What the request says that matters to CORS.
pub struct CorsRequest<'a> {
    /// The `Origin` header.
    pub origin: Option<&'a str>,
    pub method: &'a str,
    pub path: &'a str,
    /// Whether the request carries `Access-Control-Request-Method`.
    pub asks_for_method: bool,
}

/// The global configuration as a choice, if there is one.
pub open spec fn global_choice(state: &AppState) -> Option<CorsChoice> {
    match state.global_cors_config {
        Some(g) => Some(CorsChoice::Global(g@)),
        None => None,
    }
}

/// What the route that matches the method and the path says about CORS:
/// that it is skipped, or its own configuration. Nothing where no route
/// matches or the route says nothing.
pub open spec fn route_choice(state: &AppState, router: &Router, method: Seq<char>, path: Seq<char>) -> Option<
    CorsChoice,
> {
    match router.find_spec(method, path) {
        Some((id, _)) => match state.metadata_of(id) {
            Some(meta) => if meta.skips("cors"@) {
                Some(CorsChoice::Skipped)
            } else {
                match meta.cors_config {
                    Some(c) => Some(CorsChoice::Route(c@)),
                    None => None,
                }
            },
            None => None,
        },
        None => None,
    }
}

/// The configuration for a method and a path: what the route says, else the
/// global configuration. Nothing without a router.
pub open spec fn method_choice(state: &AppState, method: Seq<char>, path: Seq<char>) -> Option<
    CorsChoice,
> {
    match state.router {
        Some(router) => match route_choice(state, &router, method, path) {
            Some(c) => Some(c),
            None => global_choice(state),
        },
        None => None,
    }
}

/// The first of two choices that is one.
pub open spec fn or_else(a: Option<CorsChoice>, b: Option<CorsChoice>) -> Option<CorsChoice> {
    match a {
        Some(c) => Some(c),
        None => b,
    }
}

/// What the routes for a path say about CORS, whatever the method: what the
/// first of the routes for OPTIONS, GET, POST, PUT, PATCH, DELETE and HEAD
/// says that says anything.
pub open spec fn path_choice(state: &AppState, router: &Router, path: Seq<char>) -> Option<
    CorsChoice,
> {
    or_else(
        route_choice(state, router, "OPTIONS"@, path),
        or_else(
            route_choice(state, router, "GET"@, path),
            or_else(
                route_choice(state, router, "POST"@, path),
                or_else(
                    route_choice(state, router, "PUT"@, path),
                    or_else(
                        route_choice(state, router, "PATCH"@, path),
                        or_else(
                            route_choice(state, router, "DELETE"@, path),
                            route_choice(state, router, "HEAD"@, path),
                        ),
                    ),
                ),
            ),
        ),
    )
}

/// The configuration that applies to a request: what the route for the
/// method and the path says, else the global configuration. An `OPTIONS`
/// request asks on behalf of another method, so for it the routes of every
/// method for the path are asked before the global configuration. Nothing
/// without a router.
pub open spec fn cors_choice(state: &AppState, method: Seq<char>, path: Seq<char>) -> Option<
    CorsChoice,
> {
    match state.router {
        None => None,
        Some(router) => if method != "OPTIONS"@ {
            method_choice(state, method, path)
        } else {
            or_else(path_choice(state, &router, path), global_choice(state))
        },
    }
}

/// A preflight request is judged by the configuration of the routes for its
/// path, whatever the global configuration says: where a route for the path
/// has its own configuration, and no route for the path says anything else,
/// that configuration applies.
pub proof fn lemma_route_configuration_wins(
    state: &AppState,
    method: Seq<char>,
    path: Seq<char>,
    c: CorsPolicy,
)
    requires
        state.router is Some,
        crate::router::method_of(method) is Some,
        route_choice(state, &state.router->0, method, path) == Some(CorsChoice::Route(c)),
        forall|m: Seq<char>|
            (#[trigger] route_choice(state, &state.router->0, m, path)) is None || route_choice(
                state,
                &state.router->0,
                m,
                path,
            ) == Some(CorsChoice::Route(c)),
    ensures
        cors_choice(state, "OPTIONS"@, path) == Some(CorsChoice::Route(c)),
{
    let router = &state.router->0;
    assert(route_choice(state, router, "OPTIONS"@, path) is None || route_choice(
        state,
        router,
        "OPTIONS"@,
        path,
    ) == Some(CorsChoice::Route(c)));
    assert(route_choice(state, router, "GET"@, path) is None || route_choice(
        state,
        router,
        "GET"@,
        path,
    ) == Some(CorsChoice::Route(c)));
    assert(route_choice(state, router, "POST"@, path) is None || route_choice(
        state,
        router,
        "POST"@,
        path,
    ) == Some(CorsChoice::Route(c)));
    assert(route_choice(state, router, "PUT"@, path) is None || route_choice(
        state,
        router,
        "PUT"@,
        path,
    ) == Some(CorsChoice::Route(c)));
    assert(route_choice(state, router, "PATCH"@, path) is None || route_choice(
        state,
        router,
        "PATCH"@,
        path,
    ) == Some(CorsChoice::Route(c)));
    assert(route_choice(state, router, "DELETE"@, path) is None || route_choice(
        state,
        router,
        "DELETE"@,
        path,
    ) == Some(CorsChoice::Route(c)));
    assert(route_choice(state, router, "HEAD"@, path) is None || route_choice(
        state,
        router,
        "HEAD"@,
        path,
    ) == Some(CorsChoice::Route(c)));
}

/// The global set of origins of a state.
pub open spec fn global_origins(state: &AppState) -> Option<Set<Seq<char>>> {
    match state.global_cors_config {
        Some(g) => Some(text_set(g.origin_set)),
        None => None,
    }
}

/// The global origin expressions of a state, if it has any.
pub open spec fn global_regexes(state: &AppState) -> Option<Seq<Regex>> {
    if state.cors_origin_regexes@.len() == 0 {
        None
    } else {
        Some(state.cors_origin_regexes@)
    }
}

/// The status and headers of a response after the CORS step.
///
/// A request without `Origin` only loses the skip mark. A preflight request
/// (`OPTIONS` that asks for a method) whose origin is allowed is answered
/// with 204 and the CORS and preflight headers. Any other response that
/// carries the skip mark only loses it; otherwise it gets the CORS headers of
/// the configuration that applies, and the preflight headers too if the
/// method is `OPTIONS` and the origin is allowed.
pub open spec fn cors_outcome(
    origin: Option<Seq<char>>,
    method: Seq<char>,
    path: Seq<char>,
    asks_for_method: bool,
    state: Option<&AppState>,
    status: u16,
    h: HeaderSeq,
) -> (u16, HeaderSeq) {
    if origin is None {
        (status, without_header(h, SKIP_MARK@))
    } else if method == "OPTIONS"@ && asks_for_method {
        match state {
            Some(s) => match cors_choice(s, "OPTIONS"@, path) {
                Some(CorsChoice::Route(c)) | Some(CorsChoice::Global(c)) => if cors_allowed(
                    c,
                    origin,
                    global_origins(s),
                    global_regexes(s),
                ) {
                    (
                        204u16,
                        preflight_headers(
                            cors_headers(h, c, origin, global_origins(s), global_regexes(s)),
                            c,
                        ),
                    )
                } else {
                    (status, h)
                },
                _ => (status, h),
            },
            None => (status, h),
        }
    } else if has_header(h, SKIP_MARK@) {
        (status, without_header(h, SKIP_MARK@))
    } else {
        match state {
            Some(s) => match cors_choice(s, method, path) {
                Some(CorsChoice::Route(c)) | Some(CorsChoice::Global(c)) => {
                    let with_cors = cors_headers(h, c, origin, global_origins(s), global_regexes(s));
                    if method == "OPTIONS"@ && cors_allowed(
                        c,
                        origin,
                        global_origins(s),
                        global_regexes(s),
                    ) {
                        (status, preflight_headers(with_cors, c))
                    } else {
                        (status, with_cors)
                    }
                },
                _ => (status, h),
            },
            None => (status, h),
        }
    }
}

impl CorsMiddleware {
    /// The factory of the CORS step.
    pub fn new() -> (m: Self)
        ensures
            m == CorsMiddleware,
    {
        CorsMiddleware
    }

    /// The CORS step that this factory makes.
    pub fn new_transform(&self) -> (s: CorsMiddlewareService)
        ensures
            s == CorsMiddlewareService,
    {
        CorsMiddlewareService
    }
}

impl Default for CorsMiddleware {
    fn default() -> (m: Self)
        ensures
            m == CorsMiddleware,
    {
        CorsMiddleware::new()
    }
}

/// Adds the CORS headers for a configuration, with the global origins and
/// expressions of the state as fallbacks.
pub fn add_cors_headers_with_config(
    headers: &mut Vec<(String, String)>,
    request_origin: Option<&str>,
    cors_config: &CorsConfig,
    state: &AppState,
) -> (allowed: bool)
    ensures
        allowed == cors_allowed(
            cors_config@,
            opt_str(request_origin),
            global_origins(state),
            global_regexes(state),
        ),
        pairs(final(headers)@) == cors_headers(
            pairs(old(headers)@),
            cors_config@,
            opt_str(request_origin),
            global_origins(state),
            global_regexes(state),
        ),
{
    let set: Option<&AHashSet<String>> = match &state.global_cors_config {
        Some(g) => Some(&g.origin_set),
        None => None,
    };
    let regexes: Option<&[Regex]> = if state.cors_origin_regexes.len() == 0 {
        None
    } else {
        Some(state.cors_origin_regexes.as_slice())
    };
    apply_cors_headers(headers, request_origin, cors_config, set, regexes)
}

/// The global configuration of the state, as the choice for a request.
fn find_global(state: &AppState) -> (r: Option<CorsConfigResult<'_>>)
    ensures
        choice_view(r) == global_choice(state),
{
    match &state.global_cors_config {
        Some(g) => Some(CorsConfigResult::Global(g)),
        None => None,
    }
}

/// Asks the route for a method and a path about CORS.
fn find_route_cors<'a>(method: &str, path: &str, state: &'a AppState, router: &Router) -> (r:
    Option<CorsConfigResult<'a>>)
    ensures
        choice_view(r) == route_choice(state, router, method@, path@),
{
    match router.find(method, path) {
        Some(found) => {
            match state.get_route_metadata(found.handler_id()) {
                Some(meta) => {
                    if meta.skips_policy("cors") {
                        return Some(CorsConfigResult::Skipped);
                    }
                    match &meta.cors_config {
                        Some(c) => Some(CorsConfigResult::Route(c)),
                        None => None,
                    }
                },
                None => None,
            }
        },
        None => None,
    }
}

/// Finds the configuration for one method and a path.
fn find_cors_for_method<'a>(method: &str, path: &str, state: &'a AppState) -> (r: Option<
    CorsConfigResult<'a>,
>)
    ensures
        choice_view(r) == method_choice(state, method@, path@),
{
    let router = match state.get_router() {
        Some(r) => r,
        None => {
            return None;
        },
    };
    match find_route_cors(method, path, state, router) {
        Some(c) => Some(c),
        None => find_global(state),
    }
}

/// Asks the routes of every method for a path about CORS.
fn find_path_cors<'a>(path: &str, state: &'a AppState, router: &Router) -> (r: Option<
    CorsConfigResult<'a>,
>)
    ensures
        choice_view(r) == path_choice(state, router, path@),
{
    match find_route_cors("OPTIONS", path, state, router) {
        Some(c) => {
            return Some(c);
        },
        None => {},
    }
    match find_route_cors("GET", path, state, router) {
        Some(c) => {
            return Some(c);
        },
        None => {},
    }
    match find_route_cors("POST", path, state, router) {
        Some(c) => {
            return Some(c);
        },
        None => {},
    }
    match find_route_cors("PUT", path, state, router) {
        Some(c) => {
            return Some(c);
        },
        None => {},
    }
    match find_route_cors("PATCH", path, state, router) {
        Some(c) => {
            return Some(c);
        },
        None => {},
    }
    match find_route_cors("DELETE", path, state, router) {
        Some(c) => {
            return Some(c);
        },
        None => {},
    }
    find_route_cors("HEAD", path, state, router)
}

/// Finds the configuration that applies to a request.
fn find_cors_config<'a>(method: &str, path: &str, state: &'a AppState) -> (r: Option<
    CorsConfigResult<'a>,
>)
    ensures
        choice_view(r) == cors_choice(state, method@, path@),
{
    let router = match state.get_router() {
        Some(r) => r,
        None => {
            return None;
        },
    };
    if !method.eq("OPTIONS") {
        return find_cors_for_method(method, path, state);
    }
    match find_path_cors(path, state, router) {
        Some(c) => Some(c),
        None => find_global(state),
    }
}

impl CorsMiddlewareService {
    /// Applies CORS to a response. Returns the status to send; the headers
    /// are changed in place.
    pub fn call(
        &self,
        req: &CorsRequest<'_>,
        state: Option<&AppState>,
        status: u16,
        headers: &mut Vec<(String, String)>,
    ) -> (sent: u16)
        ensures
            (sent, pairs(final(headers)@)) == cors_outcome(
                opt_str(req.origin),
                req.method@,
                req.path@,
                req.asks_for_method,
                state,
                status,
                pairs(old(headers)@),
            ),
    {
        if req.origin.is_none() {
            header_remove(headers, SKIP_MARK);
            return status;
        }
        let is_options = req.method.eq("OPTIONS");
        if is_options && req.asks_for_method {
            let s = match state {
                Some(s) => s,
                None => {
                    return status;
                },
            };
            return match find_cors_config("OPTIONS", req.path, s) {
                Some(CorsConfigResult::Route(c)) | Some(CorsConfigResult::Global(c)) => {
                    let allowed = add_cors_headers_with_config(headers, req.origin, c, s);
                    if allowed {
                        add_preflight_headers_with_config(headers, c);
                        204
                    } else {
                        status
                    }
                },
                _ => status,
            };
        }
        if header_index(headers, SKIP_MARK).is_some() {
            header_remove(headers, SKIP_MARK);
            return status;
        }
        let s = match state {
            Some(s) => s,
            None => {
                return status;
            },
        };
        match find_cors_config(req.method, req.path, s) {
            Some(CorsConfigResult::Route(c)) | Some(CorsConfigResult::Global(c)) => {
                let allowed = add_cors_headers_with_config(headers, req.origin, c, s);
                if is_options && allowed {
                    add_preflight_headers_with_config(headers, c);
                }
            },
            _ => {},
        }
        status
    }
}

} // verus!
