//! Dispatch decisions that are made once, when a handler is registered, and
//! applied to every request: how the handler is called and where each of its
//! arguments comes from.

use vstd::prelude::*;
use ahash::AHashMap;
use crate::maps::{text_map, text_map_get, TextPairs};

verus! {

/// How a handler takes its arguments.
#[derive(Clone, Copy, Debug, PartialEq, Eq, Structural)]
pub enum DispatchMode {
    /// The handler takes the request and nothing else.
    RequestOnly,
    /// The handler takes arguments that are drawn from the request.
    Mixed,
}

/// How one argument of a handler is found.
#[derive(Debug)]
pub struct ParamPlan {
    pub name: String,
    /// 0 for a path parameter, anything else for a query parameter.
    pub source: u8,
    /// Whether the parameter has a default value.
    pub has_default: bool,
}

/// What is known of a handler when it is registered.
pub struct DispatchInfo {
    pub mode: DispatchMode,
    pub is_async: bool,
    pub is_blocking: bool,
    pub default_status_code: u16,
    pub has_middleware: bool,
    pub has_response_type: bool,
    pub has_file_uploads: bool,
    /// Whether the handler has an injector that draws its arguments.
    pub has_injector: bool,
    pub injector_is_async: bool,
    pub handler_id: u64,
    /// The plan for the arguments of a handler that takes only path and query
    /// parameters.
    pub param_plan: Vec<ParamPlan>,
    /// Whether the plan can be used: it is, if there is one.
    pub use_fast_inject: bool,
}

/// Where the value of an argument comes from.
#[derive(Debug, Clone, Copy, PartialEq, Eq, Structural)]
pub enum ArgSource {
    Path,
    Query,
    Default,
}

/// The argument that cannot be found.
#[derive(Debug)]
pub enum MissingParam {
    Path(String),
    Query(String),
}

/// How the handler is called.
#[derive(Debug, Clone, Copy, PartialEq, Eq, Structural)]
pub enum CallStrategy {
    /// With the request as its only argument.
    WithRequest,
    /// With the arguments that the plan draws from the request.
    FastInject,
    /// With the arguments that the injector draws from the request.
    Injector,
    /// Without arguments.
    Bare,
}

/// The mode that a number stands for: 0 for `RequestOnly`, anything else for
/// `Mixed`.
pub open spec fn mode_of(mode: u8) -> DispatchMode {
    if mode == 0 {
        DispatchMode::RequestOnly
    } else {
        DispatchMode::Mixed
    }
}

/// The number of a mode.
pub open spec fn mode_number(mode: DispatchMode) -> u8 {
    match mode {
        DispatchMode::RequestOnly => 0,
        DispatchMode::Mixed => 1,
    }
}

/// How a handler is called.
pub open spec fn strategy_of(mode: DispatchMode, use_fast_inject: bool, has_injector: bool) -> CallStrategy {
    match mode {
        DispatchMode::RequestOnly => CallStrategy::WithRequest,
        DispatchMode::Mixed => if use_fast_inject {
            CallStrategy::FastInject
        } else if has_injector {
            CallStrategy::Injector
        } else {
            CallStrategy::Bare
        },
    }
}

/// Where one argument comes from: a path parameter must be among the path
/// parameters; a query parameter is taken from the query if it is there and
/// else is its default, if it has one.
pub open spec fn arg_source(
    name: Seq<char>,
    source: u8,
    has_default: bool,
    path: TextPairs,
    query: TextPairs,
) -> Option<ArgSource> {
    if source == 0 {
        if path.contains_key(name) {
            Some(ArgSource::Path)
        } else {
            None
        }
    } else if query.contains_key(name) {
        Some(ArgSource::Query)
    } else if has_default {
        Some(ArgSource::Default)
    } else {
        None
    }
}

/// Whether every argument of the first `n` of a plan can be found.
pub open spec fn all_found(plan: Seq<ParamPlan>, n: int, path: TextPairs, query: TextPairs) -> bool {
    forall|i: int|
        0 <= i < n ==> arg_source(
            (#[trigger] plan[i]).name@,
            plan[i].source,
            plan[i].has_default,
            path,
            query,
        ) is Some
}

impl DispatchInfo {
    /// Gathers what is known of a handler. The plan is used if it is not
    /// empty.
    pub fn new(
        handler_id: u64,
        mode: u8,
        is_async: bool,
        is_blocking: bool,
        default_status_code: u16,
        has_middleware: bool,
        has_response_type: bool,
        has_file_uploads: bool,
        has_injector: bool,
        injector_is_async: bool,
        param_plan: Option<Vec<ParamPlan>>,
    ) -> (info: Self)
        ensures
            info.handler_id == handler_id,
            info.mode == mode_of(mode),
            info.is_async == is_async,
            info.is_blocking == is_blocking,
            info.default_status_code == default_status_code,
            info.has_middleware == has_middleware,
            info.has_response_type == has_response_type,
            info.has_file_uploads == has_file_uploads,
            info.has_injector == has_injector,
            info.injector_is_async == injector_is_async,
            info.param_plan@ == (match param_plan {
                Some(p) => p@,
                None => Seq::empty(),
            }),
            info.use_fast_inject == (info.param_plan@.len() > 0),
    {
        let plan: Vec<ParamPlan> = match param_plan {
            Some(p) => p,
            None => Vec::new(),
        };
        let use_fast_inject = plan.len() > 0;
        DispatchInfo {
            mode: if mode == 0 {
                DispatchMode::RequestOnly
            } else {
                DispatchMode::Mixed
            },
            is_async,
            is_blocking,
            default_status_code,
            has_middleware,
            has_response_type,
            has_file_uploads,
            has_injector,
            injector_is_async,
            handler_id,
            param_plan: plan,
            use_fast_inject,
        }
    }

    /// The id of the handler.
    pub fn handler_id(&self) -> (id: u64)
        ensures
            id == self.handler_id,
    {
        self.handler_id
    }

    /// The number of the mode.
    pub fn mode_int(&self) -> (n: u8)
        ensures
            n == mode_number(self.mode),
    {
        match self.mode {
            DispatchMode::RequestOnly => 0,
            DispatchMode::Mixed => 1,
        }
    }

    /// How the handler is called.
    pub fn strategy(&self) -> (s: CallStrategy)
        ensures
            s == strategy_of(self.mode, self.use_fast_inject, self.has_injector),
    {
        match self.mode {
            DispatchMode::RequestOnly => CallStrategy::WithRequest,
            DispatchMode::Mixed => if self.use_fast_inject {
                CallStrategy::FastInject
            } else if self.has_injector {
                CallStrategy::Injector
            } else {
                CallStrategy::Bare
            },
        }
    }
}

/// Finds where each argument of a plan comes from. Fails at the first
/// argument that cannot be found, and names it.
pub fn fast_inject_simple(
    path_params: &AHashMap<String, String>,
    query_params: &AHashMap<String, String>,
    plan: &Vec<ParamPlan>,
) -> (r: Result<Vec<ArgSource>, MissingParam>)
    ensures
        match r {
            Ok(sources) => sources@.len() == plan@.len() && forall|i: int|
                0 <= i < plan@.len() ==> Some(#[trigger] sources@[i]) == arg_source(
                    plan@[i].name@,
                    plan@[i].source,
                    plan@[i].has_default,
                    text_map(*path_params),
                    text_map(*query_params),
                ),
            Err(missing) => exists|k: int|
                #![trigger plan@[k]]
                0 <= k < plan@.len() && all_found(
                    plan@,
                    k,
                    text_map(*path_params),
                    text_map(*query_params),
                ) && arg_source(
                    plan@[k].name@,
                    plan@[k].source,
                    plan@[k].has_default,
                    text_map(*path_params),
                    text_map(*query_params),
                ) is None && (match missing {
                    MissingParam::Path(name) => plan@[k].source == 0 && name@ == plan@[k].name@,
                    MissingParam::Query(name) => plan@[k].source != 0 && name@ == plan@[k].name@,
                }),
        },
{
    let mut sources: Vec<ArgSource> = Vec::new();
    let mut i: usize = 0;
    while i < plan.len()
        invariant
            i <= plan.len(),
            sources@.len() == i,
            forall|j: int|
                0 <= j < i ==> Some(#[trigger] sources@[j]) == arg_source(
                    plan@[j].name@,
                    plan@[j].source,
                    plan@[j].has_default,
                    text_map(*path_params),
                    text_map(*query_params),
                ),
        decreases plan.len() - i,
    {
        let p = &plan[i];
        if p.source == 0 {
            if text_map_get(path_params, p.name.as_str()).is_some() {
                sources.push(ArgSource::Path);
            } else {
                assert(all_found(plan@, i as int, text_map(*path_params), text_map(*query_params)))
                    by {
                    assert forall|j: int| 0 <= j < i implies arg_source(
                        (#[trigger] plan@[j]).name@,
                        plan@[j].source,
                        plan@[j].has_default,
                        text_map(*path_params),
                        text_map(*query_params),
                    ) is Some by {
                        assert(Some(sources@[j]) == arg_source(
                            plan@[j].name@,
                            plan@[j].source,
                            plan@[j].has_default,
                            text_map(*path_params),
                            text_map(*query_params),
                        ));
                    }
                }
                return Err(MissingParam::Path(p.name.clone()));
            }
        } else if text_map_get(query_params, p.name.as_str()).is_some() {
            sources.push(ArgSource::Query);
        } else if p.has_default {
            sources.push(ArgSource::Default);
        } else {
            assert(all_found(plan@, i as int, text_map(*path_params), text_map(*query_params))) by {
                assert forall|j: int| 0 <= j < i implies arg_source(
                    (#[trigger] plan@[j]).name@,
                    plan@[j].source,
                    plan@[j].has_default,
                    text_map(*path_params),
                    text_map(*query_params),
                ) is Some by {
                    assert(Some(sources@[j]) == arg_source(
                        plan@[j].name@,
                        plan@[j].source,
                        plan@[j].has_default,
                        text_map(*path_params),
                        text_map(*query_params),
                    ));
                }
            }
            return Err(MissingParam::Query(p.name.clone()));
        }
        i += 1;
    }
    Ok(sources)
}

/// Finds the first of the named path parameters that the request does not
/// have.
pub fn fast_inject_path_only(path_params: &AHashMap<String, String>, names: &Vec<String>) -> (r:
    Option<String>)
    ensures
        match r {
            None => forall|i: int|
                0 <= i < names@.len() ==> text_map(*path_params).contains_key(
                    (#[trigger] names@[i])@,
                ),
            Some(name) => exists|k: int|
                #![trigger names@[k]]
                0 <= k < names@.len() && name@ == names@[k]@ && !text_map(
                    *path_params,
                ).contains_key(names@[k]@) && forall|i: int|
                    0 <= i < k ==> text_map(*path_params).contains_key((#[trigger] names@[i])@),
        },
{
    let mut i: usize = 0;
    while i < names.len()
        invariant
            i <= names.len(),
            forall|j: int|
                0 <= j < i ==> text_map(*path_params).contains_key((#[trigger] names@[j])@),
        decreases names.len() - i,
    {
        if text_map_get(path_params, names[i].as_str()).is_none() {
            return Some(names[i].clone());
        }
        i += 1;
    }
    None
}

/// Says for each of the named query parameters whether the request has it;
/// where it has not, the default of the parameter stands in.
pub fn fast_inject_query_only(query_params: &AHashMap<String, String>, names: &Vec<String>) -> (r:
    Vec<ArgSource>)
    ensures
        r@.len() == names@.len(),
        forall|i: int|
            0 <= i < names@.len() ==> #[trigger] r@[i] == (if text_map(*query_params).contains_key(
                names@[i]@,
            ) {
                ArgSource::Query
            } else {
                ArgSource::Default
            }),
{
    let mut sources: Vec<ArgSource> = Vec::new();
    let mut i: usize = 0;
    while i < names.len()
        invariant
            i <= names.len(),
            sources@.len() == i,
            forall|j: int|
                0 <= j < i ==> #[trigger] sources@[j] == (if text_map(*query_params).contains_key(
                    names@[j]@,
                ) {
                    ArgSource::Query
                } else {
                    ArgSource::Default
                }),
        decreases names.len() - i,
    {
        if text_map_get(query_params, names[i].as_str()).is_some() {
            sources.push(ArgSource::Query);
        } else {
            sources.push(ArgSource::Default);
        }
        i += 1;
    }
    sources
}

/// What is made of the value that a handler returned on the fast path.
#[derive(Debug, Clone, Copy, PartialEq, Eq, Structural)]
pub enum FastResult {
    /// The value is a dictionary or a list: it is written as JSON and
    /// answered with the status.
    Json(u16),
    /// Any other value is left to the general path.
    Fallback,
}

/// Says what is made of the value that a handler returned on the fast path.
pub fn fast_serialize_json(is_dict_or_list: bool, status_code: u16) -> (r: FastResult)
    ensures
        r == (if is_dict_or_list {
            FastResult::Json(status_code)
        } else {
            FastResult::Fallback
        }),
{
    if is_dict_or_list {
        FastResult::Json(status_code)
    } else {
        FastResult::Fallback
    }
}

/// Says how a handler is called and with which status its value is answered
/// if the value can be written as JSON.
pub fn fast_dispatch_full(info: &DispatchInfo) -> (r: (CallStrategy, u16))
    ensures
        r.0 == strategy_of(info.mode, info.use_fast_inject, info.has_injector),
        r.1 == info.default_status_code,
{
    (info.strategy(), info.default_status_code)
}

/// The same as `fast_dispatch_full`.
pub fn fast_dispatch_sync(info: &DispatchInfo) -> (r: (CallStrategy, u16))
    ensures
        r.0 == strategy_of(info.mode, info.use_fast_inject, info.has_injector),
        r.1 == info.default_status_code,
{
    fast_dispatch_full(info)
}

} // verus!
