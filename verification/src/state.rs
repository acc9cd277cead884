//! The state that all requests share: settings, the global CORS
//! configuration, the route table and the metadata of the routes. It is set
//! up once and only read afterwards.

use vstd::prelude::*;
use std::collections::HashMap;
use regex::Regex;
use crate::cors::CorsConfig;
use crate::metadata::RouteMetadata;
use crate::numbers::{bounded_text, read_unsigned};
use crate::router::Router;
use crate::text::chars_of;

verus! {

broadcast use vstd::std_specs::hash::group_hash_axioms;

/// Application state shared across all requests.
pub struct AppState {
    pub debug: bool,
    /// The greatest size of a header value, in bytes.
    pub max_header_size: usize,
    pub global_cors_config: Option<CorsConfig>,
    /// The origin expressions of the global CORS configuration.
    pub cors_origin_regexes: Vec<Regex>,
    pub router: Option<Router>,
    pub route_metadata: Option<HashMap<usize, RouteMetadata>>,
}

impl AppState {
    /// The router, if one is installed.
    pub fn get_router(&self) -> (r: Option<&Router>)
        ensures
            r is Some == self.router is Some,
            r matches Some(router) ==> *router == self.router->0,
    {
        self.router.as_ref()
    }

    /// The metadata of a handler, if the handler has any.
    pub open spec fn metadata_of(&self, handler_id: usize) -> Option<RouteMetadata> {
        match self.route_metadata {
            Some(m) => if m@.contains_key(handler_id) {
                Some(m@[handler_id])
            } else {
                None
            },
            None => None,
        }
    }

    /// Looks up the metadata of a handler.
    pub fn get_route_metadata(&self, handler_id: usize) -> (r: Option<&RouteMetadata>)
        ensures
            r is Some == self.metadata_of(handler_id) is Some,
            r matches Some(m) ==> *m == self.metadata_of(handler_id)->0,
    {
        match &self.route_metadata {
            Some(m) => m.get(&handler_id),
            None => None,
        }
    }

    /// Whether a router is installed in this state.
    pub fn is_test_mode(&self) -> (r: bool)
        ensures
            r == self.router is Some,
    {
        self.router.is_some()
    }
}

/// The value of a numeric setting that may be given in the environment, in
/// the host's settings, or not at all: the environment wins over the
/// settings, and a value counts only if it is a number of at least `least`.
pub open spec fn numeric_setting(
    env: Option<Seq<char>>,
    setting: Option<u64>,
    least: u64,
    fallback: u64,
) -> u64 {
    let from_env = match env {
        Some(text) => match bounded_text(text, u64::MAX as nat) {
            Some(n) => if n >= least {
                Some(n as u64)
            } else {
                None
            },
            None => None,
        },
        None => None,
    };
    match from_env {
        Some(n) => n,
        None => match setting {
            Some(n) => if n >= least {
                n
            } else {
                fallback
            },
            None => fallback,
        },
    }
}

/// Resolves a numeric setting.
pub fn resolve_setting(env: Option<&str>, setting: Option<u64>, least: u64, fallback: u64) -> (r:
    u64)
    ensures
        r == numeric_setting(crate::cors::opt_str(env), setting, least, fallback),
{
    match env {
        Some(text) => {
            let chars = chars_of(text);
            match read_unsigned(chars.as_slice(), u64::MAX) {
                Some(n) => {
                    if n >= least {
                        return n;
                    }
                },
                None => {},
            }
        },
        None => {},
    }
    match setting {
        Some(n) => if n >= least {
            n
        } else {
            fallback
        },
        None => fallback,
    }
}

/// The greatest number of threads that may serve synchronous streams at one
/// time: the positive number given in the environment, else the positive
/// number given in the settings, else 1000.
pub fn get_max_sync_streaming_threads(env: Option<&str>, setting: Option<u64>) -> (r: u64)
    ensures
        r == numeric_setting(crate::cors::opt_str(env), setting, 1, 1000),
{
    resolve_setting(env, setting, 1, 1000)
}

} // verus!
