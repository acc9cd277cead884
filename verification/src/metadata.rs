//! What is known about a route besides its handler: who may call it, how
//! often, with which CORS rules, and what the handler wants to see.

use vstd::prelude::*;
use ahash::{AHashMap, AHashSet};
use crate::cors::CorsConfig;
use crate::maps::{text_set, text_set_contains, text_set_new, type_map, type_map_new, TagPairs};
use crate::middleware::auth::AuthBackend;
use crate::permissions::Guard;

verus! {

/// The rate limit of a route: a token bucket that refills `rps` times a
/// second and holds at most `burst` tokens, one bucket per key.
#[derive(Debug)]
pub struct RateLimitConfig {
    pub rps: u32,
    pub burst: u32,
    /// `"ip"` to key the buckets by client address, or the name of the header
    /// whose value is the key.
    pub key_type: String,
}

/// The rate that a limit has where none is given.
pub const DEFAULT_RPS: u32 = 100;

/// The burst of a limit for which none is given: twice the rate, or the
/// greatest number where twice the rate is more than that.
pub open spec fn default_burst(rps: u32) -> u32 {
    if rps > u32::MAX / 2 {
        u32::MAX
    } else {
        (rps * 2) as u32
    }
}

/// Assembles the rate limit of a route from settings of which any may be
/// absent: the rate is 100 a second, the burst twice the rate, and the
/// buckets are keyed by client address, unless they are set.
pub fn rate_limit_config_from_parts(rps: Option<u32>, burst: Option<u32>, key: Option<String>) -> (c:
    RateLimitConfig)
    ensures
        c.rps == (match rps {
            Some(n) => n,
            None => DEFAULT_RPS,
        }),
        c.burst == (match burst {
            Some(n) => n,
            None => default_burst(c.rps),
        }),
        c.key_type@ == (match key {
            Some(k) => k@,
            None => "ip"@,
        }),
{
    let rps: u32 = match rps {
        Some(n) => n,
        None => DEFAULT_RPS,
    };
    let burst: u32 = match burst {
        Some(n) => n,
        None => if rps > u32::MAX / 2 {
            u32::MAX
        } else {
            rps * 2
        },
    };
    let key_type = match key {
        Some(k) => k,
        None => "ip".to_owned(),
    };
    RateLimitConfig { rps, burst, key_type }
}

/// The metadata of one route, fixed when the route is registered.
#[derive(Debug)]
pub struct RouteMetadata {
    /// Tried in order; the first that succeeds authenticates the caller.
    pub auth_backends: Vec<AuthBackend>,
    /// All of them must allow the caller.
    pub guards: Vec<Guard>,
    pub rate_limit_config: Option<RateLimitConfig>,
    /// Overrides the global CORS configuration for this route.
    pub cors_config: Option<CorsConfig>,
    /// The policies that this route bypasses: `"cors"`, `"compression"`.
    pub skip: AHashSet<String>,
    /// The type tag of each typed parameter.
    pub param_types: AHashMap<String, u8>,
    pub needs_headers: bool,
    pub needs_cookies: bool,
    pub needs_query: bool,
}

impl Default for RouteMetadata {
    /// The metadata of a route of which nothing is said: no authentication,
    /// no limit, no CORS override, nothing skipped, and a handler that wants
    /// to see everything.
    fn default() -> (m: Self)
        ensures
            m.auth_backends@.len() == 0,
            m.guards@.len() == 0,
            m.rate_limit_config is None,
            m.cors_config is None,
            text_set(m.skip) == Set::<Seq<char>>::empty(),
            type_map(m.param_types) == TagPairs::empty(),
            m.needs_headers && m.needs_cookies && m.needs_query,
    {
        RouteMetadata {
            auth_backends: Vec::new(),
            guards: Vec::new(),
            rate_limit_config: None,
            cors_config: None,
            skip: text_set_new(),
            param_types: type_map_new(),
            needs_headers: true,
            needs_cookies: true,
            needs_query: true,
        }
    }
}

impl RouteMetadata {
    /// Whether the route bypasses the named policy.
    pub open spec fn skips(&self, policy: Seq<char>) -> bool {
        text_set(self.skip).contains(policy)
    }

    /// Decides whether the route bypasses the named policy.
    pub fn skips_policy(&self, policy: &str) -> (r: bool)
        ensures
            r == self.skips(policy@),
    {
        text_set_contains(&self.skip, policy)
    }
}

} // verus!
