//! Rate limiting: which bucket a request draws from and what a request over
//! the limit is told. The buckets themselves are token buckets of the
//! `governor` crate, kept in a concurrent map of the `dashmap` crate.

use vstd::prelude::*;
use vstd::string::StrSliceExecFns;
use ahash::AHashMap;
use crate::maps::{text_map, text_map_get, utf8, TextPairs};
use crate::metadata::RateLimitConfig;
use crate::middleware::auth::carried;
use crate::numbers::{decimal, decimal_of};
use crate::response_builder::{build_rate_limit_response, rate_limit_headers, HttpReply};
use crate::response_meta::pairs;
use crate::text::{
    ascii_lower, chars_of, extend_chars, split, split_seq, string_of, trim, trim_seq,
    lemma_split_nonempty,
};

verus! {

/// The buckets of all routes: one token bucket for each handler and key.
#[verifier::external_body]
pub struct RateLimitStore {
    buckets: dashmap::DashMap<(usize, String), std::sync::Arc<governor::DefaultDirectRateLimiter>>,
}

/// `DashMap::new`: a store without buckets.
#[verifier::external_body]
fn empty_store() -> RateLimitStore {
    RateLimitStore { buckets: dashmap::DashMap::new() }
}

/// A store without buckets: every handler and key starts with a full bucket.
pub fn rate_limit_store() -> RateLimitStore {
    empty_store()
}

/// `DashMap::entry` with `or_insert`, then `RateLimiter::check`: draws one
/// token from the bucket for the handler and the key, which is made with the
/// given rate and burst if it is not there yet. Nothing if there was a
/// token; else the whole seconds until there will be one. The outcome depends
/// on the clock and on the requests before.
#[verifier::external_body]
fn draw_token(store: &RateLimitStore, handler_id: usize, key: &str, rps: u32, burst: u32) -> Option<
    u64,
>
    requires
        rps >= 1,
        burst >= 1,
{
    let quota = governor::Quota::per_second(std::num::NonZeroU32::new(rps).unwrap())
        .allow_burst(std::num::NonZeroU32::new(burst).unwrap());
    let fresh = std::sync::Arc::new(governor::RateLimiter::direct(quota));
    let limiter = store.buckets.entry((handler_id, key.to_owned())).or_insert(fresh).clone();
    match limiter.check() {
        Ok(_) => None,
        Err(wait) => Some(
            wait.wait_time_from(governor::clock::Clock::now(&governor::clock::DefaultClock::default())).as_secs(),
        ),
    }
}

/// The first entry of a comma-separated list, without surrounding white
/// space.
pub open spec fn first_entry(list: Seq<char>) -> Seq<char> {
    trim_seq(split_seq(list, ',')[0])
}

/// The key of the bucket that a request draws from.
///
/// With the key type `ip` it is the client address: the first entry of
/// `X-Forwarded-For`, else of `X-Real-Ip`, else of `Remote-Addr`, else the
/// address of the peer. With any other key type it is the value of the header
/// of that name. A request that has none of these draws from the bucket
/// `unknown`.
pub open spec fn bucket_key(headers: TextPairs, peer: Option<Seq<char>>, key_type: Seq<char>) -> Seq<
    char,
> {
    if key_type == "ip"@ {
        if headers.contains_key("x-forwarded-for"@) {
            first_entry(headers["x-forwarded-for"@])
        } else if headers.contains_key("x-real-ip"@) {
            first_entry(headers["x-real-ip"@])
        } else if headers.contains_key("remote-addr"@) {
            first_entry(headers["remote-addr"@])
        } else {
            match peer {
                Some(p) => p,
                None => "unknown"@,
            }
        }
    } else {
        match carried(headers, ascii_lower(key_type)) {
            Some(v) => v,
            None => "unknown"@,
        }
    }
}

/// The seconds that a request over the limit is told to wait: at least one.
pub open spec fn retry_after(wait: u64) -> u64 {
    if wait < 1 {
        1
    } else {
        wait
    }
}

/// The body of the answer to a request over the limit.
pub open spec fn rate_limit_body(retry: u64) -> Seq<char> {
    "{\"detail\":\"Rate limit exceeded. Try again in "@ + decimal(retry as nat)
        + " seconds.\",\"retry_after\":"@ + decimal(retry as nat) + "}"@
}

/// Takes the first entry of a comma-separated list.
fn take_first_entry(list: &str) -> (r: String)
    ensures
        r@ == first_entry(list@),
{
    let chars = chars_of(list);
    let pieces = split(chars.as_slice(), ',');
    proof {
        lemma_split_nonempty(list@, ',');
    }
    let first = trim(pieces[0].as_slice());
    string_of(first.as_slice())
}

/// Computes the key of the bucket that a request draws from.
pub fn rate_limit_key(
    headers: &AHashMap<String, String>,
    peer_addr: Option<&str>,
    key_type: &str,
) -> (key: String)
    ensures
        key@ == bucket_key(text_map(*headers), crate::cors::opt_str(peer_addr), key_type@),
{
    if key_type.eq("ip") {
        match text_map_get(headers, "x-forwarded-for") {
            Some(v) => {
                return take_first_entry(v.as_str());
            },
            None => {},
        }
        match text_map_get(headers, "x-real-ip") {
            Some(v) => {
                return take_first_entry(v.as_str());
            },
            None => {},
        }
        match text_map_get(headers, "remote-addr") {
            Some(v) => {
                return take_first_entry(v.as_str());
            },
            None => {},
        }
        match peer_addr {
            Some(p) => p.to_owned(),
            None => "unknown".to_owned(),
        }
    } else {
        let name = crate::response_builder::lowercase_string(key_type);
        match text_map_get(headers, name.as_str()) {
            Some(v) => v.clone(),
            None => "unknown".to_owned(),
        }
    }
}

/// Writes the body of the answer to a request over the limit.
pub fn get_rate_limit_body(retry: u64) -> (body: Vec<u8>)
    ensures
        body@ == utf8(rate_limit_body(retry)),
{
    let digits = decimal_of(retry);
    let mut text = chars_of("{\"detail\":\"Rate limit exceeded. Try again in ");
    extend_chars(&mut text, digits.as_slice());
    let middle = chars_of(" seconds.\",\"retry_after\":");
    extend_chars(&mut text, middle.as_slice());
    extend_chars(&mut text, digits.as_slice());
    text.push('}');
    proof {
        reveal_strlit("}");
        assert("}"@ =~= seq!['}']);
        assert(text@ =~= rate_limit_body(retry));
    }
    let s = string_of(text.as_slice());
    s.as_str().as_bytes_vec()
}

/// The answer to a request that has to wait `wait` seconds for a token.
pub fn rate_limit_reply(wait: u64, rps: u32, burst: u32) -> (r: HttpReply)
    ensures
        r.status == 429,
        pairs(r.headers@) == rate_limit_headers(retry_after(wait), rps, burst),
        r.body@ == utf8(rate_limit_body(retry_after(wait))),
{
    let retry: u64 = if wait < 1 { 1 } else { wait };
    build_rate_limit_response(retry, rps, burst, get_rate_limit_body(retry))
}

/// The rate or burst that a bucket is made with for a configured number:
/// the number itself, or one if the number is zero.
pub open spec fn at_least_one(n: u32) -> u32 {
    if n < 1 {
        1
    } else {
        n
    }
}

/// The rate and the burst that the bucket of a route is made with: those of
/// the configuration, each at least one.
pub fn bucket_rates(config: &RateLimitConfig) -> (r: (u32, u32))
    ensures
        r.0 == at_least_one(config.rps),
        r.1 == at_least_one(config.burst),
{
    let rps: u32 = if config.rps < 1 { 1 } else { config.rps };
    let burst: u32 = if config.burst < 1 { 1 } else { config.burst };
    (rps, burst)
}

/// Draws a token for a request from the bucket of its handler and key.
///
/// Nothing is returned where there was a token. Otherwise the request is
/// answered with 429, as `rate_limit_reply` says for the time to wait. A rate
/// or burst of zero counts as one.
pub fn check_rate_limit(
    store: &RateLimitStore,
    handler_id: usize,
    headers: &AHashMap<String, String>,
    peer_addr: Option<&str>,
    config: &RateLimitConfig,
) -> (r: Option<HttpReply>)
    ensures
        r matches Some(reply) ==> exists|wait: u64|
            reply.status == 429 && pairs(reply.headers@) == rate_limit_headers(
                retry_after(wait),
                config.rps,
                config.burst,
            ) && reply.body@ == utf8(rate_limit_body(retry_after(wait))),
{
    let key = rate_limit_key(headers, peer_addr, config.key_type.as_str());
    let (rps, burst) = bucket_rates(config);
    match draw_token(store, handler_id, key.as_str(), rps, burst) {
        None => None,
        Some(wait) => Some(rate_limit_reply(wait, config.rps, config.burst)),
    }
}

} // verus!
