//! The policy gates that run before and after a handler.

pub mod auth;
pub mod cors;
pub mod rate_limit;

use vstd::prelude::*;
use ahash::AHashMap;
use crate::cors::{
    apply_cors_headers, apply_cors_preflight, cors_headers, opt_str, preflight_headers, CorsConfig,
};
use crate::headers::HeaderSeq;
use crate::maps::{text_map, text_map_get, utf8, TextPairs};
use crate::metadata::RateLimitConfig;
use crate::middleware::auth::{carried, check_auth, check_auth_outcome, AuthConfig, AuthRejection};
use crate::middleware::rate_limit::{rate_limit_body, retry_after, RateLimitStore};
use crate::request_pipeline::{detail_body, detail_reply};
use crate::response_builder::{rate_limit_headers, HttpReply};
use crate::response_meta::pairs;

verus! {

/// One entry of the list of middleware that a route declares.
pub enum MiddlewareEntry {
    Cors(CorsConfig),
    RateLimit(RateLimitConfig),
    Auth(AuthConfig),
    /// An entry of a type that is not handled here.
    Other,
}

/// The position of the first CORS entry of a list, if it has one.
pub open spec fn first_cors(entries: Seq<MiddlewareEntry>) -> Option<int>
    decreases entries.len(),
{
    if entries.len() == 0 {
        None
    } else {
        match first_cors(entries.drop_last()) {
            Some(i) => Some(i),
            None => if entries.last() is Cors {
                Some(entries.len() - 1)
            } else {
                None
            },
        }
    }
}

/// Finds the first CORS entry of a list.
fn find_cors(entries: &Vec<MiddlewareEntry>) -> (r: Option<usize>)
    ensures
        match r {
            Some(i) => first_cors(entries@) == Some(i as int) && i < entries@.len()
                && entries@[i as int] is Cors,
            None => first_cors(entries@) is None,
        },
{
    let mut i: usize = 0;
    assert(entries@.take(0) =~= Seq::<MiddlewareEntry>::empty());
    while i < entries.len()
        invariant
            i <= entries.len(),
            first_cors(entries@.take(i as int)) is None,
        decreases entries.len() - i,
    {
        proof {
            assert(entries@.take(i + 1).drop_last() =~= entries@.take(i as int));
            assert(entries@.take(i + 1).last() == entries@[i as int]);
        }
        match &entries[i] {
            MiddlewareEntry::Cors(_) => {
                proof {
                    lemma_first_cors_stays(entries@, i + 1);
                }
                return Some(i);
            },
            _ => {},
        }
        i += 1;
    }
    assert(entries@.take(entries.len() as int) =~= entries@);
    None
}

/// A CORS entry that is the first among the first `k` entries is the first
/// of all.
proof fn lemma_first_cors_stays(entries: Seq<MiddlewareEntry>, k: int)
    requires
        0 <= k <= entries.len(),
        first_cors(entries.take(k)) is Some,
    ensures
        first_cors(entries) == first_cors(entries.take(k)),
    decreases entries.len() - k,
{
    if k < entries.len() {
        assert(entries.take(k + 1).drop_last() =~= entries.take(k));
        lemma_first_cors_stays(entries, k + 1);
    } else {
        assert(entries.take(k) =~= entries);
    }
}

/// The headers of the answer to a request that authentication turns away.
pub open spec fn rejection_headers(scheme: Option<Seq<char>>) -> HeaderSeq {
    match scheme {
        Some(s) => seq![("www-authenticate"@, s), ("content-type"@, "application/json"@)],
        None => seq![("content-type"@, "application/json"@)],
    }
}

/// Writes the answer to a request that authentication turns away.
pub fn rejection_reply(rejection: &AuthRejection) -> (r: HttpReply)
    ensures
        r.status == rejection.status,
        pairs(r.headers@) == rejection_headers(crate::response_meta::opt_text(rejection.scheme)),
        r.body@ == utf8(detail_body(rejection.detail@)),
{
    let mut headers: Vec<(String, String)> = Vec::new();
    match &rejection.scheme {
        Some(s) => {
            headers.push(("www-authenticate".to_owned(), s.clone()));
        },
        None => {},
    }
    headers.push(("content-type".to_owned(), "application/json".to_owned()));
    assert(pairs(headers@) =~= rejection_headers(crate::response_meta::opt_text(rejection.scheme)));
    let body = detail_reply(rejection.status, rejection.detail.as_str()).body;
    HttpReply { status: rejection.status, headers, body }
}

/// The answer to `OPTIONS` for a route that declares CORS: 204 with the CORS
/// headers for the origin of the request and the headers of a preflight
/// answer.
pub open spec fn preflight_answer(cfg: CorsConfig, origin: Option<Seq<char>>) -> HeaderSeq {
    preflight_headers(cors_headers(HeaderSeq::empty(), cfg@, origin, None, None), cfg@)
}

/// The model of an optional response.
pub open spec fn reply_view(r: Option<HttpReply>) -> Option<(u16, HeaderSeq, Seq<u8>)> {
    match r {
        Some(reply) => Some((reply.status, pairs(reply.headers@), reply.body@)),
        None => None,
    }
}

/// The answer to `OPTIONS` for a route with a list of middleware: that of
/// its first CORS entry, if it has one.
pub open spec fn options_answer(entries: Seq<MiddlewareEntry>, origin: Option<Seq<char>>) -> Option<
    (u16, HeaderSeq, Seq<u8>),
> {
    match first_cors(entries) {
        Some(i) => match entries[i] {
            MiddlewareEntry::Cors(cfg) => Some((204u16, preflight_answer(cfg, origin), Seq::empty())),
            _ => None,
        },
        None => None,
    }
}

/// The answer to a request that authentication turns away.
pub open spec fn rejection_answer(rejection: AuthRejection) -> (u16, HeaderSeq, Seq<u8>) {
    (
        rejection.status,
        rejection_headers(crate::response_meta::opt_text(rejection.scheme)),
        utf8(detail_body(rejection.detail@)),
    )
}

/// Whether an entry may let a request with these headers pass. Only an
/// authentication step depends on the headers; what a rate limit does
/// depends on the requests before.
pub open spec fn entry_passes(entry: MiddlewareEntry, headers: TextPairs) -> bool {
    match entry {
        MiddlewareEntry::Auth(config) => check_auth_outcome(headers, config, None),
        _ => true,
    }
}

/// Whether `answer` is how an entry may turn away a request with these
/// headers: a rate limit with 429, an authentication step with its
/// rejection.
pub open spec fn entry_rejects(
    entry: MiddlewareEntry,
    headers: TextPairs,
    answer: (u16, HeaderSeq, Seq<u8>),
) -> bool {
    match entry {
        MiddlewareEntry::RateLimit(config) => exists|wait: u64|
            #![trigger retry_after(wait)]
            answer == (
                429u16,
                rate_limit_headers(retry_after(wait), config.rps, config.burst),
                utf8(rate_limit_body(retry_after(wait))),
            ),
        MiddlewareEntry::Auth(config) => exists|rejection: AuthRejection|
            #![trigger rejection_answer(rejection)]
            check_auth_outcome(headers, config, Some(rejection)) && answer == rejection_answer(
                rejection,
            ),
        _ => false,
    }
}

/// What the rate limits and authentication steps of a list may answer: the
/// answer of the first entry that turns the request away, or nothing where
/// all let it pass.
pub open spec fn gates_answer(
    entries: Seq<MiddlewareEntry>,
    headers: TextPairs,
    r: Option<(u16, HeaderSeq, Seq<u8>)>,
) -> bool {
    match r {
        Some(answer) => exists|i: int|
            #![trigger entries[i]]
            0 <= i < entries.len() && entry_rejects(entries[i], headers, answer) && forall|j: int|
                0 <= j < i ==> entry_passes(#[trigger] entries[j], headers),
        None => forall|j: int| 0 <= j < entries.len() ==> entry_passes(#[trigger] entries[j], headers),
    }
}

/// Runs the middleware that a route declares, before the handler.
///
/// `OPTIONS` is answered by the first CORS entry, if there is one, and is
/// let through otherwise. For any other method the rate limits and the
/// authentication steps are applied in the order of the list; the first that
/// turns the request away gives the answer.
pub fn process_middleware(
    method: &str,
    headers: &AHashMap<String, String>,
    peer_addr: Option<&str>,
    handler_id: usize,
    entries: &Vec<MiddlewareEntry>,
    rate_limits: &RateLimitStore,
) -> (r: Option<HttpReply>)
    ensures
        method@ == "OPTIONS"@ ==> reply_view(r) == options_answer(
            entries@,
            carried(text_map(*headers), "origin"@),
        ),
        method@ != "OPTIONS"@ ==> gates_answer(entries@, text_map(*headers), reply_view(r)),
{
    if method.eq("OPTIONS") {
        return match find_cors(entries) {
            Some(i) => match &entries[i] {
                MiddlewareEntry::Cors(cfg) => {
                    let origin: Option<&str> = match text_map_get(headers, "origin") {
                        Some(o) => Some(o.as_str()),
                        None => None,
                    };
                    let mut reply_headers: Vec<(String, String)> = Vec::new();
                    assert(pairs(reply_headers@) =~= HeaderSeq::empty());
                    apply_cors_headers(&mut reply_headers, origin, cfg, None, None);
                    apply_cors_preflight(&mut reply_headers, cfg);
                    let body: Vec<u8> = Vec::new();
                    assert(body@ =~= Seq::<u8>::empty());
                    Some(HttpReply { status: 204, headers: reply_headers, body })
                },
                _ => None,
            },
            None => None,
        };
    }
    let mut i: usize = 0;
    while i < entries.len()
        invariant
            i <= entries.len(),
            method@ != "OPTIONS"@,
            forall|j: int| 0 <= j < i ==> entry_passes(#[trigger] entries@[j], text_map(*headers)),
        decreases entries.len() - i,
    {
        match &entries[i] {
            MiddlewareEntry::RateLimit(config) => {
                match crate::middleware::rate_limit::check_rate_limit(
                    rate_limits,
                    handler_id,
                    headers,
                    peer_addr,
                    config,
                ) {
                    Some(reply) => {
                        proof {
                            let wait = choose|wait: u64|
                                reply.status == 429 && pairs(reply.headers@) == rate_limit_headers(
                                    retry_after(wait),
                                    config.rps,
                                    config.burst,
                                ) && reply.body@ == utf8(rate_limit_body(retry_after(wait)));
                            assert(retry_after(wait) == retry_after(wait));
                            assert(entry_rejects(
                                entries@[i as int],
                                text_map(*headers),
                                reply_view(Some(reply))->0,
                            ));
                        }
                        return Some(reply);
                    },
                    None => {},
                }
            },
            MiddlewareEntry::Auth(config) => {
                match check_auth(headers, config) {
                    Some(rejection) => {
                        let reply = rejection_reply(&rejection);
                        proof {
                            assert(reply_view(Some(reply))->0 == rejection_answer(rejection));
                            assert(entry_rejects(
                                entries@[i as int],
                                text_map(*headers),
                                reply_view(Some(reply))->0,
                            ));
                        }
                        return Some(reply);
                    },
                    None => {},
                }
            },
            _ => {},
        }
        i += 1;
    }
    None
}

/// Adds the CORS headers of the first CORS entry of a list of middleware, if
/// there is one.
pub fn add_cors_headers(
    headers: &mut Vec<(String, String)>,
    origin: Option<&str>,
    entries: &Vec<MiddlewareEntry>,
)
    ensures
        pairs(final(headers)@) == (match first_cors(entries@) {
            Some(i) => match entries@[i] {
                MiddlewareEntry::Cors(cfg) => cors_headers(
                    pairs(old(headers)@),
                    cfg@,
                    opt_str(origin),
                    None,
                    None,
                ),
                _ => pairs(old(headers)@),
            },
            None => pairs(old(headers)@),
        }),
{
    match find_cors(entries) {
        Some(i) => match &entries[i] {
            MiddlewareEntry::Cors(cfg) => {
                apply_cors_headers(headers, origin, cfg, None, None);
            },
            _ => {},
        },
        None => {},
    }
}

} // verus!
