//! Cross-origin resource sharing: which origins a configuration admits and
//! which headers a response or a preflight answer carries for them.

use vstd::prelude::*;
use ahash::AHashSet;
use regex::Regex;
use crate::headers::{
    header_append, header_get, header_insert, header_text_ok, header_value, is_header_text,
    lemma_value_after_insert, lemma_value_after_other_insert, lemma_value_after_push,
    with_header, HeaderSeq,
};
use crate::maps::{
    regex_compile, regex_compiles, regex_error_text, regex_is_match, regex_matches, regex_pattern,
    text_set,
    text_set_contains, text_set_insert, text_set_is_empty, text_set_new,
};
use crate::numbers::{decimal, decimal_of};
use crate::response_meta::{opt_text, pairs};
use crate::text::{
    ascii_lower, chars_of, contains_sub, eq_ignore_case, has_sub, join_seq, join_strings,
    string_of, string_views,
};

verus! {

pub const ALLOW_ORIGIN: &'static str = "access-control-allow-origin";

pub const ALLOW_CREDENTIALS: &'static str = "access-control-allow-credentials";

pub const ALLOW_METHODS: &'static str = "access-control-allow-methods";

pub const ALLOW_HEADERS: &'static str = "access-control-allow-headers";

pub const EXPOSE_HEADERS: &'static str = "access-control-expose-headers";

pub const MAX_AGE: &'static str = "access-control-max-age";

pub const VARY: &'static str = "vary";

/// The `Vary` value that marks an answer as depending on the preflight
/// request headers.
pub const PREFLIGHT_VARY: &'static str = "Access-Control-Request-Method, Access-Control-Request-Headers";

/// The part of `PREFLIGHT_VARY` whose presence shows that it was added.
pub const PREFLIGHT_MARK: &'static str = "Access-Control-Request-Method";

/// A CORS configuration, of one route or of the whole application. The
/// `*_str` and `*_header` fields hold the header values ready to be sent; a
/// `*_header` is `None` where there is nothing to send.
#[derive(Debug)]
pub struct CorsConfig {
    pub origins: Vec<String>,
    pub origin_regexes: Vec<String>,
    pub compiled_origin_regexes: Vec<Regex>,
    pub origin_set: AHashSet<String>,
    pub allow_all_origins: bool,
    pub credentials: bool,
    pub methods: Vec<String>,
    pub headers: Vec<String>,
    pub expose_headers: Vec<String>,
    pub max_age: u32,
    pub methods_str: String,
    pub headers_str: String,
    pub expose_headers_str: String,
    pub max_age_str: String,
    pub methods_header: Option<String>,
    pub headers_header: Option<String>,
    pub expose_headers_header: Option<String>,
    pub max_age_header: Option<String>,
}

/// What a CORS configuration says, as far as the headers depend on it.
pub struct CorsPolicy {
    /// Every origin is allowed.
    pub allow_all: bool,
    /// Credentials may be sent.
    pub credentials: bool,
    /// The origins that are allowed by name.
    pub origins: Set<Seq<char>>,
    /// The expressions that allowed origins may match.
    pub regexes: Seq<Regex>,
    /// The value of `Access-Control-Expose-Headers`, if one is sent.
    pub expose: Option<Seq<char>>,
    /// The value of `Access-Control-Allow-Methods`, if one is sent.
    pub methods: Option<Seq<char>>,
    /// The value of `Access-Control-Allow-Headers`, if one is sent.
    pub headers: Option<Seq<char>>,
    /// The value of `Access-Control-Max-Age`, if one is sent.
    pub max_age: Option<Seq<char>>,
}

impl View for CorsConfig {
    type V = CorsPolicy;

    open spec fn view(&self) -> CorsPolicy {
        CorsPolicy {
            allow_all: self.allow_all_origins,
            credentials: self.credentials,
            origins: text_set(self.origin_set),
            regexes: self.compiled_origin_regexes@,
            expose: opt_text(self.expose_headers_header),
            methods: opt_text(self.methods_header),
            headers: opt_text(self.headers_header),
            max_age: opt_text(self.max_age_header),
        }
    }
}

/// The texts of an optional set of origins.
pub open spec fn opt_set(s: Option<&AHashSet<String>>) -> Option<Set<Seq<char>>> {
    match s {
        Some(g) => Some(text_set(*g)),
        None => None,
    }
}

/// The expressions of an optional slice.
pub open spec fn opt_regexes(rs: Option<&[Regex]>) -> Option<Seq<Regex>> {
    match rs {
        Some(r) => Some(r@),
        None => None,
    }
}

/// One of the expressions finds a match in the text.
pub open spec fn any_regex_matches(res: Seq<Regex>, text: Seq<char>) -> bool {
    exists|i: int| 0 <= i < res.len() && regex_matches(#[trigger] res[i], text)
}

/// The origin is in the set that applies: the configuration's own set, or the
/// global one where the configuration's is empty.
pub open spec fn origin_in_set(
    cfg: CorsPolicy,
    origin: Seq<char>,
    global_set: Option<Set<Seq<char>>>,
) -> bool {
    if cfg.origins != Set::<Seq<char>>::empty() {
        cfg.origins.contains(origin)
    } else {
        match global_set {
            Some(g) => g.contains(origin),
            None => false,
        }
    }
}

/// The origin matches one of the expressions that apply: the configuration's
/// own, or the global ones where the configuration has none.
pub open spec fn origin_in_regexes(
    cfg: CorsPolicy,
    origin: Seq<char>,
    global_regexes: Option<Seq<Regex>>,
) -> bool {
    if cfg.regexes.len() > 0 {
        any_regex_matches(cfg.regexes, origin)
    } else {
        match global_regexes {
            Some(rs) => any_regex_matches(rs, origin),
            None => false,
        }
    }
}

/// An origin is listed when it is in the set of origins that applies or
/// matches one of the expressions that apply.
pub open spec fn origin_listed(
    cfg: CorsPolicy,
    origin: Seq<char>,
    global_set: Option<Set<Seq<char>>>,
    global_regexes: Option<Seq<Regex>>,
) -> bool {
    origin_in_set(cfg, origin, global_set) || origin_in_regexes(cfg, origin, global_regexes)
}

/// Whether a response to a request with the given `Origin` gets CORS headers.
/// A configuration that allows every origin together with credentials
/// answers only requests that name their origin.
pub open spec fn cors_allowed(
    cfg: CorsPolicy,
    origin: Option<Seq<char>>,
    global_set: Option<Set<Seq<char>>>,
    global_regexes: Option<Seq<Regex>>,
) -> bool {
    if cfg.allow_all && cfg.credentials {
        origin is Some
    } else if cfg.allow_all {
        true
    } else {
        match origin {
            Some(o) => origin_listed(cfg, o, global_set, global_regexes),
            None => false,
        }
    }
}

/// The headers with the origin reflected: `Access-Control-Allow-Origin` set
/// to it (where it can be sent as a header value) and `Vary: Origin` added.
pub open spec fn with_reflected_origin(h: HeaderSeq, origin: Seq<char>) -> HeaderSeq {
    (if header_text_ok(origin) {
        with_header(h, ALLOW_ORIGIN@, origin)
    } else {
        h
    }).push((VARY@, "Origin"@))
}

/// The headers with a configured value set under `name`, if one is configured.
pub open spec fn with_configured(h: HeaderSeq, name: Seq<char>, value: Option<Seq<char>>) -> HeaderSeq {
    match value {
        Some(v) => with_header(h, name, v),
        None => h,
    }
}

/// The headers of a response after CORS was applied. Nothing changes where
/// the origin is not allowed. With every origin allowed and credentials on,
/// the request's origin is reflected in place of `*`.
pub open spec fn cors_headers(
    h: HeaderSeq,
    cfg: CorsPolicy,
    origin: Option<Seq<char>>,
    global_set: Option<Set<Seq<char>>>,
    global_regexes: Option<Seq<Regex>>,
) -> HeaderSeq {
    if !cors_allowed(cfg, origin, global_set, global_regexes) {
        h
    } else if cfg.allow_all && cfg.credentials {
        with_configured(
            with_header(with_reflected_origin(h, origin->0), ALLOW_CREDENTIALS@, "true"@),
            EXPOSE_HEADERS@,
            cfg.expose,
        )
    } else if cfg.allow_all {
        with_configured(with_header(h, ALLOW_ORIGIN@, "*"@), EXPOSE_HEADERS@, cfg.expose)
    } else {
        let reflected = with_reflected_origin(h, origin->0);
        with_configured(
            if cfg.credentials {
                with_header(reflected, ALLOW_CREDENTIALS@, "true"@)
            } else {
                reflected
            },
            EXPOSE_HEADERS@,
            cfg.expose,
        )
    }
}

/// The headers of a preflight answer: the configured methods, headers and
/// maximum age, and the preflight `Vary` value unless the first `Vary` header
/// already names the request method header.
pub open spec fn preflight_headers(h: HeaderSeq, cfg: CorsPolicy) -> HeaderSeq {
    let set = with_configured(
        with_configured(with_configured(h, ALLOW_METHODS@, cfg.methods), ALLOW_HEADERS@, cfg.headers),
        MAX_AGE@,
        cfg.max_age,
    );
    let marked = match header_value(set, VARY@) {
        Some(v) => has_sub(v, PREFLIGHT_MARK@),
        None => false,
    };
    if marked {
        set
    } else {
        set.push((VARY@, PREFLIGHT_VARY@))
    }
}

/// The text of an optional string slice.
pub open spec fn opt_str(s: Option<&str>) -> Option<Seq<char>> {
    match s {
        Some(t) => Some(t@),
        None => None,
    }
}

/// Tests the origin against each expression in turn.
fn matches_any(res: &[Regex], origin: &str) -> (r: bool)
    ensures
        r == any_regex_matches(res@, origin@),
{
    let mut i: usize = 0;
    while i < res.len()
        invariant
            i <= res.len(),
            forall|j: int| 0 <= j < i ==> !regex_matches(#[trigger] res@[j], origin@),
        decreases res.len() - i,
    {
        if regex_is_match(&res[i], origin) {
            return true;
        }
        i += 1;
    }
    false
}

/// Decides whether the origin is listed for the configuration.
fn is_listed(
    cfg: &CorsConfig,
    origin: &str,
    global_set: Option<&AHashSet<String>>,
    global_regexes: Option<&[Regex]>,
) -> (r: bool)
    ensures
        r == origin_listed(cfg@, origin@, opt_set(global_set), opt_regexes(global_regexes)),
{
    let exact = if !text_set_is_empty(&cfg.origin_set) {
        text_set_contains(&cfg.origin_set, origin)
    } else {
        match global_set {
            Some(g) => text_set_contains(g, origin),
            None => false,
        }
    };
    let by_regex = if cfg.compiled_origin_regexes.len() > 0 {
        matches_any(cfg.compiled_origin_regexes.as_slice(), origin)
    } else {
        match global_regexes {
            Some(rs) => matches_any(rs, origin),
            None => false,
        }
    };
    exact || by_regex
}

/// Sets `name` to the configured value, if one is configured.
fn insert_configured(headers: &mut Vec<(String, String)>, name: &str, value: &Option<String>)
    ensures
        pairs(final(headers)@) == with_configured(pairs(old(headers)@), name@, opt_text(*value)),
{
    match value {
        Some(v) => {
            header_insert(headers, name, v.as_str());
        },
        None => {},
    }
}

/// Reflects the origin into the headers.
fn reflect_origin(headers: &mut Vec<(String, String)>, origin: &str)
    ensures
        pairs(final(headers)@) == with_reflected_origin(pairs(old(headers)@), origin@),
{
    if is_header_text(origin) {
        header_insert(headers, ALLOW_ORIGIN, origin);
    }
    header_append(headers, VARY, "Origin");
}

/// Adds the CORS headers for a response to a request with the given origin.
/// Returns whether the origin was allowed; the headers change only then.
pub fn apply_cors_headers(
    headers: &mut Vec<(String, String)>,
    request_origin: Option<&str>,
    cors_config: &CorsConfig,
    global_origin_set: Option<&AHashSet<String>>,
    global_regexes: Option<&[Regex]>,
) -> (allowed: bool)
    ensures
        allowed == cors_allowed(
            cors_config@,
            opt_str(request_origin),
            opt_set(global_origin_set),
            opt_regexes(global_regexes),
        ),
        pairs(final(headers)@) == cors_headers(
            pairs(old(headers)@),
            cors_config@,
            opt_str(request_origin),
            opt_set(global_origin_set),
            opt_regexes(global_regexes),
        ),
{
    if cors_config.allow_all_origins && cors_config.credentials {
        return match request_origin {
            Some(origin) => {
                reflect_origin(headers, origin);
                header_insert(headers, ALLOW_CREDENTIALS, "true");
                insert_configured(headers, EXPOSE_HEADERS, &cors_config.expose_headers_header);
                true
            },
            None => false,
        };
    }
    if cors_config.allow_all_origins {
        header_insert(headers, ALLOW_ORIGIN, "*");
        insert_configured(headers, EXPOSE_HEADERS, &cors_config.expose_headers_header);
        return true;
    }
    let origin = match request_origin {
        Some(o) => o,
        None => {
            return false;
        },
    };
    if !is_listed(cors_config, origin, global_origin_set, global_regexes) {
        return false;
    }
    reflect_origin(headers, origin);
    if cors_config.credentials {
        header_insert(headers, ALLOW_CREDENTIALS, "true");
    }
    insert_configured(headers, EXPOSE_HEADERS, &cors_config.expose_headers_header);
    true
}

/// Adds the headers of a preflight answer.
pub fn apply_cors_preflight(headers: &mut Vec<(String, String)>, cors_config: &CorsConfig)
    ensures
        pairs(final(headers)@) == preflight_headers(pairs(old(headers)@), cors_config@),
{
    insert_configured(headers, ALLOW_METHODS, &cors_config.methods_header);
    insert_configured(headers, ALLOW_HEADERS, &cors_config.headers_header);
    insert_configured(headers, MAX_AGE, &cors_config.max_age_header);
    let marked = match header_get(headers, VARY) {
        Some(v) => {
            let value = chars_of(v.as_str());
            let mark = chars_of(PREFLIGHT_MARK);
            contains_sub(value.as_slice(), mark.as_slice())
        },
        None => false,
    };
    if !marked {
        header_append(headers, VARY, PREFLIGHT_VARY);
    }
}

/// Appends the entries of `extra` to `list`.
fn append_all(list: &mut Vec<(String, String)>, extra: &Vec<(String, String)>)
    ensures
        pairs(final(list)@) == pairs(old(list)@) + pairs(extra@),
{
    let mut i: usize = 0;
    assert(pairs(list@) =~= pairs(old(list)@) + pairs(extra@).take(0));
    while i < extra.len()
        invariant
            i <= extra.len(),
            pairs(list@) == pairs(old(list)@) + pairs(extra@).take(i as int),
        decreases extra.len() - i,
    {
        let ghost before = pairs(list@);
        list.push((extra[i].0.clone(), extra[i].1.clone()));
        assert(pairs(list@) =~= before.push(pairs(extra@)[i as int]));
        assert(pairs(extra@).take(i + 1) =~= pairs(extra@).take(i as int).push(
            pairs(extra@)[i as int],
        ));
        assert(pairs(list@) =~= pairs(old(list)@) + pairs(extra@).take(i + 1));
        i += 1;
    }
    assert(pairs(extra@).take(extra.len() as int) =~= pairs(extra@));
}

/// Appends to a response's header list the CORS headers that a fresh response
/// would get. Returns whether the origin was allowed; nothing is appended
/// where it was not.
pub fn apply_cors_to_vec(
    resp_headers: &mut Vec<(String, String)>,
    request_origin: Option<&str>,
    cors_config: &CorsConfig,
    global_origin_set: Option<&AHashSet<String>>,
    global_regexes: Option<&[Regex]>,
) -> (allowed: bool)
    ensures
        allowed == cors_allowed(
            cors_config@,
            opt_str(request_origin),
            opt_set(global_origin_set),
            opt_regexes(global_regexes),
        ),
        pairs(final(resp_headers)@) == pairs(old(resp_headers)@) + cors_headers(
            Seq::empty(),
            cors_config@,
            opt_str(request_origin),
            opt_set(global_origin_set),
            opt_regexes(global_regexes),
        ),
{
    let mut fresh: Vec<(String, String)> = Vec::new();
    assert(pairs(fresh@) =~= Seq::empty());
    let allowed = apply_cors_headers(
        &mut fresh,
        request_origin,
        cors_config,
        global_origin_set,
        global_regexes,
    );
    if allowed {
        append_all(resp_headers, &fresh);
    } else {
        assert(pairs(resp_headers@) =~= pairs(old(resp_headers)@) + Seq::empty());
    }
    allowed
}

/// Appends to a response's header list the headers of a preflight answer.
pub fn apply_cors_preflight_to_vec(
    resp_headers: &mut Vec<(String, String)>,
    cors_config: &CorsConfig,
)
    ensures
        pairs(final(resp_headers)@) == pairs(old(resp_headers)@) + preflight_headers(
            Seq::empty(),
            cors_config@,
        ),
{
    let mut fresh: Vec<(String, String)> = Vec::new();
    assert(pairs(fresh@) =~= Seq::empty());
    apply_cors_preflight(&mut fresh, cors_config);
    append_all(resp_headers, &fresh);
}

/// Adds the headers of a preflight answer.
pub fn add_preflight_headers_with_config(
    headers: &mut Vec<(String, String)>,
    cors_config: &CorsConfig,
)
    ensures
        pairs(final(headers)@) == preflight_headers(pairs(old(headers)@), cors_config@),
{
    apply_cors_preflight(headers, cors_config);
}

/// A header value as it is kept for sending: nothing where the text cannot be
/// sent as a header value.
pub open spec fn sendable(s: Seq<char>) -> Option<Seq<char>> {
    if header_text_ok(s) {
        Some(s)
    } else {
        None
    }
}

/// The methods that a preflight answer allows where none are configured.
pub open spec fn default_methods() -> Seq<Seq<char>> {
    seq!["GET"@, "POST"@, "PUT"@, "PATCH"@, "DELETE"@, "OPTIONS"@]
}

/// The request headers that a preflight answer allows where none are
/// configured.
pub open spec fn default_headers() -> Seq<Seq<char>> {
    seq![
        "accept"@,
        "accept-encoding"@,
        "authorization"@,
        "content-type"@,
        "dnt"@,
        "origin"@,
        "user-agent"@,
        "x-csrftoken"@,
        "x-requested-with"@,
    ]
}

/// The policy of a configuration assembled from plain lists. `*` among the
/// origins allows every origin. The lists are sent joined with `", "`; the
/// exposed headers are sent only if there are any.
pub open spec fn assembled_policy(
    origins: Seq<Seq<char>>,
    credentials: bool,
    methods: Seq<Seq<char>>,
    headers: Seq<Seq<char>>,
    expose_headers: Seq<Seq<char>>,
    max_age: u32,
) -> CorsPolicy {
    CorsPolicy {
        allow_all: origins.contains("*"@),
        credentials,
        origins: origins.to_set(),
        regexes: Seq::<Regex>::empty(),
        expose: if join_seq(expose_headers, ", "@).len() == 0 {
            None
        } else {
            sendable(join_seq(expose_headers, ", "@))
        },
        methods: sendable(join_seq(methods, ", "@)),
        headers: sendable(join_seq(headers, ", "@)),
        max_age: sendable(decimal(max_age as nat)),
    }
}

/// Keeps a header value for sending if it can be sent.
fn keep_sendable(s: &String) -> (r: Option<String>)
    ensures
        opt_text(r) == sendable(s@),
{
    if is_header_text(s.as_str()) {
        Some(s.clone())
    } else {
        None
    }
}

/// Gathers the origins into a set and notes whether `*` is among them.
fn origin_set_of(origins: &Vec<String>) -> (r: (AHashSet<String>, bool))
    ensures
        text_set(r.0) == string_views(origins@).to_set(),
        r.1 == string_views(origins@).contains("*"@),
{
    let mut set = text_set_new();
    let mut wildcard = false;
    let mut i: usize = 0;
    let ghost all = string_views(origins@);
    assert(all.take(0).to_set() =~= Set::<Seq<char>>::empty());
    while i < origins.len()
        invariant
            i <= origins.len(),
            all == string_views(origins@),
            text_set(set) == all.take(i as int).to_set(),
            wildcard == all.take(i as int).contains("*"@),
        decreases origins.len() - i,
    {
        let ghost before = all.take(i as int);
        let ghost upto = all.take(i + 1);
        proof {
            assert(upto =~= before.push(origins@[i as int]@));
            assert(upto.to_set() =~= before.to_set().insert(origins@[i as int]@)) by {
                assert forall|t: Seq<char>| upto.to_set().contains(t) <==> before.to_set().insert(
                    origins@[i as int]@,
                ).contains(t) by {
                    if upto.contains(t) {
                        let k = choose|k: int| 0 <= k < upto.len() && upto[k] == t;
                        if k < i {
                            assert(before[k] == t);
                        }
                    }
                    if before.contains(t) {
                        let k = choose|k: int| 0 <= k < before.len() && before[k] == t;
                        assert(upto[k] == t);
                    }
                    if t == origins@[i as int]@ {
                        assert(upto[i as int] == t);
                    }
                }
            }
            assert(upto.contains("*"@) <==> (before.contains("*"@) || origins@[i as int]@ == "*"@))
                by {
                if upto.contains("*"@) {
                    let k = choose|k: int| 0 <= k < upto.len() && upto[k] == "*"@;
                    if k < i {
                        assert(before[k] == "*"@);
                    }
                }
                if before.contains("*"@) {
                    let k = choose|k: int| 0 <= k < before.len() && before[k] == "*"@;
                    assert(upto[k] == "*"@);
                }
                if origins@[i as int]@ == "*"@ {
                    assert(upto[i as int] == "*"@);
                }
            }
        }
        if origins[i].as_str().eq("*") {
            wildcard = true;
        }
        text_set_insert(&mut set, origins[i].clone());
        i += 1;
    }
    assert(all.take(origins.len() as int) =~= all);
    (set, wildcard)
}

/// Assembles a configuration from plain lists.
pub fn build_cors_config(
    origins: Vec<String>,
    credentials: bool,
    methods: Vec<String>,
    headers: Vec<String>,
    expose_headers: Vec<String>,
    max_age: u32,
) -> (cfg: CorsConfig)
    ensures
        cfg@ == assembled_policy(
            string_views(origins@),
            credentials,
            string_views(methods@),
            string_views(headers@),
            string_views(expose_headers@),
            max_age,
        ),
        cfg.origins == origins,
        cfg.methods == methods,
        cfg.headers == headers,
        cfg.expose_headers == expose_headers,
        cfg.max_age == max_age,
        cfg.origin_regexes@.len() == 0,
        cfg.methods_str@ == join_seq(string_views(methods@), ", "@),
        cfg.headers_str@ == join_seq(string_views(headers@), ", "@),
        cfg.expose_headers_str@ == join_seq(string_views(expose_headers@), ", "@),
        cfg.max_age_str@ == decimal(max_age as nat),
{
    let (origin_set, allow_all_origins) = origin_set_of(&origins);
    let methods_str = join_strings(&methods, ", ");
    let headers_str = join_strings(&headers, ", ");
    let expose_headers_str = join_strings(&expose_headers, ", ");
    let max_age_digits = decimal_of(max_age as u64);
    let max_age_str = string_of(max_age_digits.as_slice());
    let methods_header = keep_sendable(&methods_str);
    let headers_header = keep_sendable(&headers_str);
    let expose_headers_header = if expose_headers_str.as_str().is_empty() {
        None
    } else {
        keep_sendable(&expose_headers_str)
    };
    let max_age_header = keep_sendable(&max_age_str);
    let cfg = CorsConfig {
        origins,
        origin_regexes: Vec::new(),
        compiled_origin_regexes: Vec::new(),
        origin_set,
        allow_all_origins,
        credentials,
        methods,
        headers,
        expose_headers,
        max_age,
        methods_str,
        headers_str,
        expose_headers_str,
        max_age_str,
        methods_header,
        headers_header,
        expose_headers_header,
        max_age_header,
    };
    assert(cfg@.regexes =~= Seq::<Regex>::empty());
    cfg
}

/// The list of strings that holds the given texts.
fn strings_of(texts: &[&'static str]) -> (r: Vec<String>)
    ensures
        r@.len() == texts@.len(),
        forall|i: int| 0 <= i < r@.len() ==> (#[trigger] r@[i])@ == texts@[i]@,
{
    let mut r: Vec<String> = Vec::new();
    let mut i: usize = 0;
    while i < texts.len()
        invariant
            i <= texts.len(),
            r@.len() == i,
            forall|j: int| 0 <= j < i ==> (#[trigger] r@[j])@ == texts@[j]@,
        decreases texts.len() - i,
    {
        r.push(texts[i].to_owned());
        i += 1;
    }
    r
}

/// The part of a configuration that a setting gives, or what stands in for a
/// setting that is absent.
pub open spec fn setting_or(given: Option<Vec<String>>, fallback: Seq<Seq<char>>) -> Seq<Seq<char>> {
    match given {
        Some(v) => string_views(v@),
        None => fallback,
    }
}

/// Whether a configuration keeps the lists it was assembled from and the
/// texts that were made of them, and holds no origin expressions.
pub open spec fn keeps_parts(
    cfg: CorsConfig,
    origins: Seq<Seq<char>>,
    methods: Seq<Seq<char>>,
    headers: Seq<Seq<char>>,
    expose_headers: Seq<Seq<char>>,
    max_age: u32,
) -> bool {
    &&& string_views(cfg.origins@) == origins
    &&& string_views(cfg.methods@) == methods
    &&& string_views(cfg.headers@) == headers
    &&& string_views(cfg.expose_headers@) == expose_headers
    &&& cfg.max_age == max_age
    &&& cfg.origin_regexes@.len() == 0
    &&& cfg.methods_str@ == join_seq(methods, ", "@)
    &&& cfg.headers_str@ == join_seq(headers, ", "@)
    &&& cfg.expose_headers_str@ == join_seq(expose_headers, ", "@)
    &&& cfg.max_age_str@ == decimal(max_age as nat)
}

/// Assembles a configuration from settings of which any may be absent. Absent
/// origins and exposed headers are empty lists; absent methods and headers
/// are the default lists; credentials are off and the maximum age is a day
/// unless they are set.
pub fn cors_config_from_parts(
    origins: Option<Vec<String>>,
    credentials: Option<bool>,
    methods: Option<Vec<String>>,
    headers: Option<Vec<String>>,
    expose_headers: Option<Vec<String>>,
    max_age: Option<u32>,
) -> (cfg: CorsConfig)
    ensures
        cfg@ == assembled_policy(
            setting_or(origins, Seq::empty()),
            credentials == Some(true),
            setting_or(methods, default_methods()),
            setting_or(headers, default_headers()),
            setting_or(expose_headers, Seq::empty()),
            match max_age {
                Some(a) => a,
                None => 86400u32,
            },
        ),
        keeps_parts(
            cfg,
            setting_or(origins, Seq::empty()),
            setting_or(methods, default_methods()),
            setting_or(headers, default_headers()),
            setting_or(expose_headers, Seq::empty()),
            match max_age {
                Some(a) => a,
                None => 86400u32,
            },
        ),
{
    let origins = match origins {
        Some(v) => v,
        None => {
            let v: Vec<String> = Vec::new();
            assert(string_views(v@) =~= Seq::<Seq<char>>::empty());
            v
        },
    };
    let methods = match methods {
        Some(v) => v,
        None => {
            let v = strings_of(&["GET", "POST", "PUT", "PATCH", "DELETE", "OPTIONS"]);
            assert(string_views(v@) =~= default_methods());
            v
        },
    };
    let headers = match headers {
        Some(v) => v,
        None => {
            let v = strings_of(
                &[
                    "accept",
                    "accept-encoding",
                    "authorization",
                    "content-type",
                    "dnt",
                    "origin",
                    "user-agent",
                    "x-csrftoken",
                    "x-requested-with",
                ],
            );
            assert(string_views(v@) =~= default_headers());
            v
        },
    };
    let expose_headers = match expose_headers {
        Some(v) => v,
        None => {
            let v: Vec<String> = Vec::new();
            assert(string_views(v@) =~= Seq::<Seq<char>>::empty());
            v
        },
    };
    let credentials = match credentials {
        Some(c) => c,
        None => false,
    };
    let max_age = match max_age {
        Some(a) => a,
        None => 86400u32,
    };
    build_cors_config(origins, credentials, methods, headers, expose_headers, max_age)
}

/// Copies a slice of strings.
fn copy_strings(list: &[String]) -> (r: Vec<String>)
    ensures
        string_views(r@) == string_views(list@),
{
    let mut r: Vec<String> = Vec::new();
    let mut i: usize = 0;
    while i < list.len()
        invariant
            i <= list.len(),
            r@.len() == i,
            forall|j: int| 0 <= j < i ==> (#[trigger] r@[j])@ == list@[j]@,
        decreases list.len() - i,
    {
        r.push(list[i].clone());
        i += 1;
    }
    assert(string_views(r@) =~= string_views(list@));
    r
}

/// Adds the CORS headers for a configuration given as plain lists of origins
/// and exposed headers, without global fallbacks.
pub fn add_cors_response_headers(
    headers: &mut Vec<(String, String)>,
    request_origin: Option<&str>,
    origins: &[String],
    credentials: bool,
    expose_headers: &[String],
) -> (allowed: bool)
    ensures
        allowed == cors_allowed(
            assembled_policy(
                string_views(origins@),
                credentials,
                Seq::empty(),
                Seq::empty(),
                string_views(expose_headers@),
                3600,
            ),
            opt_str(request_origin),
            None,
            None,
        ),
        pairs(final(headers)@) == cors_headers(
            pairs(old(headers)@),
            assembled_policy(
                string_views(origins@),
                credentials,
                Seq::empty(),
                Seq::empty(),
                string_views(expose_headers@),
                3600,
            ),
            opt_str(request_origin),
            None,
            None,
        ),
{
    let none: Vec<String> = Vec::new();
    let none_too: Vec<String> = Vec::new();
    assert(string_views(none@) =~= Seq::<Seq<char>>::empty());
    assert(string_views(none_too@) =~= Seq::<Seq<char>>::empty());
    let cfg = build_cors_config(
        copy_strings(origins),
        credentials,
        none,
        none_too,
        copy_strings(expose_headers),
        3600,
    );
    apply_cors_headers(headers, request_origin, &cfg, None, None)
}

/// Adds the headers of a preflight answer for methods, headers and a maximum
/// age given as plain values.
pub fn add_preflight_headers_simple(
    headers: &mut Vec<(String, String)>,
    methods: &[String],
    headers_list: &[String],
    max_age: u64,
)
    ensures
        pairs(final(headers)@) == preflight_headers(
            pairs(old(headers)@),
            CorsPolicy {
                allow_all: false,
                credentials: false,
                origins: Set::empty(),
                regexes: Seq::empty(),
                expose: None,
                methods: sendable(join_seq(string_views(methods@), ", "@)),
                headers: sendable(join_seq(string_views(headers_list@), ", "@)),
                max_age: sendable(decimal(max_age as nat)),
            },
        ),
{
    let methods_vec = copy_strings(methods);
    let headers_vec = copy_strings(headers_list);
    let methods_str = join_strings(&methods_vec, ", ");
    let headers_str = join_strings(&headers_vec, ", ");
    let max_age_digits = decimal_of(max_age);
    let max_age_str = string_of(max_age_digits.as_slice());
    insert_configured(headers, ALLOW_METHODS, &keep_sendable(&methods_str));
    insert_configured(headers, ALLOW_HEADERS, &keep_sendable(&headers_str));
    insert_configured(headers, MAX_AGE, &keep_sendable(&max_age_str));
    let marked = match header_get(headers, VARY) {
        Some(v) => {
            let value = chars_of(v.as_str());
            let mark = chars_of(PREFLIGHT_MARK);
            contains_sub(value.as_slice(), mark.as_slice())
        },
        None => false,
    };
    if !marked {
        header_append(headers, VARY, PREFLIGHT_VARY);
    }
}

/// The header names that CORS sets are pairwise different, whatever the case.
pub proof fn lemma_cors_names_differ()
    ensures
        !eq_ignore_case(ALLOW_CREDENTIALS@, ALLOW_ORIGIN@),
        !eq_ignore_case(EXPOSE_HEADERS@, ALLOW_ORIGIN@),
        !eq_ignore_case(EXPOSE_HEADERS@, ALLOW_CREDENTIALS@),
        !eq_ignore_case(ALLOW_METHODS@, ALLOW_ORIGIN@),
        !eq_ignore_case(ALLOW_HEADERS@, ALLOW_ORIGIN@),
        !eq_ignore_case(MAX_AGE@, ALLOW_ORIGIN@),
        !eq_ignore_case(VARY@, ALLOW_ORIGIN@),
        !eq_ignore_case(VARY@, ALLOW_CREDENTIALS@),
        !eq_ignore_case(ALLOW_HEADERS@, ALLOW_METHODS@),
        !eq_ignore_case(MAX_AGE@, ALLOW_METHODS@),
        !eq_ignore_case(VARY@, ALLOW_METHODS@),
{
    reveal_strlit("access-control-allow-origin");
    reveal_strlit("access-control-allow-credentials");
    reveal_strlit("access-control-allow-methods");
    reveal_strlit("access-control-allow-headers");
    reveal_strlit("access-control-expose-headers");
    reveal_strlit("access-control-max-age");
    reveal_strlit("vary");
    assert(ascii_lower(ALLOW_ORIGIN@).len() == 27);
    assert(ascii_lower(ALLOW_CREDENTIALS@).len() == 32);
    assert(ascii_lower(ALLOW_METHODS@).len() == 28);
    assert(ascii_lower(ALLOW_HEADERS@).len() == 28);
    assert(ascii_lower(EXPOSE_HEADERS@).len() == 29);
    assert(ascii_lower(MAX_AGE@).len() == 22);
    assert(ascii_lower(VARY@).len() == 4);
    assert(ascii_lower(ALLOW_METHODS@)[21] == 'm');
    assert(ascii_lower(ALLOW_HEADERS@)[21] == 'h');
}

/// Where an origin is allowed and is not answered with `*`, the response
/// names that origin in `Access-Control-Allow-Origin`.
pub proof fn lemma_origin_reflected(
    h: HeaderSeq,
    cfg: CorsPolicy,
    origin: Seq<char>,
    global_set: Option<Set<Seq<char>>>,
    global_regexes: Option<Seq<Regex>>,
)
    requires
        cors_allowed(cfg, Some(origin), global_set, global_regexes),
        !cfg.allow_all || cfg.credentials,
        header_text_ok(origin),
    ensures
        header_value(
            cors_headers(h, cfg, Some(origin), global_set, global_regexes),
            ALLOW_ORIGIN@,
        ) == Some(origin),
{
    lemma_cors_names_differ();
    let set = with_header(h, ALLOW_ORIGIN@, origin);
    let reflected = with_reflected_origin(h, origin);
    lemma_value_after_insert(h, ALLOW_ORIGIN@, origin);
    lemma_value_after_push(set, (VARY@, "Origin"@), ALLOW_ORIGIN@);
    assert(header_value(reflected, ALLOW_ORIGIN@) == Some(origin));
    let with_credentials = with_header(reflected, ALLOW_CREDENTIALS@, "true"@);
    lemma_value_after_other_insert(reflected, ALLOW_CREDENTIALS@, "true"@, ALLOW_ORIGIN@);
    if cfg.expose is Some {
        lemma_value_after_other_insert(
            with_credentials,
            EXPOSE_HEADERS@,
            cfg.expose->0,
            ALLOW_ORIGIN@,
        );
        lemma_value_after_other_insert(reflected, EXPOSE_HEADERS@, cfg.expose->0, ALLOW_ORIGIN@);
    }
}

/// A configuration that allows every origin together with credentials never
/// answers with `*`: a request that names its origin is allowed, and the
/// response names that origin and carries `Access-Control-Allow-Credentials:
/// true`.
pub proof fn lemma_wildcard_with_credentials(
    h: HeaderSeq,
    cfg: CorsPolicy,
    origin: Seq<char>,
    global_set: Option<Set<Seq<char>>>,
    global_regexes: Option<Seq<Regex>>,
)
    requires
        cfg.allow_all,
        cfg.credentials,
        header_text_ok(origin),
    ensures
        cors_allowed(cfg, Some(origin), global_set, global_regexes),
        header_value(
            cors_headers(h, cfg, Some(origin), global_set, global_regexes),
            ALLOW_ORIGIN@,
        ) == Some(origin),
        header_value(
            cors_headers(h, cfg, Some(origin), global_set, global_regexes),
            ALLOW_CREDENTIALS@,
        ) == Some("true"@),
{
    lemma_cors_names_differ();
    lemma_origin_reflected(h, cfg, origin, global_set, global_regexes);
    let reflected = with_reflected_origin(h, origin);
    let with_credentials = with_header(reflected, ALLOW_CREDENTIALS@, "true"@);
    lemma_value_after_insert(reflected, ALLOW_CREDENTIALS@, "true"@);
    if cfg.expose is Some {
        lemma_value_after_other_insert(
            with_credentials,
            EXPOSE_HEADERS@,
            cfg.expose->0,
            ALLOW_CREDENTIALS@,
        );
    }
}

/// The answer to a preflight request from an allowed origin names that origin
/// and carries exactly the configured methods.
pub proof fn lemma_preflight_round_trip(
    h: HeaderSeq,
    cfg: CorsPolicy,
    origin: Seq<char>,
    global_set: Option<Set<Seq<char>>>,
    global_regexes: Option<Seq<Regex>>,
)
    requires
        cors_allowed(cfg, Some(origin), global_set, global_regexes),
        !cfg.allow_all || cfg.credentials,
        header_text_ok(origin),
        cfg.methods is Some,
    ensures
        header_value(
            preflight_headers(
                cors_headers(h, cfg, Some(origin), global_set, global_regexes),
                cfg,
            ),
            ALLOW_METHODS@,
        ) == cfg.methods,
        header_value(
            preflight_headers(
                cors_headers(h, cfg, Some(origin), global_set, global_regexes),
                cfg,
            ),
            ALLOW_ORIGIN@,
        ) == Some(origin),
{
    lemma_cors_names_differ();
    lemma_origin_reflected(h, cfg, origin, global_set, global_regexes);
    let answered = cors_headers(h, cfg, Some(origin), global_set, global_regexes);
    let a = with_configured(answered, ALLOW_METHODS@, cfg.methods);
    let b = with_configured(a, ALLOW_HEADERS@, cfg.headers);
    let c = with_configured(b, MAX_AGE@, cfg.max_age);
    lemma_value_after_insert(answered, ALLOW_METHODS@, cfg.methods->0);
    lemma_value_after_other_insert(answered, ALLOW_METHODS@, cfg.methods->0, ALLOW_ORIGIN@);
    if cfg.headers is Some {
        lemma_value_after_other_insert(a, ALLOW_HEADERS@, cfg.headers->0, ALLOW_METHODS@);
        lemma_value_after_other_insert(a, ALLOW_HEADERS@, cfg.headers->0, ALLOW_ORIGIN@);
    }
    if cfg.max_age is Some {
        lemma_value_after_other_insert(b, MAX_AGE@, cfg.max_age->0, ALLOW_METHODS@);
        lemma_value_after_other_insert(b, MAX_AGE@, cfg.max_age->0, ALLOW_ORIGIN@);
    }
    lemma_value_after_push(c, (VARY@, PREFLIGHT_VARY@), ALLOW_METHODS@);
    lemma_value_after_push(c, (VARY@, PREFLIGHT_VARY@), ALLOW_ORIGIN@);
}

/// Every pattern of the list can be compiled.
pub open spec fn all_compile(patterns: Seq<Seq<char>>) -> bool {
    forall|i: int| 0 <= i < patterns.len() ==> regex_compiles(#[trigger] patterns[i])
}

/// A policy without its expressions.
pub open spec fn without_regexes(p: CorsPolicy) -> CorsPolicy {
    CorsPolicy { regexes: Seq::empty(), ..p }
}

/// Whether two configurations hold the same lists and the same texts made of
/// them.
pub open spec fn same_lists(a: CorsConfig, b: CorsConfig) -> bool {
    &&& a.origins == b.origins
    &&& a.methods == b.methods
    &&& a.headers == b.headers
    &&& a.expose_headers == b.expose_headers
    &&& a.max_age == b.max_age
    &&& a.methods_str == b.methods_str
    &&& a.headers_str == b.headers_str
    &&& a.expose_headers_str == b.expose_headers_str
    &&& a.max_age_str == b.max_age_str
}

/// Adds origin expressions to a configuration: each pattern is compiled and
/// kept beside its text. Fails at the first pattern that cannot be compiled,
/// with the message of the compiler; the configuration is then lost.
pub fn with_origin_regexes(cfg: CorsConfig, patterns: Vec<String>) -> (r: Result<CorsConfig, String>)
    ensures
        r is Ok == all_compile(string_views(patterns@)),
        r matches Ok(c) ==> (c@.regexes.len() == patterns@.len() && c.origin_regexes == patterns
            && without_regexes(c@) == without_regexes(cfg@) && same_lists(c, cfg) && forall|i: int|
            0 <= i < patterns@.len() ==> regex_pattern(#[trigger] c@.regexes[i]) == patterns@[i]@),
{
    let mut compiled: Vec<Regex> = Vec::new();
    let mut i: usize = 0;
    while i < patterns.len()
        invariant
            i <= patterns.len(),
            compiled@.len() == i,
            forall|j: int| 0 <= j < i ==> regex_pattern(#[trigger] compiled@[j]) == patterns@[j]@,
            forall|j: int| 0 <= j < i ==> regex_compiles(#[trigger] string_views(patterns@)[j]),
        decreases patterns.len() - i,
    {
        match regex_compile(patterns[i].as_str()) {
            Ok(re) => {
                compiled.push(re);
            },
            Err(e) => {
                assert(!regex_compiles(string_views(patterns@)[i as int]));
                return Err(regex_error_text(&e));
            },
        }
        i += 1;
    }
    let mut cfg = cfg;
    cfg.compiled_origin_regexes = compiled;
    cfg.origin_regexes = patterns;
    Ok(cfg)
}

} // verus!
