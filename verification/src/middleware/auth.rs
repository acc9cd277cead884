//! Authentication: how a token is taken from a request and what a backend
//! makes of it. Tokens are verified by the `jsonwebtoken` crate.

use vstd::prelude::*;
use ahash::{AHashMap, AHashSet};
use crate::maps::{
    text_map, text_map_get, text_set, text_set_contains, text_set_is_empty, TextPairs,
};
use crate::response_meta::opt_text;
use crate::text::{
    ascii_lower, chars_of, has_prefix, lowercase, slice_of, starts_with, string_of,
    string_views,
};

verus! {

#[verifier::external_type_specification]
#[verifier::external_body]
pub struct ExJsonValue(serde_json::Value);

#[verifier::external_type_specification]
#[verifier::external_body]
pub struct ExJwtAlgorithm(jsonwebtoken::Algorithm);

/// The signature algorithms that a route may ask for.
#[derive(Debug, Clone, Copy, PartialEq, Eq, Structural)]
pub enum JwtAlgorithm {
    HS256,
    HS384,
    HS512,
    RS256,
    RS384,
    RS512,
    ES256,
    ES384,
}

/// One way in which a route authenticates its callers.
#[derive(Debug)]
pub enum AuthBackend {
    /// A signed token in the named header, verified with the secret.
    Jwt { secret: String, algorithms: Vec<String>, header: String },
    /// A key in the named header that must be one of the known keys.
    ApiKey { api_keys: AHashSet<String>, header: String },
}

/// What authentication found out about the caller.
#[derive(Debug)]
pub struct AuthContext {
    pub user_id: Option<String>,
    pub is_staff: bool,
    pub is_admin: bool,
    /// `"jwt"` or `"api_key"`.
    pub backend: String,
    pub permissions: Vec<String>,
    /// The claims of a verified token, as the token carried them.
    pub claims: Option<serde_json::Value>,
}

/// The settings of the authentication step of a route. A setting that is
/// absent takes its default.
#[derive(Debug)]
pub struct AuthConfig {
    /// `"jwt"` (the default) or `"api_key"`.
    pub mode: Option<String>,
    /// The header that carries the token; `authorization` by default.
    pub header: Option<String>,
    pub secret: Option<String>,
    pub algorithms: Option<Vec<String>>,
    pub api_keys: Option<AHashSet<String>>,
}

/// Why a request was turned away by the authentication step.
#[derive(Debug)]
pub struct AuthRejection {
    /// 401 for a missing or wrong credential, 500 for a route that cannot
    /// verify tokens.
    pub status: u16,
    /// The scheme to name in `WWW-Authenticate`, if any.
    pub scheme: Option<String>,
    /// The message for the `detail` field of the body.
    pub detail: String,
}

/// The model of a rejection.
pub type Rejection = (u16, Option<Seq<char>>, Seq<char>);

/// The model of an optional rejection.
pub open spec fn rejection_view(r: Option<AuthRejection>) -> Option<Rejection> {
    match r {
        Some(x) => Some((x.status, opt_text(x.scheme), x.detail@)),
        None => None,
    }
}

/// The algorithm that a name selects; an unknown name selects `HS256`.
pub open spec fn algorithm_named(name: Seq<char>) -> JwtAlgorithm {
    if name == "HS384"@ {
        JwtAlgorithm::HS384
    } else if name == "HS512"@ {
        JwtAlgorithm::HS512
    } else if name == "RS256"@ {
        JwtAlgorithm::RS256
    } else if name == "RS384"@ {
        JwtAlgorithm::RS384
    } else if name == "RS512"@ {
        JwtAlgorithm::RS512
    } else if name == "ES256"@ {
        JwtAlgorithm::ES256
    } else if name == "ES384"@ {
        JwtAlgorithm::ES384
    } else {
        JwtAlgorithm::HS256
    }
}

/// The algorithm that a list of names selects: that of its first name, or
/// `HS256` for an empty list.
pub open spec fn algorithm_chosen(names: Seq<Seq<char>>) -> JwtAlgorithm {
    if names.len() == 0 {
        JwtAlgorithm::HS256
    } else {
        algorithm_named(names[0])
    }
}

/// The token in a header value: what follows a leading `Bearer `, or the
/// whole value.
pub open spec fn bearer_token(value: Seq<char>) -> Seq<char> {
    if has_prefix(value, "Bearer "@) {
        value.skip(7)
    } else {
        value
    }
}

/// The key in a header value: what follows a leading `Bearer ` or `ApiKey `,
/// or the whole value.
pub open spec fn api_key_token(value: Seq<char>) -> Seq<char> {
    if has_prefix(value, "Bearer "@) || has_prefix(value, "ApiKey "@) {
        value.skip(7)
    } else {
        value
    }
}

/// The header that carries the credential: the configured name in lower
/// case, or `authorization`.
pub open spec fn auth_header_name(configured: Option<Seq<char>>) -> Seq<char> {
    match configured {
        Some(h) => ascii_lower(h),
        None => "authorization"@,
    }
}

/// What the key check says of a request: no header is a missing key; a key
/// is accepted if no keys are configured or it is one of them.
pub open spec fn api_key_rejection(value: Option<Seq<char>>, keys: Option<Set<Seq<char>>>) -> Option<
    Rejection,
> {
    match value {
        None => Some((401u16, Some("ApiKey"@), "Missing API key"@)),
        Some(v) => {
            let known = match keys {
                Some(k) => k,
                None => Set::<Seq<char>>::empty(),
            };
            if known == Set::<Seq<char>>::empty() || known.contains(api_key_token(v)) {
                None
            } else {
                Some((401u16, Some("ApiKey"@), "Invalid API key"@))
            }
        },
    }
}

/// What a route is told that asks for tokens but has no secret to verify
/// them with.
pub const NO_SECRET: &'static str =
    "JWT authentication requires a secret. Set 'secret' in @auth_required() or ensure Django SECRET_KEY is configured.";

/// What stands in the way of verifying a token, before the token is looked
/// at: a request without the header, or a route without a secret.
pub open spec fn jwt_precheck(value: Option<Seq<char>>, secret: Option<Seq<char>>) -> Option<
    Rejection,
> {
    if value is None {
        Some((401u16, Some("Bearer"@), "Missing authorization header"@))
    } else if secret is None || secret->0.len() == 0 {
        Some((500u16, None, NO_SECRET@))
    } else {
        None
    }
}

/// What the outcome of verifying a token means for the request: a verified
/// token lets it pass; a failure turns it away with the verifier's message.
pub open spec fn jwt_verdict(failure: Option<Seq<char>>) -> Option<Rejection> {
    match failure {
        None => None,
        Some(why) => Some((401u16, Some("Bearer"@), "Invalid JWT token: "@ + why)),
    }
}

/// A token that has expired is turned away.
pub const CHECK_EXPIRY: bool = true;

/// A token that is not valid yet is turned away.
pub const CHECK_NOT_BEFORE: bool = true;

/// `jsonwebtoken::Algorithm`, variant for variant.
#[verifier::external_body]
fn outside_algorithm(a: JwtAlgorithm) -> jsonwebtoken::Algorithm {
    match a {
        JwtAlgorithm::HS256 => jsonwebtoken::Algorithm::HS256,
        JwtAlgorithm::HS384 => jsonwebtoken::Algorithm::HS384,
        JwtAlgorithm::HS512 => jsonwebtoken::Algorithm::HS512,
        JwtAlgorithm::RS256 => jsonwebtoken::Algorithm::RS256,
        JwtAlgorithm::RS384 => jsonwebtoken::Algorithm::RS384,
        JwtAlgorithm::RS512 => jsonwebtoken::Algorithm::RS512,
        JwtAlgorithm::ES256 => jsonwebtoken::Algorithm::ES256,
        JwtAlgorithm::ES384 => jsonwebtoken::Algorithm::ES384,
    }
}

/// `jsonwebtoken::decode` with a secret key, for one algorithm, with the
/// expiry and not-before times checked against the clock as asked. The claims of a
/// token that verifies, or the message of the error. Whether a token
/// verifies depends on the time of the call. The claims are taken as they
/// are written: a standard claim of an unusual type does not make the token
/// fail.
#[verifier::external_body]
fn jwt_decode(
    token: &str,
    secret: &str,
    algorithm: jsonwebtoken::Algorithm,
    check_expiry: bool,
    check_not_before: bool,
) -> Result<serde_json::Value, String> {
    let mut validation = jsonwebtoken::Validation::new(algorithm);
    validation.validate_exp = check_expiry;
    validation.validate_nbf = check_not_before;
    let key = jsonwebtoken::DecodingKey::from_secret(secret.as_bytes());
    match jsonwebtoken::decode::<serde_json::Value>(token, &key, &validation) {
        Ok(data) => Ok(data.claims),
        Err(e) => Err(e.to_string()),
    }
}

/// The text that claims hold under a name, if they hold text there.
pub uninterp spec fn claim_text_of(claims: serde_json::Value, name: Seq<char>) -> Option<Seq<char>>;

/// The truth value that claims hold under a name, if they hold one there.
pub uninterp spec fn claim_flag_of(claims: serde_json::Value, name: Seq<char>) -> Option<bool>;

/// The items of the list that claims hold under a name, if they hold a list
/// there: each item as its text, if it is text.
pub uninterp spec fn claim_items_of(claims: serde_json::Value, name: Seq<char>) -> Option<
    Seq<Option<Seq<char>>>,
>;

/// The model of the items of a list.
pub open spec fn items_view(items: Option<Vec<Option<String>>>) -> Option<Seq<Option<Seq<char>>>> {
    match items {
        Some(v) => Some(Seq::new(v@.len(), |i: int| opt_text(v@[i]))),
        None => None,
    }
}

/// `serde_json::Value::get` and `as_str`: the text of a claim, if the claim
/// is there and is text.
#[verifier::external_body]
fn claim_text(claims: &serde_json::Value, name: &str) -> (r: Option<String>)
    ensures
        opt_text(r) == claim_text_of(*claims, name@),
{
    claims.get(name).and_then(|v| v.as_str()).map(|s| s.to_owned())
}

/// `serde_json::Value::get` and `as_bool`: the truth value of a claim, if the
/// claim is there and is a truth value.
#[verifier::external_body]
fn claim_flag(claims: &serde_json::Value, name: &str) -> (r: Option<bool>)
    ensures
        r == claim_flag_of(*claims, name@),
{
    claims.get(name).and_then(|v| v.as_bool())
}

/// `serde_json::Value::get` and `as_array`: the items of a claim that is a
/// list, each as its text if it is text.
#[verifier::external_body]
fn claim_items(claims: &serde_json::Value, name: &str) -> (r: Option<Vec<Option<String>>>)
    ensures
        items_view(r) == claim_items_of(*claims, name@),
{
    claims.get(name).and_then(|v| v.as_array()).map(
        |items| items.iter().map(|i| i.as_str().map(|s| s.to_owned())).collect(),
    )
}

/// The texts among the items of a list, in their order.
pub open spec fn texts_among(items: Seq<Option<Seq<char>>>) -> Seq<Seq<char>>
    decreases items.len(),
{
    if items.len() == 0 {
        Seq::empty()
    } else {
        match items.last() {
            Some(t) => texts_among(items.drop_last()).push(t),
            None => texts_among(items.drop_last()),
        }
    }
}

/// Keeps the texts among the items of a list.
fn keep_texts(items: Vec<Option<String>>) -> (r: Vec<String>)
    ensures
        string_views(r@) == texts_among(items_view(Some(items))->0),
{
    let ghost all = items_view(Some(items))->0;
    let mut kept: Vec<String> = Vec::new();
    let mut i: usize = 0;
    assert(all.take(0) =~= Seq::<Option<Seq<char>>>::empty());
    assert(string_views(kept@) =~= Seq::<Seq<char>>::empty());
    while i < items.len()
        invariant
            i <= items.len(),
            all == items_view(Some(items))->0,
            string_views(kept@) == texts_among(all.take(i as int)),
        decreases items.len() - i,
    {
        proof {
            assert(all.take(i + 1).drop_last() =~= all.take(i as int));
            assert(all.take(i + 1).last() == opt_text(items@[i as int]));
        }
        match &items[i] {
            Some(t) => {
                let ghost before = string_views(kept@);
                kept.push(t.clone());
                assert(string_views(kept@) =~= before.push(t@));
            },
            None => {},
        }
        i += 1;
    }
    assert(all.take(items.len() as int) =~= all);
    kept
}

/// Reads the name of an algorithm.
pub fn parse_algorithm(name: &str) -> (a: JwtAlgorithm)
    ensures
        a == algorithm_named(name@),
{
    if name.eq("HS384") {
        JwtAlgorithm::HS384
    } else if name.eq("HS512") {
        JwtAlgorithm::HS512
    } else if name.eq("RS256") {
        JwtAlgorithm::RS256
    } else if name.eq("RS384") {
        JwtAlgorithm::RS384
    } else if name.eq("RS512") {
        JwtAlgorithm::RS512
    } else if name.eq("ES256") {
        JwtAlgorithm::ES256
    } else if name.eq("ES384") {
        JwtAlgorithm::ES384
    } else {
        JwtAlgorithm::HS256
    }
}

/// Chooses the algorithm from the names that a route lists.
pub fn choose_algorithm(names: &Vec<String>) -> (a: JwtAlgorithm)
    ensures
        a == algorithm_chosen(string_views(names@)),
{
    if names.len() == 0 {
        JwtAlgorithm::HS256
    } else {
        parse_algorithm(names[0].as_str())
    }
}

/// Takes the token out of a header value.
pub fn extract_bearer(value: &str) -> (token: String)
    ensures
        token@ == bearer_token(value@),
{
    let chars = chars_of(value);
    let prefix = chars_of("Bearer ");
    proof {
        reveal_strlit("Bearer ");
    }
    if starts_with(chars.as_slice(), prefix.as_slice()) {
        let rest = slice_of(chars.as_slice(), 7, chars.len());
        assert(rest@ =~= value@.skip(7));
        string_of(rest.as_slice())
    } else {
        string_of(chars.as_slice())
    }
}

/// Takes the key out of a header value.
pub fn extract_api_key(value: &str) -> (key: String)
    ensures
        key@ == api_key_token(value@),
{
    let chars = chars_of(value);
    let bearer = chars_of("Bearer ");
    let api_key = chars_of("ApiKey ");
    proof {
        reveal_strlit("Bearer ");
        reveal_strlit("ApiKey ");
    }
    if starts_with(chars.as_slice(), bearer.as_slice()) || starts_with(
        chars.as_slice(),
        api_key.as_slice(),
    ) {
        let rest = slice_of(chars.as_slice(), 7, chars.len());
        assert(rest@ =~= value@.skip(7));
        string_of(rest.as_slice())
    } else {
        string_of(chars.as_slice())
    }
}

/// Builds a rejection.
fn reject(status: u16, scheme: Option<&str>, detail: String) -> (r: Option<AuthRejection>)
    ensures
        rejection_view(r) == Some((status, crate::cors::opt_str(scheme), detail@)),
{
    let scheme = match scheme {
        Some(s) => Some(s.to_owned()),
        None => None,
    };
    Some(AuthRejection { status, scheme, detail })
}

/// Checks the key of a request against the keys of a route.
pub fn check_api_key_auth(auth_header: Option<&String>, api_keys: &Option<AHashSet<String>>) -> (r:
    Option<AuthRejection>)
    ensures
        rejection_view(r) == api_key_rejection(
            crate::headers::opt_view(auth_header),
            key_set(*api_keys),
        ),
{
    let value = match auth_header {
        Some(v) => v,
        None => {
            return reject(401, Some("ApiKey"), "Missing API key".to_owned());
        },
    };
    let key = extract_api_key(value.as_str());
    let accepted = match api_keys {
        Some(keys) => text_set_is_empty(keys) || text_set_contains(keys, key.as_str()),
        None => true,
    };
    if accepted {
        None
    } else {
        reject(401, Some("ApiKey"), "Invalid API key".to_owned())
    }
}

/// The keys of an optional set.
pub open spec fn key_set(keys: Option<AHashSet<String>>) -> Option<Set<Seq<char>>> {
    match keys {
        Some(k) => Some(text_set(k)),
        None => None,
    }
}

/// Says what the outcome of verifying a token means for the request.
pub fn jwt_outcome(failure: Option<String>) -> (r: Option<AuthRejection>)
    ensures
        rejection_view(r) == jwt_verdict(opt_text(failure)),
{
    match failure {
        None => None,
        Some(why) => {
            let mut detail = "Invalid JWT token: ".to_owned();
            vstd::string::StringExecFns::append(&mut detail, why.as_str());
            reject(401, Some("Bearer"), detail)
        },
    }
}

/// Checks the token of a request. A request without the header, or a route
/// without a secret, is turned away without looking at a token; otherwise
/// the token is verified, and the request passes or is turned away as
/// `jwt_verdict` says of what the verifier found.
pub fn check_jwt_auth(
    auth_header: Option<&String>,
    secret: &Option<String>,
    algorithms: &Option<Vec<String>>,
) -> (r: Option<AuthRejection>)
    ensures
        jwt_precheck(crate::headers::opt_view(auth_header), opt_text(*secret)) is Some
            ==> rejection_view(r) == jwt_precheck(
            crate::headers::opt_view(auth_header),
            opt_text(*secret),
        ),
        jwt_precheck(crate::headers::opt_view(auth_header), opt_text(*secret)) is None ==> exists|
            failure: Option<Seq<char>>,
        | rejection_view(r) == jwt_verdict(failure),
{
    let value = match auth_header {
        Some(v) => v,
        None => {
            return reject(401, Some("Bearer"), "Missing authorization header".to_owned());
        },
    };
    let secret = match secret {
        Some(s) => {
            if s.as_str().is_empty() {
                return reject(500, None, NO_SECRET.to_owned());
            }
            s
        },
        None => {
            return reject(500, None, NO_SECRET.to_owned());
        },
    };
    let algorithm = match algorithms {
        Some(names) => choose_algorithm(names),
        None => JwtAlgorithm::HS256,
    };
    let token = extract_bearer(value.as_str());
    let failure = match jwt_decode(
        token.as_str(),
        secret.as_str(),
        outside_algorithm(algorithm),
        CHECK_EXPIRY,
        CHECK_NOT_BEFORE,
    ) {
        Ok(_) => None,
        Err(why) => Some(why),
    };
    let ghost witness = opt_text(failure);
    let r = jwt_outcome(failure);
    assert(rejection_view(r) == jwt_verdict(witness));
    r
}

/// The name of the header that carries the credential.
pub fn auth_header(configured: &Option<String>) -> (name: String)
    ensures
        name@ == auth_header_name(opt_text(*configured)),
{
    match configured {
        Some(h) => {
            let chars = chars_of(h.as_str());
            let lower = lowercase(chars.as_slice());
            string_of(lower.as_slice())
        },
        None => "authorization".to_owned(),
    }
}

/// The value that a request carries under a header name.
pub open spec fn carried(headers: TextPairs, name: Seq<char>) -> Option<Seq<char>> {
    if headers.contains_key(name) {
        Some(headers[name])
    } else {
        None
    }
}

/// Whether an outcome is what the authentication step of a route may say of
/// a request.
///
/// The mode selects the check: keys are checked exactly as
/// `api_key_rejection` says; a token is turned away without being looked at
/// as `jwt_precheck` says, and else as `jwt_verdict` says of what the
/// verifier found; any other mode lets every request pass.
pub open spec fn check_auth_outcome(headers: TextPairs, config: AuthConfig, r: Option<AuthRejection>) -> bool {
    let value = carried(headers, auth_header_name(opt_text(config.header)));
    match opt_text(config.mode) {
        Some(mode) if mode == "api_key"@ => rejection_view(r) == api_key_rejection(
            value,
            key_set(config.api_keys),
        ),
        Some(mode) if mode != "jwt"@ => r is None,
        _ => if jwt_precheck(value, opt_text(config.secret)) is Some {
            rejection_view(r) == jwt_precheck(value, opt_text(config.secret))
        } else {
            exists|failure: Option<Seq<char>>| rejection_view(r) == jwt_verdict(failure)
        },
    }
}

/// Runs the authentication step of a route on the headers of a request.
pub fn check_auth(headers: &AHashMap<String, String>, config: &AuthConfig) -> (r: Option<
    AuthRejection,
>)
    ensures
        check_auth_outcome(text_map(*headers), *config, r),
{
    let name = auth_header(&config.header);
    let value = text_map_get(headers, name.as_str());
    match &config.mode {
        Some(mode) => {
            if mode.as_str().eq("api_key") {
                check_api_key_auth(value, &config.api_keys)
            } else if mode.as_str().eq("jwt") {
                check_jwt_auth(value, &config.secret, &config.algorithms)
            } else {
                None
            }
        },
        None => check_jwt_auth(value, &config.secret, &config.algorithms),
    }
}

/// What a verified token says about the caller.
pub struct Claims {
    pub sub: Option<Seq<char>>,
    pub is_staff: bool,
    pub is_superuser: bool,
    pub permissions: Seq<Seq<char>>,
}

/// The model of an authentication context: everything but the claims as the
/// token carried them.
pub struct ContextModel {
    pub user_id: Option<Seq<char>>,
    pub is_staff: bool,
    pub is_admin: bool,
    pub backend: Seq<char>,
    pub permissions: Seq<Seq<char>>,
}

/// The model of an optional authentication context.
pub open spec fn context_model(ctx: Option<AuthContext>) -> Option<ContextModel> {
    match ctx {
        Some(c) => Some(
            ContextModel {
                user_id: opt_text(c.user_id),
                is_staff: c.is_staff,
                is_admin: c.is_admin,
                backend: c.backend@,
                permissions: string_views(c.permissions@),
            },
        ),
        None => None,
    }
}

/// The context of a caller whose token was verified.
pub open spec fn jwt_caller(claims: Claims) -> ContextModel {
    ContextModel {
        user_id: claims.sub,
        is_staff: claims.is_staff,
        is_admin: claims.is_superuser,
        backend: "jwt"@,
        permissions: claims.permissions,
    }
}

/// The context of a caller who showed a known key.
pub open spec fn api_key_caller(key: Seq<char>) -> ContextModel {
    ContextModel {
        user_id: Some("apikey:"@ + key),
        is_staff: false,
        is_admin: false,
        backend: "api_key"@,
        permissions: Seq::empty(),
    }
}

/// What one backend makes of a request, given what the verifier found if the
/// backend is asked to verify a token. A key authenticates if it is one of
/// the backend's keys. A token is handed to the verifier if the request
/// carries the backend's header.
pub open spec fn backend_outcome(headers: TextPairs, backend: AuthBackend, verified: Option<Claims>) -> Option<
    ContextModel,
> {
    match backend {
        AuthBackend::ApiKey { api_keys, header } => match carried(headers, ascii_lower(header@)) {
            Some(v) => if text_set(api_keys).contains(api_key_token(v)) {
                Some(api_key_caller(api_key_token(v)))
            } else {
                None
            },
            None => None,
        },
        AuthBackend::Jwt { secret, algorithms, header } => match carried(
            headers,
            ascii_lower(header@),
        ) {
            Some(_) => match verified {
                Some(claims) => Some(jwt_caller(claims)),
                None => None,
            },
            None => None,
        },
    }
}

/// What a list of backends makes of a request, from backend `from` on: the
/// context of the first backend that authenticates the caller.
pub open spec fn backends_outcome(
    headers: TextPairs,
    backends: Seq<AuthBackend>,
    verified: Seq<Option<Claims>>,
    from: int,
) -> Option<ContextModel>
    decreases backends.len() - from,
{
    if from < 0 || from >= backends.len() || from >= verified.len() {
        None
    } else {
        match backend_outcome(headers, backends[from], verified[from]) {
            Some(c) => Some(c),
            None => backends_outcome(headers, backends, verified, from + 1),
        }
    }
}

/// Some outcome of the token verifier explains the context: the context is
/// what the backends make of the request for some tokens that the verifier
/// let pass or turned away, one for each backend, and for what the claims of
/// those tokens say.
pub open spec fn may_authenticate(
    headers: TextPairs,
    backends: Seq<AuthBackend>,
    ctx: Option<ContextModel>,
) -> bool {
    exists|tokens: Seq<Option<serde_json::Value>>|
        tokens.len() == backends.len() && ctx == #[trigger] backends_outcome(
            headers,
            backends,
            read_all(tokens),
            0,
        )
}

/// What the claims of a verified token say about the caller: the subject,
/// whether the caller is staff and whether a superuser, and the permissions.
/// A claim that is absent or of another type counts as absent, and an item
/// of the permissions that is no text is left out.
pub open spec fn claims_read(claims: serde_json::Value) -> Claims {
    Claims {
        sub: claim_text_of(claims, "sub"@),
        is_staff: claim_flag_of(claims, "is_staff"@) == Some(true),
        is_superuser: claim_flag_of(claims, "is_superuser"@) == Some(true),
        permissions: match claim_items_of(claims, "permissions"@) {
            Some(items) => texts_among(items),
            None => Seq::empty(),
        },
    }
}

/// What the claims of a token say, if the token verified.
pub open spec fn read_token(token: Option<serde_json::Value>) -> Option<Claims> {
    match token {
        Some(claims) => Some(claims_read(claims)),
        None => None,
    }
}

/// What the claims of each of the tokens say.
pub open spec fn read_all(tokens: Seq<Option<serde_json::Value>>) -> Seq<Option<Claims>> {
    Seq::new(tokens.len(), |i: int| read_token(tokens[i]))
}

/// What the claims read from a verified token say about the caller. A claim
/// that is absent or of another type counts as absent.
pub open spec fn claims_of(
    sub: Option<String>,
    is_staff: Option<bool>,
    is_superuser: Option<bool>,
    permissions: Option<Vec<String>>,
) -> Claims {
    Claims {
        sub: opt_text(sub),
        is_staff: is_staff == Some(true),
        is_superuser: is_superuser == Some(true),
        permissions: match permissions {
            Some(p) => string_views(p@),
            None => Seq::empty(),
        },
    }
}

/// Builds the context of a caller whose token was verified.
pub fn jwt_context(
    sub: Option<String>,
    is_staff: Option<bool>,
    is_superuser: Option<bool>,
    permissions: Option<Vec<String>>,
    claims: serde_json::Value,
) -> (ctx: AuthContext)
    ensures
        context_model(Some(ctx)) == Some(
            jwt_caller(claims_of(sub, is_staff, is_superuser, permissions)),
        ),
        ctx.claims == Some(claims),
{
    let permissions = match permissions {
        Some(p) => p,
        None => {
            let v: Vec<String> = Vec::new();
            assert(string_views(v@) =~= Seq::<Seq<char>>::empty());
            v
        },
    };
    AuthContext {
        user_id: sub,
        is_staff: match is_staff {
            Some(b) => b,
            None => false,
        },
        is_admin: match is_superuser {
            Some(b) => b,
            None => false,
        },
        backend: "jwt".to_owned(),
        permissions,
        claims: Some(claims),
    }
}

/// Builds the context of a caller who showed a known key.
pub fn api_key_context(key: &str) -> (ctx: AuthContext)
    ensures
        context_model(Some(ctx)) == Some(api_key_caller(key@)),
        ctx.claims is None,
{
    let mut user_id = "apikey:".to_owned();
    vstd::string::StringExecFns::append(&mut user_id, key);
    let permissions: Vec<String> = Vec::new();
    assert(string_views(permissions@) =~= Seq::<Seq<char>>::empty());
    AuthContext {
        user_id: Some(user_id),
        is_staff: false,
        is_admin: false,
        backend: "api_key".to_owned(),
        permissions,
        claims: None,
    }
}

/// A context holds the claims of a token exactly when a token made it: the
/// context of a caller with a key holds none, the context of a caller with a
/// verified token holds the claims of that token.
pub open spec fn carries_claims(ctx: AuthContext) -> bool {
    ctx.claims is Some <==> ctx.backend@ == "jwt"@
}

/// Asks one backend to authenticate the caller.
fn try_backend(headers: &AHashMap<String, String>, backend: &AuthBackend) -> (r: (
    Option<AuthContext>,
    Ghost<Option<serde_json::Value>>,
))
    ensures
        context_model(r.0) == backend_outcome(text_map(*headers), *backend, read_token(r.1@)),
        r.0 matches Some(ctx) ==> ctx.claims == r.1@ && carries_claims(ctx),
        r.0 is None ==> r.1@ is None,
{
    proof {
        reveal_strlit("jwt");
        reveal_strlit("api_key");
        assert("jwt"@.len() != "api_key"@.len());
    }
    match backend {
        AuthBackend::ApiKey { api_keys, header } => {
            let name = crate::response_builder::lowercase_string(header.as_str());
            match text_map_get(headers, name.as_str()) {
                Some(v) => {
                    let key = extract_api_key(v.as_str());
                    if text_set_contains(api_keys, key.as_str()) {
                        (Some(api_key_context(key.as_str())), Ghost(None))
                    } else {
                        (None, Ghost(None))
                    }
                },
                None => (None, Ghost(None)),
            }
        },
        AuthBackend::Jwt { secret, algorithms, header } => {
            let name = crate::response_builder::lowercase_string(header.as_str());
            match text_map_get(headers, name.as_str()) {
                Some(v) => {
                    let token = extract_bearer(v.as_str());
                    let algorithm = choose_algorithm(algorithms);
                    match jwt_decode(
                        token.as_str(),
                        secret.as_str(),
                        outside_algorithm(algorithm),
                        CHECK_EXPIRY,
                        CHECK_NOT_BEFORE,
                    ) {
                        Ok(claims) => {
                            let sub = claim_text(&claims, "sub");
                            let is_staff = claim_flag(&claims, "is_staff");
                            let is_superuser = claim_flag(&claims, "is_superuser");
                            let permissions = match claim_items(&claims, "permissions") {
                                Some(items) => Some(keep_texts(items)),
                                None => None,
                            };
                            let ghost token = claims;
                            proof {
                                assert(claims_of(sub, is_staff, is_superuser, permissions)
                                    == claims_read(token));
                            }
                            (
                                Some(jwt_context(sub, is_staff, is_superuser, permissions, claims)),
                                Ghost(Some(token)),
                            )
                        },
                        Err(_) => (None, Ghost(None)),
                    }
                },
                None => (None, Ghost(None)),
            }
        },
    }
}

/// Authenticates the caller of a request: the backends are asked in order
/// and the first that succeeds gives the context. A route without backends
/// authenticates nobody.
pub fn authenticate(headers: &AHashMap<String, String>, backends: &Vec<AuthBackend>) -> (r: Option<
    AuthContext,
>)
    ensures
        may_authenticate(text_map(*headers), backends@, context_model(r)),
        r matches Some(ctx) ==> carries_claims(ctx),
{
    let ghost h = text_map(*headers);
    let ghost n = backends@.len() as int;
    let ghost mut tokens: Seq<Option<serde_json::Value>> = Seq::new(
        backends@.len(),
        |i: int| None,
    );
    let mut i: usize = 0;
    while i < backends.len()
        invariant
            i <= backends.len(),
            h == text_map(*headers),
            n == backends@.len(),
            tokens.len() == n,
            forall|j: int|
                0 <= j < i ==> backend_outcome(h, backends@[j], #[trigger] read_all(tokens)[j])
                    is None,
        decreases backends.len() - i,
    {
        let (found, finding) = try_backend(headers, &backends[i]);
        proof {
            let before = tokens;
            tokens = tokens.update(i as int, finding@);
            assert forall|j: int| 0 <= j < i implies backend_outcome(
                h,
                backends@[j],
                #[trigger] read_all(tokens)[j],
            ) is None by {
                assert(read_all(tokens)[j] == read_all(before)[j]);
            }
            assert(read_all(tokens)[i as int] == read_token(finding@));
        }
        match found {
            Some(ctx) => {
                proof {
                    lemma_first_success(h, backends@, read_all(tokens), 0, i as int);
                }
                return Some(ctx);
            },
            None => {},
        }
        i += 1;
    }
    proof {
        lemma_no_success(h, backends@, read_all(tokens), 0);
    }
    None
}

/// Where every backend before `at` fails and the one at `at` succeeds, the
/// outcome is that of the backend at `at`.
proof fn lemma_first_success(
    headers: TextPairs,
    backends: Seq<AuthBackend>,
    verified: Seq<Option<Claims>>,
    from: int,
    at: int,
)
    requires
        verified.len() == backends.len(),
        0 <= from <= at < backends.len(),
        forall|j: int| from <= j < at ==> backend_outcome(headers, backends[j], #[trigger] verified[j])
            is None,
        backend_outcome(headers, backends[at], verified[at]) is Some,
    ensures
        backends_outcome(headers, backends, verified, from) == backend_outcome(
            headers,
            backends[at],
            verified[at],
        ),
    decreases at - from,
{
    if from < at {
        lemma_first_success(headers, backends, verified, from + 1, at);
    }
}

/// Where every backend fails, nobody is authenticated.
proof fn lemma_no_success(
    headers: TextPairs,
    backends: Seq<AuthBackend>,
    verified: Seq<Option<Claims>>,
    from: int,
)
    requires
        verified.len() == backends.len(),
        0 <= from <= backends.len(),
        forall|j: int| from <= j < backends.len() ==> backend_outcome(
            headers,
            backends[j],
            #[trigger] verified[j],
        ) is None,
    ensures
        backends_outcome(headers, backends, verified, from) is None,
    decreases backends.len() - from,
{
    if from < backends.len() {
        lemma_no_success(headers, backends, verified, from + 1);
    }
}

} // verus!
