//! `Set-Cookie` values: the checks a cookie must pass and the text that is
//! written for one. The text itself comes from the `cookie` crate.

use vstd::prelude::*;
use vstd::string::StringExecFns;
use crate::numbers::signed_decimal;
use crate::response_meta::{opt_text, CookieData};
use crate::text::{ascii_lower, chars_of, lowercase, same_chars};

verus! {

/// The `SameSite` attribute of a cookie.
#[derive(Debug, Clone, Copy, PartialEq, Eq, Structural)]
pub enum SameSitePolicy {
    Strict,
    Lax,
    /// `SameSite=None`: the cookie is sent with cross-site requests.
    Unrestricted,
}

/// Why a cookie is written or dropped.
#[derive(Debug, Clone, Copy, PartialEq, Eq, Structural)]
pub enum CookieCheck {
    Accepted,
    /// The name is empty or holds a character that is no token character.
    InvalidName,
    /// The value holds a control character.
    ControlCharacters,
}

/// A character that may stand in a cookie name: visible ASCII that is no
/// separator.
pub open spec fn token_char(c: char) -> bool {
    32 < c as u32 && (c as u32) < 127 && c != '(' && c != ')' && c != '<' && c != '>' && c != '@'
        && c != ',' && c != ';' && c != ':' && c != '\\' && c != '"' && c != '/' && c != '['
        && c != ']' && c != '?' && c != '=' && c != '{' && c != '}'
}

/// A cookie name is a non-empty run of token characters.
pub open spec fn valid_cookie_name(name: Seq<char>) -> bool {
    name.len() > 0 && forall|i: int| 0 <= i < name.len() ==> token_char(#[trigger] name[i])
}

/// An ASCII control character.
pub open spec fn control_char(c: char) -> bool {
    (c as u32) < 32 || c as u32 == 127
}

/// The text holds at least one control character.
pub open spec fn has_control_chars(value: Seq<char>) -> bool {
    exists|i: int| 0 <= i < value.len() && control_char(#[trigger] value[i])
}

/// The outcome of the checks on a cookie's name and value. The name is
/// checked first.
pub open spec fn cookie_check(name: Seq<char>, value: Seq<char>) -> CookieCheck {
    if !valid_cookie_name(name) {
        CookieCheck::InvalidName
    } else if has_control_chars(value) {
        CookieCheck::ControlCharacters
    } else {
        CookieCheck::Accepted
    }
}

/// How a `SameSite` policy is written.
pub open spec fn same_site_name(p: SameSitePolicy) -> Seq<char> {
    match p {
        SameSitePolicy::Strict => "Strict"@,
        SameSitePolicy::Lax => "Lax"@,
        SameSitePolicy::Unrestricted => "None"@,
    }
}

/// The policy that a handler's `samesite` text selects, whatever its case.
/// Text that names no policy selects `Lax`.
pub open spec fn same_site_of(s: Seq<char>) -> SameSitePolicy {
    if ascii_lower(s) == "strict"@ {
        SameSitePolicy::Strict
    } else if ascii_lower(s) == "none"@ {
        SameSitePolicy::Unrestricted
    } else {
        SameSitePolicy::Lax
    }
}

/// A domain as it is written: without one leading dot.
pub open spec fn shown_domain(d: Seq<char>) -> Seq<char> {
    if d.len() > 0 && d[0] == '.' {
        d.drop_first()
    } else {
        d
    }
}

/// The text between a cookie's value and its path: the flags.
pub open spec fn cookie_flags(
    secure: Option<bool>,
    http_only: Option<bool>,
    same_site: Option<SameSitePolicy>,
) -> Seq<char> {
    (if http_only == Some(true) {
        "; HttpOnly"@
    } else {
        Seq::<char>::empty()
    }) + (match same_site {
        Some(p) => "; SameSite="@ + same_site_name(p),
        None => Seq::<char>::empty(),
    }) + (if secure == Some(true) || (secure is None && same_site == Some(
        SameSitePolicy::Unrestricted,
    )) {
        "; Secure"@
    } else {
        Seq::<char>::empty()
    })
}

/// The `Set-Cookie` value of a cookie with the given attributes: name and
/// value, then the flags, the path, the domain and the maximum age. A cookie
/// with `SameSite=None` and no word on `Secure` is written as secure.
pub open spec fn cookie_line(
    name: Seq<char>,
    value: Seq<char>,
    path: Seq<char>,
    max_age: Option<i64>,
    domain: Option<Seq<char>>,
    secure: Option<bool>,
    http_only: Option<bool>,
    same_site: Option<SameSitePolicy>,
) -> Seq<char> {
    name + "="@ + value + cookie_flags(secure, http_only, same_site) + "; Path="@ + path + (
    match domain {
        Some(d) => "; Domain="@ + shown_domain(d),
        None => Seq::<char>::empty(),
    }) + (match max_age {
        Some(secs) => "; Max-Age="@ + signed_decimal(secs as int),
        None => Seq::<char>::empty(),
    })
}

/// The maximum age that is written: a negative one counts as zero.
pub open spec fn written_max_age(max_age: Option<i64>) -> Option<i64> {
    match max_age {
        Some(secs) => Some(if secs < 0 { 0i64 } else { secs }),
        None => None,
    }
}

/// A flag that is either set or left unsaid.
pub open spec fn flag(on: bool) -> Option<bool> {
    if on {
        Some(true)
    } else {
        None
    }
}

/// The policy, if any, that a cookie asks for.
pub open spec fn policy_of(samesite: Option<String>) -> Option<SameSitePolicy> {
    match samesite {
        Some(s) => Some(same_site_of(s@)),
        None => None,
    }
}

/// The `Set-Cookie` value for a cookie that passed the checks. A handler's
/// own `expires` text is appended as it stands.
pub open spec fn set_cookie_text(c: CookieData) -> Seq<char> {
    cookie_line(
        c.name@,
        c.value@,
        c.path@,
        written_max_age(c.max_age),
        opt_text(c.domain),
        flag(c.secure),
        flag(c.httponly),
        policy_of(c.samesite),
    ) + (match c.expires {
        Some(e) => "; Expires="@ + e@,
        None => Seq::<char>::empty(),
    })
}

/// `cookie::Cookie` written with `to_string`, for a cookie without a domain.
/// The crate writes name and value, then `HttpOnly`, `SameSite`, `Secure`,
/// `Path` and `Max-Age` for the attributes that are set.
#[verifier::external_body]
fn cookie_text(
    name: &str,
    value: &str,
    path: &str,
    max_age: Option<i64>,
    secure: Option<bool>,
    http_only: Option<bool>,
    same_site: Option<SameSitePolicy>,
) -> (r: String)
    ensures
        r@ == cookie_line(name@, value@, path@, max_age, None, secure, http_only, same_site),
{
    let mut c = cookie::Cookie::new(name.to_owned(), value.to_owned());
    c.set_path(path.to_owned());
    c.set_max_age(max_age.map(cookie::time::Duration::seconds));
    c.set_secure(secure);
    c.set_http_only(http_only);
    c.set_same_site(same_site.map(|p| match p {
        SameSitePolicy::Strict => cookie::SameSite::Strict,
        SameSitePolicy::Lax => cookie::SameSite::Lax,
        SameSitePolicy::Unrestricted => cookie::SameSite::None,
    }));
    c.to_string()
}

/// `cookie::Cookie` written with `to_string`, for a cookie with a domain,
/// which the crate writes between `Path` and `Max-Age`, without a leading dot.
#[verifier::external_body]
fn cookie_text_for_domain(
    name: &str,
    value: &str,
    path: &str,
    max_age: Option<i64>,
    domain: &str,
    secure: Option<bool>,
    http_only: Option<bool>,
    same_site: Option<SameSitePolicy>,
) -> (r: String)
    ensures
        r@ == cookie_line(
            name@,
            value@,
            path@,
            max_age,
            Some(domain@),
            secure,
            http_only,
            same_site,
        ),
{
    let mut c = cookie::Cookie::new(name.to_owned(), value.to_owned());
    c.set_path(path.to_owned());
    c.set_domain(domain.to_owned());
    c.set_max_age(max_age.map(cookie::time::Duration::seconds));
    c.set_secure(secure);
    c.set_http_only(http_only);
    c.set_same_site(same_site.map(|p| match p {
        SameSitePolicy::Strict => cookie::SameSite::Strict,
        SameSitePolicy::Lax => cookie::SameSite::Lax,
        SameSitePolicy::Unrestricted => cookie::SameSite::None,
    }));
    c.to_string()
}

/// Decides whether `name` may be the name of a cookie.
pub fn is_valid_cookie_name(name: &str) -> (r: bool)
    ensures
        r == valid_cookie_name(name@),
{
    let chars = chars_of(name);
    if chars.len() == 0 {
        return false;
    }
    let mut i: usize = 0;
    while i < chars.len()
        invariant
            i <= chars.len(),
            chars@ == name@,
            forall|j: int| 0 <= j < i ==> token_char(#[trigger] chars@[j]),
        decreases chars.len() - i,
    {
        let c = chars[i];
        let code: u32 = c as u32;
        let ok = 32 < code && code < 127 && c != '(' && c != ')' && c != '<' && c != '>' && c
            != '@' && c != ',' && c != ';' && c != ':' && c != '\\' && c != '"' && c != '/' && c
            != '[' && c != ']' && c != '?' && c != '=' && c != '{' && c != '}';
        if !ok {
            assert(!token_char(name@[i as int]));
            return false;
        }
        i += 1;
    }
    true
}

/// Decides whether `value` holds a control character.
pub fn contains_control_chars(value: &str) -> (r: bool)
    ensures
        r == has_control_chars(value@),
{
    let chars = chars_of(value);
    let mut i: usize = 0;
    while i < chars.len()
        invariant
            i <= chars.len(),
            chars@ == value@,
            forall|j: int| 0 <= j < i ==> !control_char(#[trigger] chars@[j]),
        decreases chars.len() - i,
    {
        let code: u32 = chars[i] as u32;
        if code < 32 || code == 127 {
            assert(control_char(value@[i as int]));
            return true;
        }
        i += 1;
    }
    false
}

/// Checks the name and the value of a cookie.
pub fn check_cookie(c: &CookieData) -> (r: CookieCheck)
    ensures
        r == cookie_check(c.name@, c.value@),
{
    if !is_valid_cookie_name(c.name.as_str()) {
        CookieCheck::InvalidName
    } else if contains_control_chars(c.value.as_str()) {
        CookieCheck::ControlCharacters
    } else {
        CookieCheck::Accepted
    }
}

/// Reads a `SameSite` policy from a handler's text.
pub fn parse_same_site(s: &str) -> (p: SameSitePolicy)
    ensures
        p == same_site_of(s@),
{
    let chars = chars_of(s);
    let lower = lowercase(chars.as_slice());
    let strict = chars_of("strict");
    let none = chars_of("none");
    if same_chars(lower.as_slice(), strict.as_slice()) {
        SameSitePolicy::Strict
    } else if same_chars(lower.as_slice(), none.as_slice()) {
        SameSitePolicy::Unrestricted
    } else {
        SameSitePolicy::Lax
    }
}

/// Writes a cookie as a `Set-Cookie` value, or drops it: a cookie whose name
/// is no token or whose value holds a control character is not written.
pub fn format_cookie(c: &CookieData) -> (r: Option<String>)
    ensures
        match r {
            Some(text) => cookie_check(c.name@, c.value@) == CookieCheck::Accepted && text@
                == set_cookie_text(*c),
            None => cookie_check(c.name@, c.value@) != CookieCheck::Accepted,
        },
{
    match check_cookie(c) {
        CookieCheck::Accepted => {},
        _ => {
            return None;
        },
    }
    let max_age: Option<i64> = match c.max_age {
        Some(secs) => Some(if secs < 0 { 0i64 } else { secs }),
        None => None,
    };
    let secure: Option<bool> = if c.secure { Some(true) } else { None };
    let http_only: Option<bool> = if c.httponly { Some(true) } else { None };
    let same_site: Option<SameSitePolicy> = match &c.samesite {
        Some(s) => Some(parse_same_site(s.as_str())),
        None => None,
    };
    let mut result = match &c.domain {
        Some(d) => cookie_text_for_domain(
            c.name.as_str(),
            c.value.as_str(),
            c.path.as_str(),
            max_age,
            d.as_str(),
            secure,
            http_only,
            same_site,
        ),
        None => cookie_text(
            c.name.as_str(),
            c.value.as_str(),
            c.path.as_str(),
            max_age,
            secure,
            http_only,
            same_site,
        ),
    };
    match &c.expires {
        Some(e) => {
            result.append("; Expires=");
            result.append(e.as_str());
            assert(result@ =~= set_cookie_text(*c));
        },
        None => {
            assert(result@ =~= set_cookie_text(*c));
        },
    }
    Some(result)
}

/// A cookie whose name holds a semicolon, or whose value holds a carriage
/// return or a line feed, is never written.
pub proof fn lemma_injection_rejected(name: Seq<char>, value: Seq<char>)
    requires
        name.contains(';') || value.contains('\r') || value.contains('\n'),
    ensures
        cookie_check(name, value) != CookieCheck::Accepted,
{
    if name.contains(';') {
        let i = choose|i: int| 0 <= i < name.len() && name[i] == ';';
        assert(!token_char(name[i]));
    } else if value.contains('\r') {
        let i = choose|i: int| 0 <= i < value.len() && value[i] == '\r';
        assert(control_char(value[i]));
    } else {
        let i = choose|i: int| 0 <= i < value.len() && value[i] == '\n';
        assert(control_char(value[i]));
    }
}

} // verus!
