//! Responses as plain values: a status, a list of headers and a body. The
//! functions here put the headers of a response together from what the
//! handler returned.

use vstd::prelude::*;
use crate::cookies::{cookie_check, format_cookie, set_cookie_text, CookieCheck};
use crate::headers::{header_insert, with_header, HeaderSeq};

use crate::numbers::{decimal, decimal_of};
use crate::response_meta::{content_type_text, opt_text, pairs, CookieData, ResponseMeta};
use crate::text::{
    ascii_lower, chars_of, eq_ignore_case, lowercase, same_ignoring_case, string_of,
};

verus! {

/// The response header that marks the body as a file on disk. Its value is
/// the path of the file. It is never sent.
pub const FILE_PATH_MARK: &'static str = "x-bolt-file-path";

/// A response that is ready to be written.
#[derive(Debug)]
pub struct HttpReply {
    pub status: u16,
    pub headers: Vec<(String, String)>,
    pub body: Vec<u8>,
}

/// What a handler returned in the form of a status, response metadata and a
/// body.
#[derive(Debug)]
pub struct ParsedResponseMeta {
    pub status_code: u16,
    pub meta: ResponseMeta,
    pub body: Vec<u8>,
}

/// A status code as it is sent: a code outside 100..=999 is sent as 200.
pub open spec fn normal_status(code: u16) -> u16 {
    if 100 <= code && code <= 999 {
        code
    } else {
        200
    }
}

/// A character that may stand in the name of a header.
pub open spec fn name_char(c: char) -> bool {
    ('a' <= c && c <= 'z') || ('A' <= c && c <= 'Z') || ('0' <= c && c <= '9') || c == '!' || c
        == '"' || c == '#' || c == '$' || c == '%' || c == '&' || c == '\'' || c == '*' || c
        == '+' || c == '-' || c == '.' || c == '^' || c == '_' || c == '`' || c == '|' || c == '~'
}

/// A name under which a header can be sent.
pub open spec fn valid_header_name(name: Seq<char>) -> bool {
    0 < name.len() < 65536 && forall|i: int| 0 <= i < name.len() ==> name_char(#[trigger] name[i])
}

/// A character that may stand in the value of a header that is sent as
/// bytes: anything but the control characters other than the tab.
pub open spec fn value_char(c: char) -> bool {
    c == '\t' || (32 <= c as u32 && c as u32 != 127)
}

/// A value that a header can be sent with.
pub open spec fn valid_header_value(value: Seq<char>) -> bool {
    forall|i: int| 0 <= i < value.len() ==> value_char(#[trigger] value[i])
}

/// The headers of the list that can be sent, in their order, with their
/// names in lower case. The others are left out.
pub open spec fn sendable_headers(h: HeaderSeq) -> HeaderSeq
    decreases h.len(),
{
    if h.len() == 0 {
        h
    } else if valid_header_name(h.last().0) && valid_header_value(h.last().1) {
        sendable_headers(h.drop_last()).push((ascii_lower(h.last().0), h.last().1))
    } else {
        sendable_headers(h.drop_last())
    }
}

/// The headers with `Content-Encoding: identity` set where the response is
/// not to be compressed.
pub open spec fn with_identity(h: HeaderSeq, skip_compression: bool) -> HeaderSeq {
    if skip_compression {
        with_header(h, "content-encoding"@, "identity"@)
    } else {
        h
    }
}

/// The headers of a server-sent-event stream: the handler's headers, then
/// the content type and the headers that keep caches and proxies from
/// buffering.
pub open spec fn sse_headers(h: HeaderSeq, skip_compression: bool) -> HeaderSeq {
    with_identity(
        with_header(
            with_header(
                with_header(
                    with_header(
                        with_header(h, "content-type"@, "text/event-stream"@),
                        "x-accel-buffering"@,
                        "no"@,
                    ),
                    "cache-control"@,
                    "no-cache, no-store, must-revalidate"@,
                ),
                "pragma"@,
                "no-cache"@,
            ),
            "expires"@,
            "0"@,
        ),
        skip_compression,
    )
}

/// The headers of the answer to a request over the limit.
pub open spec fn rate_limit_headers(retry_after: u64, rps: u32, burst: u32) -> HeaderSeq {
    seq![
        ("retry-after"@, decimal(retry_after as nat)),
        ("x-ratelimit-limit"@, decimal(rps as nat)),
        ("x-ratelimit-burst"@, decimal(burst as nat)),
        ("content-type"@, "application/json"@),
    ]
}

/// The content type of a response: the handler's own, or that of the kind of
/// response.
pub open spec fn meta_content_type(meta: ResponseMeta) -> Seq<char> {
    match meta.custom_content_type {
        Some(ct) => ct@,
        None => content_type_text(meta.response_type),
    }
}

/// The content-type header of a response, if it has a content type.
pub open spec fn content_type_header(meta: ResponseMeta) -> HeaderSeq {
    if meta_content_type(meta).len() == 0 {
        HeaderSeq::empty()
    } else {
        seq![("content-type"@, meta_content_type(meta))]
    }
}

/// The handler's own headers, with their names in lower case.
pub open spec fn lowered(h: HeaderSeq) -> HeaderSeq {
    Seq::new(h.len(), |i: int| (ascii_lower(h[i].0), h[i].1))
}

/// The handler's own headers of a response.
pub open spec fn custom_headers_of(meta: ResponseMeta) -> HeaderSeq {
    match meta.custom_headers {
        Some(h) => lowered(pairs(h@)),
        None => HeaderSeq::empty(),
    }
}

/// The `Set-Cookie` headers of a list of cookies: one for each cookie that
/// passes the checks, in order. A cookie that fails them is left out.
pub open spec fn cookie_headers(cookies: Seq<CookieData>) -> HeaderSeq
    decreases cookies.len(),
{
    if cookies.len() == 0 {
        HeaderSeq::empty()
    } else if cookie_check(cookies.last().name@, cookies.last().value@) == CookieCheck::Accepted {
        cookie_headers(cookies.drop_last()).push(("set-cookie"@, set_cookie_text(cookies.last())))
    } else {
        cookie_headers(cookies.drop_last())
    }
}

/// The `Set-Cookie` headers of a response.
pub open spec fn cookies_of(meta: ResponseMeta) -> HeaderSeq {
    match meta.cookies {
        Some(c) => cookie_headers(c@),
        None => HeaderSeq::empty(),
    }
}

/// The headers that response metadata stands for: the content type, the
/// handler's own headers, and the cookies.
pub open spec fn meta_headers(meta: ResponseMeta) -> HeaderSeq {
    content_type_header(meta) + custom_headers_of(meta) + cookies_of(meta)
}

/// The list without the file mark.
pub open spec fn without_file_mark(h: HeaderSeq) -> HeaderSeq
    decreases h.len(),
{
    if h.len() == 0 {
        h
    } else if eq_ignore_case(h.last().0, FILE_PATH_MARK@) {
        without_file_mark(h.drop_last())
    } else {
        without_file_mark(h.drop_last()).push(h.last())
    }
}

/// The value of the first file mark among the headers.
pub open spec fn file_mark_value(h: HeaderSeq) -> Option<Seq<char>> {
    crate::headers::header_value(h, FILE_PATH_MARK@)
}

/// Decides whether a header can be sent under the name.
pub fn is_header_name(name: &str) -> (r: bool)
    ensures
        r == valid_header_name(name@),
{
    let chars = chars_of(name);
    if chars.len() == 0 || chars.len() >= 65536 {
        return false;
    }
    let mut i: usize = 0;
    while i < chars.len()
        invariant
            i <= chars.len(),
            chars@ == name@,
            forall|j: int| 0 <= j < i ==> name_char(#[trigger] chars@[j]),
        decreases chars.len() - i,
    {
        let c = chars[i];
        let ok = ('a' <= c && c <= 'z') || ('A' <= c && c <= 'Z') || ('0' <= c && c <= '9') || c
            == '!' || c == '"' || c == '#' || c == '$' || c == '%' || c == '&' || c == '\''
            || c == '*' || c == '+' || c == '-' || c == '.' || c == '^' || c == '_' || c == '`'
            || c == '|' || c == '~';
        if !ok {
            assert(!name_char(name@[i as int]));
            return false;
        }
        i += 1;
    }
    true
}

/// Decides whether a header can be sent with the value.
pub fn is_header_value(value: &str) -> (r: bool)
    ensures
        r == valid_header_value(value@),
{
    let chars = chars_of(value);
    let mut i: usize = 0;
    while i < chars.len()
        invariant
            i <= chars.len(),
            chars@ == value@,
            forall|j: int| 0 <= j < i ==> value_char(#[trigger] chars@[j]),
        decreases chars.len() - i,
    {
        let c = chars[i];
        let code: u32 = c as u32;
        if !(c == '\t' || (32 <= code && code != 127)) {
            assert(!value_char(value@[i as int]));
            return false;
        }
        i += 1;
    }
    true
}

/// Lower-cases the ASCII letters of a string.
pub fn lowercase_string(s: &str) -> (r: String)
    ensures
        r@ == ascii_lower(s@),
{
    let chars = chars_of(s);
    let lower = lowercase(chars.as_slice());
    string_of(lower.as_slice())
}

/// Builds a response from a status, the handler's headers and a body.
/// Headers that cannot be sent are left out.
pub fn build_response_with_headers(
    status: u16,
    headers: Vec<(String, String)>,
    skip_compression: bool,
    body: Vec<u8>,
) -> (r: HttpReply)
    ensures
        r.status == status,
        r.body == body,
        pairs(r.headers@) == with_identity(sendable_headers(pairs(headers@)), skip_compression),
{
    let mut out: Vec<(String, String)> = Vec::new();
    let mut i: usize = 0;
    let ghost all = pairs(headers@);
    assert(all.take(0) =~= HeaderSeq::empty());
    assert(pairs(out@) =~= HeaderSeq::empty());
    while i < headers.len()
        invariant
            i <= headers.len(),
            all == pairs(headers@),
            pairs(out@) == sendable_headers(all.take(i as int)),
        decreases headers.len() - i,
    {
        proof {
            assert(all.take(i + 1).drop_last() =~= all.take(i as int));
            assert(all.take(i + 1).last() == (headers@[i as int].0@, headers@[i as int].1@));
        }
        if is_header_name(headers[i].0.as_str()) && is_header_value(headers[i].1.as_str()) {
            let ghost before = pairs(out@);
            out.push((lowercase_string(headers[i].0.as_str()), headers[i].1.clone()));
            assert(pairs(out@) =~= before.push(
                (ascii_lower(headers@[i as int].0@), headers@[i as int].1@),
            ));
        }
        i += 1;
    }
    assert(all.take(headers.len() as int) =~= all);
    if skip_compression {
        header_insert(&mut out, "content-encoding", "identity");
    }
    HttpReply { status, headers: out, body }
}

/// Builds the headers of a server-sent-event stream.
pub fn build_sse_response(
    status: u16,
    custom_headers: Vec<(String, String)>,
    skip_compression: bool,
) -> (r: HttpReply)
    ensures
        r.status == status,
        r.body@.len() == 0,
        pairs(r.headers@) == sse_headers(pairs(custom_headers@), skip_compression),
{
    let mut headers = custom_headers;
    header_insert(&mut headers, "content-type", "text/event-stream");
    header_insert(&mut headers, "x-accel-buffering", "no");
    header_insert(&mut headers, "cache-control", "no-cache, no-store, must-revalidate");
    header_insert(&mut headers, "pragma", "no-cache");
    header_insert(&mut headers, "expires", "0");
    if skip_compression {
        header_insert(&mut headers, "content-encoding", "identity");
    }
    HttpReply { status, headers, body: Vec::new() }
}

/// Builds the answer to a request over the limit: 429 with `Retry-After` and
/// the limits.
pub fn build_rate_limit_response(retry_after: u64, rps: u32, burst: u32, body: Vec<u8>) -> (r:
    HttpReply)
    ensures
        r.status == 429,
        r.body == body,
        pairs(r.headers@) == rate_limit_headers(retry_after, rps, burst),
{
    let mut headers: Vec<(String, String)> = Vec::new();
    let retry = decimal_of(retry_after);
    let limit = decimal_of(rps as u64);
    let most = decimal_of(burst as u64);
    headers.push(("retry-after".to_owned(), string_of(retry.as_slice())));
    headers.push(("x-ratelimit-limit".to_owned(), string_of(limit.as_slice())));
    headers.push(("x-ratelimit-burst".to_owned(), string_of(most.as_slice())));
    headers.push(("content-type".to_owned(), "application/json".to_owned()));
    assert(pairs(headers@) =~= rate_limit_headers(retry_after, rps, burst));
    HttpReply { status: 429, headers, body }
}

/// Appends the `Set-Cookie` headers of the cookies that pass the checks.
fn push_cookies(headers: &mut Vec<(String, String)>, cookies: &Vec<CookieData>)
    ensures
        pairs(final(headers)@) == pairs(old(headers)@) + cookie_headers(cookies@),
{
    let mut i: usize = 0;
    assert(cookies@.take(0) =~= Seq::<CookieData>::empty());
    assert(pairs(headers@) =~= pairs(old(headers)@) + cookie_headers(cookies@.take(0)));
    while i < cookies.len()
        invariant
            i <= cookies.len(),
            pairs(headers@) == pairs(old(headers)@) + cookie_headers(cookies@.take(i as int)),
        decreases cookies.len() - i,
    {
        proof {
            assert(cookies@.take(i + 1).drop_last() =~= cookies@.take(i as int));
            assert(cookies@.take(i + 1).last() == cookies@[i as int]);
        }
        let ghost before = pairs(headers@);
        match format_cookie(&cookies[i]) {
            Some(text) => {
                headers.push(("set-cookie".to_owned(), text));
                assert(pairs(headers@) =~= before.push(
                    ("set-cookie"@, set_cookie_text(cookies@[i as int])),
                ));
                assert(pairs(headers@) =~= pairs(old(headers)@) + cookie_headers(
                    cookies@.take(i + 1),
                ));
            },
            None => {},
        }
        i += 1;
    }
    assert(cookies@.take(cookies.len() as int) =~= cookies@);
}

/// Writes response metadata as a list of headers.
pub fn meta_to_headers(meta: &ResponseMeta) -> (headers: Vec<(String, String)>)
    ensures
        pairs(headers@) == meta_headers(*meta),
{
    let mut headers: Vec<(String, String)> = Vec::new();
    assert(pairs(headers@) =~= HeaderSeq::empty());
    let content_type: &str = match &meta.custom_content_type {
        Some(ct) => ct.as_str(),
        None => meta.response_type.content_type(),
    };
    if !content_type.is_empty() {
        headers.push(("content-type".to_owned(), content_type.to_owned()));
    }
    assert(pairs(headers@) =~= content_type_header(*meta));
    match &meta.custom_headers {
        Some(custom) => {
            let ghost start = pairs(headers@);
            let ghost all = lowered(pairs(custom@));
            let mut i: usize = 0;
            assert(pairs(headers@) =~= start + all.take(0));
            while i < custom.len()
                invariant
                    i <= custom.len(),
                    all == lowered(pairs(custom@)),
                    pairs(headers@) == start + all.take(i as int),
                decreases custom.len() - i,
            {
                let ghost before = pairs(headers@);
                headers.push((lowercase_string(custom[i].0.as_str()), custom[i].1.clone()));
                assert(pairs(headers@) =~= before.push(all[i as int]));
                assert(pairs(headers@) =~= start + all.take(i + 1));
                i += 1;
            }
            assert(all.take(custom.len() as int) =~= all);
        },
        None => {
            assert(pairs(headers@) =~= pairs(headers@) + HeaderSeq::empty());
        },
    }
    match &meta.cookies {
        Some(cookies) => {
            push_cookies(&mut headers, cookies);
        },
        None => {
            assert(pairs(headers@) =~= pairs(headers@) + HeaderSeq::empty());
        },
    }
    headers
}

/// The path of the file that the response metadata names as the body, if it
/// names one: the value of the first file mark among the handler's headers.
pub fn extract_file_path_from_meta(meta: &ResponseMeta) -> (r: Option<String>)
    ensures
        opt_text(r) == (match meta.custom_headers {
            Some(h) => file_mark_value(pairs(h@)),
            None => None,
        }),
{
    match &meta.custom_headers {
        Some(h) => match crate::headers::header_get(h, FILE_PATH_MARK) {
            Some(v) => Some(v.clone()),
            None => None,
        },
        None => None,
    }
}

/// Removes the file mark from a list of headers.
pub fn strip_file_mark(headers: Vec<(String, String)>) -> (r: Vec<(String, String)>)
    ensures
        pairs(r@) == without_file_mark(pairs(headers@)),
{
    let mark = chars_of(FILE_PATH_MARK);
    let mut out: Vec<(String, String)> = Vec::new();
    let mut i: usize = 0;
    let ghost all = pairs(headers@);
    assert(all.take(0) =~= HeaderSeq::empty());
    assert(pairs(out@) =~= HeaderSeq::empty());
    while i < headers.len()
        invariant
            i <= headers.len(),
            mark@ == FILE_PATH_MARK@,
            all == pairs(headers@),
            pairs(out@) == without_file_mark(all.take(i as int)),
        decreases headers.len() - i,
    {
        proof {
            assert(all.take(i + 1).drop_last() =~= all.take(i as int));
            assert(all.take(i + 1).last() == (headers@[i as int].0@, headers@[i as int].1@));
        }
        let name = chars_of(headers[i].0.as_str());
        if !same_ignoring_case(name.as_slice(), mark.as_slice()) {
            let ghost before = pairs(out@);
            out.push((headers[i].0.clone(), headers[i].1.clone()));
            assert(pairs(out@) =~= before.push(all[i as int]));
        }
        i += 1;
    }
    assert(all.take(headers.len() as int) =~= all);
    out
}

/// Writes response metadata as a list of headers without the file mark.
pub fn meta_to_headers_without_file_path(meta: &ResponseMeta) -> (headers: Vec<(String, String)>)
    ensures
        pairs(headers@) == without_file_mark(meta_headers(*meta)),
{
    strip_file_mark(meta_to_headers(meta))
}

/// The headers of a response built from metadata: the content type is set,
/// the handler's headers that can be sent and the cookies are added, and the
/// compression is switched off where asked.
pub open spec fn response_meta_headers(meta: ResponseMeta, skip_compression: bool) -> HeaderSeq {
    with_identity(
        content_type_header(meta) + sendable_headers(custom_headers_of(meta)) + cookies_of(meta),
        skip_compression,
    )
}

/// Builds a response from a status, response metadata and a body.
pub fn build_response_from_meta(
    status: u16,
    meta: ResponseMeta,
    body: Vec<u8>,
    skip_compression: bool,
) -> (r: HttpReply)
    ensures
        r.status == status,
        r.body == body,
        pairs(r.headers@) == response_meta_headers(meta, skip_compression),
{
    let mut headers: Vec<(String, String)> = Vec::new();
    assert(pairs(headers@) =~= HeaderSeq::empty());
    let content_type: &str = match &meta.custom_content_type {
        Some(ct) => ct.as_str(),
        None => meta.response_type.content_type(),
    };
    if !content_type.is_empty() {
        headers.push(("content-type".to_owned(), content_type.to_owned()));
    }
    assert(pairs(headers@) =~= content_type_header(meta));
    match &meta.custom_headers {
        Some(custom) => {
            let ghost start = pairs(headers@);
            let ghost all = lowered(pairs(custom@));
            let mut i: usize = 0;
            assert(all.take(0) =~= HeaderSeq::empty());
            assert(pairs(headers@) =~= start + sendable_headers(all.take(0)));
            while i < custom.len()
                invariant
                    i <= custom.len(),
                    all == lowered(pairs(custom@)),
                    pairs(headers@) == start + sendable_headers(all.take(i as int)),
                decreases custom.len() - i,
            {
                proof {
                    assert(all.take(i + 1).drop_last() =~= all.take(i as int));
                    assert(all.take(i + 1).last() == all[i as int]);
                }
                let name = lowercase_string(custom[i].0.as_str());
                if is_header_name(name.as_str()) && is_header_value(custom[i].1.as_str()) {
                    let ghost before = pairs(headers@);
                    let again = lowercase_string(name.as_str());
                    headers.push((again, custom[i].1.clone()));
                    assert(pairs(headers@) =~= before.push((ascii_lower(all[i as int].0), all[i as int].1)));
                    assert(pairs(headers@) =~= start + sendable_headers(all.take(i + 1)));
                }
                i += 1;
            }
            assert(all.take(custom.len() as int) =~= all);
        },
        None => {
            assert(sendable_headers(HeaderSeq::empty()) =~= HeaderSeq::empty());
            assert(pairs(headers@) =~= pairs(headers@) + HeaderSeq::empty());
        },
    }
    match &meta.cookies {
        Some(cookies) => {
            push_cookies(&mut headers, cookies);
        },
        None => {
            assert(pairs(headers@) =~= pairs(headers@) + HeaderSeq::empty());
        },
    }
    if skip_compression {
        header_insert(&mut headers, "content-encoding", "identity");
    }
    HttpReply { status, headers, body }
}

/// A cookie that fails the checks changes nothing in the headers of a
/// response: they are what they would be without that cookie.
pub proof fn lemma_rejected_cookie_leaves_headers(cookies: Seq<CookieData>, c: CookieData)
    requires
        cookie_check(c.name@, c.value@) != CookieCheck::Accepted,
    ensures
        cookie_headers(cookies.push(c)) == cookie_headers(cookies),
{
    assert(cookies.push(c).drop_last() =~= cookies);
}

} // verus!
