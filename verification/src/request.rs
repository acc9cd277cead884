//! The request as the handler sees it.

use vstd::prelude::*;
use ahash::AHashMap;
use crate::maps::{
    distinct_keys, entries_map, text_map, text_map_entries, text_map_insert, text_map_new,
    TextPairs,
};
use crate::middleware::auth::AuthContext;
use crate::numbers::{decimal, decimal_of};
use crate::text::{chars_of, string_of};

verus! {

/// The request that is handed to the handler.
pub struct PyRequest {
    pub method: String,
    pub path: String,
    pub body: Vec<u8>,
    pub path_params: AHashMap<String, String>,
    pub query_params: AHashMap<String, String>,
    pub headers: AHashMap<String, String>,
    pub cookies: AHashMap<String, String>,
    /// What authentication found out, if the caller was authenticated.
    pub context: Option<AuthContext>,
}

/// The parts of a request that can be asked for by name.
#[derive(Debug, Clone, Copy, PartialEq, Eq, Structural)]
pub enum RequestField {
    Method,
    Path,
    Body,
    Params,
    Query,
    Headers,
    Cookies,
    Context,
}

/// A part of a request.
pub enum RequestValue<'a> {
    Text(&'a str),
    Bytes(&'a Vec<u8>),
    Table(&'a AHashMap<String, String>),
    Context(Option<&'a AuthContext>),
}

/// The part that a name stands for when a part is looked up with a default.
/// `auth` is another name for the context.
pub open spec fn field_named(key: Seq<char>) -> Option<RequestField> {
    if key == "auth"@ {
        Some(RequestField::Context)
    } else {
        field_indexed(key)
    }
}

/// The part that a name stands for when the request is indexed.
pub open spec fn field_indexed(key: Seq<char>) -> Option<RequestField> {
    if key == "method"@ {
        Some(RequestField::Method)
    } else if key == "path"@ {
        Some(RequestField::Path)
    } else if key == "body"@ {
        Some(RequestField::Body)
    } else if key == "params"@ {
        Some(RequestField::Params)
    } else if key == "query"@ {
        Some(RequestField::Query)
    } else if key == "headers"@ {
        Some(RequestField::Headers)
    } else if key == "cookies"@ {
        Some(RequestField::Cookies)
    } else if key == "context"@ {
        Some(RequestField::Context)
    } else {
        None
    }
}

/// Reads the name of a part as it is used to index a request.
pub fn parse_field(key: &str) -> (f: Option<RequestField>)
    ensures
        f == field_indexed(key@),
{
    if key.eq("method") {
        Some(RequestField::Method)
    } else if key.eq("path") {
        Some(RequestField::Path)
    } else if key.eq("body") {
        Some(RequestField::Body)
    } else if key.eq("params") {
        Some(RequestField::Params)
    } else if key.eq("query") {
        Some(RequestField::Query)
    } else if key.eq("headers") {
        Some(RequestField::Headers)
    } else if key.eq("cookies") {
        Some(RequestField::Cookies)
    } else if key.eq("context") {
        Some(RequestField::Context)
    } else {
        None
    }
}

impl PyRequest {
    /// The request method.
    pub fn method(&self) -> (m: &str)
        ensures
            m@ == self.method@,
    {
        self.method.as_str()
    }

    /// The request path.
    pub fn path(&self) -> (p: &str)
        ensures
            p@ == self.path@,
    {
        self.path.as_str()
    }

    /// The request body.
    pub fn body(&self) -> (b: &Vec<u8>)
        ensures
            *b == self.body,
    {
        &self.body
    }

    /// What authentication found out about the caller.
    pub fn context(&self) -> (c: Option<&AuthContext>)
        ensures
            c is Some == self.context is Some,
            c matches Some(ctx) ==> *ctx == self.context->0,
    {
        self.context.as_ref()
    }

    /// Hands out the part of the request that a field names.
    pub fn field(&self, f: RequestField) -> (v: RequestValue<'_>)
        ensures
            match (f, v) {
                (RequestField::Method, RequestValue::Text(t)) => t@ == self.method@,
                (RequestField::Path, RequestValue::Text(t)) => t@ == self.path@,
                (RequestField::Body, RequestValue::Bytes(b)) => *b == self.body,
                (RequestField::Params, RequestValue::Table(m)) => *m == self.path_params,
                (RequestField::Query, RequestValue::Table(m)) => *m == self.query_params,
                (RequestField::Headers, RequestValue::Table(m)) => *m == self.headers,
                (RequestField::Cookies, RequestValue::Table(m)) => *m == self.cookies,
                (RequestField::Context, RequestValue::Context(c)) => c is Some
                    == self.context is Some && (c matches Some(ctx) ==> *ctx == self.context->0),
                _ => false,
            },
    {
        match f {
            RequestField::Method => RequestValue::Text(self.method.as_str()),
            RequestField::Path => RequestValue::Text(self.path.as_str()),
            RequestField::Body => RequestValue::Bytes(&self.body),
            RequestField::Params => RequestValue::Table(&self.path_params),
            RequestField::Query => RequestValue::Table(&self.query_params),
            RequestField::Headers => RequestValue::Table(&self.headers),
            RequestField::Cookies => RequestValue::Table(&self.cookies),
            RequestField::Context => RequestValue::Context(self.context.as_ref()),
        }
    }

    /// Looks up a part of the request by name; nothing for a name that names
    /// no part, for which the caller's default then stands.
    pub fn get(&self, key: &str) -> (v: Option<RequestField>)
        ensures
            v == field_named(key@),
    {
        if key.eq("auth") {
            Some(RequestField::Context)
        } else {
            parse_field(key)
        }
    }

    /// Indexes the request by name. A name that names no part is an error
    /// that carries the name.
    pub fn get_item(&self, key: &str) -> (v: Result<RequestField, String>)
        ensures
            match v {
                Ok(f) => field_indexed(key@) == Some(f),
                Err(name) => field_indexed(key@) is None && name@ == key@,
            },
    {
        match parse_field(key) {
            Some(f) => Ok(f),
            None => Err(key.to_owned()),
        }
    }
}

/// The upper-case form of an ASCII letter; a hyphen becomes an underscore and
/// any other character stays.
pub open spec fn meta_char(c: char) -> char {
    if 'a' <= c && c <= 'z' {
        ((c as u8) - 32) as char
    } else if c == '-' {
        '_'
    } else {
        c
    }
}

/// The name under which a header is mirrored in the environment of a
/// request: in upper case with underscores, after `HTTP_` unless the header
/// is the content type or the content length.
pub open spec fn meta_name(header: Seq<char>) -> Seq<char> {
    let upper = Seq::new(header.len(), |i: int| meta_char(header[i]));
    if upper == "CONTENT_TYPE"@ || upper == "CONTENT_LENGTH"@ {
        upper
    } else {
        "HTTP_"@ + upper
    }
}

/// What is known of the connection of a request.
pub struct ConnectionInfo<'a> {
    pub server_name: &'a str,
    pub server_port: u16,
    pub scheme: &'a str,
    pub remote_addr: Option<&'a str>,
}

/// The entries of the environment of a request that describe the
/// connection. The address of the client is there only if it is known.
pub open spec fn connection_entries(info: ConnectionInfo<'_>) -> TextPairs {
    let base = Map::<Seq<char>, Seq<char>>::empty().insert(
        "SERVER_NAME"@,
        info.server_name@,
    ).insert("SERVER_PORT"@, decimal(info.server_port as nat)).insert(
        "wsgi.url_scheme"@,
        info.scheme@,
    );
    match info.remote_addr {
        Some(a) => base.insert("REMOTE_ADDR"@, a@),
        None => base,
    }
}

/// Whether a map is the environment of a request with the given headers and
/// connection: it has the entries of the connection, and beside them exactly
/// the mirrored names of the headers, each with the value of a header that
/// is mirrored under that name.
pub open spec fn is_meta_of(meta: TextPairs, headers: TextPairs, info: ConnectionInfo<'_>) -> bool {
    let fixed = connection_entries(info);
    &&& forall|k: Seq<char>| fixed.contains_key(k) ==> meta.contains_key(k) && meta[k] == fixed[k]
    &&& forall|k: Seq<char>|
        #![trigger meta.contains_key(k)]
        meta.contains_key(k) && !fixed.contains_key(k) ==> exists|h: Seq<char>|
            #![trigger headers.contains_key(h)]
            headers.contains_key(h) && meta_name(h) == k && meta[k] == headers[h]
    &&& forall|h: Seq<char>|
        #![trigger headers.contains_key(h)]
        headers.contains_key(h) ==> meta.contains_key(meta_name(h))
}

/// Writes the name under which a header is mirrored.
pub fn mirror_name(header: &str) -> (r: String)
    ensures
        r@ == meta_name(header@),
{
    let chars = chars_of(header);
    let mut upper: Vec<char> = Vec::new();
    let mut i: usize = 0;
    while i < chars.len()
        invariant
            i <= chars.len(),
            chars@ == header@,
            upper@.len() == i,
            forall|j: int| 0 <= j < i ==> upper@[j] == meta_char(#[trigger] chars@[j]),
        decreases chars.len() - i,
    {
        let c = chars[i];
        let m = if 'a' <= c && c <= 'z' {
            ((c as u8) - 32) as char
        } else if c == '-' {
            '_'
        } else {
            c
        };
        upper.push(m);
        i += 1;
    }
    assert(upper@ =~= Seq::new(header@.len(), |i: int| meta_char(header@[i])));
    let text = string_of(upper.as_slice());
    if text.as_str().eq("CONTENT_TYPE") || text.as_str().eq("CONTENT_LENGTH") {
        text
    } else {
        let mut name = "HTTP_".to_owned();
        vstd::string::StringExecFns::append(&mut name, text.as_str());
        name
    }
}

/// Builds the environment of a request: the entries of the connection and
/// the mirror of the headers.
pub fn build_meta(headers: &AHashMap<String, String>, info: &ConnectionInfo<'_>) -> (meta: AHashMap<
    String,
    String,
>)
    ensures
        is_meta_of(text_map(meta), text_map(*headers), *info),
{
    let entries = text_map_entries(headers);
    let ghost h = text_map(*headers);
    let mut meta = text_map_new();
    let mut i: usize = 0;
    proof {
        assert forall|j: int| 0 <= j < entries@.len() implies h.contains_key(
            (#[trigger] entries@[j]).0@,
        ) && h[entries@[j].0@] == entries@[j].1@ by {
            let k = entries@[j].0@;
            assert(entries_map(entries@).contains_key(k));
            let c = choose|c: int| 0 <= c < entries@.len() && (#[trigger] entries@[c]).0@ == k;
            if c < j {
                assert(entries@[c].0@ != entries@[j].0@);
            } else if j < c {
                assert(entries@[j].0@ != entries@[c].0@);
            }
        }
    }
    while i < entries.len()
        invariant
            i <= entries.len(),
            h == text_map(*headers),
            entries_map(entries@) == h,
            forall|j: int|
                0 <= j < entries@.len() ==> h.contains_key((#[trigger] entries@[j]).0@)
                    && h[entries@[j].0@] == entries@[j].1@,
            forall|k: Seq<char>|
                #![trigger text_map(meta).contains_key(k)]
                text_map(meta).contains_key(k) ==> exists|x: Seq<char>|
                    #![trigger h.contains_key(x)]
                    h.contains_key(x) && meta_name(x) == k && text_map(meta)[k] == h[x],
            forall|j: int|
                0 <= j < i ==> text_map(meta).contains_key(meta_name((#[trigger] entries@[j]).0@)),
        decreases entries.len() - i,
    {
        let ghost before = text_map(meta);
        let name = mirror_name(entries[i].0.as_str());
        text_map_insert(&mut meta, name, entries[i].1.clone());
        proof {
            let x0 = entries@[i as int].0@;
            assert(h.contains_key(x0));
            assert forall|k: Seq<char>|
                #![trigger text_map(meta).contains_key(k)]
                text_map(meta).contains_key(k) implies exists|x: Seq<char>|
                #![trigger h.contains_key(x)]
                h.contains_key(x) && meta_name(x) == k && text_map(meta)[k] == h[x] by {
                if k == meta_name(x0) {
                    assert(h.contains_key(x0) && meta_name(x0) == k && text_map(meta)[k] == h[x0]);
                } else {
                    assert(before.contains_key(k));
                    let x = choose|x: Seq<char>|
                        #![trigger h.contains_key(x)]
                        h.contains_key(x) && meta_name(x) == k && before[k] == h[x];
                    assert(h.contains_key(x) && meta_name(x) == k && text_map(meta)[k] == h[x]);
                }
            }
            assert forall|j: int| 0 <= j < i + 1 implies text_map(meta).contains_key(
                meta_name((#[trigger] entries@[j]).0@),
            ) by {
                if j < i {
                    assert(before.contains_key(meta_name(entries@[j].0@)));
                }
            }
        }
        i += 1;
    }
    let ghost mirrored = text_map(meta);
    proof {
        assert forall|x: Seq<char>|
            #![trigger h.contains_key(x)]
            h.contains_key(x) implies mirrored.contains_key(meta_name(x)) by {
            assert(entries_map(entries@).contains_key(x));
            let j = choose|j: int| 0 <= j < entries@.len() && (#[trigger] entries@[j]).0@ == x;
            assert(mirrored.contains_key(meta_name(entries@[j].0@)));
        }
    }
    text_map_insert(&mut meta, "SERVER_NAME".to_owned(), info.server_name.to_owned());
    let port = decimal_of(info.server_port as u64);
    text_map_insert(&mut meta, "SERVER_PORT".to_owned(), string_of(port.as_slice()));
    text_map_insert(&mut meta, "wsgi.url_scheme".to_owned(), info.scheme.to_owned());
    match info.remote_addr {
        Some(a) => {
            text_map_insert(&mut meta, "REMOTE_ADDR".to_owned(), a.to_owned());
        },
        None => {},
    }
    proof {
        let fixed = connection_entries(*info);
        let m = text_map(meta);
        reveal_strlit("SERVER_NAME");
        reveal_strlit("SERVER_PORT");
        reveal_strlit("wsgi.url_scheme");
        reveal_strlit("REMOTE_ADDR");
        assert("SERVER_NAME"@ != "SERVER_PORT"@) by {
            assert("SERVER_NAME"@[7] != "SERVER_PORT"@[7]);
        }
        assert("SERVER_NAME"@ != "REMOTE_ADDR"@) by {
            assert("SERVER_NAME"@[0] != "REMOTE_ADDR"@[0]);
        }
        assert("SERVER_PORT"@ != "REMOTE_ADDR"@) by {
            assert("SERVER_PORT"@[0] != "REMOTE_ADDR"@[0]);
        }
        assert("wsgi.url_scheme"@.len() == 15);
        assert("SERVER_NAME"@.len() == 11);
        assert forall|k: Seq<char>| fixed.contains_key(k) implies m.contains_key(k) && m[k]
            == fixed[k] by {}
        assert forall|k: Seq<char>|
            #![trigger m.contains_key(k)]
            m.contains_key(k) && !fixed.contains_key(k) implies exists|x: Seq<char>|
            #![trigger h.contains_key(x)]
            h.contains_key(x) && meta_name(x) == k && m[k] == h[x] by {
            assert(mirrored.contains_key(k));
            let x = choose|x: Seq<char>|
                #![trigger h.contains_key(x)]
                h.contains_key(x) && meta_name(x) == k && mirrored[k] == h[x];
            assert(h.contains_key(x) && meta_name(x) == k && m[k] == h[x]);
        }
        assert forall|x: Seq<char>|
            #![trigger h.contains_key(x)]
            h.contains_key(x) implies m.contains_key(meta_name(x)) by {
            assert(mirrored.contains_key(meta_name(x)));
        }
    }
    meta
}

} // verus!
