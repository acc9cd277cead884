//! What a handler says about its response: the kind of body, optional
//! overrides for the content type and headers, and the cookies to set.

use vstd::prelude::*;

verus! {

/// The kind of response a handler produced; it selects the content type.
#[derive(Debug, Clone, Copy, PartialEq, Eq, Structural)]
pub enum ResponseType {
    Json,
    Html,
    PlainText,
    OctetStream,
    Redirect,
    File,
    Streaming,
}

/// The kind that a tag names; an unknown tag is an octet stream.
pub open spec fn response_type_of(tag: Seq<char>) -> ResponseType {
    if tag == "json"@ {
        ResponseType::Json
    } else if tag == "html"@ {
        ResponseType::Html
    } else if tag == "plaintext"@ {
        ResponseType::PlainText
    } else if tag == "redirect"@ {
        ResponseType::Redirect
    } else if tag == "file"@ {
        ResponseType::File
    } else if tag == "streaming"@ {
        ResponseType::Streaming
    } else {
        ResponseType::OctetStream
    }
}

/// The content type that goes with a kind of response. Redirects, files and
/// streams have none of their own.
pub open spec fn content_type_text(kind: ResponseType) -> Seq<char> {
    match kind {
        ResponseType::Json => "application/json"@,
        ResponseType::Html => "text/html; charset=utf-8"@,
        ResponseType::PlainText => "text/plain; charset=utf-8"@,
        ResponseType::OctetStream => "application/octet-stream"@,
        ResponseType::Redirect => ""@,
        ResponseType::File => ""@,
        ResponseType::Streaming => ""@,
    }
}

impl ResponseType {
    /// Reads the kind from the tag a handler supplied.
    pub fn from_str(s: &str) -> (kind: Self)
        ensures
            kind == response_type_of(s@),
    {
        if s.eq("json") {
            Self::Json
        } else if s.eq("html") {
            Self::Html
        } else if s.eq("plaintext") {
            Self::PlainText
        } else if s.eq("redirect") {
            Self::Redirect
        } else if s.eq("file") {
            Self::File
        } else if s.eq("streaming") {
            Self::Streaming
        } else {
            Self::OctetStream
        }
    }

    /// The content type of this kind of response.
    pub fn content_type(&self) -> (r: &'static str)
        ensures
            r@ == content_type_text(*self),
    {
        match self {
            Self::Json => "application/json",
            Self::Html => "text/html; charset=utf-8",
            Self::PlainText => "text/plain; charset=utf-8",
            Self::OctetStream => "application/octet-stream",
            Self::Redirect => "",
            Self::File => "",
            Self::Streaming => "",
        }
    }
}

/// One cookie as the handler describes it, before it is checked and written
/// as a `Set-Cookie` value.
#[derive(Debug)]
pub struct CookieData {
    pub name: String,
    pub value: String,
    pub path: String,
    pub max_age: Option<i64>,
    pub expires: Option<String>,
    pub domain: Option<String>,
    pub secure: bool,
    pub httponly: bool,
    pub samesite: Option<String>,
}

/// Response metadata from which the headers are built.
#[derive(Debug)]
pub struct ResponseMeta {
    pub response_type: ResponseType,
    pub custom_content_type: Option<String>,
    pub custom_headers: Option<Vec<(String, String)>>,
    pub cookies: Option<Vec<CookieData>>,
}

/// The optional text that an optional string holds.
pub open spec fn opt_text(s: Option<String>) -> Option<Seq<char>> {
    match s {
        Some(t) => Some(t@),
        None => None,
    }
}

/// The (name, value) texts that a header list holds, in order.
pub open spec fn pairs(v: Seq<(String, String)>) -> Seq<(Seq<char>, Seq<char>)> {
    Seq::new(v.len(), |i: int| (v[i].0@, v[i].1@))
}

} // verus!
