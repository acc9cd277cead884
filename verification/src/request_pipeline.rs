//! The check of path and query parameters against the types that a handler
//! declares for them.

use vstd::prelude::*;
use ahash::AHashMap;
use crate::core_handler::bytes_of;
use crate::maps::{
    entries_map, text_map, text_map_entries, type_map, type_map_get, utf8, value_map,
    value_map_insert, value_map_new, TagPairs, TextPairs, ValuePairs,
};
use crate::numbers::{decimal, decimal_of, digit_char, digit_to_char};
use crate::response_builder::HttpReply;
use crate::response_meta::pairs;
use crate::text::{chars_of, extend_chars, string_of};
use crate::type_coercion::{
    coerce_param, coerced, CoercedModel, CoercedValue, MAX_PARAM_LENGTH, TYPE_STRING,
};

verus! {

/// How one character is written inside a JSON string.
pub open spec fn json_char(c: char) -> Seq<char> {
    if c == '"' {
        seq!['\\', '"']
    } else if c == '\\' {
        seq!['\\', '\\']
    } else if (c as u32) < 32 {
        seq!['\\', 'u', '0', '0', digit_char((c as u32 / 16) as nat), digit_char((c as u32 % 16) as nat)]
    } else {
        seq![c]
    }
}

/// A text as it is written inside a JSON string.
pub open spec fn json_escaped(s: Seq<char>) -> Seq<char>
    decreases s.len(),
{
    if s.len() == 0 {
        s
    } else {
        json_escaped(s.drop_last()) + json_char(s.last())
    }
}

/// A JSON body that carries a message in its `detail` field.
pub open spec fn detail_body(message: Seq<char>) -> Seq<char> {
    "{\"detail\":\""@ + json_escaped(message) + "\"}"@
}

/// The reason why a value is too long.
pub open spec fn too_long(length: nat) -> Seq<char> {
    "Parameter too long: "@ + decimal(length) + " bytes (max "@ + decimal(MAX_PARAM_LENGTH as nat)
        + " bytes)"@
}

/// What is wrong with the value of a parameter, if anything: it is longer
/// than allowed, or it is not of the type that is declared for it. A
/// parameter without a declared type, or declared as a string, is only
/// checked for its length.
pub open spec fn param_problem(value: Seq<char>, tag: Option<u8>) -> Option<Seq<char>> {
    if utf8(value).len() > MAX_PARAM_LENGTH {
        Some(too_long(utf8(value).len()))
    } else {
        match tag {
            Some(t) if t != TYPE_STRING => match coerced(value, t) {
                Ok(_) => None,
                Err(e) => Some(e),
            },
            _ => None,
        }
    }
}

/// The declared type of a parameter.
pub open spec fn tag_of(types: TagPairs, name: Seq<char>) -> Option<u8> {
    if types.contains_key(name) {
        Some(types[name])
    } else {
        None
    }
}

/// Whether a parameter is kept as a coerced value: it has a declared type
/// that is not the string type.
pub open spec fn is_typed(types: TagPairs, name: Seq<char>) -> bool {
    types.contains_key(name) && types[name] != TYPE_STRING
}

/// The coerced values of the parameters that have a declared type other than
/// string.
pub open spec fn typed_values(params: TextPairs, types: TagPairs) -> ValuePairs {
    Map::new(
        |k: Seq<char>| params.contains_key(k) && is_typed(types, k),
        |k: Seq<char>| coerced(params[k], types[k])->Ok_0,
    )
}

/// The message for a parameter that is not valid.
pub open spec fn param_message(label: Seq<char>, name: Seq<char>, problem: Seq<char>) -> Seq<char> {
    label + " '"@ + name + "': "@ + problem
}

/// No parameter of the map has a problem.
pub open spec fn all_valid(params: TextPairs, types: TagPairs) -> bool {
    forall|k: Seq<char>|
        params.contains_key(k) ==> param_problem(#[trigger] params[k], tag_of(types, k)) is None
}

/// The message names a parameter of the map that has a problem, and the
/// problem.
pub open spec fn names_problem(
    message: Seq<char>,
    label: Seq<char>,
    params: TextPairs,
    types: TagPairs,
) -> bool {
    exists|k: Seq<char>|
        params.contains_key(k) && param_problem(#[trigger] params[k], tag_of(types, k)) is Some
            && message == param_message(label, k, param_problem(params[k], tag_of(types, k))->0)
}

/// Writes a text as it stands inside a JSON string.
pub fn json_escape(s: &str) -> (r: Vec<char>)
    ensures
        r@ == json_escaped(s@),
{
    let chars = chars_of(s);
    let mut out: Vec<char> = Vec::new();
    let mut i: usize = 0;
    assert(chars@.take(0) =~= Seq::<char>::empty());
    while i < chars.len()
        invariant
            i <= chars.len(),
            chars@ == s@,
            out@ == json_escaped(chars@.take(i as int)),
        decreases chars.len() - i,
    {
        let c = chars[i];
        let code: u32 = c as u32;
        let ghost before = out@;
        proof {
            assert(chars@.take(i + 1).drop_last() =~= chars@.take(i as int));
            assert(chars@.take(i + 1).last() == c);
        }
        if c == '"' {
            out.push('\\');
            out.push('"');
        } else if c == '\\' {
            out.push('\\');
            out.push('\\');
        } else if code < 32 {
            out.push('\\');
            out.push('u');
            out.push('0');
            out.push('0');
            out.push(digit_to_char((code / 16) as u8));
            out.push(digit_to_char((code % 16) as u8));
        } else {
            out.push(c);
        }
        assert(out@ =~= before + json_char(c));
        i += 1;
    }
    assert(chars@.take(chars.len() as int) =~= chars@);
    out
}

/// An answer with a message in a JSON body.
pub fn detail_reply(status: u16, message: &str) -> (r: HttpReply)
    ensures
        r.status == status,
        pairs(r.headers@) == seq![("content-type"@, "application/json"@)],
        r.body@ == utf8(detail_body(message@)),
{
    let mut text = chars_of("{\"detail\":\"");
    let escaped = json_escape(message);
    extend_chars(&mut text, escaped.as_slice());
    let end = chars_of("\"}");
    extend_chars(&mut text, end.as_slice());
    let body = string_of(text.as_slice());
    let mut headers: Vec<(String, String)> = Vec::new();
    headers.push(("content-type".to_owned(), "application/json".to_owned()));
    assert(pairs(headers@) =~= seq![("content-type"@, "application/json"@)]);
    HttpReply { status, headers, body: bytes_of(body.as_str()) }
}

/// The answer to a request with a parameter that is not valid: 422 with the
/// message in a JSON body.
pub fn error_422_validation(message: &str) -> (r: HttpReply)
    ensures
        r.status == 422,
        pairs(r.headers@) == seq![("content-type"@, "application/json"@)],
        r.body@ == utf8(detail_body(message@)),
{
    detail_reply(422, message)
}

/// Writes the message for a parameter that is not valid.
fn write_message(label: &str, name: &str, problem: &str) -> (m: String)
    ensures
        m@ == param_message(label@, name@, problem@),
{
    let mut m = label.to_owned();
    vstd::string::StringExecFns::append(&mut m, " '");
    vstd::string::StringExecFns::append(&mut m, name);
    vstd::string::StringExecFns::append(&mut m, "': ");
    vstd::string::StringExecFns::append(&mut m, problem);
    m
}

/// Writes the reason why a value is too long.
fn write_too_long(length: usize) -> (m: String)
    ensures
        m@ == too_long(length as nat),
{
    let mut text = chars_of("Parameter too long: ");
    let digits = decimal_of(length as u64);
    extend_chars(&mut text, digits.as_slice());
    let middle = chars_of(" bytes (max ");
    extend_chars(&mut text, middle.as_slice());
    let most = decimal_of(MAX_PARAM_LENGTH as u64);
    extend_chars(&mut text, most.as_slice());
    let end = chars_of(" bytes)");
    extend_chars(&mut text, end.as_slice());
    string_of(text.as_slice())
}

/// Checks one parameter. The coerced value is handed back for a parameter
/// with a declared type other than string.
fn check_param(value: &str, tag: Option<u8>) -> (r: Result<Option<CoercedValue>, String>)
    ensures
        match r {
            Ok(v) => param_problem(value@, tag) is None && (match v {
                Some(c) => tag is Some && tag->0 != TYPE_STRING && coerced(value@, tag->0) == Ok::<
                    CoercedModel,
                    Seq<char>,
                >(c@),
                None => tag is None || tag->0 == TYPE_STRING,
            }),
            Err(e) => param_problem(value@, tag) == Some(e@),
        },
{
    let length: usize = value.as_bytes().len();
    if length > MAX_PARAM_LENGTH {
        return Err(write_too_long(length));
    }
    match tag {
        Some(t) => {
            if t != TYPE_STRING {
                match coerce_param(value, t) {
                    Ok(c) => Ok(Some(c)),
                    Err(e) => Err(e),
                }
            } else {
                Ok(None)
            }
        },
        None => Ok(None),
    }
}

/// Checks the parameters of one map.
fn check_params(params: &AHashMap<String, String>, types: &AHashMap<String, u8>, label: &str) -> (r:
    Result<AHashMap<String, CoercedValue>, String>)
    ensures
        match r {
            Ok(m) => all_valid(text_map(*params), type_map(*types)) && value_map(m)
                == typed_values(text_map(*params), type_map(*types)),
            Err(message) => names_problem(message@, label@, text_map(*params), type_map(*types)),
        },
{
    let entries = text_map_entries(params);
    let ghost p = text_map(*params);
    let ghost t = type_map(*types);
    let mut out = value_map_new();
    let mut i: usize = 0;
    proof {
        assert forall|j: int| 0 <= j < entries@.len() implies p.contains_key(
            (#[trigger] entries@[j]).0@,
        ) && p[entries@[j].0@] == entries@[j].1@ by {
            let k = entries@[j].0@;
            assert(entries_map(entries@).contains_key(k));
            let c = choose|c: int| 0 <= c < entries@.len() && (#[trigger] entries@[c]).0@ == k;
            if c < j {
                assert(entries@[c].0@ != entries@[j].0@);
            } else if j < c {
                assert(entries@[j].0@ != entries@[c].0@);
            }
        }
    }
    while i < entries.len()
        invariant
            i <= entries.len(),
            p == text_map(*params),
            t == type_map(*types),
            entries_map(entries@) == p,
            forall|j: int|
                0 <= j < entries@.len() ==> p.contains_key((#[trigger] entries@[j]).0@)
                    && p[entries@[j].0@] == entries@[j].1@,
            forall|j: int|
                0 <= j < i ==> param_problem(p[(#[trigger] entries@[j]).0@], tag_of(t, entries@[j].0@))
                    is None,
            forall|k: Seq<char>|
                #![trigger value_map(out).contains_key(k)]
                value_map(out).contains_key(k) <==> is_typed(t, k) && exists|j: int|
                    0 <= j < i && (#[trigger] entries@[j]).0@ == k,
            forall|k: Seq<char>|
                #![trigger value_map(out).contains_key(k)]
                value_map(out).contains_key(k) ==> p.contains_key(k) && t.contains_key(k)
                    && coerced(p[k], t[k]) == Ok::<CoercedModel, Seq<char>>(value_map(out)[k]),
        decreases entries.len() - i,
    {
        let name = &entries[i].0;
        let value = &entries[i].1;
        let tag = type_map_get(types, name.as_str());
        let ghost before = value_map(out);
        match check_param(value.as_str(), tag) {
            Ok(found) => {
                match found {
                    Some(c) => {
                        value_map_insert(&mut out, name.clone(), c);
                    },
                    None => {},
                }
            },
            Err(problem) => {
                let message = write_message(label, name.as_str(), problem.as_str());
                assert(p.contains_key(name@) && param_problem(p[name@], tag_of(t, name@)) is Some);
                return Err(message);
            },
        }
        proof {
            assert forall|k: Seq<char>|
                #![trigger value_map(out).contains_key(k)]
                value_map(out).contains_key(k) <==> is_typed(t, k) && exists|j: int|
                    0 <= j < i + 1 && (#[trigger] entries@[j]).0@ == k by {
                if value_map(out).contains_key(k) {
                    if before.contains_key(k) {
                        let j = choose|j: int| 0 <= j < i && (#[trigger] entries@[j]).0@ == k;
                        assert(0 <= j < i + 1 && entries@[j].0@ == k);
                    } else {
                        assert(k == entries@[i as int].0@);
                    }
                }
                if is_typed(t, k) && exists|j: int|
                    0 <= j < i + 1 && (#[trigger] entries@[j]).0@ == k {
                    let j = choose|j: int| 0 <= j < i + 1 && (#[trigger] entries@[j]).0@ == k;
                    if j < i {
                        assert(before.contains_key(k));
                    }
                }
            }
        }
        i += 1;
    }
    proof {
        assert forall|k: Seq<char>| p.contains_key(k) implies param_problem(
            #[trigger] p[k],
            tag_of(t, k),
        ) is None by {
            assert(entries_map(entries@).contains_key(k));
            let j = choose|j: int| 0 <= j < entries@.len() && (#[trigger] entries@[j]).0@ == k;
            assert(param_problem(p[entries@[j].0@], tag_of(t, entries@[j].0@)) is None);
        }
        let target = typed_values(p, t);
        assert forall|k: Seq<char>| value_map(out).contains_key(k) <==> target.contains_key(k) by {
            if target.contains_key(k) {
                assert(entries_map(entries@).contains_key(k));
                let j = choose|j: int| 0 <= j < entries@.len() && (#[trigger] entries@[j]).0@ == k;
                assert(0 <= j < i && entries@[j].0@ == k);
            }
        }
        assert(value_map(out) =~= target);
    }
    Ok(out)
}

/// Whether an answer is that to a request with a parameter that has a
/// problem: 422, with a body that names one such parameter and says what is
/// wrong with it, a path parameter if any has a problem.
pub open spec fn invalid_answer(
    reply: HttpReply,
    path_params: TextPairs,
    query_params: TextPairs,
    types: TagPairs,
) -> bool {
    &&& reply.status == 422
    &&& pairs(reply.headers@) == seq![("content-type"@, "application/json"@)]
    &&& exists|message: Seq<char>|
        #![trigger detail_body(message)]
        reply.body@ == utf8(detail_body(message)) && (names_problem(
            message,
            "Path parameter"@,
            path_params,
            types,
        ) || (all_valid(path_params, types) && names_problem(
            message,
            "Query parameter"@,
            query_params,
            types,
        )))
}

/// Checks the path and query parameters of a request against the declared
/// types and coerces those that have a type other than string.
///
/// Every value is checked for its length. The request is answered with 422
/// if a parameter has a problem; the answer names one such parameter, a path
/// parameter if any has a problem.
pub fn validate_and_cache_typed_params(
    path_params: &AHashMap<String, String>,
    query_params: &AHashMap<String, String>,
    param_types: &AHashMap<String, u8>,
) -> (r: Result<(AHashMap<String, CoercedValue>, AHashMap<String, CoercedValue>), HttpReply>)
    ensures
        match r {
            Ok((path, query)) => {
                &&& all_valid(text_map(*path_params), type_map(*param_types))
                &&& all_valid(text_map(*query_params), type_map(*param_types))
                &&& value_map(path) == typed_values(text_map(*path_params), type_map(*param_types))
                &&& value_map(query) == typed_values(
                    text_map(*query_params),
                    type_map(*param_types),
                )
            },
            Err(reply) => invalid_answer(
                reply,
                text_map(*path_params),
                text_map(*query_params),
                type_map(*param_types),
            ),
        },
{
    let path = match check_params(path_params, param_types, "Path parameter") {
        Ok(m) => m,
        Err(message) => {
            let reply = error_422_validation(message.as_str());
            assert(reply.body@ == utf8(detail_body(message@)));
            return Err(reply);
        },
    };
    let query = match check_params(query_params, param_types, "Query parameter") {
        Ok(m) => m,
        Err(message) => {
            let reply = error_422_validation(message.as_str());
            assert(reply.body@ == utf8(detail_body(message@)));
            return Err(reply);
        },
    };
    Ok((path, query))
}

/// Coerces the path parameters of a request to their declared types; a
/// parameter without a declared type is kept as a string.
///
/// Fails if some parameter cannot be coerced, with the name of one such
/// parameter and the reason.
pub fn coerce_path_params(
    path_params: &AHashMap<String, String>,
    type_hints: &AHashMap<String, u8>,
) -> (r: Result<AHashMap<String, CoercedValue>, (String, String)>)
    ensures
        match r {
            Ok(m) => {
                &&& forall|k: Seq<char>|
                    text_map(*path_params).contains_key(k) ==> coerced(
                        #[trigger] text_map(*path_params)[k],
                        hint_of(type_map(*type_hints), k),
                    ) is Ok
                &&& value_map(m) == Map::new(
                    |k: Seq<char>| text_map(*path_params).contains_key(k),
                    |k: Seq<char>|
                        coerced(text_map(*path_params)[k], hint_of(type_map(*type_hints), k))->Ok_0,
                )
            },
            Err((name, reason)) => text_map(*path_params).contains_key(name@) && coerced(
                text_map(*path_params)[name@],
                hint_of(type_map(*type_hints), name@),
            ) == Err::<CoercedModel, Seq<char>>(reason@),
        },
{
    let entries = text_map_entries(path_params);
    let ghost p = text_map(*path_params);
    let ghost t = type_map(*type_hints);
    let mut out = value_map_new();
    let mut i: usize = 0;
    proof {
        assert forall|j: int| 0 <= j < entries@.len() implies p.contains_key(
            (#[trigger] entries@[j]).0@,
        ) && p[entries@[j].0@] == entries@[j].1@ by {
            let k = entries@[j].0@;
            assert(entries_map(entries@).contains_key(k));
            let c = choose|c: int| 0 <= c < entries@.len() && (#[trigger] entries@[c]).0@ == k;
            if c < j {
                assert(entries@[c].0@ != entries@[j].0@);
            } else if j < c {
                assert(entries@[j].0@ != entries@[c].0@);
            }
        }
    }
    while i < entries.len()
        invariant
            i <= entries.len(),
            p == text_map(*path_params),
            t == type_map(*type_hints),
            entries_map(entries@) == p,
            forall|j: int|
                0 <= j < entries@.len() ==> p.contains_key((#[trigger] entries@[j]).0@)
                    && p[entries@[j].0@] == entries@[j].1@,
            forall|k: Seq<char>|
                #![trigger value_map(out).contains_key(k)]
                value_map(out).contains_key(k) <==> exists|j: int|
                    0 <= j < i && (#[trigger] entries@[j]).0@ == k,
            forall|k: Seq<char>|
                #![trigger value_map(out).contains_key(k)]
                value_map(out).contains_key(k) ==> coerced(p[k], hint_of(t, k)) == Ok::<
                    CoercedModel,
                    Seq<char>,
                >(value_map(out)[k]),
        decreases entries.len() - i,
    {
        let name = &entries[i].0;
        let value = &entries[i].1;
        let hint: u8 = match type_map_get(type_hints, name.as_str()) {
            Some(h) => h,
            None => TYPE_STRING,
        };
        let ghost before = value_map(out);
        match coerce_param(value.as_str(), hint) {
            Ok(c) => {
                value_map_insert(&mut out, name.clone(), c);
            },
            Err(reason) => {
                return Err((name.clone(), reason));
            },
        }
        proof {
            assert forall|k: Seq<char>|
                #![trigger value_map(out).contains_key(k)]
                value_map(out).contains_key(k) <==> exists|j: int|
                    0 <= j < i + 1 && (#[trigger] entries@[j]).0@ == k by {
                if value_map(out).contains_key(k) {
                    if before.contains_key(k) {
                        let j = choose|j: int| 0 <= j < i && (#[trigger] entries@[j]).0@ == k;
                        assert(0 <= j < i + 1 && entries@[j].0@ == k);
                    } else {
                        assert(k == entries@[i as int].0@);
                    }
                }
                if exists|j: int| 0 <= j < i + 1 && (#[trigger] entries@[j]).0@ == k {
                    let j = choose|j: int| 0 <= j < i + 1 && (#[trigger] entries@[j]).0@ == k;
                    if j < i {
                        assert(before.contains_key(k));
                    }
                }
            }
        }
        i += 1;
    }
    proof {
        let target = Map::new(
            |k: Seq<char>| p.contains_key(k),
            |k: Seq<char>| coerced(p[k], hint_of(t, k))->Ok_0,
        );
        assert forall|k: Seq<char>| value_map(out).contains_key(k) <==> target.contains_key(k) by {
            if target.contains_key(k) {
                assert(entries_map(entries@).contains_key(k));
                let j = choose|j: int| 0 <= j < entries@.len() && (#[trigger] entries@[j]).0@ == k;
                assert(0 <= j < i && entries@[j].0@ == k);
            }
            if value_map(out).contains_key(k) {
                let j = choose|j: int| 0 <= j < i && (#[trigger] entries@[j]).0@ == k;
                assert(p.contains_key(entries@[j].0@));
            }
        }
        assert(value_map(out) =~= target);
        assert forall|k: Seq<char>| p.contains_key(k) implies coerced(
            #[trigger] p[k],
            hint_of(t, k),
        ) is Ok by {
            assert(target.contains_key(k));
            assert(value_map(out).contains_key(k));
        }
    }
    Ok(out)
}

/// The type tag of a parameter: the declared one, or that of a string.
pub open spec fn hint_of(types: TagPairs, name: Seq<char>) -> u8 {
    if types.contains_key(name) {
        types[name]
    } else {
        TYPE_STRING
    }
}

} // verus!
