//! String-keyed hash collections of the `ahash` crate, as the request
//! pipeline uses them. The collections themselves are opaque to the verifier;
//! what they hold is named here, and each method the library calls is given
//! its effect on those contents.

use vstd::prelude::*;
use ahash::{AHashMap, AHashSet};
use matchit::Router as RouteTree;

verus! {

#[verifier::external_type_specification]
#[verifier::external_body]
#[verifier::reject_recursive_types(K)]
#[verifier::reject_recursive_types(V)]
#[verifier::reject_recursive_types(S)]
pub struct ExAHashMap<K, V, S>(ahash::AHashMap<K, V, S>);

#[verifier::external_type_specification]
#[verifier::external_body]
pub struct ExRandomState(ahash::RandomState);

/// The mathematical model of a string-to-string map.
pub type TextPairs = Map<Seq<char>, Seq<char>>;

/// The key/value pairs that a string-to-string map holds.
pub uninterp spec fn text_map(m: AHashMap<String, String>) -> Map<Seq<char>, Seq<char>>;

/// `AHashMap::new`: a map that holds nothing.
#[verifier::external_body]
pub(crate) fn text_map_new() -> (m: AHashMap<String, String>)
    ensures
        text_map(m) == TextPairs::empty(),
{
    AHashMap::new()
}

/// `AHashMap::insert`: afterwards the key maps to the new value and every
/// other key is as before.
#[verifier::external_body]
pub(crate) fn text_map_insert(m: &mut AHashMap<String, String>, key: String, value: String)
    ensures
        text_map(*final(m)) == text_map(*old(m)).insert(key@, value@),
{
    m.insert(key, value);
}

/// `AHashMap::get`: the value stored under `key`, if there is one.
#[verifier::external_body]
pub(crate) fn text_map_get<'a>(m: &'a AHashMap<String, String>, key: &str) -> (r: Option<&'a String>)
    ensures
        match r {
            Some(v) => text_map(*m).contains_key(key@) && text_map(*m)[key@] == v@,
            None => !text_map(*m).contains_key(key@),
        },
{
    m.get(key)
}

/// The model of a list of entries read out of a map: the map that sends each
/// key of the list to the value beside it.
pub open spec fn entries_map(v: Seq<(String, String)>) -> TextPairs {
    Map::new(
        |k: Seq<char>| exists|i: int| 0 <= i < v.len() && (#[trigger] v[i]).0@ == k,
        |k: Seq<char>| {
            let i = choose|i: int| 0 <= i < v.len() && (#[trigger] v[i]).0@ == k;
            v[i].1@
        },
    )
}

/// No two entries of the list have the same key.
pub open spec fn distinct_keys(v: Seq<(String, String)>) -> bool {
    forall|i: int, j: int|
        0 <= i < j < v.len() ==> (#[trigger] v[i]).0@ != (#[trigger] v[j]).0@
}

/// `AHashMap::iter`, with each entry cloned: every key of the map once, with
/// its value, in an order that the map chooses.
#[verifier::external_body]
pub(crate) fn text_map_entries(m: &AHashMap<String, String>) -> (v: Vec<(String, String)>)
    ensures
        distinct_keys(v@),
        entries_map(v@) == text_map(*m),
{
    m.iter().map(|(k, v)| (k.clone(), v.clone())).collect()
}

#[verifier::external_type_specification]
#[verifier::external_body]
#[verifier::reject_recursive_types(T)]
#[verifier::reject_recursive_types(S)]
pub struct ExAHashSet<T, S>(ahash::AHashSet<T, S>);

/// The texts that a set of strings holds.
pub uninterp spec fn text_set(s: AHashSet<String>) -> Set<Seq<char>>;

/// `AHashSet::new`: a set that holds nothing.
#[verifier::external_body]
pub(crate) fn text_set_new() -> (s: AHashSet<String>)
    ensures
        text_set(s) == Set::<Seq<char>>::empty(),
{
    AHashSet::new()
}

/// `AHashSet::insert`: afterwards the set holds the value beside what it held.
#[verifier::external_body]
pub(crate) fn text_set_insert(s: &mut AHashSet<String>, value: String)
    ensures
        text_set(*final(s)) == text_set(*old(s)).insert(value@),
{
    s.insert(value);
}

/// `AHashSet::contains`: whether the set holds the text.
#[verifier::external_body]
pub(crate) fn text_set_contains(s: &AHashSet<String>, value: &str) -> (r: bool)
    ensures
        r == text_set(*s).contains(value@),
{
    s.contains(value)
}

/// `AHashSet::is_empty`: whether the set holds nothing.
#[verifier::external_body]
pub(crate) fn text_set_is_empty(s: &AHashSet<String>) -> (r: bool)
    ensures
        r == (text_set(*s) == Set::<Seq<char>>::empty()),
{
    s.is_empty()
}

#[verifier::external_type_specification]
#[verifier::external_body]
pub struct ExRegex(regex::Regex);

/// Whether a compiled regular expression finds a match anywhere in the text.
pub uninterp spec fn regex_matches(re: regex::Regex, text: Seq<char>) -> bool;

/// `Regex::is_match`.
#[verifier::external_body]
pub(crate) fn regex_is_match(re: &regex::Regex, text: &str) -> (r: bool)
    ensures
        r == regex_matches(*re, text@),
{
    re.is_match(text)
}

/// The mathematical model of a map from paths to handler ids.
pub type IdPairs = Map<Seq<char>, usize>;

/// The path/handler-id pairs that a table of static routes holds.
pub uninterp spec fn id_map(m: AHashMap<String, usize>) -> IdPairs;

/// `AHashMap::new`: a table that holds nothing.
#[verifier::external_body]
pub(crate) fn id_map_new() -> (m: AHashMap<String, usize>)
    ensures
        id_map(m) == IdPairs::empty(),
{
    AHashMap::new()
}

/// `AHashMap::insert`: afterwards the path maps to the new id and every other
/// path is as before.
#[verifier::external_body]
pub(crate) fn id_map_insert(m: &mut AHashMap<String, usize>, key: String, value: usize)
    ensures
        id_map(*final(m)) == id_map(*old(m)).insert(key@, value),
{
    m.insert(key, value);
}

/// `AHashMap::get`: the id stored under the path, if there is one.
#[verifier::external_body]
pub(crate) fn id_map_get(m: &AHashMap<String, usize>, key: &str) -> (r: Option<usize>)
    ensures
        r == (if id_map(*m).contains_key(key@) {
            Some(id_map(*m)[key@])
        } else {
            None
        }),
{
    m.get(key).copied()
}

/// `AHashMap::keys`, each key cloned: every path of the table once, in an
/// order that the table chooses.
#[verifier::external_body]
pub(crate) fn id_map_keys(m: &AHashMap<String, usize>) -> (v: Vec<String>)
    ensures
        v@.map_values(|s: String| s@).no_duplicates() && v@.map_values(|s: String| s@).to_set()
            == id_map(*m).dom(),
{
    m.keys().cloned().collect()
}

#[verifier::external_type_specification]
#[verifier::external_body]
#[verifier::reject_recursive_types(T)]
pub struct ExRouteTree<T>(RouteTree<T>);

#[verifier::external_type_specification]
#[verifier::external_body]
pub struct ExInsertError(matchit::InsertError);

/// The mathematical model of a route tree: the patterns inserted so far, each
/// with its handler id, in the order of insertion.
pub type RouteSeq = Seq<(Seq<char>, usize)>;

/// The (name, value) pairs captured from a path, in the order of the pattern.
pub type Captures = Seq<(Seq<char>, Seq<char>)>;

/// A successful match: the handler id and the captures.
pub type TreeMatch = Option<(usize, Captures)>;

/// The routes that were inserted into a tree without error, in order.
pub uninterp spec fn routes_of(t: RouteTree<usize>) -> RouteSeq;

/// Whether a tree that holds `routes` takes `pattern` as a further route:
/// the pattern is well formed and conflicts with none of the routes.
pub uninterp spec fn tree_accepts(routes: RouteSeq, pattern: Seq<char>) -> bool;

/// What a tree that holds `routes` finds for `path`: the most specific route
/// that matches, with its captures, or nothing.
pub uninterp spec fn tree_match(routes: RouteSeq, path: Seq<char>) -> TreeMatch;

/// `matchit::Router::new`: a tree without routes.
#[verifier::external_body]
pub(crate) fn route_tree_new() -> (t: RouteTree<usize>)
    ensures
        routes_of(t) == RouteSeq::empty(),
{
    RouteTree::new()
}

/// Whether a slot for one segment opens at position `i` of a pattern: an
/// opening brace that no `*` follows.
pub open spec fn slot_at(pattern: Seq<char>, i: int) -> bool {
    0 <= i < pattern.len() && pattern[i] == '{' && !(i + 1 < pattern.len() && pattern[i + 1] == '*')
}

/// The number of slots for one segment that open before position `n`.
pub open spec fn slots_before(pattern: Seq<char>, n: int) -> nat
    decreases n,
{
    if n <= 0 {
        0
    } else {
        slots_before(pattern, n - 1) + (if slot_at(pattern, n - 1) {
            1nat
        } else {
            0nat
        })
    }
}

/// The number of slots for one segment in a pattern. A tree names no more
/// than this many parameters of the pattern.
pub open spec fn named_slots(pattern: Seq<char>) -> nat {
    slots_before(pattern, pattern.len() as int)
}

/// The greatest number of named parameters that a tree can hold for one
/// pattern.
pub const MAX_NAMED_SLOTS: usize = 25;

/// `matchit::Router::insert`: the route is taken exactly when the tree
/// accepts the pattern, and is then the last of its routes. Of a tree that
/// refused a pattern nothing is said. The tree gives up on a pattern with
/// more than 25 named parameters, so such a pattern is not handed to it.
#[verifier::external_body]
pub(crate) fn route_tree_insert(t: &mut RouteTree<usize>, pattern: &str, id: usize) -> (r:
    Result<(), matchit::InsertError>)
    requires
        named_slots(pattern@) <= MAX_NAMED_SLOTS,
    ensures
        r is Ok <==> tree_accepts(routes_of(*old(t)), pattern@),
        r is Ok ==> routes_of(*final(t)) == routes_of(*old(t)).push((pattern@, id)),
{
    t.insert(pattern, id)
}

/// The model of what `route_tree_at` hands back.
pub open spec fn tree_match_view(r: Option<(usize, Vec<(String, String)>)>) -> TreeMatch {
    match r {
        Some((id, caps)) => Some((id, Seq::new(caps@.len(), |i: int| (caps@[i].0@, caps@[i].1@)))),
        None => None,
    }
}

/// Whether one of the routes leads to `id`.
pub open spec fn leads_to(routes: RouteSeq, id: usize) -> bool {
    exists|i: int| 0 <= i < routes.len() && (#[trigger] routes[i]).1 == id
}

/// `matchit::Router::at`: the route that the tree finds for the path, with
/// the captured parameters copied out in their order. What is found is the
/// value of a route that was inserted.
#[verifier::external_body]
pub(crate) fn route_tree_at(t: &RouteTree<usize>, path: &str) -> (r: Option<
    (usize, Vec<(String, String)>),
>)
    ensures
        tree_match_view(r) == tree_match(routes_of(*t), path@),
        r matches Some(found) ==> leads_to(routes_of(*t), found.0),
{
    match t.at(path) {
        Ok(m) => Some(
            (*m.value, m.params.iter().map(|(k, v)| (k.to_string(), v.to_string())).collect()),
        ),
        Err(_) => None,
    }
}

/// The message of a `matchit::InsertError`, as its `Display` writes it.
#[verifier::external_body]
pub(crate) fn insert_error_text(e: &matchit::InsertError) -> String {
    e.to_string()
}

/// What percent-decoding makes of a text: the text with each `%XX` replaced
/// by the byte it names, read as UTF-8; nothing where that is no valid UTF-8.
pub uninterp spec fn url_decoded(text: Seq<char>) -> Option<Seq<char>>;

/// `urlencoding::decode`.
#[verifier::external_body]
pub(crate) fn url_decode(text: &str) -> (r: Option<String>)
    ensures
        r.is_some() == url_decoded(text@).is_some(),
        r matches Some(d) ==> url_decoded(text@) == Some(d@),
{
    match urlencoding::decode(text) {
        Ok(d) => Some(d.into_owned()),
        Err(_) => None,
    }
}

/// The mathematical model of a map from parameter names to type tags.
pub type TagPairs = Map<Seq<char>, u8>;

/// The name/tag pairs that a table of parameter types holds.
pub uninterp spec fn type_map(m: AHashMap<String, u8>) -> TagPairs;

/// `AHashMap::new`: a table that holds nothing.
#[verifier::external_body]
pub(crate) fn type_map_new() -> (m: AHashMap<String, u8>)
    ensures
        type_map(m) == TagPairs::empty(),
{
    AHashMap::new()
}

/// `AHashMap::get`: the tag stored under the name, if there is one.
#[verifier::external_body]
pub(crate) fn type_map_get(m: &AHashMap<String, u8>, key: &str) -> (r: Option<u8>)
    ensures
        r == (if type_map(*m).contains_key(key@) {
            Some(type_map(*m)[key@])
        } else {
            None
        }),
{
    m.get(key).copied()
}

/// The bytes of a text in UTF-8.
pub open spec fn utf8(text: Seq<char>) -> Seq<u8> {
    vstd::utf8::encode_utf8(text)
}

/// The mathematical model of a map from parameter names to coerced values.
pub type ValuePairs = Map<Seq<char>, crate::type_coercion::CoercedModel>;

/// The name/value pairs that a map of coerced parameters holds.
pub uninterp spec fn value_map(m: AHashMap<String, crate::type_coercion::CoercedValue>) -> ValuePairs;

/// `AHashMap::new`: a map that holds nothing.
#[verifier::external_body]
pub(crate) fn value_map_new() -> (m: AHashMap<String, crate::type_coercion::CoercedValue>)
    ensures
        value_map(m) == ValuePairs::empty(),
{
    AHashMap::new()
}

/// `AHashMap::insert`: afterwards the name maps to the new value and every
/// other name is as before.
#[verifier::external_body]
pub(crate) fn value_map_insert(
    m: &mut AHashMap<String, crate::type_coercion::CoercedValue>,
    key: String,
    value: crate::type_coercion::CoercedValue,
)
    ensures
        value_map(*final(m)) == value_map(*old(m)).insert(key@, value@),
{
    m.insert(key, value);
}

/// `AHashMap::is_empty`: whether the table holds nothing.
#[verifier::external_body]
pub(crate) fn id_map_is_empty(m: &AHashMap<String, usize>) -> (r: bool)
    ensures
        r == (id_map(*m) == IdPairs::empty()),
{
    m.is_empty()
}

#[verifier::external_type_specification]
#[verifier::external_body]
pub struct ExRegexError(regex::Error);

/// Whether a pattern is a regular expression that can be compiled.
pub uninterp spec fn regex_compiles(pattern: Seq<char>) -> bool;

/// The pattern that an expression was compiled from, which `Regex::as_str`
/// gives back.
pub uninterp spec fn regex_pattern(re: regex::Regex) -> Seq<char>;

/// `Regex::new`: the compiled expression for a pattern, which keeps the
/// pattern it was compiled from, or the error for a pattern that is none.
#[verifier::external_body]
pub(crate) fn regex_compile(pattern: &str) -> (r: Result<regex::Regex, regex::Error>)
    ensures
        r is Ok == regex_compiles(pattern@),
        r matches Ok(re) ==> regex_pattern(re) == pattern@,
{
    regex::Regex::new(pattern)
}

/// The message of a `regex::Error`, as its `Display` writes it.
#[verifier::external_body]
pub(crate) fn regex_error_text(e: &regex::Error) -> String {
    e.to_string()
}

} // verus!
