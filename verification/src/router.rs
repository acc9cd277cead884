//! The route table: per method, a table of static paths that is asked first
//! and a tree of patterns with captures. Patterns are written with `{name}`
//! for one segment and `{name:path}` for the rest of the path.

use vstd::prelude::*;
use ahash::AHashMap;
use matchit::Router as RouteTree;
use crate::maps::{
    id_map, id_map_get, id_map_insert, id_map_new, insert_error_text, leads_to, named_slots,
    route_tree_at, route_tree_insert, route_tree_new, routes_of, slots_before, text_map,
    text_map_insert, text_map_new, tree_accepts, tree_match, tree_match_view, url_decode,
    url_decoded, Captures, IdPairs, RouteSeq, TextPairs, TreeMatch, MAX_NAMED_SLOTS,
};
use crate::text::{
    chars_of, extend_chars, find_char, first_index, lemma_first_index, same_chars, slice_of,
    split, split_seq, string_of, string_views, texts,
};

verus! {

/// The request methods for which routes are kept.
#[derive(Debug, Clone, Copy, PartialEq, Eq, Structural)]
pub enum Method {
    Get,
    Post,
    Put,
    Patch,
    Delete,
    Options,
    Head,
}

/// A registered route: the id under which the handler and its metadata are
/// kept.
#[derive(Debug, Clone, Copy, PartialEq, Eq, Structural)]
pub struct Route {
    pub handler_id: usize,
}

/// Why a route was not registered.
#[derive(Debug)]
pub enum RegistrationError {
    /// The method is none of those for which routes are kept.
    UnsupportedMethod(String),
    /// The same static path is already registered for the method.
    Duplicate(String),
    /// The pattern is malformed, conflicts with a registered pattern or has
    /// too many parameters; the text says which.
    Rejected(String),
}

/// The method that a request line names. Names are upper case.
pub open spec fn method_of(name: Seq<char>) -> Option<Method> {
    if name == "GET"@ {
        Some(Method::Get)
    } else if name == "POST"@ {
        Some(Method::Post)
    } else if name == "PUT"@ {
        Some(Method::Put)
    } else if name == "PATCH"@ {
        Some(Method::Patch)
    } else if name == "DELETE"@ {
        Some(Method::Delete)
    } else if name == "OPTIONS"@ {
        Some(Method::Options)
    } else if name == "HEAD"@ {
        Some(Method::Head)
    } else {
        None
    }
}

/// How a method is written.
pub open spec fn method_name(m: Method) -> Seq<char> {
    match m {
        Method::Get => "GET"@,
        Method::Post => "POST"@,
        Method::Put => "PUT"@,
        Method::Patch => "PATCH"@,
        Method::Delete => "DELETE"@,
        Method::Options => "OPTIONS"@,
        Method::Head => "HEAD"@,
    }
}

/// The slot that the tree is given for the parameter text between braces:
/// `name` or `name:type` becomes `{name}`, and `name:path` becomes `{*name}`.
pub open spec fn converted_slot(param: Seq<char>) -> Seq<char> {
    let colon = first_index(param, ':');
    if colon < param.len() {
        if param.skip(colon + 1) == "path"@ {
            seq!['{', '*'] + param.take(colon) + seq!['}']
        } else {
            seq!['{'] + param.take(colon) + seq!['}']
        }
    } else {
        seq!['{'] + param + seq!['}']
    }
}

/// A path pattern in the syntax of the tree. Text outside braces is kept; a
/// parameter runs from `{` to the next `}` or, if there is none, to the end.
pub open spec fn converted_path(path: Seq<char>) -> Seq<char>
    decreases path.len(),
{
    if path.len() == 0 {
        path
    } else if path[0] != '{' {
        seq![path[0]] + converted_path(path.drop_first())
    } else {
        let rest = path.drop_first();
        let close = first_index(rest, '}');
        if 0 <= close < rest.len() {
            converted_slot(rest.take(close)) + converted_path(rest.skip(close + 1))
        } else {
            converted_slot(rest)
        }
    }
}

/// A pattern without captures.
pub open spec fn is_static(pattern: Seq<char>) -> bool {
    !pattern.contains('{')
}

/// The model of the routes of one method.
pub struct TableModel {
    pub exact: IdPairs,
    pub dynamic: RouteSeq,
}

/// What a table finds for a path: the static route for exactly that path, or
/// else what the tree finds.
pub open spec fn lookup(t: TableModel, path: Seq<char>) -> TreeMatch {
    if t.exact.contains_key(path) {
        Some((t.exact[path], Captures::empty()))
    } else {
        tree_match(t.dynamic, path)
    }
}

/// The map that a list of captures fills: later captures of a name replace
/// earlier ones.
pub open spec fn captures_map(caps: Captures) -> TextPairs
    decreases caps.len(),
{
    if caps.len() == 0 {
        TextPairs::empty()
    } else {
        captures_map(caps.drop_last()).insert(caps.last().0, caps.last().1)
    }
}

/// Whether a tree that holds `routes` takes `pattern`: the pattern has no
/// more named parameters than a tree can hold, and the tree accepts it.
pub open spec fn takes(routes: RouteSeq, pattern: Seq<char>) -> bool {
    named_slots(pattern) <= MAX_NAMED_SLOTS && tree_accepts(routes, pattern)
}

/// The model of a list of routes.
pub open spec fn route_views(list: Seq<(String, usize)>) -> RouteSeq {
    Seq::new(list.len(), |i: int| (list[i].0@, list[i].1))
}

/// Each route of the list is taken by a tree that holds the routes before
/// it.
pub open spec fn taken_in_turn(routes: RouteSeq) -> bool {
    forall|i: int| 0 <= i < routes.len() ==> takes(routes.take(i), (#[trigger] routes[i]).0)
}

/// The patterns with captures of one table: the tree that matches paths
/// against them, and the list of the routes that the tree took, in order. A
/// tree that refused a pattern is built again from the list, so that a
/// refusal leaves the routes as they were.
pub struct PatternTree {
    tree: RouteTree<usize>,
    list: Vec<(String, usize)>,
}

/// Counts the slots for one segment in a pattern.
fn count_slots(pattern: &str) -> (n: usize)
    ensures
        n == named_slots(pattern@),
{
    let chars = chars_of(pattern);
    let mut n: usize = 0;
    let mut i: usize = 0;
    while i < chars.len()
        invariant
            i <= chars.len(),
            chars@ == pattern@,
            n == slots_before(pattern@, i as int),
            n <= i,
        decreases chars.len() - i,
    {
        if chars[i] == '{' && !(i + 1 < chars.len() && chars[i + 1] == '*') {
            n += 1;
        }
        i += 1;
    }
    n
}

/// Builds the tree for a list of routes of which each is taken in turn.
fn build_tree(list: &Vec<(String, usize)>) -> (tree: RouteTree<usize>)
    requires
        taken_in_turn(route_views(list@)),
    ensures
        routes_of(tree) == route_views(list@),
{
    let ghost all = route_views(list@);
    let mut tree = route_tree_new();
    let mut i: usize = 0;
    assert(all.take(0) =~= RouteSeq::empty());
    while i < list.len()
        invariant
            i <= list.len(),
            all == route_views(list@),
            taken_in_turn(all),
            routes_of(tree) == all.take(i as int),
        decreases list.len() - i,
    {
        proof {
            assert(takes(all.take(i as int), all[i as int].0));
            assert(all.take(i as int).push(all[i as int]) =~= all.take(i + 1));
        }
        match route_tree_insert(&mut tree, list[i].0.as_str(), list[i].1) {
            Ok(()) => {},
            Err(_) => {},
        }
        i += 1;
    }
    assert(all.take(list.len() as int) =~= all);
    tree
}

impl PatternTree {
    /// The tree holds the routes of the list, and each was taken in turn.
    #[verifier::type_invariant]
    spec fn well_formed(&self) -> bool {
        routes_of(self.tree) == route_views(self.list@) && taken_in_turn(route_views(self.list@))
    }

    /// The routes that were taken, in order.
    pub closed spec fn routes(&self) -> RouteSeq {
        routes_of(self.tree)
    }

    /// A tree without routes.
    pub fn new() -> (t: Self)
        ensures
            t.routes() == RouteSeq::empty(),
    {
        let list: Vec<(String, usize)> = Vec::new();
        assert(route_views(list@) =~= RouteSeq::empty());
        PatternTree { tree: route_tree_new(), list }
    }

    /// Offers a route to the tree. The route is taken exactly when `takes`
    /// says so, and is then the last of the routes; a route that is not taken
    /// leaves the routes as they were and is answered with the reason.
    pub fn insert(self, pattern: &str, id: usize) -> (r: (PatternTree, Result<(), String>))
        ensures
            r.1 is Ok == takes(self.routes(), pattern@),
            r.0.routes() == (if r.1 is Ok {
                self.routes().push((pattern@, id))
            } else {
                self.routes()
            }),
    {
        proof {
            use_type_invariant(&self);
        }
        if count_slots(pattern) > MAX_NAMED_SLOTS {
            return (self, Err("too many parameters in route".to_owned()));
        }
        let ghost before = route_views(self.list@);
        let mut tree = self.tree;
        let mut list = self.list;
        match route_tree_insert(&mut tree, pattern, id) {
            Ok(()) => {
                list.push((pattern.to_owned(), id));
                proof {
                    let after = route_views(list@);
                    assert(after =~= before.push((pattern@, id)));
                    assert forall|i: int| 0 <= i < after.len() implies takes(
                        after.take(i),
                        (#[trigger] after[i]).0,
                    ) by {
                        if i < before.len() {
                            assert(after.take(i) =~= before.take(i));
                            assert(after[i] == before[i]);
                        } else {
                            assert(after.take(i) =~= before);
                        }
                    }
                }
                (PatternTree { tree, list }, Ok(()))
            },
            Err(e) => {
                let reason = insert_error_text(&e);
                let rebuilt = build_tree(&list);
                (PatternTree { tree: rebuilt, list }, Err(reason))
            },
        }
    }

    /// What the tree finds for a path: the route that matches, with the
    /// captured parameters in their order. What is found is the handler of a
    /// route that was taken.
    pub fn at(&self, path: &str) -> (r: Option<(usize, Vec<(String, String)>)>)
        ensures
            tree_match_view(r) == tree_match(self.routes(), path@),
            r matches Some(found) ==> leads_to(self.routes(), found.0),
    {
        route_tree_at(&self.tree, path)
    }
}

/// The routes of one method.
pub struct MethodTable {
    exact: AHashMap<String, usize>,
    dynamic: PatternTree,
}

impl View for MethodTable {
    type V = TableModel;

    closed spec fn view(&self) -> TableModel {
        TableModel { exact: id_map(self.exact), dynamic: self.dynamic.routes() }
    }
}

/// The route table.
pub struct Router {
    get: MethodTable,
    post: MethodTable,
    put: MethodTable,
    patch: MethodTable,
    delete: MethodTable,
    options: MethodTable,
    head: MethodTable,
}

/// The result of a successful match: the handler and the captured
/// parameters.
pub struct RouteMatch {
    pub route: Route,
    pub path_params: AHashMap<String, String>,
}

/// What the matcher says of a request.
pub enum RouteOutcome {
    /// A route is registered for the method and matches the path.
    Matched(RouteMatch),
    /// No route for this method, but for the listed methods.
    MethodMismatch(Vec<String>),
    /// No route for any method.
    NotFound,
}

/// The model of a match: the handler id and the map of captured parameters.
pub type MatchModel = Option<(usize, TextPairs)>;

/// The model of an optional `RouteMatch`.
pub open spec fn match_model(r: Option<RouteMatch>) -> MatchModel {
    match r {
        Some(m) => Some((m.route.handler_id, text_map(m.path_params))),
        None => None,
    }
}

/// Whether a route of the table leads to the handler `id`.
pub open spec fn holds_handler(t: TableModel, id: usize) -> bool {
    (exists|path: Seq<char>| #[trigger] t.exact.contains_key(path) && t.exact[path] == id)
        || leads_to(t.dynamic, id)
}

/// A tree match with its captures gathered into a map.
pub open spec fn gathered(m: TreeMatch) -> MatchModel {
    match m {
        Some((id, caps)) => Some((id, captures_map(caps))),
        None => None,
    }
}

impl RouteMatch {
    /// The id of the matched handler.
    pub fn handler_id(&self) -> (id: usize)
        ensures
            id == self.route.handler_id,
    {
        self.route.handler_id
    }

    /// The matched route.
    pub fn route(&self) -> (r: &Route)
        ensures
            *r == self.route,
    {
        &self.route
    }
}

impl Router {
    /// The model of the routes registered for a method.
    pub closed spec fn table(&self, m: Method) -> TableModel {
        match m {
            Method::Get => self.get@,
            Method::Post => self.post@,
            Method::Put => self.put@,
            Method::Patch => self.patch@,
            Method::Delete => self.delete@,
            Method::Options => self.options@,
            Method::Head => self.head@,
        }
    }

    /// What the table finds for a method name and a path.
    pub open spec fn find_spec(&self, method: Seq<char>, path: Seq<char>) -> MatchModel {
        match method_of(method) {
            Some(m) => gathered(lookup(self.table(m), path)),
            None => None,
        }
    }

    /// A table without routes.
    pub fn new() -> (r: Self)
        ensures
            forall|m: Method|
                (#[trigger] r.table(m)).exact == IdPairs::empty() && r.table(m).dynamic
                    == RouteSeq::empty(),
    {
        Router {
            get: MethodTable::new(),
            post: MethodTable::new(),
            put: MethodTable::new(),
            patch: MethodTable::new(),
            delete: MethodTable::new(),
            options: MethodTable::new(),
            head: MethodTable::new(),
        }
    }

    /// Registers a handler for a method and a path pattern.
    ///
    /// A static path goes into the method's table of exact paths and is
    /// refused if it is there already. A pattern with captures is converted
    /// and handed to the method's tree, which refuses a malformed or
    /// conflicting one. The routes of every other method stay as they are.
    pub fn register(&mut self, method: &str, path: &str, handler_id: usize) -> (r: Result<
        (),
        RegistrationError,
    >)
        ensures
            forall|m: Method| method_of(method@) != Some(m) ==> final(self).table(m) == old(
                self,
            ).table(m),
            method_of(method@) is None ==> r is Err,
            method_of(method@) matches Some(m) ==> registered(
                old(self).table(m),
                final(self).table(m),
                path@,
                handler_id,
                r is Ok,
            ),
            r matches Err(e) ==> refusal_of(e, method@, path@),
    {
        let m = match parse_method(method) {
            Some(m) => m,
            None => {
                return Err(RegistrationError::UnsupportedMethod(method.to_owned()));
            },
        };
        match m {
            Method::Get => self.get.register(path, handler_id),
            Method::Post => self.post.register(path, handler_id),
            Method::Put => self.put.register(path, handler_id),
            Method::Patch => self.patch.register(path, handler_id),
            Method::Delete => self.delete.register(path, handler_id),
            Method::Options => self.options.register(path, handler_id),
            Method::Head => self.head.register(path, handler_id),
        }
    }

    /// Finds the route for a method and a path. Only a route that was
    /// registered for the method is found.
    pub fn find(&self, method: &str, path: &str) -> (r: Option<RouteMatch>)
        ensures
            match_model(r) == self.find_spec(method@, path@),
            r matches Some(found) ==> (method_of(method@) matches Some(m) && holds_handler(
                self.table(m),
                found.route.handler_id,
            )),
    {
        let m = match parse_method(method) {
            Some(m) => m,
            None => {
                return None;
            },
        };
        self.find_for(m, path)
    }

    /// Finds the route for a path among the routes of one method.
    pub fn find_for(&self, m: Method, path: &str) -> (r: Option<RouteMatch>)
        ensures
            match_model(r) == gathered(lookup(self.table(m), path@)),
            r matches Some(found) ==> holds_handler(self.table(m), found.route.handler_id),
    {
        match m {
            Method::Get => self.get.find(path),
            Method::Post => self.post.find(path),
            Method::Put => self.put.find(path),
            Method::Patch => self.patch.find(path),
            Method::Delete => self.delete.find(path),
            Method::Options => self.options.find(path),
            Method::Head => self.head.find(path),
        }
    }

    /// Whether some route of the method matches the path.
    pub open spec fn serves(&self, m: Method, path: Seq<char>) -> bool {
        lookup(self.table(m), path) is Some
    }

    /// The name of the method, if the method has a route for the path.
    pub open spec fn listed(&self, m: Method, path: Seq<char>) -> Seq<Seq<char>> {
        if self.serves(m, path) {
            seq![method_name(m)]
        } else {
            Seq::<Seq<char>>::empty()
        }
    }

    /// The methods, in the fixed order GET, POST, PUT, PATCH, DELETE,
    /// OPTIONS, HEAD, that have a route for the path.
    pub open spec fn methods_for(&self, path: Seq<char>) -> Seq<Seq<char>> {
        self.listed(Method::Get, path) + self.listed(Method::Post, path) + self.listed(
            Method::Put,
            path,
        ) + self.listed(Method::Patch, path) + self.listed(Method::Delete, path) + self.listed(
            Method::Options,
            path,
        ) + self.listed(Method::Head, path)
    }

    /// Adds the method's name to the list if the method has a route for the
    /// path.
    fn list_method(&self, m: Method, path: &str, found: &mut Vec<String>)
        ensures
            string_views(final(found)@) == string_views(old(found)@) + self.listed(m, path@),
    {
        if self.find_for(m, path).is_some() {
            found.push(write_method(m));
            assert(string_views(found@) =~= string_views(old(found)@) + self.listed(m, path@));
        } else {
            assert(string_views(found@) =~= string_views(old(found)@) + self.listed(m, path@));
        }
    }

    /// Lists the methods that have a route for the path.
    pub fn find_all_methods(&self, path: &str) -> (r: Vec<String>)
        ensures
            string_views(r@) == self.methods_for(path@),
    {
        let mut found: Vec<String> = Vec::new();
        assert(string_views(found@) =~= Seq::<Seq<char>>::empty());
        self.list_method(Method::Get, path, &mut found);
        self.list_method(Method::Post, path, &mut found);
        self.list_method(Method::Put, path, &mut found);
        self.list_method(Method::Patch, path, &mut found);
        self.list_method(Method::Delete, path, &mut found);
        self.list_method(Method::Options, path, &mut found);
        self.list_method(Method::Head, path, &mut found);
        assert(string_views(found@) =~= self.methods_for(path@));
        found
    }

    /// Says what the table holds for a request: a matching route, the methods
    /// that would match the path, or nothing.
    pub fn resolve(&self, method: &str, path: &str) -> (r: RouteOutcome)
        ensures
            match r {
                RouteOutcome::Matched(m) => {
                    &&& Some((m.route.handler_id, text_map(m.path_params))) == self.find_spec(
                        method@,
                        path@,
                    )
                    &&& method_of(method@) matches Some(k) && holds_handler(
                        self.table(k),
                        m.route.handler_id,
                    )
                },
                RouteOutcome::MethodMismatch(allowed) => self.find_spec(method@, path@) is None
                    && string_views(allowed@) == self.methods_for(path@)
                    && allowed@.len() > 0,
                RouteOutcome::NotFound => self.find_spec(method@, path@) is None
                    && self.methods_for(path@).len() == 0,
            },
    {
        match self.find(method, path) {
            Some(m) => RouteOutcome::Matched(m),
            None => {
                let allowed = self.find_all_methods(path);
                if allowed.len() > 0 {
                    RouteOutcome::MethodMismatch(allowed)
                } else {
                    RouteOutcome::NotFound
                }
            },
        }
    }
}

/// How registering `(pattern, id)` relates a method's routes before and after.
///
/// A static pattern is taken unless its path is registered already, and then
/// maps to `id`. A pattern with captures is taken exactly when the tree
/// takes its converted form, which then becomes the tree's last route. A
/// pattern that is refused changes nothing.
pub open spec fn registered(
    before: TableModel,
    after: TableModel,
    pattern: Seq<char>,
    id: usize,
    ok: bool,
) -> bool {
    if is_static(pattern) {
        &&& ok == !before.exact.contains_key(pattern)
        &&& after.dynamic == before.dynamic
        &&& after.exact == (if ok {
            before.exact.insert(pattern, id)
        } else {
            before.exact
        })
    } else {
        &&& ok == takes(before.dynamic, converted_path(pattern))
        &&& after.exact == before.exact
        &&& after.dynamic == (if ok {
            before.dynamic.push((converted_path(pattern), id))
        } else {
            before.dynamic
        })
    }
}

/// Whether an error is the reason for which a route for this method and
/// pattern is refused: the method is not supported; or the pattern is static
/// and registered already; or it has captures and the tree does not take it.
pub open spec fn refusal_of(e: RegistrationError, method: Seq<char>, pattern: Seq<char>) -> bool {
    match e {
        RegistrationError::UnsupportedMethod(m) => method_of(method) is None && m@ == method,
        RegistrationError::Duplicate(p) => method_of(method) is Some && is_static(pattern) && p@
            == pattern,
        RegistrationError::Rejected(_) => method_of(method) is Some && !is_static(pattern),
    }
}

impl MethodTable {
    fn new() -> (t: Self)
        ensures
            t@.exact == IdPairs::empty(),
            t@.dynamic == RouteSeq::empty(),
    {
        MethodTable { exact: id_map_new(), dynamic: PatternTree::new() }
    }

    fn register(&mut self, path: &str, handler_id: usize) -> (r: Result<(), RegistrationError>)
        ensures
            registered(old(self)@, final(self)@, path@, handler_id, r is Ok),
            r matches Err(e) ==> (match e {
                RegistrationError::UnsupportedMethod(_) => false,
                RegistrationError::Duplicate(p) => is_static(path@) && p@ == path@,
                RegistrationError::Rejected(_) => !is_static(path@),
            }),
    {
        let chars = chars_of(path);
        proof {
            lemma_first_index(path@, '{');
        }
        if find_char(chars.as_slice(), '{').is_none() {
            if id_map_get(&self.exact, path).is_some() {
                return Err(RegistrationError::Duplicate(path.to_owned()));
            }
            id_map_insert(&mut self.exact, path.to_owned(), handler_id);
            Ok(())
        } else {
            let converted = convert_path(path);
            let mut held = PatternTree::new();
            core::mem::swap(&mut held, &mut self.dynamic);
            let (next, taken) = held.insert(converted.as_str(), handler_id);
            self.dynamic = next;
            match taken {
                Ok(()) => Ok(()),
                Err(reason) => Err(RegistrationError::Rejected(reason)),
            }
        }
    }

    fn find(&self, path: &str) -> (r: Option<RouteMatch>)
        ensures
            match_model(r) == gathered(lookup(self@, path@)),
            r matches Some(found) ==> holds_handler(self@, found.route.handler_id),
    {
        match id_map_get(&self.exact, path) {
            Some(id) => {
                assert(self@.exact.contains_key(path@) && self@.exact[path@] == id);
                return Some(
                    RouteMatch { route: Route { handler_id: id }, path_params: text_map_new() },
                );
            },
            None => {},
        }
        match self.dynamic.at(path) {
            Some((id, caps)) => {
                let ghost model: Captures = Seq::new(
                    caps@.len(),
                    |i: int| (caps@[i].0@, caps@[i].1@),
                );
                let mut params = text_map_new();
                let mut i: usize = 0;
                assert(model.take(0) =~= Captures::empty());
                while i < caps.len()
                    invariant
                        i <= caps.len(),
                        model == Seq::new(caps@.len(), |i: int| (caps@[i].0@, caps@[i].1@)),
                        text_map(params) == captures_map(model.take(i as int)),
                    decreases caps.len() - i,
                {
                    proof {
                        assert(model.take(i + 1).drop_last() =~= model.take(i as int));
                    }
                    text_map_insert(&mut params, caps[i].0.clone(), caps[i].1.clone());
                    i += 1;
                }
                assert(model.take(caps.len() as int) =~= model);
                Some(RouteMatch { route: Route { handler_id: id }, path_params: params })
            },
            None => None,
        }
    }
}

/// Reads a method name.
pub fn parse_method(name: &str) -> (m: Option<Method>)
    ensures
        m == method_of(name@),
{
    if name.eq("GET") {
        Some(Method::Get)
    } else if name.eq("POST") {
        Some(Method::Post)
    } else if name.eq("PUT") {
        Some(Method::Put)
    } else if name.eq("PATCH") {
        Some(Method::Patch)
    } else if name.eq("DELETE") {
        Some(Method::Delete)
    } else if name.eq("OPTIONS") {
        Some(Method::Options)
    } else if name.eq("HEAD") {
        Some(Method::Head)
    } else {
        None
    }
}

/// Writes a method name.
pub fn write_method(m: Method) -> (s: String)
    ensures
        s@ == method_name(m),
{
    match m {
        Method::Get => "GET".to_owned(),
        Method::Post => "POST".to_owned(),
        Method::Put => "PUT".to_owned(),
        Method::Patch => "PATCH".to_owned(),
        Method::Delete => "DELETE".to_owned(),
        Method::Options => "OPTIONS".to_owned(),
        Method::Head => "HEAD".to_owned(),
    }
}

/// Writes the slot for one parameter.
fn convert_slot(param: &[char], out: &mut Vec<char>)
    ensures
        final(out)@ == old(out)@ + converted_slot(param@),
{
    proof {
        lemma_first_index(param@, ':');
    }
    let ghost start = out@;
    out.push('{');
    match find_char(param, ':') {
        Some(colon) => {
            let name = slice_of(param, 0, colon);
            let kind = slice_of(param, colon + 1, param.len());
            let path_kind = chars_of("path");
            assert(param@.skip(colon + 1) =~= param@.subrange(colon + 1, param.len() as int));
            assert(param@.take(colon as int) =~= param@.subrange(0, colon as int));
            if same_chars(kind.as_slice(), path_kind.as_slice()) {
                out.push('*');
            }
            extend_chars(out, name.as_slice());
            out.push('}');
            assert(out@ =~= start + converted_slot(param@));
        },
        None => {
            extend_chars(out, param);
            out.push('}');
            assert(out@ =~= start + converted_slot(param@));
        },
    }
}

/// Converts a path pattern to the syntax of the route tree.
pub fn convert_path(path: &str) -> (r: String)
    ensures
        r@ == converted_path(path@),
{
    let chars = chars_of(path);
    let mut out: Vec<char> = Vec::new();
    let mut i: usize = 0;
    assert(chars@.skip(0) =~= chars@);
    while i < chars.len()
        invariant
            i <= chars.len(),
            chars@ == path@,
            out@ + converted_path(chars@.skip(i as int)) == converted_path(chars@),
        decreases chars.len() - i,
    {
        let ghost here = chars@.skip(i as int);
        let c = chars[i];
        if c != '{' {
            assert(here.drop_first() =~= chars@.skip(i + 1));
            let ghost before = out@;
            out.push(c);
            assert(out@ + converted_path(chars@.skip(i + 1)) =~= before + converted_path(here));
            i += 1;
        } else {
            let rest = slice_of(chars.as_slice(), i + 1, chars.len());
            assert(rest@ =~= here.drop_first());
            proof {
                lemma_first_index(rest@, '}');
            }
            let ghost before = out@;
            match find_char(rest.as_slice(), '}') {
                Some(close) => {
                    let param = slice_of(rest.as_slice(), 0, close);
                    assert(param@ =~= rest@.take(close as int));
                    convert_slot(param.as_slice(), &mut out);
                    assert(rest@.skip(close + 1) =~= chars@.skip(i + 1 + close + 1));
                    assert(out@ + converted_path(chars@.skip(i + 1 + close + 1)) =~= before
                        + converted_path(here));
                    i = i + 1 + close + 1;
                },
                None => {
                    convert_slot(rest.as_slice(), &mut out);
                    assert(chars@.skip(chars.len() as int) =~= Seq::<char>::empty());
                    assert(out@ + converted_path(chars@.skip(chars.len() as int)) =~= before
                        + converted_path(here));
                    i = chars.len();
                },
            }
        }
    }
    assert(chars@.skip(chars.len() as int) =~= Seq::<char>::empty());
    assert(out@ =~= out@ + Seq::<char>::empty());
    string_of(out.as_slice())
}

/// The key and value of one piece of a query string: the text before and after
/// the first `=`, or the whole piece with an empty value where there is no
/// `=`. A piece that is empty or has nothing before its `=` gives no pair.
pub open spec fn query_pair(piece: Seq<char>) -> Option<(Seq<char>, Seq<char>)> {
    let eq = first_index(piece, '=');
    if eq < piece.len() {
        if eq > 0 {
            Some((piece.take(eq), piece.skip(eq + 1)))
        } else {
            None
        }
    } else if piece.len() > 0 {
        Some((piece, Seq::<char>::empty()))
    } else {
        None
    }
}

/// The pairs of a sequence of pieces, in order.
pub open spec fn query_pairs(pieces: Seq<Seq<char>>) -> Captures
    decreases pieces.len(),
{
    if pieces.len() == 0 {
        Captures::empty()
    } else {
        match query_pair(pieces.last()) {
            Some(p) => query_pairs(pieces.drop_last()).push(p),
            None => query_pairs(pieces.drop_last()),
        }
    }
}

/// The undecoded pairs of a query string: its pieces between `&`, each split
/// at its first `=`.
pub open spec fn raw_query(query: Seq<char>) -> Captures {
    if query.len() == 0 {
        Captures::empty()
    } else {
        query_pairs(split_seq(query, '&'))
    }
}

/// A key or value with its percent-escapes resolved. Text whose escapes do
/// not give valid UTF-8 is kept as it stands.
pub open spec fn decoded(s: Seq<char>) -> Seq<char> {
    if s.len() == 0 {
        s
    } else {
        match url_decoded(s) {
            Some(d) => d,
            None => s,
        }
    }
}

/// The map that decoded pairs fill: a later pair replaces an earlier one with
/// the same decoded key.
pub open spec fn decoded_map(ps: Captures) -> TextPairs
    decreases ps.len(),
{
    if ps.len() == 0 {
        TextPairs::empty()
    } else {
        decoded_map(ps.drop_last()).insert(decoded(ps.last().0), decoded(ps.last().1))
    }
}

/// Splits a query string into its undecoded (key, value) pairs.
pub fn split_query(query: &str) -> (r: Vec<(String, String)>)
    ensures
        crate::response_meta::pairs(r@) == raw_query(query@),
{
    let chars = chars_of(query);
    let mut out: Vec<(String, String)> = Vec::new();
    assert(crate::response_meta::pairs(out@) =~= Captures::empty());
    if chars.len() == 0 {
        return out;
    }
    let pieces = split(chars.as_slice(), '&');
    let mut i: usize = 0;
    assert(texts(pieces@).take(0) =~= Seq::<Seq<char>>::empty());
    while i < pieces.len()
        invariant
            i <= pieces.len(),
            crate::response_meta::pairs(out@) == query_pairs(texts(pieces@).take(i as int)),
        decreases pieces.len() - i,
    {
        let piece = &pieces[i];
        proof {
            assert(texts(pieces@).take(i + 1).drop_last() =~= texts(pieces@).take(i as int));
            assert(texts(pieces@).take(i + 1).last() == piece@);
            lemma_first_index(piece@, '=');
        }
        let ghost before = crate::response_meta::pairs(out@);
        match find_char(piece.as_slice(), '=') {
            Some(eq) => {
                if eq > 0 {
                    let key = slice_of(piece.as_slice(), 0, eq);
                    let value = slice_of(piece.as_slice(), eq + 1, piece.len());
                    assert(key@ =~= piece@.take(eq as int));
                    assert(value@ =~= piece@.skip(eq + 1));
                    out.push((string_of(key.as_slice()), string_of(value.as_slice())));
                    assert(crate::response_meta::pairs(out@) =~= before.push((key@, value@)));
                }
            },
            None => {
                if piece.len() > 0 {
                    out.push((string_of(piece.as_slice()), String::new()));
                    assert(crate::response_meta::pairs(out@) =~= before.push(
                        (piece@, Seq::<char>::empty()),
                    ));
                }
            },
        }
        i += 1;
    }
    assert(texts(pieces@).take(pieces.len() as int) =~= texts(pieces@));
    out
}

/// Resolves the percent-escapes of a key or value.
fn decode_text(s: &String) -> (r: String)
    ensures
        r@ == decoded(s@),
{
    if s.as_str().is_empty() {
        return s.clone();
    }
    match url_decode(s.as_str()) {
        Some(d) => d,
        None => s.clone(),
    }
}

/// Reads a query string into a map from decoded keys to decoded values.
pub fn parse_query_string(query: &str) -> (params: AHashMap<String, String>)
    ensures
        text_map(params) == decoded_map(raw_query(query@)),
{
    let raw = split_query(query);
    let ghost model = crate::response_meta::pairs(raw@);
    let mut params = text_map_new();
    let mut i: usize = 0;
    assert(model.take(0) =~= Captures::empty());
    while i < raw.len()
        invariant
            i <= raw.len(),
            model == crate::response_meta::pairs(raw@),
            text_map(params) == decoded_map(model.take(i as int)),
        decreases raw.len() - i,
    {
        proof {
            assert(model.take(i + 1).drop_last() =~= model.take(i as int));
        }
        let key = decode_text(&raw[i].0);
        let value = decode_text(&raw[i].1);
        text_map_insert(&mut params, key, value);
        i += 1;
    }
    assert(model.take(raw.len() as int) =~= model);
    params
}

/// A static route that was registered is found for its own path, without
/// captures, whatever patterns the tree holds.
pub proof fn lemma_static_route_found(
    before: TableModel,
    after: TableModel,
    pattern: Seq<char>,
    id: usize,
)
    requires
        is_static(pattern),
        registered(before, after, pattern, id, true),
    ensures
        lookup(after, pattern) == Some((id, Captures::empty())),
{
}

/// A route that is refused leaves what is found for every method and path as
/// it was.
pub proof fn lemma_refusal_changes_nothing(
    before: Router,
    after: Router,
    method: Seq<char>,
    pattern: Seq<char>,
    id: usize,
    other: Seq<char>,
    path: Seq<char>,
)
    requires
        forall|m: Method| method_of(method) != Some(m) ==> after.table(m) == before.table(m),
        method_of(method) matches Some(m) ==> registered(
            before.table(m),
            after.table(m),
            pattern,
            id,
            false,
        ),
    ensures
        after.find_spec(other, path) == before.find_spec(other, path),
{
    match method_of(other) {
        Some(m) => {
            if method_of(method) == Some(m) {
                assert(after.table(m).exact == before.table(m).exact);
                assert(after.table(m).dynamic == before.table(m).dynamic);
            }
        },
        None => {},
    }
}

/// Registering a route for one method leaves what is found for every other
/// method as it was.
pub proof fn lemma_methods_independent(
    before: Router,
    after: Router,
    method: Seq<char>,
    other: Seq<char>,
    path: Seq<char>,
)
    requires
        forall|m: Method| method_of(method) != Some(m) ==> after.table(m) == before.table(m),
        method_of(other) != method_of(method),
    ensures
        after.find_spec(other, path) == before.find_spec(other, path),
{
}

} // verus!
