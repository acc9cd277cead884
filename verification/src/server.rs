//! What is set up once, before the first request: the route table, the
//! metadata of the routes, and the settings of the server.

use vstd::prelude::*;
use std::collections::HashMap;
use crate::cors::opt_str;
use crate::metadata::RouteMetadata;
use crate::numbers::{bounded_text, read_unsigned};
use crate::router::{method_of, refusal_of, registered, Method, RegistrationError, Router};
use crate::text::{ascii_lower, chars_of, lowercase, same_chars, string_views};

verus! {

broadcast use vstd::std_specs::hash::group_hash_axioms;

/// A route to register: the method, the path pattern, and the id of the
/// handler.
pub struct RouteSpec {
    pub method: String,
    pub path: String,
    pub handler_id: usize,
}

/// How registering one route relates the table before and after, depending
/// on whether the route was taken: the routes of the method change as
/// `registered` says and those of every other method stay; a route for a
/// method that is not supported is never taken.
pub open spec fn route_step(before: Router, route: RouteSpec, after: Router, ok: bool) -> bool {
    &&& forall|m: Method| method_of(route.method@) != Some(m) ==> after.table(m) == before.table(m)
    &&& method_of(route.method@) is None ==> !ok
    &&& method_of(route.method@) matches Some(m) ==> registered(
        before.table(m),
        after.table(m),
        route.path@,
        route.handler_id,
        ok,
    )
}

/// The tables that registering the routes one after the other leads
/// through: each step takes its route.
pub open spec fn route_chain(tables: Seq<Router>, routes: Seq<RouteSpec>, n: int) -> bool {
    tables.len() == n + 1 && n <= routes.len() && forall|i: int|
        0 <= i < n ==> route_step(#[trigger] tables[i], routes[i], tables[i + 1], true)
}

/// Builds the route table from a list of routes, registered in order. Fails
/// at the first route that is not taken, with the reason.
pub fn register_routes(routes: &Vec<RouteSpec>) -> (r: Result<Router, RegistrationError>)
    ensures
        match r {
            Ok(router) => exists|tables: Seq<Router>|
                #![trigger route_chain(tables, routes@, routes@.len() as int)]
                route_chain(tables, routes@, routes@.len() as int) && tables[routes@.len() as int]
                    == router && forall|m: Method|
                    (#[trigger] tables[0].table(m)).exact == crate::maps::IdPairs::empty()
                        && tables[0].table(m).dynamic == crate::maps::RouteSeq::empty(),
            Err(e) => exists|tables: Seq<Router>, k: int, after: Router|
                #![trigger route_chain(tables, routes@, k), route_step(tables[k], routes@[k], after, false)]
                0 <= k < routes@.len() && route_chain(tables, routes@, k) && route_step(
                    tables[k],
                    routes@[k],
                    after,
                    false,
                ) && refusal_of(e, routes@[k].method@, routes@[k].path@),
        },
{
    let mut router = Router::new();
    let ghost mut tables: Seq<Router> = seq![router];
    let mut i: usize = 0;
    while i < routes.len()
        invariant
            i <= routes.len(),
            route_chain(tables, routes@, i as int),
            tables[i as int] == router,
            forall|m: Method|
                (#[trigger] tables[0].table(m)).exact == crate::maps::IdPairs::empty()
                    && tables[0].table(m).dynamic == crate::maps::RouteSeq::empty(),
        decreases routes.len() - i,
    {
        let ghost before = router;
        let outcome = router.register(
            routes[i].method.as_str(),
            routes[i].path.as_str(),
            routes[i].handler_id,
        );
        match outcome {
            Ok(()) => {
                proof {
                    assert(route_step(before, routes@[i as int], router, true));
                    let longer = tables.push(router);
                    assert forall|j: int| 0 <= j < i + 1 implies route_step(
                        #[trigger] longer[j],
                        routes@[j],
                        longer[j + 1],
                        true,
                    ) by {
                        if j < i {
                            assert(longer[j] == tables[j]);
                            assert(longer[j + 1] == tables[j + 1]);
                        }
                    }
                    tables = longer;
                }
            },
            Err(e) => {
                proof {
                    assert(route_step(tables[i as int], routes@[i as int], router, false));
                }
                return Err(e);
            },
        }
        i += 1;
    }
    Ok(router)
}

/// The metadata of the handlers whose metadata could be read. A handler
/// whose metadata could not be read has none and falls back to the defaults.
/// Of several entries for one handler the last counts.
pub open spec fn installed(entries: Seq<(usize, Option<RouteMetadata>)>) -> Map<usize, RouteMetadata>
    decreases entries.len(),
{
    if entries.len() == 0 {
        Map::empty()
    } else {
        match entries.last().1 {
            Some(m) => installed(entries.drop_last()).insert(entries.last().0, m),
            None => installed(entries.drop_last()),
        }
    }
}

/// Installs the metadata of the handlers. Hands back the ids of the handlers
/// whose metadata could not be read, in order, so that they can be reported.
pub fn register_middleware_metadata(entries: Vec<(usize, Option<RouteMetadata>)>) -> (r: (
    HashMap<usize, RouteMetadata>,
    Vec<usize>,
))
    ensures
        r.0@ == installed(entries@),
        r.1@ == unread(entries@),
{
    let ghost all = entries@;
    let mut map: HashMap<usize, RouteMetadata> = HashMap::new();
    let mut failed: Vec<usize> = Vec::new();
    let mut rest = entries;
    let ghost mut done: Seq<(usize, Option<RouteMetadata>)> = Seq::empty();
    assert(map@ =~= installed(done));
    while rest.len() > 0
        invariant
            done + rest@ == all,
            map@ == installed(done),
            failed@ == unread(done),
        decreases rest.len(),
    {
        let entry = rest.remove(0);
        proof {
            let longer = done.push(entry);
            assert(longer.drop_last() =~= done);
            assert(longer + rest@ =~= all);
            done = longer;
        }
        match entry.1 {
            Some(m) => {
                map.insert(entry.0, m);
            },
            None => {
                failed.push(entry.0);
            },
        }
    }
    assert(done =~= all);
    (map, failed)
}

/// The ids of the handlers whose metadata could not be read, in order.
pub open spec fn unread(entries: Seq<(usize, Option<RouteMetadata>)>) -> Seq<usize>
    decreases entries.len(),
{
    if entries.len() == 0 {
        Seq::empty()
    } else {
        match entries.last().1 {
            Some(_) => unread(entries.drop_last()),
            None => unread(entries.drop_last()).push(entries.last().0),
        }
    }
}

/// The settings of the server.
#[derive(Debug)]
pub struct ServerSettings {
    pub debug: bool,
    /// The greatest size of a header value, in bytes.
    pub max_header_size: usize,
    pub cors_allowed_origins: Vec<String>,
    /// The number of worker threads.
    pub workers: usize,
    /// Whether the listening socket is opened with `SO_REUSEPORT`.
    pub reuse_port: bool,
}

/// The number of workers that the environment asks for: a number of at least
/// one, or two.
pub open spec fn workers_of(env: Option<Seq<char>>) -> usize {
    match env {
        Some(text) => match bounded_text(text, usize::MAX as nat) {
            Some(n) if n >= 1 => n as usize,
            _ => 2,
        },
        None => 2,
    }
}

/// Whether the environment asks for `SO_REUSEPORT`: with `1`, or with `true`
/// in any case.
pub open spec fn reuse_port_of(env: Option<Seq<char>>) -> bool {
    match env {
        Some(text) => text == "1"@ || ascii_lower(text) == "true"@,
        None => false,
    }
}

/// Reads the number of workers from the environment.
pub fn worker_count(env: Option<&str>) -> (n: usize)
    ensures
        n == workers_of(opt_str(env)),
{
    match env {
        Some(text) => {
            let chars = chars_of(text);
            match read_unsigned(chars.as_slice(), usize::MAX as u64) {
                Some(n) => if n >= 1 {
                    n as usize
                } else {
                    2
                },
                None => 2,
            }
        },
        None => 2,
    }
}

/// Reads from the environment whether `SO_REUSEPORT` is asked for.
pub fn wants_reuse_port(env: Option<&str>) -> (r: bool)
    ensures
        r == reuse_port_of(opt_str(env)),
{
    match env {
        Some(text) => {
            if text.eq("1") {
                return true;
            }
            let chars = chars_of(text);
            let lower = lowercase(chars.as_slice());
            let word = chars_of("true");
            same_chars(lower.as_slice(), word.as_slice())
        },
        None => false,
    }
}

/// Why the server does not start.
#[derive(Debug, Clone, Copy, PartialEq, Eq, Structural)]
pub enum StartError {
    /// No routes were registered before the start.
    RoutesNotRegistered,
}

impl StartError {
    /// What the host is told.
    pub fn message(&self) -> (m: &'static str)
        ensures
            m@ == "Routes not registered"@,
    {
        "Routes not registered"
    }
}

/// The settings that the server starts with, for what the host's settings
/// and the environment give. Without a word from the host the server does
/// not debug, takes header values of up to 8192 bytes and allows no origin.
pub open spec fn settings_of(
    s: ServerSettings,
    debug: Option<bool>,
    max_header_size: Option<usize>,
    cors_allowed_origins: Option<Vec<String>>,
    workers_env: Option<Seq<char>>,
    reuse_port_env: Option<Seq<char>>,
) -> bool {
    &&& s.debug == (debug == Some(true))
    &&& s.max_header_size == (match max_header_size {
        Some(n) => n,
        None => 8192usize,
    })
    &&& string_views(s.cors_allowed_origins@) == (match cors_allowed_origins {
        Some(o) => string_views(o@),
        None => Seq::empty(),
    })
    &&& s.workers == workers_of(workers_env)
    &&& s.reuse_port == reuse_port_of(reuse_port_env)
}

/// Decides whether the server starts, and with which settings. A server for
/// which no routes were registered does not start.
pub fn start_server_async(
    routes_registered: bool,
    debug: Option<bool>,
    max_header_size: Option<usize>,
    cors_allowed_origins: Option<Vec<String>>,
    workers_env: Option<&str>,
    reuse_port_env: Option<&str>,
) -> (r: Result<ServerSettings, StartError>)
    ensures
        match r {
            Ok(s) => routes_registered && settings_of(
                s,
                debug,
                max_header_size,
                cors_allowed_origins,
                opt_str(workers_env),
                opt_str(reuse_port_env),
            ),
            Err(e) => !routes_registered && e == StartError::RoutesNotRegistered,
        },
{
    if !routes_registered {
        return Err(StartError::RoutesNotRegistered);
    }
    let origins = match cors_allowed_origins {
        Some(o) => o,
        None => {
            let v: Vec<String> = Vec::new();
            assert(string_views(v@) =~= Seq::<Seq<char>>::empty());
            v
        },
    };
    Ok(
        ServerSettings {
            debug: match debug {
                Some(d) => d,
                None => false,
            },
            max_header_size: match max_header_size {
                Some(n) => n,
                None => 8192,
            },
            cors_allowed_origins: origins,
            workers: worker_count(workers_env),
            reuse_port: wants_reuse_port(reuse_port_env),
        },
    )
}

} // verus!
