use bolt_core::router::{
    convert_path, parse_query_string, split_query, RegistrationError, RouteOutcome, Router,
};

#[test]
fn patterns_are_converted_for_the_tree() {
    assert_eq!(convert_path("/items/{id}"), "/items/{id}");
    assert_eq!(convert_path("/items/{id:int}"), "/items/{id}");
    assert_eq!(convert_path("/files/{p:path}"), "/files/{*p}");
    assert_eq!(convert_path("/a/{x}/b/{y:path}"), "/a/{x}/b/{*y}");
    assert_eq!(convert_path("/plain"), "/plain");
    assert_eq!(convert_path(""), "");
    assert_eq!(convert_path("/open/{name"), "/open/{name}");
    assert_eq!(convert_path("/x/{a:b:path}"), "/x/{a}");
}

#[test]
fn static_routes_are_found_without_captures() {
    let mut router = Router::new();
    router.register("GET", "/health", 7).unwrap();
    let found = router.find("GET", "/health").unwrap();
    assert_eq!(found.handler_id(), 7);
    assert!(found.path_params.is_empty());
    assert!(router.find("GET", "/health/").is_none());
    assert!(router.find("POST", "/health").is_none());
}

#[test]
fn captures_carry_the_names_of_the_pattern() {
    let mut router = Router::new();
    router.register("GET", "/items/{id}", 1).unwrap();
    router.register("GET", "/files/{p:path}", 2).unwrap();
    let found = router.find("GET", "/items/42").unwrap();
    assert_eq!(found.handler_id(), 1);
    assert_eq!(found.path_params.get("id").map(|s| s.as_str()), Some("42"));
    assert_eq!(found.path_params.len(), 1);
    let found = router.find("GET", "/files/a/b/c.txt").unwrap();
    assert_eq!(found.handler_id(), 2);
    assert_eq!(found.path_params.get("p").map(|s| s.as_str()), Some("a/b/c.txt"));
}

#[test]
fn static_routes_win_over_patterns() {
    let mut router = Router::new();
    router.register("GET", "/items/{id}", 1).unwrap();
    router.register("GET", "/items/new", 2).unwrap();
    assert_eq!(router.find("GET", "/items/new").unwrap().handler_id(), 2);
    assert_eq!(router.find("GET", "/items/old").unwrap().handler_id(), 1);
}

#[test]
fn methods_are_independent() {
    let mut router = Router::new();
    router.register("GET", "/a", 1).unwrap();
    let before = router.find("GET", "/a").map(|m| m.handler_id());
    router.register("POST", "/a", 2).unwrap();
    router.register("DELETE", "/a/{x}", 3).unwrap();
    assert_eq!(router.find("GET", "/a").map(|m| m.handler_id()), before);
    assert_eq!(router.find("POST", "/a").map(|m| m.handler_id()), Some(2));
    assert!(router.find("GET", "/a/1").is_none());
    assert_eq!(router.find("DELETE", "/a/1").map(|m| m.handler_id()), Some(3));
}

#[test]
fn registration_errors() {
    let mut router = Router::new();
    assert!(matches!(
        router.register("TRACE", "/a", 1),
        Err(RegistrationError::UnsupportedMethod(m)) if m == "TRACE"
    ));
    assert!(matches!(
        router.register("get", "/a", 1),
        Err(RegistrationError::UnsupportedMethod(_))
    ));
    router.register("GET", "/a", 1).unwrap();
    assert!(matches!(
        router.register("GET", "/a", 2),
        Err(RegistrationError::Duplicate(p)) if p == "/a"
    ));
    assert_eq!(router.find("GET", "/a").unwrap().handler_id(), 1);
    router.register("GET", "/b/{x}", 3).unwrap();
    assert!(matches!(router.register("GET", "/b/{y}", 4), Err(RegistrationError::Rejected(_))));
    assert!(matches!(
        router.register("GET", "/c/{p:path}/more", 5),
        Err(RegistrationError::Rejected(_))
    ));
}

#[test]
fn all_methods_are_listed_in_order() {
    let mut router = Router::new();
    router.register("HEAD", "/a", 1).unwrap();
    router.register("DELETE", "/a", 2).unwrap();
    router.register("GET", "/{x}", 3).unwrap();
    router.register("PUT", "/b", 4).unwrap();
    assert_eq!(router.find_all_methods("/a"), vec!["GET", "DELETE", "HEAD"]);
    assert_eq!(router.find_all_methods("/b"), vec!["GET", "PUT"]);
    assert!(router.find_all_methods("/a/b").is_empty());
}

#[test]
fn resolve_names_the_three_outcomes() {
    let mut router = Router::new();
    router.register("GET", "/a", 1).unwrap();
    router.register("POST", "/a", 2).unwrap();
    assert!(matches!(router.resolve("GET", "/a"), RouteOutcome::Matched(m) if m.handler_id() == 1));
    assert!(matches!(
        router.resolve("OPTIONS", "/a"),
        RouteOutcome::MethodMismatch(allowed) if allowed == vec!["GET", "POST"]
    ));
    assert!(matches!(
        router.resolve("PUT", "/a"),
        RouteOutcome::MethodMismatch(allowed) if allowed == vec!["GET", "POST"]
    ));
    assert!(matches!(router.resolve("GET", "/nope"), RouteOutcome::NotFound));
    assert!(matches!(router.resolve("BREW", "/nope"), RouteOutcome::NotFound));
}

fn pair(k: &str, v: &str) -> (String, String) {
    (k.to_string(), v.to_string())
}

#[test]
fn query_strings_split_into_pairs() {
    assert_eq!(split_query(""), Vec::<(String, String)>::new());
    assert_eq!(split_query("a=1&b=2"), vec![pair("a", "1"), pair("b", "2")]);
    assert_eq!(split_query("a=1&&b"), vec![pair("a", "1"), pair("b", "")]);
    assert_eq!(split_query("=1&a=b=c&d="), vec![pair("a", "b=c"), pair("d", "")]);
    assert_eq!(split_query("&"), Vec::<(String, String)>::new());
    assert_eq!(split_query("a%20b=c%3Dd"), vec![pair("a%20b", "c%3Dd")]);
}

#[test]
fn query_strings_are_decoded() {
    let q = parse_query_string("y=1");
    assert_eq!(q.len(), 1);
    assert_eq!(q.get("y").map(|s| s.as_str()), Some("1"));
    let q = parse_query_string("a%20b=c%3Dd&flag&a%20b=last&plus=a+b");
    assert_eq!(q.len(), 3);
    assert_eq!(q.get("a b").map(|s| s.as_str()), Some("last"));
    assert_eq!(q.get("flag").map(|s| s.as_str()), Some(""));
    assert_eq!(q.get("plus").map(|s| s.as_str()), Some("a+b"));
    let q = parse_query_string("bad=%ff&ok=%C3%A9");
    assert_eq!(q.get("bad").map(|s| s.as_str()), Some("%ff"));
    assert_eq!(q.get("ok").map(|s| s.as_str()), Some("\u{e9}"));
    assert!(parse_query_string("").is_empty());
}

#[test]
fn a_refused_pattern_leaves_the_routes_as_they_were() {
    let mut router = Router::new();
    router.register("GET", "/items/{id}", 1).unwrap();
    router.register("GET", "/users/{name}/posts/{post}", 2).unwrap();
    // The same place in the tree under another name, and a malformed pattern.
    assert!(matches!(
        router.register("GET", "/items/{other}", 3),
        Err(RegistrationError::Rejected(_))
    ));
    assert!(matches!(
        router.register("GET", "/broken/{", 4),
        Err(RegistrationError::Rejected(_))
    ));
    let found = router.find("GET", "/items/42").unwrap();
    assert_eq!(found.route.handler_id, 1);
    assert_eq!(found.path_params.get("id").map(|s| s.as_str()), Some("42"));
    let found = router.find("GET", "/users/ann/posts/7").unwrap();
    assert_eq!(found.route.handler_id, 2);
    assert_eq!(found.path_params.get("name").map(|s| s.as_str()), Some("ann"));
    assert_eq!(found.path_params.get("post").map(|s| s.as_str()), Some("7"));
    assert!(router.find("GET", "/broken/x").is_none());
    // A further pattern is still taken after the refusals.
    router.register("GET", "/items/{id}/tags", 5).unwrap();
    assert_eq!(router.find("GET", "/items/42/tags").unwrap().route.handler_id, 5);
    assert_eq!(router.find("GET", "/items/42").unwrap().route.handler_id, 1);
}

#[test]
fn a_pattern_with_too_many_parameters_is_refused() {
    let pattern = |n: usize, tail: &str| {
        let mut p = String::new();
        for i in 0..n {
            p.push_str(&format!("/{{p{}}}", i));
        }
        p.push_str(tail);
        p
    };
    let mut router = Router::new();
    assert!(matches!(
        router.register("GET", &pattern(26, ""), 1),
        Err(RegistrationError::Rejected(_))
    ));
    assert!(matches!(
        router.register("GET", &pattern(40, "/{rest:path}"), 2),
        Err(RegistrationError::Rejected(_))
    ));
    router.register("GET", &pattern(25, "/{rest:path}"), 3).unwrap();
    let path: String = (0..25).map(|i| format!("/v{}", i)).collect::<String>() + "/a/b";
    let found = router.find("GET", &path).unwrap();
    assert_eq!(found.route.handler_id, 3);
    assert_eq!(found.path_params.len(), 26);
    assert_eq!(found.path_params.get("p24").map(|s| s.as_str()), Some("v24"));
    assert_eq!(found.path_params.get("rest").map(|s| s.as_str()), Some("a/b"));
}
