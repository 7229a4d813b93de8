use sylph::{ConfigError, Method, Router, SylphError};

#[test]
fn router_works_with_one_route() {
    let mut router: Router<usize> = Router::new();
    router.get("/hello", 1).unwrap();
    router.build().unwrap();

    assert!(router.matches("/hello"));
}

#[test]
fn router_works_with_several_routes() {
    let mut router: Router<usize> = Router::new();
    router.get("/hello", 1).unwrap();
    router.get("/hey", 2).unwrap();
    router.build().unwrap();

    assert!(router.matches("/hello"));
}

#[test]
fn router_can_mount_other_router() {
    let mut router: Router<usize> = Router::new();
    router.get("/bla", 1).unwrap();
    let mut api_router: Router<usize> = Router::new();
    api_router.get("/users", 2).unwrap();
    router.mount("/api", &api_router).unwrap();
    router.build().unwrap();

    assert!(router.matches("/api/users"));
}

#[test]
fn resolves_to_registered_handler() {
    let mut router: Router<usize> = Router::new();
    router.get("/a", 1).unwrap();
    router.post("/b", 2).unwrap();
    router.build().unwrap();

    let found = router.find_handler(Method::Get, "/a").unwrap();
    assert_eq!(found.0, 1);
    let found = router.find_handler(Method::Post, "/b").unwrap();
    assert_eq!(found.0, 2);
}

#[test]
fn unmatched_path_is_not_found() {
    let mut router: Router<usize> = Router::new();
    router.get("/hello", 1).unwrap();
    router.build().unwrap();

    let found = router.find_handler(Method::Get, "/nope");
    assert!(matches!(found, Err(SylphError::NotFound)));
}

#[test]
fn wrong_method_is_not_allowed() {
    let mut router: Router<usize> = Router::new();
    router.get("/hello", 1).unwrap();
    router.build().unwrap();

    let found = router.find_handler(Method::Post, "/hello");
    assert!(matches!(found, Err(SylphError::NotAllowed)));
}

#[test]
fn reregistering_replaces_the_handler() {
    let mut router: Router<usize> = Router::new();
    router.get("/x", 1).unwrap();
    router.get("/x", 2).unwrap();
    router.build().unwrap();

    let found = router.find_handler(Method::Get, "/x").unwrap();
    assert_eq!(found.0, 2);
}

#[test]
fn rejects_path_not_starting_with_slash() {
    let mut router: Router<usize> = Router::new();
    let res = router.get("hey", 1);
    assert!(matches!(res, Err(ConfigError::InvalidPath)));
}

#[test]
fn rejects_empty_path() {
    let mut router: Router<usize> = Router::new();
    let res = router.get("", 1);
    assert!(matches!(res, Err(ConfigError::InvalidPath)));
}

#[test]
fn invalid_path_is_not_a_resolution_error() {
    let mut router: Router<usize> = Router::new();
    let res = router.get("hey", 1);
    assert!(matches!(res, Err(ConfigError::InvalidPath)));
    router.build().unwrap();
    let found = router.find_handler(Method::Get, "/hey");
    assert!(matches!(found, Err(SylphError::NotFound)));
}

#[test]
fn rejects_incorrect_regex_at_build() {
    let mut router: Router<usize> = Router::new();
    router.get("/[a-", 1).unwrap();
    let res = router.build();
    assert!(matches!(res, Err(ConfigError::InvalidPattern)));
}

#[test]
fn mount_rejects_relative_prefix() {
    let mut router: Router<usize> = Router::new();
    let mut api_router: Router<usize> = Router::new();
    api_router.get("/users", 2).unwrap();
    let res = router.mount("api", &api_router);
    assert!(matches!(res, Err(ConfigError::InvalidPath)));
}

#[test]
fn mount_is_a_structural_copy() {
    let mut router: Router<usize> = Router::new();
    let mut api_router: Router<usize> = Router::new();
    api_router.get("/users", 7).unwrap();
    router.mount("/api", &api_router).unwrap();
    api_router.get("/extra", 9).unwrap();
    router.build().unwrap();

    let found = router.find_handler(Method::Get, "/api/users").unwrap();
    assert_eq!(found.0, 7);
    let missing = router.find_handler(Method::Get, "/api/extra");
    assert!(matches!(missing, Err(SylphError::NotFound)));
}

#[test]
fn resolution_is_deterministic_on_a_shared_router() {
    let mut router: Router<usize> = Router::new();
    router.get("/hello", 3).unwrap();
    router.build().unwrap();
    let shared = &router;

    let first = shared.find_handler(Method::Get, "/hello").unwrap();
    let second = shared.find_handler(Method::Get, "/hello").unwrap();
    assert_eq!(first.0, 3);
    assert_eq!(second.0, 3);
}

#[test]
fn first_registered_pattern_wins_on_overlap() {
    let mut router: Router<usize> = Router::new();
    router.get("/ab", 1).unwrap();
    router.get("/a", 2).unwrap();
    router.build().unwrap();

    let found = router.find_handler(Method::Get, "/ab").unwrap();
    assert_eq!(found.0, 1);
}
