use sylph::{Method, RegexRouter};

#[test]
fn regex_router_works_with_one_route() {
    let mut router: RegexRouter<usize> = RegexRouter::new();
    router.get("/hello", 1).unwrap();
    router.build().unwrap();

    assert!(router.matches("/hello"));
}

#[test]
fn regex_router_works_with_several_routes() {
    let mut router: RegexRouter<usize> = RegexRouter::new();
    router.get("/hello", 1).unwrap();
    router.get("/hey", 2).unwrap();
    router.build().unwrap();

    assert!(router.matches("/hello"));
}

#[test]
fn regex_router_can_mount_other_router() {
    let mut router: RegexRouter<usize> = RegexRouter::new();
    router.get("/bla", 1).unwrap();
    let mut api_router: RegexRouter<usize> = RegexRouter::new();
    api_router.get("/users", 2).unwrap();
    router.mount("/api", &api_router).unwrap();
    router.build().unwrap();

    assert!(router.matches("/api/users"));
}

#[test]
fn can_find_handler() {
    let mut router: RegexRouter<usize> = RegexRouter::new();
    router.get("/hello", 1).unwrap();
    router.get(r"/(?P<year>\d{4})", 2).unwrap();
    router.build().unwrap();

    let found = router.find_handler(Method::Get, "/2016");
    assert_eq!(found.is_ok(), true);
    assert_eq!(found.unwrap().1.get("year").unwrap().to_string(), "2016".to_string());
}

#[test]
fn named_captures_come_back_as_params() {
    let mut router: RegexRouter<usize> = RegexRouter::new();
    router.get(r"/(?P<year>\d{4})/(?P<month>\d{2})", 5).unwrap();
    router.build().unwrap();

    let (handler, params) = router.find_handler(Method::Get, "/2016/03").unwrap();
    assert_eq!(handler, 5);
    assert_eq!(params.get("year").unwrap().as_str(), "2016");
    assert_eq!(params.get("month").unwrap().as_str(), "03");
    assert!(params.get("day").is_none());
}
