use sylph::{HttpResponse, Method, Router, Sylph, SylphError};

#[test]
fn error_status_codes() {
    assert_eq!(SylphError::NotFound.status_code(), 404);
    assert_eq!(SylphError::NotAllowed.status_code(), 405);
    assert_eq!(SylphError::InternalServerError.status_code(), 500);
}

#[test]
fn response_starts_as_empty_ok() {
    let resp = HttpResponse::new();
    assert_eq!(resp.status, 200);
    assert!(resp.headers.is_empty());
    assert!(resp.body.is_empty());
}

#[test]
fn response_mutators_work() {
    let mut resp = HttpResponse::new();
    resp.set_status(204);
    resp.headers_mut().push(("server".to_string(), "sylph".to_string()));
    resp.set_body(b"ok".to_vec());
    assert_eq!(resp.status, 204);
    assert_eq!(resp.headers.len(), 1);
    assert_eq!(resp.body, b"ok".to_vec());
}

#[test]
fn bootstrap_spawns_at_least_one_worker() {
    let mut router: Router<u8> = Router::new();
    router.get("/hello", 1).unwrap();
    router.build().unwrap();
    let server = Sylph::new(router);
    assert!(server.worker_count() >= 1);
    assert!(server.router.matches("/hello"));
}

#[test]
fn methods_are_distinct_keys() {
    let mut router: Router<u8> = Router::new();
    router.get("/r", 1).unwrap();
    router.post("/r", 2).unwrap();
    router.put("/r", 3).unwrap();
    router.patch("/r", 4).unwrap();
    router.delete("/r", 5).unwrap();
    router.options("/r", 6).unwrap();
    router.head("/r", 7).unwrap();
    router.build().unwrap();

    assert_eq!(router.find_handler(Method::Get, "/r").unwrap().0, 1);
    assert_eq!(router.find_handler(Method::Post, "/r").unwrap().0, 2);
    assert_eq!(router.find_handler(Method::Put, "/r").unwrap().0, 3);
    assert_eq!(router.find_handler(Method::Patch, "/r").unwrap().0, 4);
    assert_eq!(router.find_handler(Method::Delete, "/r").unwrap().0, 5);
    assert_eq!(router.find_handler(Method::Options, "/r").unwrap().0, 6);
    assert_eq!(router.find_handler(Method::Head, "/r").unwrap().0, 7);
}
