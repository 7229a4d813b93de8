use sylph::{
    BodyEvent, HttpRequest, HttpResponse, HttpVersion, LifecycleState, Method, Next, RequestHead,
    Router, SylphError, WriteEvent,
};

fn head(path: &str, content_length: Option<u64>) -> RequestHead {
    RequestHead {
        method: Method::Get,
        path: Some(path.to_string()),
        version: HttpVersion::Http11,
        headers: Vec::new(),
        content_length,
    }
}

#[test]
fn zero_length_body_dispatches_immediately() {
    let mut req = HttpRequest::new();
    let next = req.on_request(head("/hello", Some(0)));
    assert_eq!(next, Next::Write);
    assert_eq!(req.state, LifecycleState::Dispatched);
}

#[test]
fn absent_body_dispatches_immediately() {
    let mut req = HttpRequest::new();
    let next = req.on_request(head("/hello", None));
    assert_eq!(next, Next::Write);
    assert_eq!(req.state, LifecycleState::Dispatched);
}

#[test]
fn declared_body_waits_for_the_read_cursor() {
    let mut req = HttpRequest::new();
    let next = req.on_request(head("/hello", Some(5)));
    assert_eq!(next, Next::ReadAndWrite);
    assert_eq!(req.state, LifecycleState::ReadingBody);

    let next = req.on_request_readable(BodyEvent::Data(b"ab".to_vec()));
    assert_eq!(next, Next::ReadAndWrite);
    assert_eq!(req.state, LifecycleState::ReadingBody);

    let next = req.on_request_readable(BodyEvent::Data(b"cde".to_vec()));
    assert_eq!(next, Next::Write);
    assert_eq!(req.state, LifecycleState::Dispatched);
    assert_eq!(req.body, b"abcde".to_vec());
}

#[test]
fn end_of_stream_dispatches_early() {
    let mut req = HttpRequest::new();
    req.on_request(head("/hello", Some(100)));
    let next = req.on_request_readable(BodyEvent::Data(Vec::new()));
    assert_eq!(next, Next::Write);
    assert_eq!(req.state, LifecycleState::Dispatched);
}

#[test]
fn would_block_rearms_reading() {
    let mut req = HttpRequest::new();
    req.on_request(head("/hello", Some(5)));
    let next = req.on_request_readable(BodyEvent::WouldBlock);
    assert_eq!(next, Next::ReadAndWrite);
    assert_eq!(req.state, LifecycleState::ReadingBody);
}

#[test]
fn read_error_abandons_the_connection() {
    let mut req = HttpRequest::new();
    req.on_request(head("/hello", Some(5)));
    let next = req.on_request_readable(BodyEvent::IoError);
    assert_eq!(next, Next::End);
    assert_eq!(req.state, LifecycleState::Done);
}

#[test]
fn non_absolute_uri_writes_the_default_response() {
    let mut req = HttpRequest::new();
    let next = req.on_request(RequestHead {
        method: Method::Get,
        path: None,
        version: HttpVersion::Http11,
        headers: Vec::new(),
        content_length: None,
    });
    assert_eq!(next, Next::Write);
    assert_eq!(req.state, LifecycleState::WritingStatus);
    let (rh, _) = req.on_response();
    assert_eq!(rh.status, 404);
}

#[test]
fn full_lifecycle_serves_a_handler_response() {
    let mut router: Router<u8> = Router::new();
    router.get("/hello", 1).unwrap();
    router.build().unwrap();

    let mut req = HttpRequest::new();
    let next = req.on_request(head("/hello", None));
    assert_eq!(next, Next::Write);

    let dispatched = req.dispatch(&router);
    let (handler, _params) = dispatched.expect("route should resolve");
    assert_eq!(handler, 1);

    let mut resp = HttpResponse::new();
    resp.set_body(b"hi".to_vec());
    req.complete(Ok(resp));
    assert_eq!(req.state, LifecycleState::WritingStatus);

    let (rh, next) = req.on_response();
    assert_eq!(next, Next::Write);
    assert_eq!(rh.status, 200);
    assert_eq!(rh.content_length, Some(2));
    assert_eq!(req.state, LifecycleState::WritingBody);

    let next = req.on_response_writable(WriteEvent::Wrote(1));
    assert_eq!(next, Next::Write);
    let next = req.on_response_writable(WriteEvent::Wrote(1));
    assert_eq!(next, Next::End);
    assert_eq!(req.state, LifecycleState::Done);
}

#[test]
fn resolution_failure_maps_to_a_status() {
    let mut router: Router<u8> = Router::new();
    router.get("/hello", 1).unwrap();
    router.build().unwrap();

    let mut req = HttpRequest::new();
    req.on_request(head("/missing", None));
    let dispatched = req.dispatch(&router);
    assert!(dispatched.is_none());
    assert!(matches!(req.response, Err(SylphError::NotFound)));

    let (rh, _) = req.on_response();
    assert_eq!(rh.status, 404);
    assert_eq!(rh.content_length, None);
}

#[test]
fn handler_failure_maps_to_500() {
    let mut req = HttpRequest::new();
    req.on_request(head("/hello", None));
    req.complete(Err(SylphError::InternalServerError));
    let (rh, _) = req.on_response();
    assert_eq!(rh.status, 500);
}

#[test]
fn empty_body_ends_writing_immediately() {
    let mut req = HttpRequest::new();
    req.on_request(head("/hello", None));
    req.complete(Ok(HttpResponse::new()));
    let (rh, _) = req.on_response();
    assert_eq!(rh.content_length, None);
    let next = req.on_response_writable(WriteEvent::WouldBlock);
    assert_eq!(next, Next::End);
    assert_eq!(req.state, LifecycleState::Done);
}

#[test]
fn would_block_rearms_writing() {
    let mut req = HttpRequest::new();
    req.on_request(head("/hello", None));
    let mut resp = HttpResponse::new();
    resp.set_body(b"abc".to_vec());
    req.complete(Ok(resp));
    req.on_response();
    let next = req.on_response_writable(WriteEvent::WouldBlock);
    assert_eq!(next, Next::Write);
    assert_eq!(req.state, LifecycleState::WritingBody);
}

#[test]
fn write_error_abandons_the_connection() {
    let mut req = HttpRequest::new();
    req.on_request(head("/hello", None));
    let mut resp = HttpResponse::new();
    resp.set_body(b"abc".to_vec());
    req.complete(Ok(resp));
    req.on_response();
    let next = req.on_response_writable(WriteEvent::IoError);
    assert_eq!(next, Next::End);
    assert_eq!(req.state, LifecycleState::Done);
}
