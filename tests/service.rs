use finchers::{
    deferred, header, param, raw_body, segment, value, verb, EndpointContext, EndpointError,
    EndpointErrorKind, Error, InvalidRequest, Method, Outcome, ParamKind, Poll, Request,
    Rejection, ServiceFuture, Value, Verbs,
};

fn get(path: &str) -> Request {
    Request::new(Method::Get, path.to_string(), None)
}

#[test]
fn service_reports_no_route() {
    let endpoint = segment("a");
    let mut f = ServiceFuture::call(&endpoint, &get("/b"));
    let out = f.poll_state();
    match out {
        Poll::Ready(Outcome::NoRoute(e)) => assert_eq!(e.kind(), EndpointErrorKind::NotMatched),
        other => panic!("unexpected {:?}", other),
    }
}

#[test]
fn service_polls_task_to_output() {
    let endpoint = segment("n").and(param(ParamKind::Uint)).and(deferred(2, Ok(vec![])));
    let mut f = ServiceFuture::call(&endpoint, &get("/n/5"));
    assert_eq!(f.poll_state(), Poll::Pending);
    assert_eq!(f.poll_state(), Poll::Pending);
    let out = f.poll_state();
    assert_eq!(out, Poll::Ready(Outcome::Output(vec![Value::Uint(5)])));
}

#[test]
fn service_status_codes() {
    let ok = ServiceFuture::call(&value(vec![]), &get("/")).run();
    assert_eq!(ok.status_code(), 200);
    let failed = ServiceFuture::call(&deferred(1, Err(Error::bad_request("no"))), &get("/")).run();
    assert_eq!(failed, Outcome::Failure(Error::bad_request("no")));
    assert_eq!(failed.status_code(), 400);
    let post = Request::new(Method::Post, "/".to_string(), None);
    let refused = ServiceFuture::call(&verb(Verbs::single(Method::Get)), &post).run();
    assert_eq!(refused.status_code(), 405);
    let missing = ServiceFuture::call(&segment("x"), &get("/")).run();
    assert_eq!(missing.status_code(), 404);
}

#[test]
fn header_endpoint_reads_field() {
    let req = get("/")
        .with_header("host".to_string(), "example.com".to_string())
        .with_header("host".to_string(), "other".to_string());
    let out = ServiceFuture::call(&header("host"), &req).run();
    assert_eq!(out, Outcome::Output(vec![Value::Text("example.com".to_string())]));
    let out = ServiceFuture::call(&header("authorization"), &req).run();
    match out {
        Outcome::NoRoute(e) => {
            assert_eq!(
                e.kind(),
                EndpointErrorKind::InvalidRequest(InvalidRequest::MissingHeader("authorization"))
            );
            assert_eq!(e.status_code(), 400);
        }
        other => panic!("unexpected {:?}", other),
    }
}

#[test]
fn body_is_taken_once() {
    let req = get("/").with_body(b"hello".to_vec());
    let once = ServiceFuture::call(&raw_body(), &req).run();
    assert_eq!(once, Outcome::Output(vec![Value::Bytes(b"hello".to_vec())]));
    let twice = ServiceFuture::call(&raw_body().and(raw_body()), &req).run();
    match twice {
        Outcome::Failure(e) => assert_eq!(e.status_code(), 500),
        other => panic!("unexpected {:?}", other),
    }
    let mut cx = EndpointContext::new(&req);
    assert_eq!(cx.take_body(), Some(b"hello".to_vec()));
    assert_eq!(cx.take_body(), None);
    assert_eq!(cx.header("host"), None);
}

#[test]
fn or_reject_with_uses_given_failure() {
    let endpoint = segment("a").or_reject_with(Rejection::always(Error::bad_request("wrong route")));
    let out = ServiceFuture::call(&endpoint, &get("/b")).run();
    assert_eq!(out, Outcome::Failure(Error::bad_request("wrong route")));
}

#[test]
fn or_reject_with_reads_error_kind() {
    let rejection = Rejection {
        not_matched: Error::bad_request("no such route"),
        method_not_allowed: Error::Http { status: 405, message: "method" },
        invalid_request: Error::bad_request("malformed"),
    };
    let endpoint = verb(Verbs::single(Method::Get)).or_reject_with(rejection);
    let post = Request::new(Method::Post, "/".to_string(), None);
    let out = ServiceFuture::call(&endpoint, &post).run();
    assert_eq!(out, Outcome::Failure(Error::Http { status: 405, message: "method" }));
    let endpoint = segment("a").or_reject_with(rejection);
    let out = ServiceFuture::call(&endpoint, &get("/b")).run();
    assert_eq!(out, Outcome::Failure(Error::bad_request("no such route")));
}

#[test]
fn error_descriptions() {
    assert_eq!(EndpointError::not_matched().description(false), "not matched");
    let e = EndpointError::method_not_allowed(Verbs::single(Method::Post).with(Method::Get));
    assert_eq!(e.description(false), "method not allowed");
    assert_eq!(
        e.description(true),
        "method not allowed (allowed methods: GET, POST)"
    );
    assert_eq!(
        EndpointError::missing_header("host").description(false),
        "missing header: `host'"
    );
    assert_eq!(EndpointError::missing_query().description(true), "missing query");
}

#[test]
fn allow_header_lists_methods() {
    assert_eq!(Verbs::none().allow_header(), "");
    assert_eq!(Verbs::single(Method::Trace).allow_header(), "TRACE");
    let v = Verbs::single(Method::Delete).with(Method::Get).with(Method::Options);
    assert_eq!(v.allow_header(), "GET, DELETE, OPTIONS");
}

#[test]
fn before_apply_guards_endpoint() {
    let endpoint = param(ParamKind::Uint).before_apply(verb(Verbs::single(Method::Get)));
    let out = ServiceFuture::call(&endpoint, &get("/3")).run();
    assert_eq!(out, Outcome::Output(vec![Value::Uint(3)]));
    let post = Request::new(Method::Post, "/3".to_string(), None);
    let out = ServiceFuture::call(&endpoint, &post).run();
    assert_eq!(out.status_code(), 405);
    let guarded = value(vec![Value::Bool(true)]).before_apply(segment("api"));
    let out = ServiceFuture::call(&guarded, &get("/api")).run();
    assert_eq!(out, Outcome::Output(vec![Value::Bool(true)]));
}

#[test]
fn test_perform_on_error_response() {
    let endpoint = deferred(0, Err(Error::bad_request("error")));
    let response = ServiceFuture::call(&endpoint, &get("/")).run();
    assert_eq!(response.status_code(), 400);
}
