use finchers::{
    all, apply_request, deferred, eos, param, params, remains, segment, value, verb, Endpoint,
    EndpointContext, EndpointErrorKind, Error, InvalidRequest, Method, ParamKind, Poll, Request,
    Task, Transform, Value, Verbs,
};

fn text(s: &str) -> Value {
    Value::Text(s.to_string())
}

fn get(path: &str) -> Request {
    Request::new(Method::Get, path.to_string(), None)
}

fn run(e: &Endpoint, path: &str) -> Result<Vec<Value>, Error> {
    apply_request(e, &get(path)).expect("the endpoint should match").run()
}

#[test]
fn test_and_1() {
    let endpoint = value(vec![text("Hello")]).and(value(vec![text("world")]));
    assert_eq!(run(&endpoint, "/").ok(), Some(vec![text("Hello"), text("world")]));
}

#[test]
fn test_and_2() {
    let endpoint = value(vec![text("Hello")]).and(deferred(0, Err(Error::bad_request(""))));
    let outcome = run(&endpoint, "/");
    assert!(outcome.err().map_or(false, |e| e.status_code() != 404));
}

#[test]
fn and_then_test_and_then_1() {
    let endpoint = value(vec![text("Foo")]).and_then(Transform::Replace {
        delay: 0,
        outcome: Ok(vec![text("Bar")]),
    });
    assert_eq!(run(&endpoint, "/"), Ok(vec![text("Bar")]));
}

#[test]
fn and_then_test_and_then_2() {
    let endpoint = value(vec![text("Foo")]).and_then(Transform::Replace {
        delay: 0,
        outcome: Err(Error::bad_request("Bar")),
    });
    let outcome = run(&endpoint, "/");
    assert!(matches!(outcome, Err(ref e) if e.status_code() == 400));
}

#[test]
fn and_flattens_tuples() {
    let endpoint = value(vec![text("a")]).and(value(vec![Value::Uint(1), Value::Bool(true)]));
    assert_eq!(
        run(&endpoint, "/"),
        Ok(vec![text("a"), Value::Uint(1), Value::Bool(true)])
    );
}

#[test]
fn and_reports_first_failure_on_first_poll() {
    let endpoint = deferred(0, Err(Error::bad_request("first"))).and(deferred(5, Ok(vec![])));
    let mut task = apply_request(&endpoint, &get("/")).unwrap();
    assert_eq!(task.poll_task(), Poll::Ready(Err(Error::bad_request("first"))));
}

#[test]
fn and_earlier_failure_wins() {
    let endpoint = deferred(3, Err(Error::bad_request("late")))
        .and(deferred(1, Err(Error::bad_request("early"))));
    let mut task = apply_request(&endpoint, &get("/")).unwrap();
    assert_eq!(task.poll_task(), Poll::Pending);
    assert_eq!(task.poll_task(), Poll::Ready(Err(Error::bad_request("early"))));
}

#[test]
fn and_waits_for_both() {
    let endpoint = deferred(2, Ok(vec![Value::Uint(1)])).and(deferred(0, Ok(vec![Value::Uint(2)])));
    let mut task = apply_request(&endpoint, &get("/")).unwrap();
    assert_eq!(task.poll_task(), Poll::Pending);
    assert_eq!(task.poll_task(), Poll::Pending);
    assert_eq!(
        task.poll_task(),
        Poll::Ready(Ok(vec![Value::Uint(1), Value::Uint(2)]))
    );
}

#[test]
fn or_strict_left_match_skips_right() {
    // The right endpoint would take every segment; it is never applied.
    let endpoint = segment("foo").or_strict(remains(ParamKind::Text));
    let req = get("/foo/bar");
    let mut cx = EndpointContext::new(&req);
    let task = endpoint.apply(&mut cx).unwrap();
    assert_eq!(cx.remaining_path(), "bar");
    assert_eq!(task.run(), Ok(vec![]));
}

#[test]
fn or_rewinds_before_second() {
    let endpoint = segment("foo")
        .and(segment("x"))
        .or(segment("foo").and(param(ParamKind::Text)));
    let req = get("/foo/bar");
    let mut cx = EndpointContext::new(&req);
    let task = endpoint.apply(&mut cx).unwrap();
    assert_eq!(cx.remaining_path(), "");
    assert_eq!(task.run(), Ok(vec![Value::Right(vec![text("bar")])]));
}

#[test]
fn or_merges_errors() {
    let endpoint = segment("a").or(verb(Verbs::single(Method::Post)));
    let req = get("/b");
    let mut cx = EndpointContext::new(&req);
    let err = endpoint.apply(&mut cx).err().unwrap();
    assert_eq!(
        err.kind(),
        EndpointErrorKind::MethodNotAllowed(Verbs::single(Method::Post))
    );
    assert_eq!(cx.remaining_path(), "b");
    let both = verb(Verbs::single(Method::Put)).or(verb(Verbs::single(Method::Post)));
    let err = apply_request(&both, &get("/")).err().unwrap();
    assert_eq!(
        err.kind(),
        EndpointErrorKind::MethodNotAllowed(Verbs::single(Method::Put).with(Method::Post))
    );
}

#[test]
fn segment_then_param_consumes_two() {
    let endpoint = segment("foo").and(param(ParamKind::Text));
    let req = get("/foo/bar.txt");
    let mut cx = EndpointContext::new(&req);
    let task = endpoint.apply(&mut cx).unwrap();
    assert_eq!(cx.remaining_path(), "");
    assert_eq!(cx.cursor().popped(), 2);
    assert_eq!(task.run(), Ok(vec![text("bar.txt")]));
}

#[test]
fn segment_literal_is_percent_encoded() {
    let endpoint = segment("a b");
    assert!(apply_request(&endpoint, &get("/a%20b")).is_ok());
    assert!(apply_request(&endpoint, &get("/a b")).is_err());
    let slash = segment("a/b");
    assert!(apply_request(&slash, &get("/a%2Fb")).is_ok());
}

#[test]
fn segment_mismatch_is_not_matched() {
    let err = apply_request(&segment("foo"), &get("/bar")).err().unwrap();
    assert_eq!(err.kind(), EndpointErrorKind::NotMatched);
    let err = apply_request(&segment("foo"), &get("/")).err().unwrap();
    assert_eq!(err.kind(), EndpointErrorKind::NotMatched);
}

#[test]
fn remains_drains_even_on_failure() {
    let endpoint = remains(ParamKind::Uint);
    let req = get("/a/b");
    let mut cx = EndpointContext::new(&req);
    let err = endpoint.apply(&mut cx).err().unwrap();
    assert_eq!(
        err.kind(),
        EndpointErrorKind::InvalidRequest(InvalidRequest::InvalidParam)
    );
    assert_eq!(cx.next_segment(), None);
}

#[test]
fn remains_converts_rest() {
    let endpoint = segment("n").and(remains(ParamKind::Uint));
    assert_eq!(run(&endpoint, "/n/42"), Ok(vec![Value::Uint(42)]));
    let endpoint = remains(ParamKind::Text);
    assert_eq!(run(&endpoint, "/a/b/c"), Ok(vec![text("a/b/c")]));
}

#[test]
fn all_collects_in_order() {
    let endpoint = all(vec![
        deferred(2, Ok(vec![Value::Uint(1)])),
        deferred(0, Ok(vec![Value::Uint(2)])),
        deferred(1, Ok(vec![Value::Uint(3)])),
    ]);
    let mut task = apply_request(&endpoint, &get("/")).unwrap();
    assert_eq!(task.poll_task(), Poll::Pending);
    assert_eq!(task.poll_task(), Poll::Pending);
    assert_eq!(
        task.poll_task(),
        Poll::Ready(Ok(vec![Value::List(vec![
            vec![Value::Uint(1)],
            vec![Value::Uint(2)],
            vec![Value::Uint(3)],
        ])]))
    );
}

#[test]
fn all_first_failure_clears() {
    let endpoint = all(vec![
        deferred(3, Ok(vec![Value::Uint(1)])),
        deferred(1, Err(Error::bad_request("b"))),
        deferred(1, Err(Error::bad_request("c"))),
    ]);
    let mut task = apply_request(&endpoint, &get("/")).unwrap();
    assert_eq!(task.poll_task(), Poll::Pending);
    assert_eq!(task.poll_task(), Poll::Ready(Err(Error::bad_request("b"))));
}

#[test]
fn all_fails_when_a_member_does_not_match() {
    let endpoint = all(vec![segment("a"), segment("b")]);
    let err = apply_request(&endpoint, &get("/a/c")).err().unwrap();
    assert_eq!(err.kind(), EndpointErrorKind::NotMatched);
    assert_eq!(
        run(&endpoint, "/a/b"),
        Ok(vec![Value::List(vec![vec![], vec![]])])
    );
}

#[test]
fn eos_matches_end() {
    let endpoint = segment("a").and(eos());
    assert!(apply_request(&endpoint, &get("/a")).is_ok());
    assert!(apply_request(&endpoint, &get("/a/b")).is_err());
}

#[test]
fn param_conversion_failure_is_invalid_request() {
    let endpoint = param(ParamKind::Uint);
    let err = apply_request(&endpoint, &get("/abc")).err().unwrap();
    assert_eq!(
        err.kind(),
        EndpointErrorKind::InvalidRequest(InvalidRequest::InvalidParam)
    );
    let err = apply_request(&endpoint, &get("/")).err().unwrap();
    assert_eq!(err.kind(), EndpointErrorKind::NotMatched);
    assert_eq!(run(&endpoint, "/18446744073709551615"), Ok(vec![Value::Uint(u64::MAX)]));
    assert!(apply_request(&endpoint, &get("/18446744073709551616")).is_err());
}

#[test]
fn params_collects_segments() {
    let endpoint = params(ParamKind::Uint);
    assert_eq!(
        run(&endpoint, "/1/2/3"),
        Ok(vec![Value::List(vec![
            vec![Value::Uint(1)],
            vec![Value::Uint(2)],
            vec![Value::Uint(3)],
        ])])
    );
    assert!(apply_request(&endpoint, &get("/1/x/3")).is_err());
    assert_eq!(run(&endpoint, "/"), Ok(vec![Value::List(vec![])]));
}

#[test]
fn verb_checks_method() {
    let endpoint = verb(Verbs::single(Method::Get).with(Method::Head));
    assert!(apply_request(&endpoint, &get("/")).is_ok());
    let post = Request::new(Method::Post, "/".to_string(), None);
    let err = apply_request(&endpoint, &post).err().unwrap();
    assert_eq!(err.status_code(), 405);
}

#[test]
fn lift_makes_optional() {
    let endpoint = param(ParamKind::Uint).lift();
    assert_eq!(
        run(&endpoint, "/7"),
        Ok(vec![Value::Optional(Some(vec![Value::Uint(7)]))])
    );
    assert_eq!(run(&endpoint, "/"), Ok(vec![Value::Optional(None)]));
}

#[test]
fn or_reject_turns_error_into_task_failure() {
    let endpoint = segment("a").or_reject();
    let req = get("/b/c");
    let mut cx = EndpointContext::new(&req);
    let task = endpoint.apply(&mut cx).unwrap();
    assert_eq!(cx.next_segment(), None);
    let err = task.run().err().unwrap();
    assert_eq!(err.status_code(), 404);
}

#[test]
fn then_and_or_else_channels() {
    let fail = deferred(1, Err(Error::bad_request("x")));
    let recover = fail.or_else(Transform::Replace {
        delay: 1,
        outcome: Ok(vec![Value::Bool(false)]),
    });
    let mut task = apply_request(&recover, &get("/")).unwrap();
    assert_eq!(task.poll_task(), Poll::Pending);
    assert_eq!(task.poll_task(), Poll::Pending);
    assert_eq!(task.poll_task(), Poll::Ready(Ok(vec![Value::Bool(false)])));

    let ok = value(vec![Value::Uint(1)]).or_else(Transform::Pass { delay: 3 });
    assert_eq!(run(&ok, "/"), Ok(vec![Value::Uint(1)]));

    let fail = deferred(0, Err(Error::bad_request("y")));
    let skipped = fail.and_then(Transform::Replace { delay: 0, outcome: Ok(vec![]) });
    assert_eq!(run(&skipped, "/"), Err(Error::bad_request("y")));

    let then_ok = deferred(0, Ok(vec![])).then(Transform::Pass { delay: 2 });
    let mut task = apply_request(&then_ok, &get("/")).unwrap();
    assert_eq!(task.poll_task(), Poll::Pending);
    assert_eq!(task.poll_task(), Poll::Pending);
    assert_eq!(task.poll_task(), Poll::Ready(Ok(vec![])));
}

#[test]
fn then_passes_failure_through() {
    let endpoint = deferred(0, Err(Error::bad_request("z"))).then(Transform::Replace {
        delay: 2,
        outcome: Ok(vec![Value::Bool(true)]),
    });
    let mut task = apply_request(&endpoint, &get("/")).unwrap();
    assert_eq!(task.poll_task(), Poll::Ready(Err(Error::bad_request("z"))));
}

#[test]
fn transforms_read_first_stage() {
    let extend = value(vec![Value::Uint(1)]).then(Transform::Extend {
        delay: 0,
        values: vec![Value::Uint(2)],
    });
    assert_eq!(run(&extend, "/"), Ok(vec![Value::Uint(1), Value::Uint(2)]));
    let from_param = param(ParamKind::Uint).and_then(Transform::Extend {
        delay: 1,
        values: vec![Value::Bool(true)],
    });
    assert_eq!(run(&from_param, "/9"), Ok(vec![Value::Uint(9), Value::Bool(true)]));
    let recover = deferred(0, Err(Error::bad_request("x"))).or_else(Transform::Recover { delay: 0 });
    assert_eq!(run(&recover, "/"), Ok(vec![Value::Uint(400)]));
    let kept = value(vec![Value::Uint(3)]).or_else(Transform::Recover { delay: 0 });
    assert_eq!(run(&kept, "/"), Ok(vec![Value::Uint(3)]));
}

#[test]
fn failed_primitives_keep_cursor() {
    let req = get("/foo/bar");
    let mut cx = EndpointContext::new(&req);
    assert!(segment("x").apply(&mut cx).is_err());
    assert_eq!(cx.remaining_path(), "foo/bar");
    assert!(eos().apply(&mut cx).is_err());
    assert_eq!(cx.remaining_path(), "foo/bar");
    assert!(param(ParamKind::Uint).apply(&mut cx).is_err());
    assert_eq!(cx.remaining_path(), "foo/bar");
    assert_eq!(cx.cursor().popped(), 0);
    assert!(segment("foo").apply(&mut cx).is_ok());
    assert_eq!(cx.remaining_path(), "bar");
}

#[test]
fn leaf_task_counts_down() {
    let mut task = Task::leaf(1, Ok(vec![Value::Bool(true)]));
    assert_eq!(task.poll_task(), Poll::Pending);
    assert_eq!(task.poll_task(), Poll::Ready(Ok(vec![Value::Bool(true)])));
}

#[test]
fn text_param_is_percent_decoded() {
    let endpoint = param(ParamKind::Text);
    assert_eq!(run(&endpoint, "/a%20b"), Ok(vec![text("a b")]));
    assert_eq!(run(&endpoint, "/plain"), Ok(vec![text("plain")]));
    let err = apply_request(&endpoint, &get("/%FF")).err().unwrap();
    assert_eq!(
        err.kind(),
        EndpointErrorKind::InvalidRequest(InvalidRequest::InvalidParam)
    );
    let rest = remains(ParamKind::Text);
    assert_eq!(run(&rest, "/x%2Fy/z"), Ok(vec![text("x/y/z")]));
}
