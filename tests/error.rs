use finchers::{EndpointError, EndpointErrorKind, Error, InvalidRequest, Method, Verbs};

#[test]
fn test_merge_1() {
    let err1 = EndpointError::not_matched();
    let err2 = EndpointError::not_matched();
    let err = err1.merge(&err2);
    assert!(matches!(err.kind(), EndpointErrorKind::NotMatched));
}

#[test]
fn test_merge_2() {
    let err1 = EndpointError::not_matched();
    let err2 = EndpointError::method_not_allowed(Verbs::single(Method::Get));
    assert!(matches!(
        err1.merge(&err2).kind(),
        EndpointErrorKind::MethodNotAllowed(allowed) if allowed.contains(Method::Get)
    ));
}

#[test]
fn test_merge_3() {
    let err1 = EndpointError::method_not_allowed(Verbs::single(Method::Get));
    let err2 = EndpointError::method_not_allowed(Verbs::single(Method::Post));
    assert!(matches!(
        err1.merge(&err2).kind(),
        EndpointErrorKind::MethodNotAllowed(allowed) if allowed.contains(Method::Get) && allowed.contains(Method::Post)
    ));
}

#[test]
fn merge_keeps_method_not_allowed_over_not_matched() {
    let get = Verbs::single(Method::Get);
    let a = EndpointError::method_not_allowed(get);
    let b = EndpointError::not_matched();
    assert_eq!(a.merge(&b).kind(), EndpointErrorKind::MethodNotAllowed(get));
    assert_eq!(b.merge(&a).kind(), EndpointErrorKind::MethodNotAllowed(get));
}

#[test]
fn merge_union_holds_exactly_both() {
    let a = EndpointError::method_not_allowed(Verbs::single(Method::Get));
    let b = EndpointError::method_not_allowed(Verbs::single(Method::Post));
    match a.merge(&b).kind() {
        EndpointErrorKind::MethodNotAllowed(v) => {
            assert!(v.contains(Method::Get));
            assert!(v.contains(Method::Post));
            assert!(!v.contains(Method::Put));
            assert_eq!(v, Verbs::single(Method::Get).with(Method::Post));
        }
        other => panic!("unexpected {:?}", other),
    }
}

#[test]
fn invalid_request_dominates() {
    let invalid = EndpointError::missing_query();
    let mna = EndpointError::method_not_allowed(Verbs::single(Method::Get));
    let nm = EndpointError::not_matched();
    let expected = EndpointErrorKind::InvalidRequest(InvalidRequest::MissingQuery);
    assert_eq!(invalid.merge(&mna).kind(), expected);
    assert_eq!(mna.merge(&invalid).kind(), expected);
    assert_eq!(nm.merge(&invalid).kind(), expected);
    assert_eq!(invalid.merge(&nm).kind(), expected);
    let header = EndpointError::missing_header("authorization");
    assert_eq!(
        header.merge(&invalid).kind(),
        EndpointErrorKind::InvalidRequest(InvalidRequest::MissingHeader("authorization"))
    );
}

#[test]
fn status_codes() {
    assert_eq!(EndpointError::not_matched().status_code(), 404);
    assert_eq!(
        EndpointError::method_not_allowed(Verbs::none()).status_code(),
        405
    );
    assert_eq!(EndpointError::invalid_param().status_code(), 400);
    assert_eq!(Error::bad_request("x").status_code(), 400);
    assert_eq!(
        Error::from_endpoint_error(EndpointError::not_matched()).status_code(),
        404
    );
}

#[test]
fn verbs_sets() {
    let none = Verbs::none();
    assert!(!none.contains(Method::Get));
    let v = none.with(Method::Trace).with(Method::Patch);
    assert!(v.contains(Method::Trace));
    assert!(v.contains(Method::Patch));
    assert!(!v.contains(Method::Head));
    let u = v.union(Verbs::single(Method::Head));
    assert!(u.contains(Method::Head) && u.contains(Method::Trace));
}
