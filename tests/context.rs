use finchers::{to_path_segments, Context, Method, Request};

#[test]
fn context_case1() {
    assert_eq!(to_path_segments("/"), &[] as &[String]);
}

#[test]
fn context_case2() {
    assert_eq!(to_path_segments("/foo"), &["foo".to_owned()]);
}

#[test]
fn context_case3() {
    assert_eq!(
        to_path_segments("/foo/bar/"),
        &["foo".to_owned(), "bar".to_owned()]
    );
}

#[test]
fn endpoint_case1() {
    assert_eq!(to_path_segments("/"), &[] as &[String]);
}

#[test]
fn endpoint_case2() {
    assert_eq!(to_path_segments("/foo"), &["foo".to_owned()]);
}

#[test]
fn endpoint_case3() {
    assert_eq!(
        to_path_segments("/foo/bar/"),
        &["foo".to_owned(), "bar".to_owned()]
    );
}

#[test]
fn path_segments_skip_blank_pieces() {
    assert_eq!(
        to_path_segments("//a/ /b\t/"),
        &["a".to_owned(), "b\t".to_owned()]
    );
}

#[test]
fn context_splits_path_and_query() {
    let req = Request::new(
        Method::Get,
        "/api/v1/".to_string(),
        Some("a=1&b=x%20y&a=2".to_string()),
    );
    let cx = Context::new(&req);
    assert_eq!(cx.routes, &["api".to_owned(), "v1".to_owned()]);
    assert_eq!(cx.params.len(), 3);
    assert_eq!(cx.param("a"), Some(&"2".to_string()));
    assert_eq!(cx.param("b"), Some(&"x y".to_string()));
    assert_eq!(cx.param("c"), None);
}

#[test]
fn context_without_query() {
    let req = Request::new(Method::Post, "/".to_string(), None);
    let cx = Context::new(&req);
    assert!(cx.routes.is_empty());
    assert!(cx.params.is_empty());
    assert_eq!(cx.param("a"), None);
}
