use finchers::{EndpointContext, Method, Request, Segment, Segments};

#[test]
fn test_segments() {
    let mut segments = Segments::new("/foo/bar.txt");
    assert_eq!(segments.remaining_path(), "foo/bar.txt");
    assert_eq!(
        segments.next().map(|s| s.as_encoded_str().as_bytes()),
        Some(&b"foo"[..])
    );
    assert_eq!(segments.remaining_path(), "bar.txt");
    assert_eq!(
        segments.next().map(|s| s.as_encoded_str().as_bytes()),
        Some(&b"bar.txt"[..])
    );
    assert_eq!(segments.remaining_path(), "");
    assert_eq!(segments.next().map(|s| s.as_encoded_str().as_bytes()), None);
    assert_eq!(segments.remaining_path(), "");
    assert_eq!(segments.next().map(|s| s.as_encoded_str().as_bytes()), None);
}

#[test]
fn test_segments_from_root_path() {
    let mut segments = Segments::new("/");
    assert_eq!(segments.remaining_path(), "");
    assert_eq!(segments.next().map(|s| s.as_encoded_str().as_bytes()), None);
}

#[test]
fn exhausted_cursor_stays_exhausted() {
    let mut segments = Segments::new("/a/b");
    assert!(segments.next().is_some());
    assert!(segments.next().is_some());
    assert_eq!(segments.popped(), 2);
    for _ in 0..5 {
        assert!(segments.next().is_none());
        assert_eq!(segments.popped(), 2);
        assert_eq!(segments.position(), 4);
        assert!(segments.is_exhausted());
    }
}

#[test]
fn cursor_counts_and_positions() {
    let mut segments = Segments::new("/ab/c");
    assert_eq!(segments.position(), 1);
    assert_eq!(segments.popped(), 0);
    let s = segments.next().unwrap();
    assert_eq!(s.as_range(), 1..3);
    assert_eq!(segments.position(), 4);
    assert_eq!(segments.popped(), 1);
}

#[test]
fn double_slash_gives_empty_segment() {
    let mut segments = Segments::new("/a//b");
    assert_eq!(segments.next().unwrap().as_encoded_str(), "a");
    assert_eq!(segments.next().unwrap().as_encoded_str(), "");
    assert_eq!(segments.next().unwrap().as_encoded_str(), "b");
    assert!(segments.next().is_none());
}

#[test]
fn segment_from_range() {
    let s = Segment::new("/foo/bar", 5..8);
    assert_eq!(s.as_encoded_str(), "bar");
    assert_eq!(s.as_range(), 5..8);
}

#[test]
fn drain_takes_every_segment() {
    let mut segments = Segments::new("/a/b/c");
    segments.drain();
    assert_eq!(segments.popped(), 3);
    assert_eq!(segments.remaining_path(), "");
}

#[test]
fn context_take_segments() {
    let req = Request::new(Method::Get, "/x/y".to_string(), None);
    let mut cx = EndpointContext::new(&req);
    assert_eq!(cx.next_segment(), Some("x"));
    let rest = cx.take_segments();
    assert_eq!(rest.remaining_path(), "y");
    assert_eq!(cx.next_segment(), None);
    assert_eq!(cx.method(), Method::Get);
}
