use finchers::{Poll, PollError};

#[test]
fn poll_predicates() {
    let r: Poll<Result<u32, u8>> = Poll::Ready(Ok(1));
    let e: Poll<Result<u32, u8>> = Poll::Ready(Err(2));
    let p: Poll<Result<u32, u8>> = Poll::Pending;
    assert!(r.is_ready() && r.is_ok() && !r.is_err() && !r.is_pending());
    assert!(e.is_ready() && e.is_err() && !e.is_ok());
    assert!(p.is_pending() && !p.is_ready() && !p.is_ok() && !p.is_err());
}

#[test]
fn poll_maps() {
    assert_eq!(Poll::Ready(3u32).map(|x| x * 2), Poll::Ready(6u32));
    assert_eq!(Poll::<u32>::Pending.map(|x| x * 2), Poll::Pending);
    let r: Poll<Result<u32, u8>> = Poll::Ready(Ok(1));
    assert_eq!(r.map_ok(|x| x + 1), Poll::Ready(Ok(2)));
    let e: Poll<Result<u32, u8>> = Poll::Ready(Err(2));
    assert_eq!(e.map_ok(|x| x + 1), Poll::Ready(Err(2)));
    assert_eq!(e.map_err(|x| x + 1), Poll::Ready(Err(3u8)));
}

#[test]
fn poll_into_result() {
    let r: Poll<Result<u32, u8>> = Poll::Ready(Ok(1));
    assert_eq!(r.into_result(), Ok(1));
    let e: Poll<Result<u32, u8>> = Poll::Ready(Err(2));
    assert_eq!(e.into_result(), Err(PollError::Error(2)));
    let p: Poll<Result<u32, u8>> = Poll::Pending;
    assert_eq!(p.into_result(), Err(PollError::Pending));
    assert_eq!(
        Poll::<Result<u32, u8>>::from_error(PollError::Error(5)),
        Poll::Ready(Err(5))
    );
    assert_eq!(Poll::<Result<u32, u8>>::from_ok(4), Poll::Ready(Ok(4)));
}
