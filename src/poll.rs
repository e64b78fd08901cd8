use vstd::prelude::*;

verus! {

/// Whether a value is ready or not.
#[derive(Debug, Copy, Clone, PartialEq)]
pub enum Poll<T> {
    /// The task has finished with a value of `T`.
    Ready(T),
    /// The task is not finished and should be polled again later.
    Pending,
}

/// What `into_result` gives for a poll that has no successful value.
#[derive(Debug, Copy, Clone, PartialEq)]
pub enum PollError<E> {
    Pending,
    Error(E),
}

impl<T> Poll<T> {
    /// Returns whether the value is `Pending`.
    pub fn is_pending(&self) -> (r: bool)
        ensures
            r == (self is Pending),
    {
        match self {
            Poll::Pending => true,
            _ => false,
        }
    }

    /// Returns whether the value is `Ready`.
    pub fn is_ready(&self) -> (r: bool)
        ensures
            r == (self is Ready),
    {
        !self.is_pending()
    }

    /// Maps a ready value with `f`; `Pending` stays `Pending`.
    pub fn map<F, U>(self, f: F) -> (r: Poll<U>)
        where
            F: FnOnce(T) -> U,
        requires
            self matches Poll::Ready(t) ==> f.requires((t,)),
        ensures
            self is Pending ==> r is Pending,
            self matches Poll::Ready(t) ==> (r matches Poll::Ready(u) && f.ensures((t,), u)),
    {
        match self {
            Poll::Pending => Poll::Pending,
            Poll::Ready(t) => Poll::Ready(f(t)),
        }
    }
}

impl<T, E> Poll<Result<T, E>> {
    /// Returns whether the value is `Ready(Ok(..))`.
    pub fn is_ok(&self) -> (r: bool)
        ensures
            r == (self matches Poll::Ready(x) && x is Ok),
    {
        match self {
            Poll::Ready(Ok(..)) => true,
            _ => false,
        }
    }

    /// Returns whether the value is `Ready(Err(..))`.
    pub fn is_err(&self) -> (r: bool)
        ensures
            r == (self matches Poll::Ready(x) && x is Err),
    {
        match self {
            Poll::Ready(Err(..)) => true,
            _ => false,
        }
    }

    /// Maps a successful ready value with `f`.
    pub fn map_ok<F, U>(self, f: F) -> (r: Poll<Result<U, E>>)
        where
            F: FnOnce(T) -> U,
        requires
            self matches Poll::Ready(Ok(t)) ==> f.requires((t,)),
        ensures
            self is Pending ==> r is Pending,
            self matches Poll::Ready(Err(e)) ==> r == Poll::<Result<U, E>>::Ready(Err(e)),
            self matches Poll::Ready(Ok(t)) ==> (r matches Poll::Ready(Ok(u)) && f.ensures((t,), u)),
    {
        match self {
            Poll::Pending => Poll::Pending,
            Poll::Ready(Ok(t)) => Poll::Ready(Ok(f(t))),
            Poll::Ready(Err(e)) => Poll::Ready(Err(e)),
        }
    }

    /// Maps a failed ready value with `f`.
    pub fn map_err<F, U>(self, f: F) -> (r: Poll<Result<T, U>>)
        where
            F: FnOnce(E) -> U,
        requires
            self matches Poll::Ready(Err(e)) ==> f.requires((e,)),
        ensures
            self is Pending ==> r is Pending,
            self matches Poll::Ready(Ok(t)) ==> r == Poll::<Result<T, U>>::Ready(Ok(t)),
            self matches Poll::Ready(Err(e)) ==> (r matches Poll::Ready(Err(u)) && f.ensures((e,), u)),
    {
        match self {
            Poll::Pending => Poll::Pending,
            Poll::Ready(Ok(t)) => Poll::Ready(Ok(t)),
            Poll::Ready(Err(e)) => Poll::Ready(Err(f(e))),
        }
    }

    /// Splits the value into its successful value and everything else.
    pub fn into_result(self) -> (r: Result<T, PollError<E>>)
        ensures
            self is Pending ==> r == Err::<T, PollError<E>>(PollError::Pending),
            self matches Poll::Ready(Ok(t)) ==> r == Ok::<T, PollError<E>>(t),
            self matches Poll::Ready(Err(e)) ==> r == Err::<T, PollError<E>>(PollError::Error(e)),
    {
        match self {
            Poll::Pending => Err(PollError::Pending),
            Poll::Ready(Ok(t)) => Ok(t),
            Poll::Ready(Err(e)) => Err(PollError::Error(e)),
        }
    }

    /// A ready successful value.
    pub fn from_ok(v: T) -> (r: Poll<Result<T, E>>)
        ensures
            r == Poll::<Result<T, E>>::Ready(Ok(v)),
    {
        Poll::Ready(Ok(v))
    }

    /// The inverse of `into_result` on what it gives for a failure.
    pub fn from_error(v: PollError<E>) -> (r: Poll<Result<T, E>>)
        ensures
            v is Pending ==> r is Pending,
            v matches PollError::Error(e) ==> r == Poll::<Result<T, E>>::Ready(Err(e)),
    {
        match v {
            PollError::Pending => Poll::Pending,
            PollError::Error(e) => Poll::Ready(Err(e)),
        }
    }
}

} // verus!
