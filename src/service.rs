use vstd::prelude::*;

use crate::context::{initial_context, Request};
use crate::endpoint::{apply_den, apply_request, Endpoint};
use crate::error::{error_status, kind_status, EndpointError, EndpointErrorKind, Error};
use crate::poll::Poll;
use crate::task::{shift, task_den, task_live, OutcomeV, Task};
use crate::value::{tuple_model, Value, ValueV};

verus! {

/// What serving a request comes to: the output of the matched endpoint, the
/// failure of its task, or the routing error when no route matched.
#[derive(Debug, PartialEq)]
pub enum Outcome {
    Output(Vec<Value>),
    Failure(Error),
    NoRoute(EndpointError),
}

/// The mathematical value of an [`Outcome`].
pub enum OutcomeModel {
    Output(Seq<ValueV>),
    Failure(Error),
    NoRoute(EndpointErrorKind),
}

pub open spec fn outcome_model(o: Outcome) -> OutcomeModel {
    match o {
        Outcome::Output(v) => OutcomeModel::Output(tuple_model(v)),
        Outcome::Failure(e) => OutcomeModel::Failure(e),
        Outcome::NoRoute(e) => OutcomeModel::NoRoute(e@),
    }
}

/// The HTTP status that answers an outcome.
pub open spec fn outcome_status(o: OutcomeModel) -> u16 {
    match o {
        OutcomeModel::Output(_) => 200,
        OutcomeModel::Failure(e) => error_status(e),
        OutcomeModel::NoRoute(k) => kind_status(k),
    }
}

impl Outcome {
    /// Returns the HTTP status that answers this outcome.
    pub fn status_code(&self) -> (r: u16)
        ensures
            r == outcome_status(outcome_model(*self)),
    {
        match self {
            Outcome::Output(_) => 200,
            Outcome::Failure(e) => e.status_code(),
            Outcome::NoRoute(e) => e.status_code(),
        }
    }
}

/// The state of serving one request.
pub enum ServiceState {
    /// No route matched.
    NoRoute(EndpointError),
    /// The matched endpoint's task runs.
    Polling(Task),
    /// The outcome was delivered.
    Done,
}

/// The denotation of a task's outcome as the outcome of serving.
pub open spec fn served(o: OutcomeV) -> OutcomeModel {
    match o {
        Ok(v) => OutcomeModel::Output(v),
        Err(e) => OutcomeModel::Failure(e),
    }
}

/// After how many polls reporting `Pending` serving is done, and with what
/// outcome.
pub open spec fn service_den(s: ServiceState) -> (nat, OutcomeModel) {
    match s {
        ServiceState::NoRoute(e) => (0, OutcomeModel::NoRoute(e@)),
        ServiceState::Polling(t) => (task_den(t).0, served(task_den(t).1)),
        ServiceState::Done => (0, OutcomeModel::Output(seq![])),
    }
}

pub open spec fn service_live(s: ServiceState) -> bool {
    match s {
        ServiceState::NoRoute(_) => true,
        ServiceState::Polling(t) => task_live(t),
        ServiceState::Done => false,
    }
}

/// What serving a request comes to: the routing error if `endpoint` does
/// not match it, else the outcome of the task and after how many polls.
pub open spec fn serve_den(endpoint: Endpoint, request: Request) -> (nat, OutcomeModel) {
    match apply_den(endpoint, initial_context(request)).0 {
        Ok(d) => (d.0, served(d.1)),
        Err(k) => (0, OutcomeModel::NoRoute(k)),
    }
}

/// Serving one request, polled until it has an outcome.
pub struct ServiceFuture {
    pub state: ServiceState,
}

impl ServiceFuture {
    /// Routes `request` through `endpoint`.
    pub fn call(endpoint: &Endpoint, request: &Request) -> (r: ServiceFuture)
        ensures
            service_live(r.state),
            service_den(r.state) == serve_den(*endpoint, *request),
    {
        match apply_request(endpoint, request) {
            Ok(t) => ServiceFuture { state: ServiceState::Polling(t) },
            Err(e) => ServiceFuture { state: ServiceState::NoRoute(e) },
        }
    }

    /// Polls once. Serving that is due gives its outcome and is done;
    /// otherwise it reports `Pending` and is due one poll sooner.
    pub fn poll_state(&mut self) -> (r: Poll<Outcome>)
        requires
            service_live(old(self).state),
        ensures
            service_den(old(self).state).0 == 0 ==> (r matches Poll::Ready(o) && outcome_model(o)
                == service_den(old(self).state).1 && final(self).state is Done),
            service_den(old(self).state).0 > 0 ==> (r is Pending && service_live(final(self).state)
                && service_den(final(self).state) == shift(service_den(old(self).state))),
    {
        let mut state = ServiceState::Done;
        core::mem::swap(&mut state, &mut self.state);
        match state {
            ServiceState::NoRoute(e) => Poll::Ready(Outcome::NoRoute(e)),
            ServiceState::Polling(mut t) => match t.poll_task() {
                Poll::Pending => {
                    self.state = ServiceState::Polling(t);
                    Poll::Pending
                },
                Poll::Ready(Ok(v)) => Poll::Ready(Outcome::Output(v)),
                Poll::Ready(Err(e)) => Poll::Ready(Outcome::Failure(e)),
            },
            ServiceState::Done => vstd::pervasive::unreached(),
        }
    }

    /// Polls until serving has an outcome.
    pub fn run(self) -> (r: Outcome)
        requires
            service_live(self.state),
        ensures
            outcome_model(r) == service_den(self.state).1,
    {
        let ghost goal = service_den(self.state).1;
        let mut f = self;
        loop
            invariant
                service_live(f.state),
                service_den(f.state).1 == goal,
                goal == service_den(self.state).1,
            decreases service_den(f.state).0,
        {
            match f.poll_state() {
                Poll::Ready(o) => {
                    return o;
                },
                Poll::Pending => {},
            }
        }
    }
}

} // verus!
