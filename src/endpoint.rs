use vstd::prelude::*;
use vstd::string::*;

use crate::context::{header_value, initial_context, with_cursor, ContextView, EndpointContext, Request};
use crate::convert::{convert, convert_spec, ParamKind};
use crate::error::{merge_kind, EndpointError, EndpointErrorKind, Error, InvalidRequest, Verbs};
use crate::segments::{
    advance, drain, lemma_drain_advance, next_text, rest_text, segments_from,
};
use crate::task::{
    absent_den, chain_den, copy_outcome, either_den, lemma_slots_prefix, lift_den, list_den,
    outcome_view, race, single, slot_den, slot_live, slots_den, slots_live, task_den, task_live, unit,
    ChainMode, MaybeDone, OutcomeV, Task, Transform,
};
use crate::value::{copy_tuple, lemma_list_model, list_model, tuple_model, value_view, Value, ValueV};

verus! {

broadcast use vstd::std_specs::vec::axiom_vec_index_decreases;

/// A route: what it matches of a request and the task it yields when it
/// matches.
pub enum Endpoint {
    /// Takes one segment, which must equal this text (percent-encoded).
    Segment(String),
    /// Matches when no segment is left.
    Eos,
    /// Takes one segment and converts it.
    Param(ParamKind),
    /// Takes every remaining segment and converts each of them.
    Params(ParamKind),
    /// Takes every remaining segment and converts the rest of the path.
    Remains(ParamKind),
    /// Matches the methods of the set.
    Verb(Verbs),
    /// Matches anything and gives the value of the named header field;
    /// fails when there is no such field.
    Header(&'static str),
    /// Matches anything and gives the request body; its task fails when an
    /// earlier endpoint took the body.
    Body,
    /// Matches anything and gives this tuple at once.
    Value(Vec<Value>),
    /// Matches anything and gives this outcome after this many polls.
    Deferred(u64, Result<Vec<Value>, Error>),
    /// Both endpoints in turn; their outputs are concatenated.
    And(Box<Endpoint>, Box<Endpoint>),
    /// The first endpoint that matches, its output tagged with which one.
    Or(Box<Endpoint>, Box<Endpoint>),
    /// The first endpoint that matches, its output as it is.
    OrStrict(Box<Endpoint>, Box<Endpoint>),
    /// Every endpoint in turn; their outputs are collected in order.
    All(Vec<Endpoint>),
    /// The endpoint, its output made optional; matches always.
    Lift(Box<Endpoint>),
    /// The endpoint, its task followed by a second stage.
    Chain(ChainMode, Box<Endpoint>, Transform),
    /// The endpoint; where it does not match, a task that fails with the
    /// routing error, after every segment is taken.
    OrReject(Box<Endpoint>),
    /// The endpoint; where it does not match, a task that fails with the
    /// failure that the rejection gives for the routing error, after every
    /// segment is taken.
    OrRejectWith(Box<Endpoint>, Rejection),
    /// The second endpoint, applied once the first one, a guard, matched;
    /// the guard's task is dropped unpolled.
    BeforeApply(Box<Endpoint>, Box<Endpoint>),
}

/// How a routing error becomes the failure of a task: a failure for each
/// kind of routing error.
#[derive(Debug, Copy, Clone, PartialEq, Eq)]
pub struct Rejection {
    pub not_matched: Error,
    pub method_not_allowed: Error,
    pub invalid_request: Error,
}

/// The failure that `rej` gives for a routing error of kind `k`.
pub open spec fn rejection_for(rej: Rejection, k: EndpointErrorKind) -> Error {
    match k {
        EndpointErrorKind::NotMatched => rej.not_matched,
        EndpointErrorKind::MethodNotAllowed(_) => rej.method_not_allowed,
        EndpointErrorKind::InvalidRequest(_) => rej.invalid_request,
    }
}

impl Rejection {
    /// The rejection that gives `err` for every routing error.
    pub fn always(err: Error) -> (r: Rejection)
        ensures
            forall|k: EndpointErrorKind| rejection_for(r, k) == err,
    {
        Rejection { not_matched: err, method_not_allowed: err, invalid_request: err }
    }

    /// The failure for the routing error `e`.
    pub fn reject(&self, e: &EndpointError) -> (r: Error)
        ensures
            r == rejection_for(*self, e@),
    {
        match e.kind() {
            EndpointErrorKind::NotMatched => self.not_matched,
            EndpointErrorKind::MethodNotAllowed(_) => self.method_not_allowed,
            EndpointErrorKind::InvalidRequest(_) => self.invalid_request,
        }
    }
}

/// What applying an endpoint gives: the denotation of its task, or a
/// routing error.
pub type ApplyDen = Result<(nat, OutcomeV), EndpointErrorKind>;

pub open spec fn unit_den() -> (nat, OutcomeV) {
    (0, Ok(seq![]))
}

pub open spec fn value_den(v: ValueV) -> (nat, OutcomeV) {
    (0, Ok(seq![v]))
}

pub open spec fn invalid_param() -> EndpointErrorKind {
    EndpointErrorKind::InvalidRequest(InvalidRequest::InvalidParam)
}

/// The value of a list of segments that all convert under `k`, each as a
/// tuple of one value.
pub open spec fn converted_list(k: ParamKind, segs: Seq<Seq<char>>) -> Seq<Seq<ValueV>> {
    Seq::new(segs.len(), |i: int| seq![convert_spec(k, segs[i])->Some_0])
}

pub open spec fn all_convert(k: ParamKind, segs: Seq<Seq<char>>) -> bool {
    forall|i: int| 0 <= i < segs.len() ==> (#[trigger] convert_spec(k, segs[i])) is Some
}

/// The failure of a task that claims a body that was already taken.
pub open spec fn body_taken_error() -> Error {
    Error::Http { status: 500, message: "the request body has already been taken" }
}

/// Applying `e` to a routing context in state `c`: the outcome and the
/// state that the context is left in.
pub open spec fn apply_den(e: Endpoint, c: ContextView) -> (ApplyDen, ContextView)
    decreases e, 0nat,
{
    let cur = c.cursor;
    match e {
        Endpoint::Segment(lit) => if cur.pos < cur.path.len() && next_text(cur) == lit@ {
            (Ok(unit_den()), with_cursor(c, advance(cur)))
        } else {
            (Err(EndpointErrorKind::NotMatched), c)
        },
        Endpoint::Eos => if cur.pos >= cur.path.len() {
            (Ok(unit_den()), c)
        } else {
            (Err(EndpointErrorKind::NotMatched), c)
        },
        Endpoint::Param(k) => if cur.pos >= cur.path.len() {
            (Err(EndpointErrorKind::NotMatched), c)
        } else {
            match convert_spec(k, next_text(cur)) {
                Some(v) => (Ok(value_den(v)), with_cursor(c, advance(cur))),
                None => (Err(invalid_param()), c),
            }
        },
        Endpoint::Params(k) => {
            let segs = segments_from(cur.path, cur.pos as int);
            (
                if all_convert(k, segs) {
                    Ok(value_den(ValueV::List(converted_list(k, segs))))
                } else {
                    Err(invalid_param())
                },
                with_cursor(c, drain(cur)),
            )
        },
        Endpoint::Remains(k) => (
            match convert_spec(k, rest_text(cur)) {
                Some(v) => Ok(value_den(v)),
                None => Err(invalid_param()),
            },
            with_cursor(c, drain(cur)),
        ),
        Endpoint::Verb(v) => (
            if v@.contains(c.method) {
                Ok(unit_den())
            } else {
                Err(EndpointErrorKind::MethodNotAllowed(v))
            },
            c,
        ),
        Endpoint::Header(name) => (
            match header_value(c.headers, name@) {
                Some(v) => Ok(value_den(ValueV::Text(v))),
                None => Err(EndpointErrorKind::InvalidRequest(InvalidRequest::MissingHeader(name))),
            },
            c,
        ),
        Endpoint::Body => (
            if c.body_taken {
                Ok((0, Err(body_taken_error())))
            } else {
                Ok(value_den(ValueV::Bytes(c.body)))
            },
            ContextView { body_taken: true, ..c },
        ),
        Endpoint::Value(t) => (Ok((0, Ok(tuple_model(t)))), c),
        Endpoint::Deferred(d, o) => (Ok((d as nat, outcome_view(o))), c),
        Endpoint::And(a, b) => {
            let (r1, c1) = apply_den(*a, c);
            match r1 {
                Err(k) => (Err(k), c1),
                Ok(d1) => {
                    let (r2, c2) = apply_den(*b, c1);
                    match r2 {
                        Err(k) => (Err(k), c2),
                        Ok(d2) => (Ok(race(d1.0, d1.1, d2.0, d2.1, d1.1->Ok_0 + d2.1->Ok_0)), c2),
                    }
                },
            }
        },
        Endpoint::Or(a, b) => {
            let (r1, c1) = apply_den(*a, c);
            match r1 {
                Ok(d1) => (Ok(either_den(d1, false)), c1),
                Err(k1) => {
                    let (r2, c2) = apply_den(*b, with_cursor(c1, cur));
                    match r2 {
                        Ok(d2) => (Ok(either_den(d2, true)), c2),
                        Err(k2) => (Err(merge_kind(k1, k2)), with_cursor(c2, cur)),
                    }
                },
            }
        },
        Endpoint::OrStrict(a, b) => {
            let (r1, c1) = apply_den(*a, c);
            match r1 {
                Ok(d1) => (Ok(d1), c1),
                Err(k1) => {
                    let (r2, c2) = apply_den(*b, with_cursor(c1, cur));
                    match r2 {
                        Ok(d2) => (Ok(d2), c2),
                        Err(k2) => (Err(merge_kind(k1, k2)), with_cursor(c2, cur)),
                    }
                },
            }
        },
        Endpoint::All(es) => {
            let (r, c2) = all_den(es@, es.len() as nat, c);
            (
                match r {
                    Ok(d) => Ok(list_den(d)),
                    Err(k) => Err(k),
                },
                c2,
            )
        },
        Endpoint::Lift(a) => {
            let (r, c1) = apply_den(*a, c);
            (
                match r {
                    Ok(d) => Ok(lift_den(d)),
                    Err(_) => Ok(absent_den()),
                },
                c1,
            )
        },
        Endpoint::Chain(mode, a, f) => {
            let (r, c1) = apply_den(*a, c);
            (
                match r {
                    Ok(d) => Ok(chain_den(mode, d, f)),
                    Err(k) => Err(k),
                },
                c1,
            )
        },
        Endpoint::OrReject(a) => {
            let (r, c1) = apply_den(*a, c);
            match r {
                Ok(d) => (Ok(d), c1),
                Err(k) => (Ok((0, Err(Error::Endpoint(k)))), with_cursor(c1, drain(c1.cursor))),
            }
        },
        Endpoint::OrRejectWith(a, rej) => {
            let (r, c1) = apply_den(*a, c);
            match r {
                Ok(d) => (Ok(d), c1),
                Err(k) => (Ok((0, Err(rejection_for(rej, k)))), with_cursor(c1, drain(c1.cursor))),
            }
        },
        Endpoint::BeforeApply(guard, a) => {
            let (r1, c1) = apply_den(*guard, c);
            match r1 {
                Err(k) => (Err(k), c1),
                Ok(_) => apply_den(*a, c1),
            }
        },
    }
}

/// Applying the first `n` endpoints of `es` in turn; their tasks run side
/// by side and their values are collected in order.
pub open spec fn all_den(es: Seq<Endpoint>, n: nat, c: ContextView) -> (
    Result<(nat, Result<Seq<Seq<ValueV>>, Error>), EndpointErrorKind>,
    ContextView,
)
    decreases es, n,
{
    if n == 0 || n > es.len() {
        (Ok((0, Ok(seq![]))), c)
    } else {
        let (r, c1) = all_den(es, (n - 1) as nat, c);
        match r {
            Err(k) => (Err(k), c1),
            Ok(acc) => {
                let (r2, c2) = apply_den(es[n - 1], c1);
                match r2 {
                    Err(k) => (Err(k), c2),
                    Ok(d) => (Ok(race(acc.0, acc.1, d.0, d.1, acc.1->Ok_0.push(d.1->Ok_0))), c2),
                }
            },
        }
    }
}

/// What `apply` does: from a context in state `c0` to one in state `c1`,
/// with result `r`.
pub open spec fn apply_post(e: Endpoint, c0: ContextView, c1: ContextView, r: Result<Task, EndpointError>) -> bool {
    let (d, c) = apply_den(e, c0);
    &&& c1 == c
    &&& match d {
        Ok(x) => r matches Ok(t) && task_live(t) && task_den(t) == x,
        Err(k) => r matches Err(err) && err@ == k,
    }
}

/// Two endpoints that match in turn give the concatenation of their
/// outputs, not a pair of them.
pub proof fn lemma_and_concatenates(a: Endpoint, b: Endpoint, c: ContextView)
    requires
        apply_den(a, c).0 matches Ok(d1) && d1.1 is Ok,
        apply_den(b, apply_den(a, c).1).0 matches Ok(d2) && d2.1 is Ok,
    ensures
        apply_den(Endpoint::And(Box::new(a), Box::new(b)), c).0 matches Ok(d) && d.1 == Ok::<
            Seq<ValueV>,
            Error,
        >(apply_den(a, c).0->Ok_0.1->Ok_0 + apply_den(b, apply_den(a, c).1).0->Ok_0.1->Ok_0),
{
}

/// Where the first endpoint of `or_strict` matches, the result and the
/// context are the first endpoint's: the second one is not applied.
pub proof fn lemma_or_strict_left_wins(a: Endpoint, b: Endpoint, c: ContextView)
    requires
        apply_den(a, c).0 is Ok,
    ensures
        apply_den(Endpoint::OrStrict(Box::new(a), Box::new(b)), c) == apply_den(a, c),
{
}

/// Capturing the rest of the path takes every segment, whether or not the
/// rest converts: afterwards no segment is left.
pub proof fn lemma_remains_drains(k: ParamKind, c: ContextView)
    requires
        c.cursor.pos <= c.cursor.path.len(),
    ensures
        apply_den(Endpoint::Remains(k), c).1.cursor.pos == c.cursor.path.len(),
        advance(apply_den(Endpoint::Remains(k), c).1.cursor) == apply_den(Endpoint::Remains(k), c).1.cursor,
{
}

/// Only one endpoint gets the body: once it was taken, an endpoint that
/// claims it still matches, but its task fails.
pub proof fn lemma_body_taken_once(c: ContextView)
    ensures
        apply_den(Endpoint::Body, c).1.body_taken,
        apply_den(Endpoint::Body, apply_den(Endpoint::Body, c).1).0 == Ok::<(nat, OutcomeV), EndpointErrorKind>(
            (0nat, Err(body_taken_error())),
        ),
{
}

/// A segment literal, an end-of-path check or a parameter that fails leaves
/// the context as it was: no segment is taken.
pub proof fn lemma_failed_match_keeps_cursor(e: Endpoint, c: ContextView)
    requires
        e is Segment || e is Eos || e is Param,
        apply_den(e, c).0 is Err,
    ensures
        apply_den(e, c).1 == c,
{
}

proof fn lemma_all_den_err(es: Seq<Endpoint>, i: nat, n: nat, c: ContextView)
    requires
        i <= n <= es.len(),
        all_den(es, i, c).0 is Err,
    ensures
        all_den(es, n, c) == all_den(es, i, c),
    decreases n,
{
    if n > i {
        lemma_all_den_err(es, i, (n - 1) as nat, c);
    }
}

/// The percent-encoding of a path segment's text.
pub uninterp spec fn segment_encoding(s: Seq<char>) -> Seq<char>;

/// Relies on `percent_encoding::percent_encode` with
/// `PATH_SEGMENT_ENCODE_SET`: the encoding depends on the text alone, and
/// the encoding of an empty text is empty. That set escapes `/` and `%`
/// besides the characters that any path escapes.
#[verifier::external_body]
fn encode_segment(s: &str) -> (r: String)
    ensures
        r@ == segment_encoding(s@),
        s@.len() == 0 ==> r@.len() == 0,
{
    percent_encoding::percent_encode(s.as_bytes(), percent_encoding::PATH_SEGMENT_ENCODE_SET).to_string()
}

/// An endpoint that takes one segment, which must equal `s` once `s` is
/// percent-encoded. A `%` in `s` is escaped too, so `segment("50%")`
/// matches the segment `50%25`.
pub fn segment(s: &str) -> (r: Endpoint)
    ensures
        r matches Endpoint::Segment(lit) && lit@ == segment_encoding(s@),
{
    Endpoint::Segment(encode_segment(s))
}

/// An endpoint that matches when no segment is left.
pub fn eos() -> (r: Endpoint)
    ensures
        r == Endpoint::Eos,
{
    Endpoint::Eos
}

/// An endpoint that takes one segment and converts it under `kind`.
pub fn param(kind: ParamKind) -> (r: Endpoint)
    ensures
        r == Endpoint::Param(kind),
{
    Endpoint::Param(kind)
}

/// An endpoint that takes every remaining segment and converts each of them
/// under `kind`.
pub fn params(kind: ParamKind) -> (r: Endpoint)
    ensures
        r == Endpoint::Params(kind),
{
    Endpoint::Params(kind)
}

/// An endpoint that takes every remaining segment and converts the rest of
/// the path under `kind`.
pub fn remains(kind: ParamKind) -> (r: Endpoint)
    ensures
        r == Endpoint::Remains(kind),
{
    Endpoint::Remains(kind)
}

/// An endpoint that matches the methods in `verbs`.
pub fn verb(verbs: Verbs) -> (r: Endpoint)
    ensures
        r == Endpoint::Verb(verbs),
{
    Endpoint::Verb(verbs)
}

/// An endpoint that gives the value of the header field `name`.
pub fn header(name: &'static str) -> (r: Endpoint)
    ensures
        r == Endpoint::Header(name),
{
    Endpoint::Header(name)
}

/// An endpoint that takes the request body.
pub fn raw_body() -> (r: Endpoint)
    ensures
        r == Endpoint::Body,
{
    Endpoint::Body
}

/// An endpoint that matches anything and gives `values` at once.
pub fn value(values: Vec<Value>) -> (r: Endpoint)
    ensures
        r == Endpoint::Value(values),
{
    Endpoint::Value(values)
}

/// An endpoint that matches anything and gives `outcome` after `delay`
/// polls.
pub fn deferred(delay: u64, outcome: Result<Vec<Value>, Error>) -> (r: Endpoint)
    ensures
        r == Endpoint::Deferred(delay, outcome),
{
    Endpoint::Deferred(delay, outcome)
}

/// An endpoint that applies every endpoint of `endpoints` in turn and
/// collects their outputs in order.
pub fn all(endpoints: Vec<Endpoint>) -> (r: Endpoint)
    ensures
        r == Endpoint::All(endpoints),
{
    Endpoint::All(endpoints)
}

/// Applies `endpoint` to a fresh routing context over `request`.
pub fn apply_request(endpoint: &Endpoint, request: &Request) -> (r: Result<Task, EndpointError>)
    ensures
        match apply_den(*endpoint, initial_context(*request)).0 {
            Ok(x) => r matches Ok(t) && task_live(t) && task_den(t) == x,
            Err(k) => r matches Err(err) && err@ == k,
        },
{
    let mut cx = EndpointContext::new(request);
    endpoint.apply(&mut cx)
}

impl Endpoint {
    /// This endpoint, then `other`; their outputs are concatenated.
    pub fn and(self, other: Endpoint) -> (r: Endpoint)
        ensures
            r == Endpoint::And(Box::new(self), Box::new(other)),
    {
        Endpoint::And(Box::new(self), Box::new(other))
    }

    /// This endpoint, or else `other`; the output is tagged with which one
    /// matched.
    pub fn or(self, other: Endpoint) -> (r: Endpoint)
        ensures
            r == Endpoint::Or(Box::new(self), Box::new(other)),
    {
        Endpoint::Or(Box::new(self), Box::new(other))
    }

    /// This endpoint, or else `other`; the output is the matching one's.
    pub fn or_strict(self, other: Endpoint) -> (r: Endpoint)
        ensures
            r == Endpoint::OrStrict(Box::new(self), Box::new(other)),
    {
        Endpoint::OrStrict(Box::new(self), Box::new(other))
    }

    /// This endpoint with its output made optional; it always matches.
    pub fn lift(self) -> (r: Endpoint)
        ensures
            r == Endpoint::Lift(Box::new(self)),
    {
        Endpoint::Lift(Box::new(self))
    }

    /// This endpoint, its successful outcome then handed to `f`; a failure
    /// passes through.
    pub fn then(self, f: Transform) -> (r: Endpoint)
        ensures
            r == Endpoint::Chain(ChainMode::Then, Box::new(self), f),
    {
        Endpoint::Chain(ChainMode::Then, Box::new(self), f)
    }

    /// This endpoint, its successful outcome then handed to `f`; a failure
    /// passes through.
    pub fn and_then(self, f: Transform) -> (r: Endpoint)
        ensures
            r == Endpoint::Chain(ChainMode::AndThen, Box::new(self), f),
    {
        Endpoint::Chain(ChainMode::AndThen, Box::new(self), f)
    }

    /// This endpoint, its failed outcome then handed to `f`.
    pub fn or_else(self, f: Transform) -> (r: Endpoint)
        ensures
            r == Endpoint::Chain(ChainMode::OrElse, Box::new(self), f),
    {
        Endpoint::Chain(ChainMode::OrElse, Box::new(self), f)
    }

    /// This endpoint, applied once `guard` matched; the guard's output is
    /// dropped.
    pub fn before_apply(self, guard: Endpoint) -> (r: Endpoint)
        ensures
            r == Endpoint::BeforeApply(Box::new(guard), Box::new(self)),
    {
        Endpoint::BeforeApply(Box::new(guard), Box::new(self))
    }

    /// This endpoint; where it does not match, a task that fails with what
    /// `rejection` gives for the routing error.
    pub fn or_reject_with(self, rejection: Rejection) -> (r: Endpoint)
        ensures
            r == Endpoint::OrRejectWith(Box::new(self), rejection),
    {
        Endpoint::OrRejectWith(Box::new(self), rejection)
    }

    /// This endpoint; where it does not match, a task that fails with the
    /// routing error.
    pub fn or_reject(self) -> (r: Endpoint)
        ensures
            r == Endpoint::OrReject(Box::new(self)),
    {
        Endpoint::OrReject(Box::new(self))
    }

    /// Applies this endpoint to the request of `cx`: advances the cursor
    /// and gives the task to run, or the routing error.
    pub fn apply<'a>(&self, cx: &mut EndpointContext<'a>) -> (r: Result<Task, EndpointError>)
        ensures
            apply_post(*self, old(cx)@, final(cx)@, r),
        decreases self,
    {
        match self {
            Endpoint::Segment(lit) => {
                let saved = cx.cursor();
                match cx.next_segment() {
                    Some(s) => {
                        if String::from_str(s) == *lit {
                            Ok(Task::leaf(0, Ok(unit())))
                        } else {
                            cx.set_cursor(saved);
                            Err(EndpointError::not_matched())
                        }
                    },
                    None => Err(EndpointError::not_matched()),
                }
            },
            Endpoint::Eos => {
                let saved = cx.cursor();
                match cx.next_segment() {
                    None => Ok(Task::leaf(0, Ok(unit()))),
                    Some(_) => {
                        cx.set_cursor(saved);
                        Err(EndpointError::not_matched())
                    },
                }
            },
            Endpoint::Param(k) => {
                let saved = cx.cursor();
                match cx.next_segment() {
                    None => Err(EndpointError::not_matched()),
                    Some(s) => match convert(*k, s) {
                        Some(v) => Ok(Task::leaf(0, Ok(single(v)))),
                        None => {
                            cx.set_cursor(saved);
                            Err(EndpointError::invalid_param())
                        },
                    },
                }
            },
            Endpoint::Params(k) => apply_params(*k, cx),
            Endpoint::Remains(k) => {
                let rest = cx.remaining_path();
                let converted = convert(*k, rest);
                cx.drain();
                match converted {
                    Some(v) => Ok(Task::leaf(0, Ok(single(v)))),
                    None => Err(EndpointError::invalid_param()),
                }
            },
            Endpoint::Verb(v) => {
                if v.contains(cx.method()) {
                    Ok(Task::leaf(0, Ok(unit())))
                } else {
                    Err(EndpointError::method_not_allowed(*v))
                }
            },
            Endpoint::Header(name) => match cx.header(name) {
                Some(v) => Ok(Task::leaf(0, Ok(single(Value::Text(v.clone()))))),
                None => Err(EndpointError::missing_header(name)),
            },
            Endpoint::Body => match cx.take_body() {
                Some(b) => Ok(Task::leaf(0, Ok(single(Value::Bytes(b))))),
                None => Ok(Task::leaf(0, Err(Error::Http { status: 500, message: "the request body has already been taken" }))),
            },
            Endpoint::Value(t) => Ok(Task::leaf(0, Ok(copy_tuple(t)))),
            Endpoint::Deferred(d, o) => Ok(Task::leaf(*d, copy_outcome(o))),
            Endpoint::And(a, b) => {
                let t1 = match a.apply(cx) {
                    Ok(t) => t,
                    Err(e) => {
                        return Err(e);
                    },
                };
                let t2 = match b.apply(cx) {
                    Ok(t) => t,
                    Err(e) => {
                        return Err(e);
                    },
                };
                let t = Task::And(Box::new(MaybeDone::Pending(t1)), Box::new(MaybeDone::Pending(t2)));
                proof {
                    assert(slot_live(MaybeDone::Pending(t1)));
                    assert(slot_live(MaybeDone::Pending(t2)));
                    assert(task_live(t));
                    assert(slot_den(MaybeDone::Pending(t1)) == task_den(t1));
                    assert(slot_den(MaybeDone::Pending(t2)) == task_den(t2));
                }
                Ok(t)
            },
            Endpoint::Or(a, b) => {
                let saved = cx.cursor();
                match a.apply(cx) {
                    Ok(t) => Ok(Task::Either(Box::new(t), false)),
                    Err(e1) => {
                        cx.set_cursor(saved);
                        match b.apply(cx) {
                            Ok(t) => Ok(Task::Either(Box::new(t), true)),
                            Err(e2) => {
                                cx.set_cursor(saved);
                                Err(e1.merge(&e2))
                            },
                        }
                    },
                }
            },
            Endpoint::OrStrict(a, b) => {
                let saved = cx.cursor();
                match a.apply(cx) {
                    Ok(t) => Ok(t),
                    Err(e1) => {
                        cx.set_cursor(saved);
                        match b.apply(cx) {
                            Ok(t) => Ok(t),
                            Err(e2) => {
                                cx.set_cursor(saved);
                                Err(e1.merge(&e2))
                            },
                        }
                    },
                }
            },
            Endpoint::All(es) => {
                let ghost c0 = old(cx)@;
                let mut slots: Vec<MaybeDone> = Vec::new();
                let mut i: usize = 0;
                while i < es.len()
                    invariant
                        *self == Endpoint::All(*es),
                        c0 == old(cx)@,
                        i <= es.len(),
                        slots.len() == i,
                        all_den(es@, i as nat, c0).0 is Ok,
                        all_den(es@, i as nat, c0).1 == cx@,
                        all_den(es@, i as nat, c0).0->Ok_0 == slots_den(slots@, i as nat),
                        slots_live(slots@, i as nat),
                    decreases es.len() - i,
                {
                    proof {
                        assert(decreases_to!(*self => (*self)->All_0));
                        assert(decreases_to!(*es => es[i as int]));
                    }
                    let ghost ci = cx@;
                    let res = es[i].apply(cx);
                    proof {
                        let n = (i + 1) as nat;
                        assert(es@[n - 1] == es[i as int]);
                        assert(all_den(es@, n, c0) == {
                            let (r, c1) = all_den(es@, (n - 1) as nat, c0);
                            match r {
                                Err(k) => (Err(k), c1),
                                Ok(acc) => {
                                    let (r2, c2) = apply_den(es@[n - 1], c1);
                                    match r2 {
                                        Err(k) => (Err(k), c2),
                                        Ok(d) => (Ok(race(acc.0, acc.1, d.0, d.1, acc.1->Ok_0.push(d.1->Ok_0))), c2),
                                    }
                                },
                            }
                        });
                    }
                    match res {
                        Ok(t) => {
                            let ghost before = slots@;
                            slots.push(MaybeDone::Pending(t));
                            proof {
                                assert(slots@.subrange(0, i as int) =~= before.subrange(0, i as int));
                                lemma_slots_prefix(slots@, before, i as nat);
                                assert(slots@[i as int] == MaybeDone::Pending(t));
                                assert(slot_den(slots@[i as int]) == task_den(t));
                                assert(slot_live(slots@[i as int]));
                                assert(slots_live(slots@, (i + 1) as nat) == (slots_live(slots@, i as nat) && slot_live(slots@[i as int])));
                            }
                        },
                        Err(e) => {
                            proof {
                                lemma_all_den_err(es@, (i + 1) as nat, es.len() as nat, c0);
                                let full = all_den(es@, es.len() as nat, c0);
                                assert(full.0 == Err::<(nat, Result<Seq<Seq<ValueV>>, Error>), EndpointErrorKind>(e@));
                                assert(full.1 == cx@);
                                assert(apply_den(*self, c0).0 == Err::<(nat, OutcomeV), EndpointErrorKind>(e@));
                                assert(c0 == old(cx)@);
                            }
                            return Err(e);
                        },
                    }
                    i = i + 1;
                }
                Ok(Task::All(slots))
            },
            Endpoint::Lift(a) => match a.apply(cx) {
                Ok(t) => Ok(Task::Lift(Some(Box::new(t)))),
                Err(_) => Ok(Task::Lift(None)),
            },
            Endpoint::Chain(mode, a, f) => match a.apply(cx) {
                Ok(t) => Ok(Task::Chain(*mode, Box::new(t), f.copy())),
                Err(e) => Err(e),
            },
            Endpoint::OrReject(a) => match a.apply(cx) {
                Ok(t) => Ok(t),
                Err(e) => {
                    cx.drain();
                    Ok(Task::leaf(0, Err(Error::from_endpoint_error(e))))
                },
            },
            Endpoint::OrRejectWith(a, rej) => match a.apply(cx) {
                Ok(t) => Ok(t),
                Err(e) => {
                    cx.drain();
                    Ok(Task::leaf(0, Err(rej.reject(&e))))
                },
            },
            Endpoint::BeforeApply(guard, a) => match guard.apply(cx) {
                Err(e) => Err(e),
                Ok(_) => a.apply(cx),
            },
        }
    }
}

/// Takes every remaining segment and converts each of them under `k`.
fn apply_params<'a>(k: ParamKind, cx: &mut EndpointContext<'a>) -> (r: Result<Task, EndpointError>)
    ensures
        apply_post(Endpoint::Params(k), old(cx)@, final(cx)@, r),
{
    let ghost c0 = old(cx)@;
    let ghost segs = segments_from(c0.cursor.path, c0.cursor.pos as int);
    let ghost mut taken: Seq<Seq<char>> = seq![];
    let mut items: Vec<Vec<Value>> = Vec::new();
    let mut all_ok = true;
    let mut more = true;
    let _ = cx.position();
    proof {
        lemma_list_model(items);
        assert(list_model(items) =~= converted_list(k, taken));
    }
    while more
        invariant
            cx@.cursor.pos <= cx@.cursor.path.len(),
            cx@ == with_cursor(c0, cx@.cursor),
            cx@.cursor.path == c0.cursor.path,
            drain(cx@.cursor) == drain(c0.cursor),
            segs == taken + segments_from(cx@.cursor.path, cx@.cursor.pos as int),
            segs == segments_from(c0.cursor.path, c0.cursor.pos as int),
            !more ==> cx@.cursor.pos >= cx@.cursor.path.len(),
            all_ok == all_convert(k, taken),
            all_ok ==> list_model(items) == converted_list(k, taken),
        decreases cx@.cursor.path.len() - cx@.cursor.pos + (if more { 1int } else { 0int }),
    {
        let ghost before = cx@.cursor;
        proof {
            if before.pos < before.path.len() {
                lemma_drain_advance(before);
            }
        }
        match cx.next_segment() {
            None => {
                more = false;
            },
            Some(s) => {
                let ghost text = s@;
                let converted = convert(k, s);
                proof {
                    assert(taken.push(text) + segments_from(cx@.cursor.path, cx@.cursor.pos as int)
                        =~= taken + (seq![text] + segments_from(cx@.cursor.path, cx@.cursor.pos as int)));
                }
                match converted {
                    Some(v) => {
                        if all_ok {
                            let ghost old_items = items;
                            items.push(single(v));
                            proof {
                                lemma_list_model(items);
                                lemma_list_model(old_items);
                                let t2 = taken.push(text);
                                assert(items.len() == t2.len());
                                assert forall|j: int| 0 <= j < items.len() implies list_model(items)[j]
                                    == converted_list(k, t2)[j] by {
                                    if j < taken.len() {
                                        assert(t2[j] == taken[j]);
                                        assert(items[j] == old_items[j]);
                                        assert(list_model(old_items)[j] == tuple_model(old_items[j]));
                                        assert(list_model(old_items)[j] == converted_list(k, taken)[j]);
                                    } else {
                                        assert(t2[j] == text);
                                        assert(convert_spec(k, text) == Some(value_view(v)));
                                    }
                                }
                                assert(list_model(items) =~= converted_list(k, t2));
                            }
                        }
                    },
                    None => {
                        all_ok = false;
                    },
                }
                proof {
                    if all_ok {
                        assert forall|i: int| 0 <= i < taken.push(text).len() implies (#[trigger] convert_spec(
                            k,
                            taken.push(text)[i],
                        )) is Some by {
                            if i < taken.len() {
                                assert(taken.push(text)[i] == taken[i]);
                            }
                        }
                    } else {
                        if all_convert(k, taken) {
                            assert(taken.push(text)[taken.len() as int] == text);
                        } else {
                            let j = choose|j: int| 0 <= j < taken.len() && (#[trigger] convert_spec(k, taken[j])) is None;
                            assert(taken.push(text)[j] == taken[j]);
                        }
                    }
                    taken = taken.push(text);
                }
            },
        }
    }
    proof {
        assert(segments_from(cx@.cursor.path, cx@.cursor.pos as int) =~= seq![]);
        assert(taken + seq![] =~= taken);
    }
    if all_ok {
        Ok(Task::leaf(0, Ok(single(Value::List(items)))))
    } else {
        Err(EndpointError::invalid_param())
    }
}

} // verus!
