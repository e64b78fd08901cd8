use vstd::prelude::*;

use crate::error::{error_status, Error};
use crate::poll::Poll;
use crate::value::{
    copy_tuple, lemma_list_model, lemma_tuple_model, list_model, tuple_model, value_view, Value,
    ValueV,
};

verus! {

broadcast use vstd::std_specs::vec::axiom_vec_index_decreases;

/// The mathematical outcome of a task: a tuple of values or a failure.
pub type OutcomeV = Result<Seq<ValueV>, Error>;

pub open spec fn outcome_view(o: Result<Vec<Value>, Error>) -> OutcomeV {
    match o {
        Ok(t) => Ok(tuple_model(t)),
        Err(e) => Err(e),
    }
}

/// Returns a copy of an outcome.
pub fn copy_outcome(o: &Result<Vec<Value>, Error>) -> (r: Result<Vec<Value>, Error>)
    ensures
        outcome_view(r) == outcome_view(*o),
{
    match o {
        Ok(t) => Ok(copy_tuple(t)),
        Err(e) => Err(*e),
    }
}

/// The second stage of a chained task, built from the outcome of the first.
pub enum Transform {
    /// Gives `outcome`, whatever the first stage gave, after `delay` polls.
    Replace { delay: u64, outcome: Result<Vec<Value>, Error> },
    /// Gives what the first stage gave, after `delay` polls.
    Pass { delay: u64 },
    /// Gives the first stage's values followed by `values`, after `delay`
    /// polls; a failure passes through.
    Extend { delay: u64, values: Vec<Value> },
    /// Turns a failure of the first stage into the value of its HTTP
    /// status, after `delay` polls; a success passes through.
    Recover { delay: u64 },
}

pub open spec fn transform_delay(f: Transform) -> nat {
    match f {
        Transform::Replace { delay, .. } => delay as nat,
        Transform::Pass { delay } => delay as nat,
        Transform::Extend { delay, .. } => delay as nat,
        Transform::Recover { delay } => delay as nat,
    }
}

pub open spec fn transform_result(f: Transform, input: OutcomeV) -> OutcomeV {
    match f {
        Transform::Replace { outcome, .. } => outcome_view(outcome),
        Transform::Pass { .. } => input,
        Transform::Extend { values, .. } => match input {
            Ok(v) => Ok(v + tuple_model(values)),
            Err(e) => Err(e),
        },
        Transform::Recover { .. } => match input {
            Ok(v) => Ok(v),
            Err(e) => Ok(seq![ValueV::Uint(error_status(e) as u64)]),
        },
    }
}

impl Transform {
    /// Returns a copy of this transform.
    pub fn copy(&self) -> (r: Transform)
        ensures
            transform_delay(r) == transform_delay(*self),
            forall|i: OutcomeV| transform_result(r, i) == transform_result(*self, i),
    {
        match self {
            Transform::Replace { delay, outcome } => Transform::Replace {
                delay: *delay,
                outcome: copy_outcome(outcome),
            },
            Transform::Pass { delay } => Transform::Pass { delay: *delay },
            Transform::Extend { delay, values } => Transform::Extend {
                delay: *delay,
                values: copy_tuple(values),
            },
            Transform::Recover { delay } => Transform::Recover { delay: *delay },
        }
    }

    /// Builds the second stage from the outcome of the first: its delay and
    /// its outcome.
    fn start(self, input: Result<Vec<Value>, Error>) -> (r: (u64, Result<Vec<Value>, Error>))
        ensures
            r.0 == transform_delay(self),
            outcome_view(r.1) == transform_result(self, outcome_view(input)),
    {
        match self {
            Transform::Replace { delay, outcome } => (delay, outcome),
            Transform::Pass { delay } => (delay, input),
            Transform::Extend { delay, values } => match input {
                Ok(v) => (delay, Ok(concat(v, values))),
                Err(e) => (delay, Err(e)),
            },
            Transform::Recover { delay } => match input {
                Ok(v) => (delay, Ok(v)),
                Err(e) => {
                    let status = e.status_code();
                    (delay, Ok(single(Value::Uint(status as u64))))
                },
            },
        }
    }
}

/// Which outcomes of the first stage a chained task transforms.
#[derive(Debug, Copy, Clone, PartialEq, Eq, Structural)]
pub enum ChainMode {
    /// Successes, whatever the value; a failure passes through.
    Then,
    /// Successes; a failure passes through.
    AndThen,
    /// Failures; a success passes through.
    OrElse,
}

pub open spec fn chain_applies(mode: ChainMode, o: OutcomeV) -> bool {
    match mode {
        ChainMode::Then => o is Ok,
        ChainMode::AndThen => o is Ok,
        ChainMode::OrElse => o is Err,
    }
}

fn applies(mode: ChainMode, o: &Result<Vec<Value>, Error>) -> (r: bool)
    ensures
        r == chain_applies(mode, outcome_view(*o)),
{
    match mode {
        ChainMode::Then => o.is_ok(),
        ChainMode::AndThen => o.is_ok(),
        ChainMode::OrElse => o.is_err(),
    }
}

/// A task: a computation that is polled until it is ready.
pub enum Task {
    /// Ready with `outcome` after `delay` polls that report `Pending`.
    Leaf { delay: u64, outcome: Result<Vec<Value>, Error> },
    /// Both tasks, with their outputs concatenated.
    And(Box<MaybeDone>, Box<MaybeDone>),
    /// All tasks, with their outputs collected in order.
    All(Vec<MaybeDone>),
    /// The task of one of two alternatives; `true` for the second one.
    Either(Box<Task>, bool),
    /// The task of an endpoint that may not have matched.
    Lift(Option<Box<Task>>),
    /// The first stage of a chained task, with what builds the second.
    Chain(ChainMode, Box<Task>, Transform),
    /// A task that has delivered its outcome.
    Spent,
}

/// A slot of a task that runs beside others: still running, finished with
/// a value that is kept until all are finished, or emptied.
pub enum MaybeDone {
    Pending(Task),
    Done(Vec<Value>),
    Taken,
}

/// The longer of two waits.
pub open spec fn max_nat(a: nat, b: nat) -> nat {
    if a >= b {
        a
    } else {
        b
    }
}

/// Runs two parts side by side, each ready after `w1` and `w2` polls with
/// `o1` and `o2`: the earliest failure wins (on a tie the first part's);
/// without a failure both values, combined as `both`, come once the later
/// part is ready.
pub open spec fn race<A, B, C>(w1: nat, o1: Result<A, Error>, w2: nat, o2: Result<B, Error>, both: C) -> (nat, Result<C, Error>) {
    if o1 is Err && (o2 is Ok || w1 <= w2) {
        (w1, Err(o1->Err_0))
    } else if o2 is Err {
        (w2, Err(o2->Err_0))
    } else {
        (max_nat(w1, w2), Ok(both))
    }
}

/// Collected values, delivered as a list.
pub open spec fn list_den(d: (nat, Result<Seq<Seq<ValueV>>, Error>)) -> (nat, OutcomeV) {
    (
        d.0,
        match d.1 {
            Ok(l) => Ok(seq![ValueV::List(l)]),
            Err(e) => Err(e),
        },
    )
}

/// The value of one of two alternatives, tagged with which one it is.
pub open spec fn either_den(d: (nat, OutcomeV), right: bool) -> (nat, OutcomeV) {
    (
        d.0,
        match d.1 {
            Ok(v) => Ok(
                seq![
                    if right {
                        ValueV::Right(v)
                    } else {
                        ValueV::Left(v)
                    },
                ],
            ),
            Err(e) => Err(e),
        },
    )
}

/// The value of an endpoint that matched, as an optional value.
pub open spec fn lift_den(d: (nat, OutcomeV)) -> (nat, OutcomeV) {
    (
        d.0,
        match d.1 {
            Ok(v) => Ok(seq![ValueV::Optional(Some(v))]),
            Err(e) => Err(e),
        },
    )
}

/// The value of an endpoint that did not match.
pub open spec fn absent_den() -> (nat, OutcomeV) {
    (0, Ok(seq![ValueV::Optional(None)]))
}

/// A first stage followed, where `mode` says so, by the second stage that
/// `f` builds from its outcome.
pub open spec fn chain_den(mode: ChainMode, d: (nat, OutcomeV), f: Transform) -> (nat, OutcomeV) {
    if chain_applies(mode, d.1) {
        (d.0 + transform_delay(f), transform_result(f, d.1))
    } else {
        d
    }
}

/// Whether a task can still be polled.
pub open spec fn task_live(t: Task) -> bool
    decreases t,
{
    match t {
        Task::Leaf { .. } => true,
        Task::And(a, b) => slot_live(*a) && slot_live(*b),
        Task::All(v) => slots_live(v@, v.len() as nat),
        Task::Either(t, _) => task_live(*t),
        Task::Lift(o) => match o {
            None => true,
            Some(t) => task_live(*t),
        },
        Task::Chain(_, t, _) => task_live(*t),
        Task::Spent => false,
    }
}

pub open spec fn slot_live(s: MaybeDone) -> bool
    decreases s,
{
    match s {
        MaybeDone::Pending(t) => task_live(t),
        MaybeDone::Done(_) => true,
        MaybeDone::Taken => false,
    }
}

pub open spec fn slots_live(s: Seq<MaybeDone>, n: nat) -> bool
    decreases s, n,
{
    if n == 0 || n > s.len() {
        true
    } else {
        slots_live(s, (n - 1) as nat) && slot_live(s[n - 1])
    }
}

/// After how many polls reporting `Pending` a live task is ready, and with
/// what outcome.
pub open spec fn task_den(t: Task) -> (nat, OutcomeV)
    decreases t,
{
    match t {
        Task::Leaf { delay, outcome } => (delay as nat, outcome_view(outcome)),
        Task::And(a, b) => {
            let d1 = slot_den(*a);
            let d2 = slot_den(*b);
            race(d1.0, d1.1, d2.0, d2.1, d1.1->Ok_0 + d2.1->Ok_0)
        },
        Task::All(v) => list_den(slots_den(v@, v.len() as nat)),
        Task::Either(t, right) => either_den(task_den(*t), right),
        Task::Lift(o) => match o {
            None => absent_den(),
            Some(t) => lift_den(task_den(*t)),
        },
        Task::Chain(mode, t, f) => chain_den(mode, task_den(*t), f),
        Task::Spent => (0, Ok(seq![])),
    }
}

pub open spec fn slot_den(s: MaybeDone) -> (nat, OutcomeV)
    decreases s,
{
    match s {
        MaybeDone::Pending(t) => task_den(t),
        MaybeDone::Done(v) => (0, Ok(tuple_model(v))),
        MaybeDone::Taken => (0, Ok(seq![])),
    }
}

/// The first `n` slots of `s` run side by side; their values are collected
/// in slot order.
pub open spec fn slots_den(s: Seq<MaybeDone>, n: nat) -> (nat, Result<Seq<Seq<ValueV>>, Error>)
    decreases s, n,
{
    if n == 0 || n > s.len() {
        (0, Ok(seq![]))
    } else {
        let acc = slots_den(s, (n - 1) as nat);
        let d = slot_den(s[n - 1]);
        race(acc.0, acc.1, d.0, d.1, acc.1->Ok_0.push(d.1->Ok_0))
    }
}

/// A part that fails at the next poll.
pub open spec fn fails_now<T>(d: (nat, Result<T, Error>)) -> bool {
    d.0 == 0 && d.1 is Err
}

/// One poll brings a denotation one step nearer.
pub open spec fn shift<T>(d: (nat, T)) -> (nat, T) {
    (if d.0 > 0 {
        (d.0 - 1) as nat
    } else {
        0
    }, d.1)
}

/// What one poll of a live task `t` does: a task due now gives its outcome
/// and is spent, its slots and stages dropped;
/// another reports `Pending` and becomes a live task due one poll sooner,
/// with the same outcome.
pub open spec fn poll_step(t: Task, next: Task, r: Poll<Result<Vec<Value>, Error>>) -> bool {
    let d = task_den(t);
    if d.0 == 0 {
        r matches Poll::Ready(x) && outcome_view(x) == d.1 && next == Task::Spent
    } else {
        r is Pending && task_live(next) && task_den(next) == shift(d)
    }
}

proof fn lemma_race_shift<A, B, C>(w1: nat, o1: Result<A, Error>, w2: nat, o2: Result<B, Error>, both: C)
    requires
        !fails_now((w1, o1)),
        !fails_now((w2, o2)),
    ensures
        !fails_now(race(w1, o1, w2, o2, both)),
        race(shift((w1, o1)).0, o1, shift((w2, o2)).0, o2, both) == shift(race(w1, o1, w2, o2, both)),
{
}

/// The denotation of the first `n` slots depends on those slots alone.
pub proof fn lemma_slots_prefix(s: Seq<MaybeDone>, t: Seq<MaybeDone>, n: nat)
    requires
        n <= s.len(),
        n <= t.len(),
        s.subrange(0, n as int) == t.subrange(0, n as int),
    ensures
        slots_den(s, n) == slots_den(t, n),
        slots_live(s, n) == slots_live(t, n),
    decreases n,
{
    if n > 0 {
        assert(s[n - 1] == s.subrange(0, n as int)[n - 1]);
        assert(t[n - 1] == t.subrange(0, n as int)[n - 1]);
        assert(s.subrange(0, n - 1) =~= s.subrange(0, n as int).subrange(0, n - 1));
        assert(t.subrange(0, n - 1) =~= t.subrange(0, n as int).subrange(0, n - 1));
        lemma_slots_prefix(s, t, (n - 1) as nat);
    }
}

proof fn lemma_slots_live(s: Seq<MaybeDone>, n: nat)
    requires
        n <= s.len(),
    ensures
        slots_live(s, n) <==> forall|k: int| 0 <= k < n ==> slot_live(#[trigger] s[k]),
    decreases n,
{
    if n > 0 {
        lemma_slots_live(s, (n - 1) as nat);
    }
}

proof fn lemma_slots_shift(old: Seq<MaybeDone>, new: Seq<MaybeDone>, n: nat)
    requires
        n <= old.len(),
        n <= new.len(),
        forall|k: int| 0 <= k < n ==> !fails_now(slot_den(#[trigger] old[k])),
        forall|k: int| 0 <= k < n ==> slot_den(#[trigger] new[k]) == shift(slot_den(old[k])),
    ensures
        !fails_now(slots_den(old, n)),
        slots_den(new, n) == shift(slots_den(old, n)),
    decreases n,
{
    if n > 0 {
        lemma_slots_shift(old, new, (n - 1) as nat);
        let acc = slots_den(old, (n - 1) as nat);
        let d = slot_den(old[n - 1]);
        lemma_race_shift(acc.0, acc.1, d.0, d.1, acc.1->Ok_0.push(d.1->Ok_0));
    }
}

proof fn lemma_slots_no_failure(s: Seq<MaybeDone>, n: nat)
    requires
        n <= s.len(),
        forall|k: int| 0 <= k < n ==> !fails_now(slot_den(#[trigger] s[k])),
    ensures
        !fails_now(slots_den(s, n)),
    decreases n,
{
    if n > 0 {
        lemma_slots_no_failure(s, (n - 1) as nat);
        assert(!fails_now(slot_den(s[n - 1])));
    }
}

proof fn lemma_slots_first_failure(s: Seq<MaybeDone>, j: nat, n: nat)
    requires
        j < n <= s.len(),
        fails_now(slot_den(s[j as int])),
        forall|k: int| 0 <= k < j ==> !fails_now(slot_den(#[trigger] s[k])),
    ensures
        slots_den(s, n) == (0nat, Err::<Seq<Seq<ValueV>>, Error>(slot_den(s[j as int]).1->Err_0)),
    decreases n,
{
    if n == j + 1 {
        lemma_slots_no_failure(s, j);
    } else {
        lemma_slots_first_failure(s, j, (n - 1) as nat);
    }
}

proof fn lemma_slots_ready(s: Seq<MaybeDone>, n: nat)
    requires
        n <= s.len(),
        forall|k: int| 0 <= k < n ==> (#[trigger] slot_den(s[k])).0 == 0 && slot_den(s[k]).1 is Ok,
    ensures
        slots_den(s, n).0 == 0,
        slots_den(s, n).1 == Ok::<Seq<Seq<ValueV>>, Error>(
            Seq::new(n, |k: int| slot_den(s[k]).1->Ok_0),
        ),
    decreases n,
{
    if n == 0 {
        assert(Seq::new(n, |k: int| slot_den(s[k]).1->Ok_0) =~= seq![]);
    } else {
        lemma_slots_ready(s, (n - 1) as nat);
        let prev = Seq::new((n - 1) as nat, |k: int| slot_den(s[k]).1->Ok_0);
        assert(slots_den(s, (n - 1) as nat).1 == Ok::<Seq<Seq<ValueV>>, Error>(prev));
        let d = slot_den(s[n - 1]);
        assert(d.0 == 0 && d.1 is Ok);
        assert(slots_den(s, n) == race(0nat, Ok::<Seq<Seq<ValueV>>, Error>(prev), d.0, d.1, prev.push(d.1->Ok_0)));
        assert(prev.push(slot_den(s[n - 1]).1->Ok_0) =~= Seq::new(n, |k: int| slot_den(s[k]).1->Ok_0));
    }
}

proof fn lemma_slots_zero(s: Seq<MaybeDone>, n: nat)
    requires
        n <= s.len(),
        forall|k: int| 0 <= k < n ==> !fails_now(slot_den(#[trigger] s[k])),
    ensures
        slots_den(s, n).0 == 0 ==> forall|k: int| 0 <= k < n ==> (#[trigger] slot_den(s[k])).0 == 0,
    decreases n,
{
    if n > 0 {
        lemma_slots_zero(s, (n - 1) as nat);
        lemma_slots_no_failure(s, (n - 1) as nat);
        assert(!fails_now(slot_den(s[n - 1])));
    }
}

/// The empty tuple.
pub fn unit() -> (r: Vec<Value>)
    ensures
        tuple_model(r) == Seq::<ValueV>::empty(),
{
    let r: Vec<Value> = Vec::new();
    proof {
        lemma_tuple_model(r);
        assert(tuple_model(r) =~= Seq::<ValueV>::empty());
    }
    r
}

/// The tuple that holds `v` alone.
pub fn single(v: Value) -> (r: Vec<Value>)
    ensures
        tuple_model(r) == seq![value_view(v)],
{
    let mut r: Vec<Value> = Vec::new();
    r.push(v);
    proof {
        lemma_tuple_model(r);
        assert(tuple_model(r) =~= seq![value_view(r[0])]);
    }
    r
}

/// Concatenates two tuples.
fn concat(a: Vec<Value>, b: Vec<Value>) -> (r: Vec<Value>)
    ensures
        tuple_model(r) == tuple_model(a) + tuple_model(b),
{
    let mut a = a;
    let mut b = b;
    let ghost a0 = a;
    let ghost b0 = b;
    a.append(&mut b);
    proof {
        lemma_tuple_model(a);
        lemma_tuple_model(a0);
        lemma_tuple_model(b0);
        assert(tuple_model(a) =~= tuple_model(a0) + tuple_model(b0));
    }
    a
}

/// One poll of a leaf that is ready after `delay` polls.
fn poll_leaf(delay: u64, outcome: Result<Vec<Value>, Error>) -> (r: (Task, Poll<Result<Vec<Value>, Error>>))
    ensures
        poll_step(Task::Leaf { delay, outcome }, r.0, r.1),
{
    if delay == 0 {
        (Task::Spent, Poll::Ready(outcome))
    } else {
        (Task::Leaf { delay: delay - 1, outcome }, Poll::Pending)
    }
}

/// One poll of a slot: `Ok(true)` once it holds its value, `Ok(false)`
/// while it runs, and the failure of its task when it fails now.
fn poll_slot(s: MaybeDone) -> (r: (MaybeDone, Result<bool, Error>))
    requires
        slot_live(s),
    ensures
        fails_now(slot_den(s)) ==> r.1 == Err::<bool, Error>(slot_den(s).1->Err_0),
        !fails_now(slot_den(s)) ==> {
            &&& r.1 == Ok::<bool, Error>(slot_den(s).0 == 0)
            &&& slot_live(r.0)
            &&& slot_den(r.0) == shift(slot_den(s))
            &&& (slot_den(s).0 == 0 ==> r.0 is Done)
        },
    decreases s,
{
    match s {
        MaybeDone::Pending(t) => {
            let (t2, p) = poll_task_owned(t);
            match p {
                Poll::Pending => (MaybeDone::Pending(t2), Ok(false)),
                Poll::Ready(Ok(v)) => (MaybeDone::Done(v), Ok(true)),
                Poll::Ready(Err(e)) => (MaybeDone::Taken, Err(e)),
            }
        },
        MaybeDone::Done(v) => (MaybeDone::Done(v), Ok(true)),
        MaybeDone::Taken => (MaybeDone::Taken, Ok(true)),
    }
}

/// Takes the values out of slots that are all done, in order.
fn take_values(slots: Vec<MaybeDone>) -> (r: Vec<Vec<Value>>)
    requires
        forall|k: int| 0 <= k < slots.len() ==> #[trigger] slots[k] is Done,
    ensures
        list_model(r) == Seq::new(slots.len() as nat, |k: int| slot_den(slots[k]).1->Ok_0),
{
    let ghost orig = slots@;
    let mut rest = slots;
    let mut out: Vec<Vec<Value>> = Vec::new();
    while rest.len() > 0
        invariant
            out.len() + rest.len() == orig.len(),
            rest@ == orig.subrange(out.len() as int, orig.len() as int),
            forall|k: int| 0 <= k < orig.len() ==> #[trigger] orig[k] is Done,
            forall|k: int| 0 <= k < out.len() ==> #[trigger] tuple_model(out[k]) == slot_den(orig[k]).1->Ok_0,
        decreases rest.len(),
    {
        let s = rest.remove(0);
        match s {
            MaybeDone::Done(v) => {
                out.push(v);
            },
            _ => vstd::pervasive::unreached(),
        }
    }
    proof {
        lemma_list_model(out);
        assert(list_model(out) =~= Seq::new(orig.len() as nat, |k: int| slot_den(orig[k]).1->Ok_0));
    }
    out
}

/// One poll of a live task, taken by value: the task that remains and
/// what the poll reports.
fn poll_task_owned(t: Task) -> (r: (Task, Poll<Result<Vec<Value>, Error>>))
    requires
        task_live(t),
    ensures
        poll_step(t, r.0, r.1),
    decreases t,
{
    let ghost t0 = t;
    match t {
        Task::Leaf { delay, outcome } => poll_leaf(delay, outcome),
        Task::And(a, b) => {
            let (a2, ra) = poll_slot(*a);
            let da = match ra {
                Err(e) => {
                    return (Task::Spent, Poll::Ready(Err(e)));
                },
                Ok(d) => d,
            };
            let (b2, rb) = poll_slot(*b);
            let db = match rb {
                Err(e) => {
                    return (Task::Spent, Poll::Ready(Err(e)));
                },
                Ok(d) => d,
            };
            if da && db {
                match (a2, b2) {
                    (MaybeDone::Done(v1), MaybeDone::Done(v2)) => {
                        (Task::Spent, Poll::Ready(Ok(concat(v1, v2))))
                    },
                    _ => vstd::pervasive::unreached(),
                }
            } else {
                (Task::And(Box::new(a2), Box::new(b2)), Poll::Pending)
            }
        },
        Task::All(slots) => {
            let ghost orig = slots@;
            let ghost slots0 = slots;
            proof {
                lemma_slots_live(orig, orig.len() as nat);
            }
            let mut rest = slots;
            let mut polled: Vec<MaybeDone> = Vec::new();
            let mut all_done = true;
            while rest.len() > 0
                invariant
                    t0 == Task::All(slots0),
                    t == t0,
                    orig == slots0@,
                    polled.len() + rest.len() == orig.len(),
                    rest@ == orig.subrange(polled.len() as int, orig.len() as int),
                    forall|k: int| 0 <= k < orig.len() ==> slot_live(#[trigger] orig[k]),
                    forall|k: int| 0 <= k < polled.len() ==> !fails_now(slot_den(#[trigger] orig[k])),
                    forall|k: int|
                        0 <= k < polled.len() ==> slot_live(#[trigger] polled[k]) && slot_den(polled[k])
                            == shift(slot_den(orig[k])),
                    forall|k: int|
                        0 <= k < polled.len() ==> (slot_den(#[trigger] orig[k]).0 == 0 ==> polled[k] is Done),
                    all_done == forall|k: int| 0 <= k < polled.len() ==> slot_den(#[trigger] orig[k]).0 == 0,
                decreases rest.len(),
            {
                let s = rest.remove(0);
                let ghost j = polled.len() as int;
                assert(s == orig[j]);
                proof {
                    assert(decreases_to!(t0 => t0->All_0));
                    assert(decreases_to!(slots0 => slots0[j]));
                    assert(decreases_to!(t0 => s));
                }
                let (s2, r) = poll_slot(s);
                match r {
                    Err(e) => {
                        proof {
                            lemma_slots_first_failure(orig, j as nat, orig.len() as nat);
                        }
                        return (Task::Spent, Poll::Ready(Err(e)));
                    },
                    Ok(d) => {
                        all_done = all_done && d;
                        polled.push(s2);
                    },
                }
            }
            proof {
                lemma_slots_shift(orig, polled@, orig.len() as nat);
                lemma_slots_zero(orig, orig.len() as nat);
                lemma_slots_live(polled@, polled.len() as nat);
            }
            if all_done {
                proof {
                    lemma_slots_ready(orig, orig.len() as nat);
                    lemma_slots_ready(polled@, polled.len() as nat);
                    assert(Seq::new(orig.len() as nat, |k: int| slot_den(orig[k]).1->Ok_0)
                        =~= Seq::new(polled.len() as nat, |k: int| slot_den(polled@[k]).1->Ok_0));
                }
                let ghost p = polled;
                let l = take_values(polled);
                proof {
                    assert(Seq::new(p.len() as nat, |k: int| slot_den(p[k]).1->Ok_0)
                        =~= Seq::new(p.len() as nat, |k: int| slot_den(p@[k]).1->Ok_0));
                }
                (Task::Spent, Poll::Ready(Ok(single(Value::List(l)))))
            } else {
                (Task::All(polled), Poll::Pending)
            }
        },
        Task::Either(t, right) => {
            let (t2, p) = poll_task_owned(*t);
            match p {
                Poll::Pending => (Task::Either(Box::new(t2), right), Poll::Pending),
                Poll::Ready(Ok(v)) => {
                    let w = if right {
                        Value::Right(v)
                    } else {
                        Value::Left(v)
                    };
                    (Task::Spent, Poll::Ready(Ok(single(w))))
                },
                Poll::Ready(Err(e)) => (Task::Spent, Poll::Ready(Err(e))),
            }
        },
        Task::Lift(o) => match o {
            None => (Task::Spent, Poll::Ready(Ok(single(Value::Optional(None))))),
            Some(t) => {
                let (t2, p) = poll_task_owned(*t);
                match p {
                    Poll::Pending => (Task::Lift(Some(Box::new(t2))), Poll::Pending),
                    Poll::Ready(Ok(v)) => (
                        Task::Spent,
                        Poll::Ready(Ok(single(Value::Optional(Some(v))))),
                    ),
                    Poll::Ready(Err(e)) => (Task::Spent, Poll::Ready(Err(e))),
                }
            },
        },
        Task::Chain(mode, t, f) => {
            let (t2, p) = poll_task_owned(*t);
            match p {
                Poll::Pending => (Task::Chain(mode, Box::new(t2), f), Poll::Pending),
                Poll::Ready(o) => {
                    if applies(mode, &o) {
                        let (delay, outcome) = f.start(o);
                        poll_leaf(delay, outcome)
                    } else {
                        (Task::Spent, Poll::Ready(o))
                    }
                },
            }
        },
        Task::Spent => vstd::pervasive::unreached(),
    }
}

/// Tasks that run side by side and all succeed deliver their values in
/// slot order, whichever of them is ready first.
pub proof fn lemma_all_in_order(s: Seq<MaybeDone>, n: nat)
    requires
        n <= s.len(),
        forall|k: int| 0 <= k < n ==> (#[trigger] slot_den(s[k])).1 is Ok,
    ensures
        slots_den(s, n).1 == Ok::<Seq<Seq<ValueV>>, Error>(Seq::new(n, |k: int| slot_den(s[k]).1->Ok_0)),
    decreases n,
{
    if n == 0 {
        assert(Seq::new(n, |k: int| slot_den(s[k]).1->Ok_0) =~= seq![]);
    } else {
        lemma_all_in_order(s, (n - 1) as nat);
        let prev = Seq::new((n - 1) as nat, |k: int| slot_den(s[k]).1->Ok_0);
        assert(slots_den(s, (n - 1) as nat).1 == Ok::<Seq<Seq<ValueV>>, Error>(prev));
        assert(slot_den(s[n - 1]).1 is Ok);
        assert(prev.push(slot_den(s[n - 1]).1->Ok_0) =~= Seq::new(n, |k: int| slot_den(s[k]).1->Ok_0));
    }
}

/// When the first of two tasks that run side by side fails at the first
/// poll, their pair fails at the first poll with that failure, however long
/// the second one would take.
pub proof fn lemma_and_fails_first(t1: Task, t2: Task, e: Error)
    requires
        task_den(t1) == (0nat, Err::<Seq<ValueV>, Error>(e)),
    ensures
        task_den(Task::And(Box::new(MaybeDone::Pending(t1)), Box::new(MaybeDone::Pending(t2)))) == (
            0nat,
            Err::<Seq<ValueV>, Error>(e),
        ),
{
    assert(slot_den(MaybeDone::Pending(t1)) == task_den(t1));
}

impl Task {
    /// A task that is ready with `outcome` after `delay` polls.
    pub fn leaf(delay: u64, outcome: Result<Vec<Value>, Error>) -> (r: Task)
        ensures
            task_live(r),
            task_den(r) == (delay as nat, outcome_view(outcome)),
    {
        Task::Leaf { delay, outcome }
    }

    /// Polls the task until it is ready and returns its outcome.
    pub fn run(self) -> (r: Result<Vec<Value>, Error>)
        requires
            task_live(self),
        ensures
            outcome_view(r) == task_den(self).1,
    {
        let ghost goal = task_den(self).1;
        let mut t = self;
        loop
            invariant
                task_live(t),
                task_den(t).1 == goal,
                goal == task_den(self).1,
            decreases task_den(t).0,
        {
            let p = t.poll_task();
            match p {
                Poll::Ready(o) => {
                    return o;
                },
                Poll::Pending => {},
            }
        }
    }

    /// Polls the task once. A task that is due gives its outcome and is
    /// spent; another one reports `Pending` and is due one poll sooner.
    pub fn poll_task(&mut self) -> (r: Poll<Result<Vec<Value>, Error>>)
        requires
            task_live(*old(self)),
        ensures
            poll_step(*old(self), *final(self), r),
    {
        let mut t = Task::Spent;
        core::mem::swap(&mut t, self);
        let (next, r) = poll_task_owned(t);
        *self = next;
        r
    }
}

} // verus!
