use vstd::prelude::*;

verus! {

broadcast use vstd::std_specs::vec::axiom_vec_index_decreases;

/// A value produced by an endpoint. The output of a task is a tuple of
/// values, held as a `Vec<Value>`.
#[derive(Debug, PartialEq)]
pub enum Value {
    Bool(bool),
    Uint(u64),
    Text(String),
    Bytes(Vec<u8>),
    /// An ordered collection of tuples.
    List(Vec<Vec<Value>>),
    /// A tuple that may be absent.
    Optional(Option<Vec<Value>>),
    /// The output of the first of two alternatives.
    Left(Vec<Value>),
    /// The output of the second of two alternatives.
    Right(Vec<Value>),
}

/// The mathematical value of a [`Value`].
pub enum ValueV {
    Bool(bool),
    Uint(u64),
    Text(Seq<char>),
    Bytes(Seq<u8>),
    List(Seq<Seq<ValueV>>),
    Optional(Option<Seq<ValueV>>),
    Left(Seq<ValueV>),
    Right(Seq<ValueV>),
}

pub open spec fn value_view(v: Value) -> ValueV
    decreases v, 0nat,
{
    match v {
        Value::Bool(b) => ValueV::Bool(b),
        Value::Uint(n) => ValueV::Uint(n),
        Value::Text(s) => ValueV::Text(s@),
        Value::Bytes(b) => ValueV::Bytes(b@),
        Value::List(l) => ValueV::List(list_view(l, l.len() as nat)),
        Value::Optional(o) => match o {
            None => ValueV::Optional(None),
            Some(t) => ValueV::Optional(Some(tuple_view(t, t.len() as nat))),
        },
        Value::Left(t) => ValueV::Left(tuple_view(t, t.len() as nat)),
        Value::Right(t) => ValueV::Right(tuple_view(t, t.len() as nat)),
    }
}

/// The values of the first `n` items of `t`.
pub open spec fn tuple_view(t: Vec<Value>, n: nat) -> Seq<ValueV>
    decreases t, n,
{
    if n == 0 || n > t.len() {
        seq![]
    } else {
        tuple_view(t, (n - 1) as nat).push(value_view(t[n - 1]))
    }
}

/// The values of the first `n` tuples of `l`.
pub open spec fn list_view(l: Vec<Vec<Value>>, n: nat) -> Seq<Seq<ValueV>>
    decreases l, n,
{
    if n == 0 || n > l.len() {
        seq![]
    } else {
        list_view(l, (n - 1) as nat).push(tuple_view(l[n - 1], l[n - 1].len() as nat))
    }
}

/// The mathematical value of a tuple.
pub open spec fn tuple_model(t: Vec<Value>) -> Seq<ValueV> {
    tuple_view(t, t.len() as nat)
}

/// The mathematical value of a list of tuples.
pub open spec fn list_model(l: Vec<Vec<Value>>) -> Seq<Seq<ValueV>> {
    list_view(l, l.len() as nat)
}

pub proof fn lemma_tuple_view(t: Vec<Value>, n: nat)
    requires
        n <= t.len(),
    ensures
        tuple_view(t, n).len() == n,
        forall|i: int| 0 <= i < n ==> #[trigger] tuple_view(t, n)[i] == value_view(t[i]),
    decreases n,
{
    if n > 0 {
        lemma_tuple_view(t, (n - 1) as nat);
    }
}

pub proof fn lemma_list_view(l: Vec<Vec<Value>>, n: nat)
    requires
        n <= l.len(),
    ensures
        list_view(l, n).len() == n,
        forall|i: int| 0 <= i < n ==> #[trigger] list_view(l, n)[i] == tuple_model(l[i]),
    decreases n,
{
    if n > 0 {
        lemma_list_view(l, (n - 1) as nat);
    }
}

/// Two tuples whose items have the same values have the same value.
pub proof fn lemma_tuple_model_eq(a: Vec<Value>, b: Vec<Value>)
    requires
        a.len() == b.len(),
        forall|i: int| 0 <= i < a.len() ==> value_view(#[trigger] a[i]) == value_view(b[i]),
    ensures
        tuple_model(a) == tuple_model(b),
{
    lemma_tuple_view(a, a.len() as nat);
    lemma_tuple_view(b, b.len() as nat);
    assert(tuple_model(a) =~= tuple_model(b));
}

/// The value of a tuple, item by item.
pub proof fn lemma_tuple_model(t: Vec<Value>)
    ensures
        tuple_model(t).len() == t.len(),
        forall|i: int| 0 <= i < t.len() ==> #[trigger] tuple_model(t)[i] == value_view(t[i]),
{
    lemma_tuple_view(t, t.len() as nat);
}

/// The value of a list of tuples, tuple by tuple.
pub proof fn lemma_list_model(l: Vec<Vec<Value>>)
    ensures
        list_model(l).len() == l.len(),
        forall|i: int| 0 <= i < l.len() ==> #[trigger] list_model(l)[i] == tuple_model(l[i]),
{
    lemma_list_view(l, l.len() as nat);
}

impl Value {
    /// Returns a copy of this value.
    pub fn copy(&self) -> (r: Value)
        ensures
            value_view(r) == value_view(*self),
        decreases self,
    {
        match self {
            Value::Bool(b) => Value::Bool(*b),
            Value::Uint(n) => Value::Uint(*n),
            Value::Text(s) => Value::Text(s.clone()),
            Value::Bytes(b) => Value::Bytes(copy_bytes(b)),
            Value::List(l) => {
                let mut out: Vec<Vec<Value>> = Vec::new();
                let mut i: usize = 0;
                while i < l.len()
                    invariant
                        *self == Value::List(*l),
                        i <= l.len(),
                        out.len() == i,
                        forall|k: int| 0 <= k < i ==> #[trigger] tuple_model(out[k]) == tuple_model(l[k]),
                    decreases l.len() - i,
                {
                    proof {
                        assert(decreases_to!(*self => (*self)->List_0));
                        assert(decreases_to!(*l => l[i as int]));
                        assert(decreases_to!(*self => l[i as int]));
                    }
                    let t = copy_tuple(&l[i]);
                    out.push(t);
                    i = i + 1;
                }
                proof {
                    lemma_list_model(out);
                    lemma_list_model(*l);
                    assert(list_model(out) =~= list_model(*l));
                }
                Value::List(out)
            },
            Value::Optional(o) => match o {
                None => Value::Optional(None),
                Some(t) => Value::Optional(Some(copy_tuple(t))),
            },
            Value::Left(t) => Value::Left(copy_tuple(t)),
            Value::Right(t) => Value::Right(copy_tuple(t)),
        }
    }
}

/// Returns a copy of a byte string.
pub fn copy_bytes(b: &Vec<u8>) -> (r: Vec<u8>)
    ensures
        r@ == b@,
{
    let mut out: Vec<u8> = Vec::new();
    let mut i: usize = 0;
    while i < b.len()
        invariant
            i <= b.len(),
            out@ == b@.subrange(0, i as int),
        decreases b.len() - i,
    {
        out.push(b[i]);
        i = i + 1;
        assert(out@ =~= b@.subrange(0, i as int));
    }
    assert(b@.subrange(0, b.len() as int) =~= b@);
    out
}

/// Returns a copy of a tuple.
pub fn copy_tuple(t: &Vec<Value>) -> (r: Vec<Value>)
    ensures
        tuple_model(r) == tuple_model(*t),
    decreases t,
{
    let mut out: Vec<Value> = Vec::new();
    let mut i: usize = 0;
    while i < t.len()
        invariant
            i <= t.len(),
            out.len() == i,
            forall|k: int| 0 <= k < i ==> #[trigger] value_view(out[k]) == value_view(t[k]),
        decreases t.len() - i,
    {
        let v = t[i].copy();
        out.push(v);
        i = i + 1;
    }
    proof {
        lemma_tuple_model_eq(out, *t);
    }
    out
}

} // verus!
