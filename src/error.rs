use vstd::prelude::*;
use vstd::string::*;

verus! {

/// The HTTP request methods that routing tells apart.
#[derive(Debug, Copy, Clone, PartialEq, Eq, Structural, Hash)]
pub enum Method {
    Get,
    Post,
    Put,
    Delete,
    Head,
    Options,
    Connect,
    Patch,
    Trace,
}

/// The position of `m` in a set of methods.
pub open spec fn method_index(m: Method) -> u16 {
    match m {
        Method::Get => 0,
        Method::Post => 1,
        Method::Put => 2,
        Method::Delete => 3,
        Method::Head => 4,
        Method::Options => 5,
        Method::Connect => 6,
        Method::Patch => 7,
        Method::Trace => 8,
    }
}

/// The bit that stands for `m` in a set of methods.
pub open spec fn method_bit(m: Method) -> u16 {
    1u16 << method_index(m)
}

proof fn lemma_method_bits(m: Method, k: Method)
    ensures
        method_bit(m) != 0,
        m != k ==> method_bit(m) & method_bit(k) == 0,
{
    let i = method_index(m);
    let j = method_index(k);
    assert(i < 16 ==> (1u16 << i) != 0) by (bit_vector);
    assert(i < 16 && j < 16 && i != j ==> ((1u16 << i) & (1u16 << j)) == 0) by (bit_vector);
}

fn bit_of(m: Method) -> (r: u16)
    ensures
        r == method_bit(m),
{
    let i: u16 = match m {
        Method::Get => 0,
        Method::Post => 1,
        Method::Put => 2,
        Method::Delete => 3,
        Method::Head => 4,
        Method::Options => 5,
        Method::Connect => 6,
        Method::Patch => 7,
        Method::Trace => 8,
    };
    1u16 << i
}

/// A set of HTTP methods, such as the methods that a route allows.
#[derive(Debug, Copy, Clone, PartialEq, Eq)]
pub struct Verbs {
    bits: u16,
}

impl View for Verbs {
    type V = Set<Method>;

    closed spec fn view(&self) -> Set<Method> {
        Set::new(|m: Method| self.bits & method_bit(m) != 0)
    }
}

impl Verbs {
    /// The empty set.
    pub fn none() -> (r: Verbs)
        ensures
            r@ == Set::<Method>::empty(),
    {
        let r = Verbs { bits: 0 };
        assert(r@ =~= Set::<Method>::empty()) by {
            assert forall|m: Method| !r@.contains(m) by {
                let b = method_bit(m);
                assert((0u16 & b) == 0) by (bit_vector);
            }
        }
        r
    }

    /// The set that holds `m` alone.
    pub fn single(m: Method) -> (r: Verbs)
        ensures
            r@ == Set::<Method>::empty().insert(m),
    {
        let r = Verbs { bits: bit_of(m) };
        assert(r@ =~= Set::<Method>::empty().insert(m)) by {
            assert forall|k: Method| r@.contains(k) == (k == m) by {
                let a = method_bit(m);
                lemma_method_bits(m, k);
                assert(a != 0 ==> (a & a) != 0) by (bit_vector);
            }
        }
        r
    }

    /// Returns whether `m` is in the set.
    pub fn contains(&self, m: Method) -> (r: bool)
        ensures
            r == self@.contains(m),
    {
        self.bits & bit_of(m) != 0
    }

    /// The union of two sets.
    pub closed spec fn spec_union(self, other: Verbs) -> Verbs {
        Verbs { bits: self.bits | other.bits }
    }

    /// The union of two sets holds the methods that either holds.
    pub proof fn lemma_union(self, other: Verbs)
        ensures
            self.spec_union(other)@ == self@.union(other@),
    {
        let r = self.spec_union(other);
        assert(r@ =~= self@.union(other@)) by {
            assert forall|m: Method| r@.contains(m) == (self@.contains(m) || other@.contains(m)) by {
                let x = self.bits;
                let y = other.bits;
                let b = method_bit(m);
                assert(((x | y) & b != 0) == ((x & b != 0) || (y & b != 0))) by (bit_vector);
            }
        }
    }

    /// The union of two sets.
    pub fn union(self, other: Verbs) -> (r: Verbs)
        ensures
            r == self.spec_union(other),
            r@ == self@.union(other@),
    {
        proof {
            self.lemma_union(other);
        }
        Verbs { bits: self.bits | other.bits }
    }

    /// The set with `m` added.
    pub fn with(self, m: Method) -> (r: Verbs)
        ensures
            r@ == self@.insert(m),
    {
        let r = self.union(Verbs::single(m));
        assert(r@ =~= self@.insert(m));
        r
    }
}

/// The method at position `i` of a set of methods.
pub open spec fn method_at(i: int) -> Method {
    if i <= 0 {
        Method::Get
    } else if i == 1 {
        Method::Post
    } else if i == 2 {
        Method::Put
    } else if i == 3 {
        Method::Delete
    } else if i == 4 {
        Method::Head
    } else if i == 5 {
        Method::Options
    } else if i == 6 {
        Method::Connect
    } else if i == 7 {
        Method::Patch
    } else {
        Method::Trace
    }
}

/// The name of a method, as it stands in a request line.
pub open spec fn method_name(m: Method) -> Seq<char> {
    match m {
        Method::Get => "GET"@,
        Method::Post => "POST"@,
        Method::Put => "PUT"@,
        Method::Delete => "DELETE"@,
        Method::Head => "HEAD"@,
        Method::Options => "OPTIONS"@,
        Method::Connect => "CONNECT"@,
        Method::Patch => "PATCH"@,
        Method::Trace => "TRACE"@,
    }
}

/// The names of the methods of `v` among the first `n` positions, in
/// order, each after a `, ` but the first.
pub open spec fn method_list(v: Set<Method>, n: nat) -> Seq<char>
    decreases n,
{
    if n == 0 {
        seq![]
    } else {
        let prev = method_list(v, (n - 1) as nat);
        if v.contains(method_at(n - 1)) {
            if prev.len() == 0 {
                method_name(method_at(n - 1))
            } else {
                prev + ", "@ + method_name(method_at(n - 1))
            }
        } else {
            prev
        }
    }
}

fn name_of(m: Method) -> (r: &'static str)
    ensures
        r@ == method_name(m),
{
    match m {
        Method::Get => "GET",
        Method::Post => "POST",
        Method::Put => "PUT",
        Method::Delete => "DELETE",
        Method::Head => "HEAD",
        Method::Options => "OPTIONS",
        Method::Connect => "CONNECT",
        Method::Patch => "PATCH",
        Method::Trace => "TRACE",
    }
}

fn method_of(i: usize) -> (r: Method)
    requires
        i < 9,
    ensures
        r == method_at(i as int),
{
    if i == 0 {
        Method::Get
    } else if i == 1 {
        Method::Post
    } else if i == 2 {
        Method::Put
    } else if i == 3 {
        Method::Delete
    } else if i == 4 {
        Method::Head
    } else if i == 5 {
        Method::Options
    } else if i == 6 {
        Method::Connect
    } else if i == 7 {
        Method::Patch
    } else {
        Method::Trace
    }
}

impl Verbs {
    /// The value of an `Allow` header for this set: the method names in a
    /// fixed order, separated by `, `.
    pub fn allow_header(&self) -> (r: String)
        ensures
            r@ == method_list(self@, 9),
    {
        let mut out = String::new();
        let mut i: usize = 0;
        while i < 9
            invariant
                i <= 9,
                out@ == method_list(self@, i as nat),
            decreases 9 - i,
        {
            let m = method_of(i);
            if self.contains(m) {
                if out.unicode_len() > 0 {
                    out.append(", ");
                }
                out.append(name_of(m));
            }
            i = i + 1;
        }
        out
    }
}

/// Why a request addressed to a route is malformed.
#[derive(Debug, Copy, Clone, PartialEq, Eq)]
pub enum InvalidRequest {
    /// A required header is absent.
    MissingHeader(&'static str),
    /// The query string is absent.
    MissingQuery,
    /// A path segment does not convert to the requested type.
    InvalidParam,
}

/// The kinds of routing errors.
#[derive(Debug, Copy, Clone, PartialEq, Eq)]
pub enum EndpointErrorKind {
    /// The route does not match the request.
    NotMatched,
    /// The route matches, but not with the request's method.
    MethodNotAllowed(Verbs),
    /// The route matches, but the request is malformed.
    InvalidRequest(InvalidRequest),
}

/// A routing error, returned while an endpoint is applied to a request
/// and before any task exists.
#[derive(Debug, Copy, Clone, PartialEq, Eq)]
pub struct EndpointError {
    kind: EndpointErrorKind,
}

/// What merging two routing errors gives, `a` from the first alternative
/// and `b` from the second: an invalid request dominates (the first one
/// wins), a method mismatch beats a miss, and two method mismatches allow
/// the methods that either allows.
pub open spec fn is_merge_of(a: EndpointErrorKind, b: EndpointErrorKind, r: EndpointErrorKind) -> bool {
    match a {
        EndpointErrorKind::InvalidRequest(_) => r == a,
        EndpointErrorKind::NotMatched => r == b,
        EndpointErrorKind::MethodNotAllowed(va) => match b {
            EndpointErrorKind::NotMatched => r == a,
            EndpointErrorKind::InvalidRequest(_) => r == b,
            EndpointErrorKind::MethodNotAllowed(vb) => r matches EndpointErrorKind::MethodNotAllowed(
                vr,
            ) && vr@ == va@.union(vb@),
        },
    }
}

/// The error that merging two routing errors gives, `a` from the first
/// alternative and `b` from the second.
pub open spec fn merge_kind(a: EndpointErrorKind, b: EndpointErrorKind) -> EndpointErrorKind {
    match a {
        EndpointErrorKind::InvalidRequest(_) => a,
        EndpointErrorKind::NotMatched => b,
        EndpointErrorKind::MethodNotAllowed(va) => match b {
            EndpointErrorKind::NotMatched => a,
            EndpointErrorKind::InvalidRequest(_) => b,
            EndpointErrorKind::MethodNotAllowed(vb) => EndpointErrorKind::MethodNotAllowed(
                va.spec_union(vb),
            ),
        },
    }
}

/// Merging follows the precedence of routing errors: an invalid request
/// dominates, a method mismatch beats a miss, and two method mismatches
/// allow the methods that either allows.
pub proof fn lemma_merge_precedence(a: EndpointErrorKind, b: EndpointErrorKind)
    ensures
        is_merge_of(a, b, merge_kind(a, b)),
{
    if let (EndpointErrorKind::MethodNotAllowed(va), EndpointErrorKind::MethodNotAllowed(vb)) = (a, b) {
        va.lemma_union(vb);
    }
}

/// The text that describes a routing error; with `detailed`, a method
/// mismatch lists the allowed methods.
pub open spec fn error_text(k: EndpointErrorKind, detailed: bool) -> Seq<char> {
    match k {
        EndpointErrorKind::NotMatched => "not matched"@,
        EndpointErrorKind::MethodNotAllowed(v) => if detailed {
            "method not allowed (allowed methods: "@ + method_list(v@, 9) + ")"@
        } else {
            "method not allowed"@
        },
        EndpointErrorKind::InvalidRequest(InvalidRequest::MissingHeader(name)) => "missing header: `"@
            + name@ + "'"@,
        EndpointErrorKind::InvalidRequest(InvalidRequest::MissingQuery) => "missing query"@,
        EndpointErrorKind::InvalidRequest(InvalidRequest::InvalidParam) => "invalid path parameter"@,
    }
}

/// The HTTP status of a routing error: 404, 405 or 400.
pub open spec fn kind_status(k: EndpointErrorKind) -> u16 {
    match k {
        EndpointErrorKind::NotMatched => 404,
        EndpointErrorKind::MethodNotAllowed(_) => 405,
        EndpointErrorKind::InvalidRequest(_) => 400,
    }
}

impl View for EndpointError {
    type V = EndpointErrorKind;

    closed spec fn view(&self) -> EndpointErrorKind {
        self.kind
    }
}

impl EndpointError {
    /// The route does not match the request.
    pub fn not_matched() -> (r: EndpointError)
        ensures
            r@ == EndpointErrorKind::NotMatched,
    {
        EndpointError { kind: EndpointErrorKind::NotMatched }
    }

    /// The route matches, but allows only the methods in `allowed`.
    pub fn method_not_allowed(allowed: Verbs) -> (r: EndpointError)
        ensures
            r@ == EndpointErrorKind::MethodNotAllowed(allowed),
    {
        EndpointError { kind: EndpointErrorKind::MethodNotAllowed(allowed) }
    }

    /// A required header is absent.
    pub fn missing_header(name: &'static str) -> (r: EndpointError)
        ensures
            r@ == EndpointErrorKind::InvalidRequest(InvalidRequest::MissingHeader(name)),
    {
        EndpointError { kind: EndpointErrorKind::InvalidRequest(InvalidRequest::MissingHeader(name)) }
    }

    /// The query string is absent.
    pub fn missing_query() -> (r: EndpointError)
        ensures
            r@ == EndpointErrorKind::InvalidRequest(InvalidRequest::MissingQuery),
    {
        EndpointError { kind: EndpointErrorKind::InvalidRequest(InvalidRequest::MissingQuery) }
    }

    /// A path segment does not convert to the requested type.
    pub fn invalid_param() -> (r: EndpointError)
        ensures
            r@ == EndpointErrorKind::InvalidRequest(InvalidRequest::InvalidParam),
    {
        EndpointError { kind: EndpointErrorKind::InvalidRequest(InvalidRequest::InvalidParam) }
    }

    /// Returns the kind of this error.
    pub fn kind(&self) -> (r: EndpointErrorKind)
        ensures
            r == self@,
    {
        self.kind
    }

    /// Merges the errors of two alternatives that both failed.
    pub fn merge(&self, other: &EndpointError) -> (r: EndpointError)
        ensures
            r@ == merge_kind(self@, other@),
            is_merge_of(self@, other@, r@),
    {
        proof {
            lemma_merge_precedence(self@, other@);
        }
        let kind = match (self.kind, other.kind) {
            (EndpointErrorKind::NotMatched, k) => k,
            (EndpointErrorKind::MethodNotAllowed(a), EndpointErrorKind::NotMatched) => {
                EndpointErrorKind::MethodNotAllowed(a)
            },
            (EndpointErrorKind::MethodNotAllowed(a), EndpointErrorKind::MethodNotAllowed(b)) => {
                EndpointErrorKind::MethodNotAllowed(a.union(b))
            },
            (EndpointErrorKind::MethodNotAllowed(_), EndpointErrorKind::InvalidRequest(reason)) => {
                EndpointErrorKind::InvalidRequest(reason)
            },
            (EndpointErrorKind::InvalidRequest(reason), _) => EndpointErrorKind::InvalidRequest(
                reason,
            ),
        };
        EndpointError { kind }
    }

    /// Describes this error; with `detailed`, a method mismatch lists the
    /// allowed methods.
    pub fn description(&self, detailed: bool) -> (r: String)
        ensures
            r@ == error_text(self@, detailed),
    {
        match self.kind {
            EndpointErrorKind::NotMatched => String::from_str("not matched"),
            EndpointErrorKind::MethodNotAllowed(v) => {
                if detailed {
                    let mut s = String::from_str("method not allowed (allowed methods: ");
                    let list = v.allow_header();
                    s.append(list.as_str());
                    s.append(")");
                    s
                } else {
                    String::from_str("method not allowed")
                }
            },
            EndpointErrorKind::InvalidRequest(InvalidRequest::MissingHeader(name)) => {
                let mut s = String::from_str("missing header: `");
                s.append(name);
                s.append("'");
                s
            },
            EndpointErrorKind::InvalidRequest(InvalidRequest::MissingQuery) => String::from_str(
                "missing query",
            ),
            EndpointErrorKind::InvalidRequest(InvalidRequest::InvalidParam) => String::from_str(
                "invalid path parameter",
            ),
        }
    }

    /// Returns the HTTP status that answers this error.
    pub fn status_code(&self) -> (r: u16)
        ensures
            r == kind_status(self@),
    {
        match self.kind {
            EndpointErrorKind::NotMatched => 404,
            EndpointErrorKind::MethodNotAllowed(_) => 405,
            EndpointErrorKind::InvalidRequest(_) => 400,
        }
    }
}

/// A failure of a running task.
#[derive(Debug, Copy, Clone, PartialEq, Eq)]
pub enum Error {
    /// A routing error, reported by a task instead of by routing.
    Endpoint(EndpointErrorKind),
    /// A failure with an HTTP status and a message.
    Http { status: u16, message: &'static str },
}

/// The HTTP status of a task failure.
pub open spec fn error_status(e: Error) -> u16 {
    match e {
        Error::Endpoint(k) => kind_status(k),
        Error::Http { status, .. } => status,
    }
}

impl Error {
    /// A failure that answers with status 400.
    pub fn bad_request(message: &'static str) -> (r: Error)
        ensures
            r == (Error::Http { status: 400, message }),
    {
        Error::Http { status: 400, message }
    }

    /// Turns a routing error into a task failure.
    pub fn from_endpoint_error(e: EndpointError) -> (r: Error)
        ensures
            r == Error::Endpoint(e@),
    {
        Error::Endpoint(e.kind())
    }

    /// Returns the HTTP status that answers this failure.
    pub fn status_code(&self) -> (r: u16)
        ensures
            r == error_status(*self),
    {
        match self {
            Error::Endpoint(k) => EndpointError { kind: *k }.status_code(),
            Error::Http { status, .. } => *status,
        }
    }
}

} // verus!
