use vstd::prelude::*;
use vstd::string::*;

use std::collections::VecDeque;

use crate::error::Method;
use crate::value::copy_bytes;
use crate::segments::{
    advance, drain, lemma_segment_end, next_text, rest_text, segment_end, start_of, Segments,
    SegmentsView,
};

verus! {

/// What routing reads of an incoming request.
#[derive(Debug)]
pub struct Request {
    pub method: Method,
    /// The path of the request target, such as `/foo/bar`.
    pub path: String,
    /// The query string, without its `?`.
    pub query: Option<String>,
    /// The header fields, names in lower case, in the order received.
    pub headers: Vec<(String, String)>,
    /// The body, which one endpoint at most may take.
    pub body: Vec<u8>,
}

impl Request {
    /// A request without header fields and with an empty body.
    pub fn new(method: Method, path: String, query: Option<String>) -> (r: Request)
        ensures
            r.method == method,
            r.path == path,
            r.query == query,
            r.headers@.len() == 0,
            r.body@.len() == 0,
    {
        Request { method, path, query, headers: Vec::new(), body: Vec::new() }
    }

    /// This request with one more header field.
    pub fn with_header(self, name: String, value: String) -> (r: Request)
        ensures
            r.method == self.method,
            r.path == self.path,
            r.query == self.query,
            r.headers@ == self.headers@.push((name, value)),
            r.body == self.body,
    {
        let mut r = self;
        r.headers.push((name, value));
        r
    }

    /// This request with the given body.
    pub fn with_body(self, body: Vec<u8>) -> (r: Request)
        ensures
            r.method == self.method,
            r.path == self.path,
            r.query == self.query,
            r.headers == self.headers,
            r.body == body,
    {
        let mut r = self;
        r.body = body;
        r
    }
}

/// The value of the first header field named `name`, if any.
pub open spec fn header_value(headers: Seq<(Seq<char>, Seq<char>)>, name: Seq<char>) -> Option<Seq<char>>
    decreases headers.len(),
{
    if headers.len() == 0 {
        None
    } else if headers[0].0 == name {
        Some(headers[0].1)
    } else {
        header_value(headers.drop_first(), name)
    }
}

/// The abstract state of a routing context: what it reads of the request,
/// whether the body was taken, and the cursor over the path.
pub struct ContextView {
    pub method: Method,
    pub headers: Seq<(Seq<char>, Seq<char>)>,
    pub body: Seq<u8>,
    pub body_taken: bool,
    pub cursor: SegmentsView,
}

/// The state of a fresh routing context over `request`.
pub open spec fn initial_context(request: Request) -> ContextView {
    ContextView {
        method: request.method,
        headers: pairs_view(request.headers@),
        body: request.body@,
        body_taken: false,
        cursor: SegmentsView { path: request.path@, pos: start_of(request.path@), popped: 0 },
    }
}

/// `c` with its cursor in state `cursor`.
pub open spec fn with_cursor(c: ContextView, cursor: SegmentsView) -> ContextView {
    ContextView { cursor, ..c }
}

/// The state of one routing pass over a request: the request, read only,
/// and the cursor over its path, which endpoints advance in turn.
pub struct EndpointContext<'a> {
    request: &'a Request,
    segments: Segments<'a>,
    body_taken: bool,
}

impl<'a> View for EndpointContext<'a> {
    type V = ContextView;

    closed spec fn view(&self) -> ContextView {
        ContextView {
            method: self.request.method,
            headers: pairs_view(self.request.headers@),
            body: self.request.body@,
            body_taken: self.body_taken,
            cursor: self.segments@,
        }
    }
}

impl<'a> EndpointContext<'a> {
    /// Starts routing `request`, with the cursor at its first segment.
    pub fn new(request: &'a Request) -> (r: EndpointContext<'a>)
        ensures
            r@ == initial_context(*request),
    {
        EndpointContext { request, segments: Segments::new(request.path.as_str()), body_taken: false }
    }

    /// Returns the value of the first header field named `name`.
    pub fn header(&self, name: &str) -> (r: Option<&'a String>)
        ensures
            r matches Some(v) ==> header_value(self@.headers, name@) == Some(v@),
            r is None ==> header_value(self@.headers, name@) is None,
    {
        let headers = &self.request.headers;
        let mut i: usize = 0;
        let ghost all = pairs_view(headers@);
        assert(all.subrange(0, all.len() as int) =~= all);
        while i < headers.len()
            invariant
                i <= headers.len(),
                all == pairs_view(headers@),
                all == self@.headers,
                all.len() == headers@.len(),
                header_value(all, name@) == header_value(all.subrange(i as int, all.len() as int), name@),
            decreases headers.len() - i,
        {
            let ghost rest = all.subrange(i as int, all.len() as int);
            assert(rest.drop_first() =~= all.subrange(i + 1, all.len() as int));
            assert(rest[0] == (headers@[i as int].0@, headers@[i as int].1@));
            if headers[i].0 == String::from_str(name) {
                assert(rest[0].0 == name@);
                assert(header_value(rest, name@) == Some(rest[0].1));
                return Some(&headers[i].1);
            }
            i = i + 1;
        }
        assert(all.subrange(i as int, all.len() as int) =~= seq![]);
        None
    }

    /// Takes the request body: the first call gets it, later ones get
    /// nothing.
    pub fn take_body(&mut self) -> (r: Option<Vec<u8>>)
        ensures
            final(self)@ == (ContextView { body_taken: true, ..old(self)@ }),
            old(self)@.body_taken ==> r is None,
            !old(self)@.body_taken ==> (r matches Some(b) && b@ == old(self)@.body),
    {
        if self.body_taken {
            None
        } else {
            self.body_taken = true;
            Some(copy_bytes(&self.request.body))
        }
    }

    /// Returns the request.
    pub fn request(&self) -> (r: &Request)
        ensures
            r.method == self@.method,
    {
        self.request
    }

    /// Returns the method of the request.
    pub fn method(&self) -> (r: Method)
        ensures
            r == self@.method,
    {
        self.request.method
    }

    /// Takes the next path segment.
    pub fn next_segment(&mut self) -> (r: Option<&'a str>)
        ensures
            final(self)@ == with_cursor(old(self)@, advance(old(self)@.cursor)),
            r is None <==> old(self)@.cursor.pos >= old(self)@.cursor.path.len(),
            r matches Some(s) ==> s@ == next_text(old(self)@.cursor),
    {
        let r = self.segments.next();
        proof {
            lemma_segment_end(old(self)@.cursor.path, old(self)@.cursor.pos as int);
        }
        match r {
            Some(s) => Some(s.as_encoded_str()),
            None => None,
        }
    }

    /// Returns the part of the path that is not yet read.
    pub fn remaining_path(&self) -> (r: &'a str)
        ensures
            r@ == rest_text(self@.cursor),
    {
        self.segments.remaining_path()
    }

    /// Returns the offset of the cursor in the path.
    pub fn position(&self) -> (r: usize)
        ensures
            r == self@.cursor.pos,
            r <= self@.cursor.path.len(),
    {
        self.segments.position()
    }

    /// Returns the cursor, to be put back with `set_cursor`.
    pub fn cursor(&self) -> (r: Segments<'a>)
        ensures
            r@ == self@.cursor,
    {
        self.segments
    }

    /// Puts back a cursor.
    pub fn set_cursor(&mut self, segments: Segments<'a>)
        ensures
            final(self)@ == with_cursor(old(self)@, segments@),
    {
        self.segments = segments;
    }

    /// Takes every remaining segment.
    pub fn drain(&mut self)
        ensures
            final(self)@ == with_cursor(old(self)@, drain(old(self)@.cursor)),
    {
        self.segments.drain();
    }

    /// Returns the cursor over the remaining segments and leaves none of
    /// them to this context.
    pub fn take_segments(&mut self) -> (r: Segments<'a>)
        ensures
            r@ == old(self)@.cursor,
            final(self)@ == with_cursor(old(self)@, drain(old(self)@.cursor)),
    {
        let r = self.segments;
        self.segments.drain();
        r
    }
}

/// Whether `c` is white space, in the sense of Unicode's `White_Space`
/// property.
pub open spec fn is_white_space(c: char) -> bool {
    ('\t' <= c && c <= '\r') || c == ' ' || c == '\u{85}' || c == '\u{a0}' || c == '\u{1680}' || (
    '\u{2000}' <= c && c <= '\u{200a}') || c == '\u{2028}' || c == '\u{2029}' || c == '\u{202f}'
        || c == '\u{205f}' || c == '\u{3000}'
}

/// Whether `s` holds nothing but white space.
pub open spec fn is_blank(s: Seq<char>) -> bool {
    forall|i: int| 0 <= i < s.len() ==> is_white_space(#[trigger] s[i])
}

/// The pieces of `p` from offset `i` on, split at each `/`, that are not
/// blank.
pub open spec fn route_pieces(p: Seq<char>, i: int) -> Seq<Seq<char>>
    decreases p.len() - i,
{
    if i < 0 || i > p.len() || segment_end(p, i) < i {
        seq![]
    } else {
        let e = segment_end(p, i);
        let rest = if e < p.len() {
            route_pieces(p, e + 1)
        } else {
            seq![]
        };
        if is_blank(p.subrange(i, e)) {
            rest
        } else {
            seq![p.subrange(i, e)] + rest
        }
    }
}

fn white_space(c: char) -> (r: bool)
    ensures
        r == is_white_space(c),
{
    ('\t' <= c && c <= '\r') || c == ' ' || c == '\u{85}' || c == '\u{a0}' || c == '\u{1680}' || (
    '\u{2000}' <= c && c <= '\u{200a}') || c == '\u{2028}' || c == '\u{2029}' || c == '\u{202f}'
        || c == '\u{205f}' || c == '\u{3000}'
}

fn blank(s: &str) -> (r: bool)
    ensures
        r == is_blank(s@),
{
    let n = s.unicode_len();
    let mut i: usize = 0;
    while i < n
        invariant
            n == s@.len(),
            i <= n,
            forall|k: int| 0 <= k < i ==> is_white_space(#[trigger] s@[k]),
        decreases n - i,
    {
        if !white_space(s.get_char(i)) {
            return false;
        }
        i = i + 1;
    }
    true
}

/// Splits a path into its segments: the pieces between slashes that hold
/// more than white space, in order.
pub fn to_path_segments(s: &str) -> (r: VecDeque<String>)
    ensures
        r@.len() == route_pieces(s@, 0).len(),
        forall|k: int| 0 <= k < r@.len() ==> (#[trigger] r@[k])@ == route_pieces(s@, 0)[k],
{
    let n = s.unicode_len();
    let mut out: VecDeque<String> = VecDeque::new();
    let ghost mut done: Seq<Seq<char>> = seq![];
    let mut i: usize = 0;
    let mut more = true;
    while more
        invariant
            n == s@.len(),
            i <= n,
            out@.len() == done.len(),
            forall|k: int| 0 <= k < out@.len() ==> (#[trigger] out@[k])@ == done[k],
            more ==> route_pieces(s@, 0) == done + route_pieces(s@, i as int),
            !more ==> route_pieces(s@, 0) == done,
        decreases n - i + (if more { 1int } else { 0int }),
    {
        let mut e = i;
        while e < n && s.get_char(e) != '/'
            invariant
                i <= e <= n,
                n == s@.len(),
                segment_end(s@, i as int) == segment_end(s@, e as int),
            decreases n - e,
        {
            e = e + 1;
        }
        proof {
            lemma_segment_end(s@, i as int);
        }
        let piece = s.substring_char(i, e);
        if !blank(piece) {
            let ghost before = out@;
            out.push_back(String::from_str(piece));
            proof {
                assert forall|k: int| 0 <= k < out@.len() implies (#[trigger] out@[k])@ == done.push(piece@)[k] by {
                    if k < before.len() {
                        assert(out@[k] == before[k]);
                    }
                }
                assert(done.push(piece@) + route_pieces(s@, e + 1) =~= done + (seq![piece@] + route_pieces(s@, e + 1)));
                assert(done.push(piece@) + seq![] =~= done + (seq![piece@] + seq![]));
                done = done.push(piece@);
            }
        } else {
            proof {
                assert(done + seq![] =~= done);
            }
        }
        if e < n {
            i = e + 1;
        } else {
            more = false;
        }
    }
    out
}

/// The name/value pairs of a query string.
pub uninterp spec fn form_pairs(s: Seq<char>) -> Seq<(Seq<char>, Seq<char>)>;

/// The texts of a list of name/value pairs.
pub open spec fn pairs_view(v: Seq<(String, String)>) -> Seq<(Seq<char>, Seq<char>)> {
    v.map_values(|p: (String, String)| (p.0@, p.1@))
}

/// Relies on `url::form_urlencoded::parse`: the percent-decoded name/value
/// pairs of a query string, in order, which depend on the string alone; an
/// empty string has none.
#[verifier::external_body]
fn query_pairs(s: &str) -> (r: Vec<(String, String)>)
    ensures
        pairs_view(r@) == form_pairs(s@),
        s@.len() == 0 ==> r@.len() == 0,
{
    url::form_urlencoded::parse(s.as_bytes()).into_owned().collect()
}

/// The value of the last pair named `name`, if any.
pub open spec fn last_value(pairs: Seq<(Seq<char>, Seq<char>)>, name: Seq<char>) -> Option<Seq<char>>
    decreases pairs.len(),
{
    if pairs.len() == 0 {
        None
    } else if pairs.last().0 == name {
        Some(pairs.last().1)
    } else {
        last_value(pairs.drop_last(), name)
    }
}

/// The routing state of a request: its path split into segments and its
/// query parameters.
pub struct Context<'r> {
    pub request: &'r Request,
    pub routes: VecDeque<String>,
    /// The query's name/value pairs in order; a later pair overrides an
    /// earlier one of the same name.
    pub params: Vec<(String, String)>,
}

impl<'r> Context<'r> {
    pub fn new(request: &'r Request) -> (r: Context<'r>)
        ensures
            r.request == request,
            r.routes@.len() == route_pieces(request.path@, 0).len(),
            forall|k: int| 0 <= k < r.routes@.len() ==> (#[trigger] r.routes@[k])@ == route_pieces(request.path@, 0)[k],
            request.query matches Some(q) ==> pairs_view(r.params@) == form_pairs(q@),
            request.query is None ==> r.params@.len() == 0,
    {
        let routes = to_path_segments(request.path.as_str());
        let params = match &request.query {
            Some(q) => query_pairs(q.as_str()),
            None => Vec::new(),
        };
        Context { request, routes, params }
    }

    /// Returns the value of the query parameter `name`: the last one given.
    pub fn param(&self, name: &str) -> (r: Option<&String>)
        ensures
            r matches Some(v) ==> last_value(pairs_view(self.params@), name@) == Some(v@),
            r is None ==> last_value(pairs_view(self.params@), name@) is None,
    {
        let mut i = self.params.len();
        assert(self.params@.subrange(0, i as int) =~= self.params@);
        while i > 0
            invariant
                i <= self.params@.len(),
                last_value(pairs_view(self.params@), name@) == last_value(
                    pairs_view(self.params@.subrange(0, i as int)),
                    name@,
                ),
            decreases i,
        {
            let ghost sub = self.params@.subrange(0, i as int);
            let ghost pv = pairs_view(sub);
            assert(pv.drop_last() =~= pairs_view(self.params@.subrange(0, i - 1)));
            assert(pv.last() == (self.params@[i - 1].0@, self.params@[i - 1].1@));
            if self.params[i - 1].0 == String::from_str(name) {
                return Some(&self.params[i - 1].1);
            }
            i = i - 1;
        }
        assert(pairs_view(self.params@.subrange(0, 0)) =~= seq![]);
        None
    }
}

} // verus!
