use vstd::prelude::*;
use vstd::string::*;

verus! {

/// The index of the first `/` of `p` at or after `i`, or the length of `p`
/// when none follows.
pub open spec fn segment_end(p: Seq<char>, i: int) -> int
    decreases p.len() - i,
{
    if i < 0 || i >= p.len() {
        p.len() as int
    } else if p[i] == '/' {
        i
    } else {
        segment_end(p, i + 1)
    }
}

pub proof fn lemma_segment_end(p: Seq<char>, i: int)
    requires
        0 <= i <= p.len(),
    ensures
        i <= segment_end(p, i) <= p.len(),
        forall|k: int| i <= k < segment_end(p, i) ==> p[k] != '/',
        segment_end(p, i) < p.len() ==> p[segment_end(p, i)] == '/',
    decreases p.len() - i,
{
    if i < p.len() && p[i] != '/' {
        lemma_segment_end(p, i + 1);
    }
}

/// The abstract state of a cursor: the whole path, the offset of the first
/// unread character, and how many segments were taken.
pub struct SegmentsView {
    pub path: Seq<char>,
    pub pos: nat,
    pub popped: nat,
}

/// Where a cursor over `p` starts: just past a leading `/`.
pub open spec fn start_of(p: Seq<char>) -> nat {
    if p.len() > 0 && p[0] == '/' {
        1
    } else {
        0
    }
}

/// The offset that follows the segment starting at `pos`: just past the
/// `/` that ends it, or the end of the path.
pub open spec fn after_segment(p: Seq<char>, pos: int) -> nat {
    let e = segment_end(p, pos);
    if e < p.len() {
        (e + 1) as nat
    } else {
        p.len()
    }
}

/// The state of a cursor after one call of `next` from `v`.
pub open spec fn advance(v: SegmentsView) -> SegmentsView {
    if v.pos >= v.path.len() {
        v
    } else {
        SegmentsView {
            path: v.path,
            pos: after_segment(v.path, v.pos as int),
            popped: v.popped + 1,
        }
    }
}

/// The state of a cursor after `n` calls of `next` from `v`.
pub open spec fn advance_n(v: SegmentsView, n: nat) -> SegmentsView
    decreases n,
{
    if n == 0 {
        v
    } else {
        advance(advance_n(v, (n - 1) as nat))
    }
}

/// Once a cursor is at the end of its path, `next` keeps it there and
/// returns nothing, however often it is called: the count of taken
/// segments stays as it was.
pub proof fn lemma_exhausted_stays(v: SegmentsView, n: nat)
    requires
        v.pos >= v.path.len(),
    ensures
        advance_n(v, n) == v,
    decreases n,
{
    if n > 0 {
        lemma_exhausted_stays(v, (n - 1) as nat);
    }
}

/// The text of the segment that a cursor in state `v` reads next.
pub open spec fn next_text(v: SegmentsView) -> Seq<char> {
    v.path.subrange(v.pos as int, segment_end(v.path, v.pos as int))
}

/// The part of the path that a cursor in state `v` has not read.
pub open spec fn rest_text(v: SegmentsView) -> Seq<char> {
    v.path.subrange(v.pos as int, v.path.len() as int)
}

/// The texts of the segments of `p` from offset `i` on.
pub open spec fn segments_from(p: Seq<char>, i: int) -> Seq<Seq<char>>
    decreases p.len() - i,
{
    if i < 0 || i >= p.len() || segment_end(p, i) < i {
        seq![]
    } else {
        let e = segment_end(p, i);
        let rest = if e < p.len() {
            segments_from(p, e + 1)
        } else {
            seq![]
        };
        seq![p.subrange(i, e)] + rest
    }
}

/// The state of a cursor in state `v` once every segment is taken.
pub open spec fn drain(v: SegmentsView) -> SegmentsView {
    SegmentsView {
        path: v.path,
        pos: if v.pos >= v.path.len() {
            v.pos
        } else {
            v.path.len()
        },
        popped: v.popped + segments_from(v.path, v.pos as int).len(),
    }
}

/// Taking one segment does not change where draining ends, and it takes the
/// first of the remaining segments.
pub proof fn lemma_drain_advance(v: SegmentsView)
    requires
        v.pos < v.path.len(),
    ensures
        drain(advance(v)) == drain(v),
        segments_from(v.path, v.pos as int) == seq![next_text(v)] + segments_from(
            v.path,
            advance(v).pos as int,
        ),
        advance(v).pos > v.pos,
{
    lemma_segment_end(v.path, v.pos as int);
    let e = segment_end(v.path, v.pos as int);
    if e == v.path.len() {
        assert(segments_from(v.path, v.path.len() as int) =~= seq![]);
        assert(seq![next_text(v)] + seq![] =~= seq![next_text(v)]);
    }
}

/// A cursor over the segments of a request path.
///
/// Offsets count characters; request paths are ASCII, where that is the
/// byte offset.
#[derive(Debug, Copy, Clone)]
pub struct Segments<'a> {
    path: &'a str,
    pos: usize,
    popped: usize,
}

impl<'a> View for Segments<'a> {
    type V = SegmentsView;

    closed spec fn view(&self) -> SegmentsView {
        SegmentsView { path: self.path@, pos: self.pos as nat, popped: self.popped as nat }
    }
}

impl<'a> Segments<'a> {
    #[verifier::type_invariant]
    spec fn inv(&self) -> bool {
        self.popped <= self.pos <= self.path@.len()
    }

    /// Creates a cursor at the first segment of `path`, past its leading `/`.
    pub fn new(path: &'a str) -> (r: Segments<'a>)
        ensures
            r@ == (SegmentsView { path: path@, pos: start_of(path@), popped: 0 }),
    {
        let n = path.unicode_len();
        let pos: usize = if n > 0 && path.get_char(0) == '/' {
            1
        } else {
            0
        };
        Segments { path, pos, popped: 0 }
    }

    /// Returns the part of the path that is not yet read.
    pub fn remaining_path(&self) -> (r: &'a str)
        ensures
            r@ == self@.path.subrange(self@.pos as int, self@.path.len() as int),
    {
        proof {
            use_type_invariant(self);
        }
        let n = self.path.unicode_len();
        self.path.substring_char(self.pos, n)
    }

    /// Returns the offset of the cursor in the whole path.
    pub fn position(&self) -> (r: usize)
        ensures
            r == self@.pos,
            self@.popped <= r <= self@.path.len(),
    {
        proof {
            use_type_invariant(self);
        }
        self.pos
    }

    /// Returns how many segments were taken.
    pub fn popped(&self) -> (r: usize)
        ensures
            r == self@.popped,
    {
        self.popped
    }

    /// Returns `true` when no segment is left.
    pub fn is_exhausted(&self) -> (r: bool)
        ensures
            r == (self@.pos >= self@.path.len()),
    {
        proof {
            use_type_invariant(self);
        }
        self.pos == self.path.unicode_len()
    }

    /// Takes every remaining segment.
    pub fn drain(&mut self)
        ensures
            final(self)@ == drain(old(self)@),
    {
        proof {
            use_type_invariant(&*self);
        }
        while !self.is_exhausted()
            invariant
                drain(self@) == drain(old(self)@),
                self@.pos <= self@.path.len(),
            decreases self@.path.len() - self@.pos,
        {
            proof {
                lemma_drain_advance(self@);
            }
            self.next();
            proof {
                use_type_invariant(&*self);
            }
        }
        assert(segments_from(self@.path, self@.pos as int) =~= seq![]);
    }

    /// Takes the next segment: the text up to the next `/` or to the end of
    /// the path. An exhausted cursor returns `None` and stays as it is.
    pub fn next(&mut self) -> (r: Option<Segment<'a>>)
        ensures
            final(self)@ == advance(old(self)@),
            old(self)@.pos <= old(self)@.path.len(),
            old(self)@.pos >= old(self)@.path.len() ==> r is None,
            old(self)@.pos < old(self)@.path.len() ==> r is Some && r->0@ == (SegmentView {
                source: old(self)@.path,
                start: old(self)@.pos,
                end: segment_end(old(self)@.path, old(self)@.pos as int) as nat,
            }),
    {
        proof {
            use_type_invariant(&*self);
        }
        let n = self.path.unicode_len();
        if self.pos == n {
            return None;
        }
        let mut e = self.pos;
        while e < n && self.path.get_char(e) != '/'
            invariant
                self.pos <= e <= n,
                n == self.path@.len(),
                segment_end(self.path@, self.pos as int) == segment_end(self.path@, e as int),
            decreases n - e,
        {
            e = e + 1;
        }
        let segment = Segment { s: self.path, start: self.pos, end: e };
        let new_pos = if e < n {
            e + 1
        } else {
            n
        };
        proof {
            lemma_segment_end(self.path@, self.pos as int);
        }
        self.pos = new_pos;
        self.popped = self.popped + 1;
        Some(segment)
    }
}

/// The abstract value of a segment: the text it lies in and its range.
pub struct SegmentView {
    pub source: Seq<char>,
    pub start: nat,
    pub end: nat,
}

/// A segment of a request path, held as a range of the whole path.
#[derive(Debug, Copy, Clone)]
pub struct Segment<'a> {
    s: &'a str,
    start: usize,
    end: usize,
}

impl<'a> View for Segment<'a> {
    type V = SegmentView;

    closed spec fn view(&self) -> SegmentView {
        SegmentView { source: self.s@, start: self.start as nat, end: self.end as nat }
    }
}

impl<'a> Segment<'a> {
    #[verifier::type_invariant]
    spec fn inv(&self) -> bool {
        self.start <= self.end <= self.s@.len()
    }

    /// Creates a segment from a path and the range of the segment in it.
    pub fn new(s: &'a str, range: core::ops::Range<usize>) -> (r: Segment<'a>)
        requires
            range.start <= range.end <= s@.len(),
        ensures
            r@ == (SegmentView { source: s@, start: range.start as nat, end: range.end as nat }),
    {
        Segment { s, start: range.start, end: range.end }
    }

    /// Returns the text of this segment, as it stands in the path.
    pub fn as_encoded_str(&self) -> (r: &'a str)
        ensures
            r@ == self@.source.subrange(self@.start as int, self@.end as int),
    {
        proof {
            use_type_invariant(self);
        }
        self.s.substring_char(self.start, self.end)
    }

    /// Returns the range of this segment in the whole path.
    pub fn as_range(&self) -> (r: core::ops::Range<usize>)
        ensures
            r.start == self@.start,
            r.end == self@.end,
    {
        core::ops::Range { start: self.start, end: self.end }
    }
}

} // verus!
