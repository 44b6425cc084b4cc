//! Half-open character ranges over a text buffer.

use vstd::prelude::*;
use vstd::slice::slice_subrange;

verus! {

/// A half-open range `[start, end)` of character offsets into one buffer.
#[derive(Clone, Copy, Debug, PartialEq, Eq, Structural)]
pub struct Span {
    pub start: usize,
    pub end: usize,
}

impl Span {
    /// The invariant every span handed out by this crate satisfies.
    pub open spec fn well_formed(&self) -> bool {
        self.start <= self.end
    }

    /// Number of characters covered.
    pub open spec fn spec_len(&self) -> nat {
        (self.end - self.start) as nat
    }

    /// Whether the span lies inside a buffer of `len` characters.
    pub open spec fn within(&self, len: nat) -> bool {
        self.start <= self.end && self.end <= len
    }

    /// Whether two spans share at least one character position.
    pub open spec fn spec_overlaps(&self, other: Span) -> bool {
        self.start < other.end && self.end > other.start
    }

    /// The characters of `source` that the span covers.
    pub open spec fn content(&self, source: Seq<char>) -> Seq<char> {
        source.subrange(self.start as int, self.end as int)
    }

    /// The span from `start` to `end`.
    pub fn new(start: usize, end: usize) -> (span: Span)
        requires
            start <= end,
        ensures
            span.start == start,
            span.end == end,
            span.well_formed(),
    {
        Span { start, end }
    }

    /// The span of `len` characters beginning at `start`.
    pub fn new_with_len(start: usize, len: usize) -> (span: Span)
        requires
            start + len <= usize::MAX,
        ensures
            span.start == start,
            span.end == start + len,
            span.well_formed(),
    {
        Span { start, end: start + len }
    }

    /// Number of characters covered.
    pub fn len(&self) -> (n: usize)
        requires
            self.well_formed(),
        ensures
            n == self.spec_len(),
    {
        self.end - self.start
    }

    /// Whether the span covers nothing.
    pub fn is_empty(&self) -> (b: bool)
        ensures
            b == (self.start >= self.end),
    {
        self.start >= self.end
    }

    /// Whether `idx` is one of the positions covered.
    pub fn contains(&self, idx: usize) -> (b: bool)
        ensures
            b == (self.start <= idx && idx < self.end),
    {
        self.start <= idx && idx < self.end
    }

    /// Overlap test: touching endpoints do not count.
    #[verifier::when_used_as_spec(spec_overlaps)]
    pub fn overlaps_with(&self, other: Span) -> (b: bool)
        ensures
            b == self.spec_overlaps(other),
    {
        self.start < other.end && self.end > other.start
    }

    /// Borrow the covered characters.
    pub fn get_content<'a>(&self, source: &'a [char]) -> (out: &'a [char])
        requires
            self.within(source@.len()),
        ensures
            out@ == self.content(source@),
    {
        slice_subrange(source, self.start, self.end)
    }

    /// The covered characters, or `None` when the span does not fit `source`.
    pub fn try_get_content<'a>(&self, source: &'a [char]) -> (out: Option<&'a [char]>)
        ensures
            out is Some == self.within(source@.len()),
            out matches Some(s) ==> s@ == self.content(source@),
    {
        if self.start <= self.end && self.end <= source.len() {
            Some(slice_subrange(source, self.start, self.end))
        } else {
            None
        }
    }

    /// The same range expressed relative to `origin`.
    pub fn pulled_by(&self, origin: usize) -> (out: Option<Span>)
        ensures
            out is Some == (origin <= self.start && self.start <= self.end),
            out matches Some(s) ==> s.start == self.start - origin && s.end == self.end - origin
                && s.well_formed(),
    {
        if origin <= self.start && self.start <= self.end {
            Some(Span { start: self.start - origin, end: self.end - origin })
        } else {
            None
        }
    }
}

/// Two spans that overlap do so symmetrically.
pub proof fn overlap_symmetric(a: Span, b: Span)
    ensures
        a.spec_overlaps(b) == b.spec_overlaps(a),
{
}

} // verus!
