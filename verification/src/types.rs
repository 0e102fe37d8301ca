//! Byte ranges into XML parts.
use vstd::prelude::*;

verus! {

/// Half-open byte range into the original XML part.
#[derive(Clone, Copy, Debug, PartialEq, Eq, Structural)]
pub struct ByteSpan {
    pub start: usize,
    pub end: usize,
}

impl ByteSpan {
    /// The range `start..end`.
    pub fn new(start: usize, end: usize) -> (span: Self)
        ensures
            span.start == start,
            span.end == end,
    {
        ByteSpan { start, end }
    }

    /// Whether the range holds no byte.
    pub fn is_empty(self) -> (empty: bool)
        ensures
            empty == (self.start >= self.end),
    {
        self.start >= self.end
    }

    /// Whether `other` lies within this range.
    pub fn contains(self, other: Self) -> (inside: bool)
        ensures
            inside == (self.start <= other.start && self.end >= other.end),
    {
        self.start <= other.start && self.end >= other.end
    }

    /// The range as a standard range.
    pub fn as_range(self) -> (range: std::ops::Range<usize>)
        ensures
            range.start == self.start,
            range.end == self.end,
    {
        self.start..self.end
    }
}

/// Containment of byte ranges is transitive.
pub proof fn lemma_contains_transitive(a: ByteSpan, b: ByteSpan, c: ByteSpan)
    requires
        a.start <= b.start && a.end >= b.end,
        b.start <= c.start && b.end >= c.end,
    ensures
        a.start <= c.start && a.end >= c.end,
{
}

} // verus!
