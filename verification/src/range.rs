//! Half-open position ranges into the markdown source, attached to every
//! interactive node so that an interaction can be traced back to the exact
//! span of source text that produced it.

use vstd::prelude::*;

verus! {

/// A half-open range `[start, end)` of positions in the markdown source.
/// Well-formed ranges satisfy `start <= end`; a range attached to a node
/// rendered from a source of length `n` additionally satisfies `end <= n`.
#[derive(Clone, Copy, Debug, PartialEq, Eq, Structural)]
pub struct SourceRange {
    pub start: usize,
    pub end: usize,
}

impl SourceRange {
    /// A well-formed range never runs backwards.
    pub open spec fn wf(self) -> bool {
        self.start <= self.end
    }

    /// The range lies inside a source text of length `source_len`.
    pub open spec fn within(self, source_len: nat) -> bool {
        self.wf() && self.end <= source_len
    }

    pub fn new(start: usize, end: usize) -> (r: SourceRange)
        requires
            start <= end,
        ensures
            r.start == start,
            r.end == end,
            r.wf(),
    {
        SourceRange { start, end }
    }

    /// Number of source positions covered by the range.
    pub fn len(&self) -> (n: usize)
        requires
            self.wf(),
        ensures
            n == self.end - self.start,
    {
        self.end - self.start
    }
}

} // verus!
