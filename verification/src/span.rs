//! Source locations.

use vstd::prelude::*;

verus! {

/// A range of byte offsets in a source text, `start` included and `end` excluded.
#[derive(Debug, Clone, Copy, PartialEq, Eq, Structural, Hash)]
pub struct Span {
    pub start: u32,
    pub end: u32,
}

impl Span {
    /// The span from `start` to `end`.
    pub fn new(start: u32, end: u32) -> (span: Span)
        ensures
            span.start == start,
            span.end == end,
    {
        Span { start, end }
    }

    /// The two offsets as a pair, the form under which a span keys a hash map.
    pub open spec fn key(self) -> (u32, u32) {
        (self.start, self.end)
    }
}

} // verus!
