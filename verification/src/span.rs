//! Byte-offset ranges into the source text.
//!
//! Every token, AST node and diagnostic carries exactly one `Span`
//! referencing the original source; the offsets are `u32`, which is what
//! bounds the length of a parseable source (see `MAX_LEN`).

use vstd::prelude::*;

verus! {

/// A half-open byte range `start..end` into the original source text.
#[derive(Clone, Copy, Debug, PartialEq, Eq, Structural)]
pub struct Span {
    pub start: u32,
    pub end: u32,
}

impl Span {
    /// A span is well formed for a source of length `len` when it is an
    /// ordered range that lies inside the source.
    pub open spec fn wf(self, len: int) -> bool {
        self.start <= self.end && self.end <= len
    }

    /// The empty span at offset zero, used for the empty stylesheet.
    pub fn empty() -> (s: Span)
        ensures
            s.start == 0 && s.end == 0,
    {
        Span { start: 0, end: 0 }
    }

    pub fn new(start: u32, end: u32) -> (s: Span)
        ensures
            s.start == start && s.end == end,
    {
        Span { start, end }
    }
}

} // verus!
