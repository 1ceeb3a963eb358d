//! The lexer's scanning primitive: a byte offset into the source.
//!
//! The cursor is the only place the scan position is mutated. Its
//! `set_position` operation repositions the scan to an arbitrary offset;
//! this is sound only while a single lexer drives a single cursor over one
//! buffer, which the `UniquePromise` construction discipline guarantees.

use vstd::prelude::*;

verus! {

/// The current scan position, in bytes from the start of the source.
#[derive(Clone, Copy, Debug, PartialEq, Eq, Structural)]
pub struct Cursor {
    pub pos: usize,
}

impl Cursor {
    pub fn new() -> (c: Cursor)
        ensures
            c.pos == 0,
    {
        Cursor { pos: 0 }
    }

    /// The current byte offset.
    pub fn pos(&self) -> (p: usize)
        ensures
            p == self.pos,
    {
        self.pos
    }

    /// Reposition the scan pointer to an arbitrary offset.
    pub fn set_position(&mut self, p: usize)
        ensures
            final(self).pos == p,
    {
        self.pos = p;
    }
}

} // verus!
