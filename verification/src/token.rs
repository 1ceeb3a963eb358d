//! The token model: a closed set of lexical categories and the `Token`
//! value the lexer hands to the parser.

use vstd::prelude::*;
use crate::span::Span;

verus! {

/// Lexical category of a token.
///
/// `Undetermined` means "the lexer already pushed a diagnostic explaining
/// why these bytes form no valid token"; the parser must not report a
/// second, vaguer error for the same position. `Eof` terminates every
/// token sequence.
#[derive(Clone, Copy, Debug, PartialEq, Eq, Structural)]
pub enum Kind {
    Eof,
    Ident,
    AtKeyword,
    Str,
    Number,
    Comma,
    Colon,
    Semicolon,
    OpenBrace,
    CloseBrace,
    Delim,
    Undetermined,
}

/// One classified lexical unit: a category plus the byte range it covers.
#[derive(Clone, Copy, Debug, PartialEq, Eq, Structural)]
pub struct Token {
    pub kind: Kind,
    pub span: Span,
}

impl Token {
    /// Tokens are well formed for a source of length `len` when their span is.
    pub open spec fn wf(self, len: int) -> bool {
        self.span.wf(len)
    }

    pub fn new(kind: Kind, span: Span) -> (t: Token)
        ensures
            t.kind == kind && t.span == span,
    {
        Token { kind, span }
    }

    /// The byte range this token covers.
    pub fn span(&self) -> (s: Span)
        ensures
            s == self.span,
    {
        self.span
    }
}

} // verus!
