//! Structured error values.
//!
//! A diagnostic is pure data — a message and the span it refers to — and
//! is returned to the caller instead of being thrown. Severity is always
//! "error" here. Each constructor pins both the message text and the span,
//! so two parses of the same source produce identical diagnostics.

use vstd::prelude::*;
use crate::span::Span;

verus! {

/// The closed set of error conditions this parser reports.
///
/// This is the ghost classification of a [`Diagnostic`]: every diagnostic
/// the library produces matches exactly one `DiagKind` (see
/// [`Diagnostic::is`]), which determines its message text.
#[derive(Clone, Copy, Debug, PartialEq, Eq, Structural)]
pub enum DiagKind {
    UnexpectedToken,
    UnterminatedString,
    UnterminatedComment,
    UnexpectedEof,
    OverlongSource,
}

/// The message text reported for each error condition.
pub open spec fn message_of(kind: DiagKind) -> Seq<char> {
    match kind {
        DiagKind::UnexpectedToken => "Unexpected token"@,
        DiagKind::UnterminatedString => "Unterminated string"@,
        DiagKind::UnterminatedComment => "Unterminated comment"@,
        DiagKind::UnexpectedEof => "Unexpected end of file"@,
        DiagKind::OverlongSource => "Source length exceeds 4 GiB limit"@,
    }
}

/// A structured error record: message text plus the source range it is
/// about.
#[derive(Clone, Debug)]
pub struct Diagnostic {
    pub message: String,
    pub span: Span,
}

impl Diagnostic {
    /// `d.is(kind, span)` says that `d` is exactly the diagnostic the
    /// library reports for condition `kind` at `span`.
    pub open spec fn is(self, kind: DiagKind, span: Span) -> bool {
        self.message@ == message_of(kind) && self.span == span
    }

    pub fn new(kind: DiagKind, span: Span) -> (d: Diagnostic)
        ensures
            d.is(kind, span),
    {
        let message = match kind {
            DiagKind::UnexpectedToken => "Unexpected token",
            DiagKind::UnterminatedString => "Unterminated string",
            DiagKind::UnterminatedComment => "Unterminated comment",
            DiagKind::UnexpectedEof => "Unexpected end of file",
            DiagKind::OverlongSource => "Source length exceeds 4 GiB limit",
        };
        Diagnostic { message: message.to_string(), span }
    }

    /// The message text, for rendering by the caller.
    pub fn message_text(&self) -> (m: &String)
        ensures
            m@ == self.message@,
    {
        &self.message
    }

    /// The source range this diagnostic refers to.
    pub fn span(&self) -> (s: Span)
        ensures
            s == self.span,
    {
        self.span
    }
}

/// Diagnostic for a token that fits no grammar production at its position.
pub fn unexpected_token(span: Span) -> (d: Diagnostic)
    ensures
        d.is(DiagKind::UnexpectedToken, span),
{
    Diagnostic::new(DiagKind::UnexpectedToken, span)
}

/// Diagnostic for a string literal with no closing quote on its line.
pub fn unterminated_string(span: Span) -> (d: Diagnostic)
    ensures
        d.is(DiagKind::UnterminatedString, span),
{
    Diagnostic::new(DiagKind::UnterminatedString, span)
}

/// Diagnostic for a comment that never closes before end of input.
pub fn unterminated_comment(span: Span) -> (d: Diagnostic)
    ensures
        d.is(DiagKind::UnterminatedComment, span),
{
    Diagnostic::new(DiagKind::UnterminatedComment, span)
}

/// Diagnostic for input that ends in the middle of a production.
pub fn unexpected_eof(span: Span) -> (d: Diagnostic)
    ensures
        d.is(DiagKind::UnexpectedEof, span),
{
    Diagnostic::new(DiagKind::UnexpectedEof, span)
}

/// Diagnostic for a source longer than `MAX_LEN` bytes.
pub fn overlong_source() -> (d: Diagnostic)
    ensures
        d.is(DiagKind::OverlongSource, Span { start: 0, end: 0 }),
{
    Diagnostic::new(DiagKind::OverlongSource, Span { start: 0, end: 0 })
}

} // verus!
