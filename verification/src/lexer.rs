//! The lexer: turns source bytes into a finite token sequence, diverting
//! comments into a trivia list and lexical errors into a diagnostic list.
//!
//! The whole tokenization is mirrored by spec functions over the byte
//! sequence (`lex_next`, `lex_all`), so what the lexer produces is a
//! mathematical function of the source alone; the executable code is
//! proved to compute exactly that.

use vstd::prelude::*;
use crate::cursor::Cursor;
use crate::diagnostics::{Diagnostic, DiagKind};
use crate::span::Span;
use crate::token::{Kind, Token};
use crate::MAX_LEN;
use crate::UniquePromise;

verus! {

// ---------------------------------------------------------------------------
// Byte classification
// ---------------------------------------------------------------------------

/// CSS whitespace: space, tab, line feed, carriage return, form feed.
pub open spec fn is_ws(b: u8) -> bool {
    b == 0x20u8 || b == 0x09u8 || b == 0x0au8 || b == 0x0du8 || b == 0x0cu8
}

pub open spec fn is_digit(b: u8) -> bool {
    0x30u8 <= b && b <= 0x39u8
}

/// A byte that can start a name: a letter, `_`, or any non-ASCII byte.
pub open spec fn is_name_start(b: u8) -> bool {
    (0x41u8 <= b && b <= 0x5au8) || (0x61u8 <= b && b <= 0x7au8) || b == 0x5fu8 || b >= 0x80u8
}

/// A byte that can continue a name: a name-start byte, a digit, or `-`.
pub open spec fn is_name_char(b: u8) -> bool {
    is_name_start(b) || is_digit(b) || b == 0x2du8
}

// ---------------------------------------------------------------------------
// Scan-end functions: where a run starting at `i` stops
// ---------------------------------------------------------------------------

/// First position at or after `i` holding a non-whitespace byte.
pub open spec fn ws_end(s: Seq<u8>, i: int) -> int
    decreases s.len() - i,
{
    if 0 <= i && i < s.len() && is_ws(s[i]) {
        ws_end(s, i + 1)
    } else {
        i
    }
}

/// First position at or after `i` holding a non-name byte.
pub open spec fn name_end(s: Seq<u8>, i: int) -> int
    decreases s.len() - i,
{
    if 0 <= i && i < s.len() && is_name_char(s[i]) {
        name_end(s, i + 1)
    } else {
        i
    }
}

/// First position at or after `i` holding a non-digit byte.
pub open spec fn digit_end(s: Seq<u8>, i: int) -> int
    decreases s.len() - i,
{
    if 0 <= i && i < s.len() && is_digit(s[i]) {
        digit_end(s, i + 1)
    } else {
        i
    }
}

/// End of a number starting with a digit at `i`: an integer part,
/// optionally followed by `.` and a fraction part.
pub open spec fn number_end(s: Seq<u8>, i: int) -> int {
    let d = digit_end(s, i);
    if d + 1 < s.len() && s[d] == 0x2eu8 && is_digit(s[d + 1]) {
        digit_end(s, d + 1)
    } else {
        d
    }
}

/// Scan a string body beginning at `i` (just past the opening quote `q`).
/// Returns the position after the token and whether the string was
/// terminated; an unterminated string stops before a line feed or at end
/// of input. A backslash escapes the following byte.
pub open spec fn string_scan(s: Seq<u8>, i: int, q: u8) -> (int, bool)
    decreases s.len() - i,
{
    if i < 0 || i >= s.len() {
        (if i < 0 { 0 } else { i }, false)
    } else if s[i] == q {
        (i + 1, true)
    } else if s[i] == 0x0au8 {
        (i, false)
    } else if s[i] == 0x5cu8 {
        if i + 1 < s.len() {
            string_scan(s, i + 2, q)
        } else {
            (i + 1, false)
        }
    } else {
        string_scan(s, i + 1, q)
    }
}

/// Position just past the first `*/` at or after `i`, or `-1` if the
/// comment never closes.
pub open spec fn comment_close(s: Seq<u8>, i: int) -> int
    decreases s.len() - i,
{
    if i < 0 || i + 1 >= s.len() {
        -1
    } else if s[i] == 0x2au8 && s[i + 1] == 0x2fu8 {
        i + 2
    } else {
        comment_close(s, i + 1)
    }
}

// ---------------------------------------------------------------------------
// One lexical step, and the whole tokenization
// ---------------------------------------------------------------------------

/// Ghost model of one diagnostic: which condition, at which span.
#[derive(Clone, Copy, Debug, PartialEq, Eq, Structural)]
pub struct DiagM {
    pub kind: DiagKind,
    pub span: Span,
}

/// What one raw lexical step starting at position `i` does: where it
/// stops, and the token, trivia entry and diagnostic it produces, if any.
pub struct LexStep {
    pub next: int,
    pub tok: Option<Token>,
    pub trivia: Option<Span>,
    pub err: Option<DiagM>,
}

pub open spec fn span_at(i: int, j: int) -> Span {
    Span { start: i as u32, end: j as u32 }
}

pub open spec fn step_tok(i: int, j: int, kind: Kind) -> LexStep {
    LexStep { next: j, tok: Some(Token { kind, span: span_at(i, j) }), trivia: None, err: None }
}

/// The raw lexical grammar: what the bytes at position `i` lex to.
pub open spec fn lex_next(s: Seq<u8>, i: int) -> LexStep {
    let b = s[i];
    if is_ws(b) {
        LexStep { next: ws_end(s, i), tok: None, trivia: None, err: None }
    } else if b == 0x2fu8 && i + 1 < s.len() && s[i + 1] == 0x2au8 {
        let c = comment_close(s, i + 2);
        if c >= 0 {
            LexStep { next: c, tok: None, trivia: Some(span_at(i, c)), err: None }
        } else {
            LexStep {
                next: s.len() as int,
                tok: None,
                trivia: None,
                err: Some(
                    DiagM {
                        kind: DiagKind::UnterminatedComment,
                        span: span_at(i, s.len() as int),
                    },
                ),
            }
        }
    } else if b == 0x22u8 || b == 0x27u8 {
        let e = string_scan(s, i + 1, b).0;
        if string_scan(s, i + 1, b).1 {
            step_tok(i, e, Kind::Str)
        } else {
            LexStep {
                next: e,
                tok: Some(Token { kind: Kind::Undetermined, span: span_at(i, e) }),
                trivia: None,
                err: Some(DiagM { kind: DiagKind::UnterminatedString, span: span_at(i, e) }),
            }
        }
    } else if b == 0x40u8 {
        if i + 1 < s.len() && is_name_start(s[i + 1]) {
            step_tok(i, name_end(s, i + 1), Kind::AtKeyword)
        } else {
            step_tok(i, i + 1, Kind::Delim)
        }
    } else if is_name_start(b) {
        step_tok(i, name_end(s, i), Kind::Ident)
    } else if b == 0x2du8 {
        if i + 1 < s.len() && is_name_char(s[i + 1]) {
            step_tok(i, name_end(s, i), Kind::Ident)
        } else {
            step_tok(i, i + 1, Kind::Delim)
        }
    } else if is_digit(b) {
        step_tok(i, number_end(s, i), Kind::Number)
    } else if b == 0x2eu8 {
        if i + 1 < s.len() && is_digit(s[i + 1]) {
            step_tok(i, digit_end(s, i + 1), Kind::Number)
        } else {
            step_tok(i, i + 1, Kind::Delim)
        }
    } else if b == 0x2cu8 {
        step_tok(i, i + 1, Kind::Comma)
    } else if b == 0x3au8 {
        step_tok(i, i + 1, Kind::Colon)
    } else if b == 0x3bu8 {
        step_tok(i, i + 1, Kind::Semicolon)
    } else if b == 0x7bu8 {
        step_tok(i, i + 1, Kind::OpenBrace)
    } else if b == 0x7du8 {
        step_tok(i, i + 1, Kind::CloseBrace)
    } else {
        step_tok(i, i + 1, Kind::Delim)
    }
}

/// Ghost model of the whole lexer output from position `i` on: the token
/// sequence (ending in the end-of-file token), the comment spans, and the
/// lexical diagnostics, each in source order.
pub struct LexOut {
    pub toks: Seq<Token>,
    pub trivs: Seq<Span>,
    pub errs: Seq<DiagM>,
}

pub open spec fn eof_token(s: Seq<u8>) -> Token {
    Token { kind: Kind::Eof, span: span_at(s.len() as int, s.len() as int) }
}

pub open spec fn opt_seq<A>(o: Option<A>) -> Seq<A> {
    match o {
        Some(a) => seq![a],
        None => Seq::empty(),
    }
}

/// The complete tokenization of `s` from position `i`.
#[verifier::opaque]
pub open spec fn lex_all(s: Seq<u8>, i: int) -> LexOut
    decreases s.len() - i,
{
    if i < 0 || i >= s.len() {
        LexOut { toks: seq![eof_token(s)], trivs: Seq::empty(), errs: Seq::empty() }
    } else {
        let st = lex_next(s, i);
        let j = if i < st.next && st.next <= s.len() {
            st.next
        } else {
            i + 1
        };
        let rest = lex_all(s, j);
        LexOut {
            toks: opt_seq(st.tok) + rest.toks,
            trivs: opt_seq(st.trivia) + rest.trivs,
            errs: opt_seq(st.err) + rest.errs,
        }
    }
}

// ---------------------------------------------------------------------------
// Facts about the scan functions and the lexical step
// ---------------------------------------------------------------------------

pub proof fn lemma_ws_end(s: Seq<u8>, i: int)
    requires
        0 <= i <= s.len(),
    ensures
        i <= ws_end(s, i) <= s.len(),
    decreases s.len() - i,
{
    if i < s.len() && is_ws(s[i]) {
        lemma_ws_end(s, i + 1);
    }
}

pub proof fn lemma_name_end(s: Seq<u8>, i: int)
    requires
        0 <= i <= s.len(),
    ensures
        i <= name_end(s, i) <= s.len(),
    decreases s.len() - i,
{
    if i < s.len() && is_name_char(s[i]) {
        lemma_name_end(s, i + 1);
    }
}

pub proof fn lemma_digit_end(s: Seq<u8>, i: int)
    requires
        0 <= i <= s.len(),
    ensures
        i <= digit_end(s, i) <= s.len(),
    decreases s.len() - i,
{
    if i < s.len() && is_digit(s[i]) {
        lemma_digit_end(s, i + 1);
    }
}

pub proof fn lemma_string_scan(s: Seq<u8>, i: int, q: u8)
    requires
        0 <= i <= s.len(),
    ensures
        i <= string_scan(s, i, q).0 <= s.len(),
    decreases s.len() - i,
{
    if i < s.len() {
        if s[i] == q || s[i] == 0x0au8 {
        } else if s[i] == 0x5cu8 {
            if i + 1 < s.len() {
                lemma_string_scan(s, i + 2, q);
            }
        } else {
            lemma_string_scan(s, i + 1, q);
        }
    }
}

pub proof fn lemma_comment_close(s: Seq<u8>, i: int)
    requires
        0 <= i,
    ensures
        comment_close(s, i) == -1 || (i + 2 <= comment_close(s, i) <= s.len()),
    decreases s.len() - i,
{
    if i + 1 < s.len() && !(s[i] == 0x2au8 && s[i + 1] == 0x2fu8) {
        lemma_comment_close(s, i + 1);
    }
}

/// The step starting inside the source always advances, stays inside the
/// source, and everything it produces is labelled with the byte range
/// `[i, next)`.
pub proof fn lemma_lex_next_wf(s: Seq<u8>, i: int)
    requires
        0 <= i < s.len() <= 0xffff_ffff,
    ensures
        i < lex_next(s, i).next <= s.len(),
        lex_next(s, i).tok is Some ==> lex_next(s, i).tok->0.span == span_at(
            i,
            lex_next(s, i).next,
        ),
        lex_next(s, i).trivia is Some ==> lex_next(s, i).trivia->0 == span_at(
            i,
            lex_next(s, i).next,
        ),
        lex_next(s, i).err is Some ==> lex_next(s, i).err->0.span == span_at(
            i,
            lex_next(s, i).next,
        ),
        lex_next(s, i).tok is Some ==> lex_next(s, i).tok->0.kind != Kind::Eof,
{
    lemma_ws_end(s, i);
    lemma_name_end(s, i);
    lemma_digit_end(s, i);
    lemma_digit_end(s, digit_end(s, i));
    if i + 1 <= s.len() {
        lemma_name_end(s, i + 1);
        lemma_digit_end(s, i + 1);
        lemma_string_scan(s, i + 1, s[i]);
        lemma_comment_close(s, i + 2);
    }
    if is_ws(s[i]) {
        assert(ws_end(s, i) == ws_end(s, i + 1));
        lemma_ws_end(s, i + 1);
    }
    if is_name_char(s[i]) {
        assert(name_end(s, i) == name_end(s, i + 1));
        lemma_name_end(s, i + 1);
    }
    if is_digit(s[i]) {
        assert(digit_end(s, i) == digit_end(s, i + 1));
        lemma_digit_end(s, i + 1);
        if digit_end(s, i) + 1 < s.len() && s[digit_end(s, i)] == 0x2eu8 && is_digit(
            s[digit_end(s, i) + 1],
        ) {
            lemma_digit_end(s, digit_end(s, i) + 1);
        }
    }
}

/// Well-formedness of a token sequence lexed from position `i`: it ends
/// in the end-of-file token and nothing else is one, and the spans are
/// ordered byte ranges inside the source, appearing in source order.
pub open spec fn toks_wf(s: Seq<u8>, i: int, toks: Seq<Token>) -> bool {
    &&& toks.len() >= 1
    &&& toks.last() == eof_token(s)
    &&& (forall|j: int| 0 <= j < toks.len() - 1 ==> (#[trigger] toks[j]).kind != Kind::Eof)
    &&& (forall|j: int|
        0 <= j < toks.len() ==> i <= (#[trigger] toks[j]).span.start as int
            <= toks[j].span.end as int <= s.len())
    &&& (forall|j: int|
        0 <= j < toks.len() - 1 ==> ((#[trigger] toks[j]).span.start as int) < (
        toks[j].span.end as int))
    &&& (forall|a: int, b: int|
        0 <= a < b < toks.len() ==> (#[trigger] toks[a]).span.end as int
            <= (#[trigger] toks[b]).span.start as int)
}

/// All spans in the sequence are ordered byte ranges within the source,
/// at or after position `i`.
pub open spec fn spans_wf(s: Seq<u8>, i: int, spans: Seq<Span>) -> bool {
    forall|j: int|
        0 <= j < spans.len() ==> i <= (#[trigger] spans[j]).start as int <= spans[j].end as int
            <= s.len()
}

pub open spec fn errs_wf(s: Seq<u8>, i: int, errs: Seq<DiagM>) -> bool {
    forall|j: int|
        0 <= j < errs.len() ==> i <= (#[trigger] errs[j]).span.start as int
            <= errs[j].span.end as int <= s.len()
}

/// Everything `lex_all` produces is well formed: the token sequence is
/// ordered and ends in the single end-of-file token, and every trivia and
/// diagnostic span lies within the source.
pub proof fn lemma_lex_all_wf(s: Seq<u8>, i: int)
    requires
        0 <= i <= s.len() <= 0xffff_ffff,
    ensures
        toks_wf(s, i, lex_all(s, i).toks),
        spans_wf(s, i, lex_all(s, i).trivs),
        errs_wf(s, i, lex_all(s, i).errs),
    decreases s.len() - i,
{
    reveal(lex_all);
    if i < s.len() {
        lemma_lex_next_wf(s, i);
        lemma_lex_all_step(s, i);
        let st = lex_next(s, i);
        lemma_lex_all_wf(s, st.next);
        let rest = lex_all(s, st.next);
        assert(lex_all(s, i).toks.last() == rest.toks.last());
    }
}

/// Unfolding `lex_all` one step from a position inside the source.
pub proof fn lemma_lex_all_step(s: Seq<u8>, i: int)
    requires
        0 <= i < s.len() <= 0xffff_ffff,
    ensures
        lex_all(s, i).toks =~= opt_seq(lex_next(s, i).tok) + lex_all(s, lex_next(s, i).next).toks,
        lex_all(s, i).trivs =~= opt_seq(lex_next(s, i).trivia) + lex_all(
            s,
            lex_next(s, i).next,
        ).trivs,
        lex_all(s, i).errs =~= opt_seq(lex_next(s, i).err) + lex_all(s, lex_next(s, i).next).errs,
        i < lex_next(s, i).next <= s.len(),
{
    reveal(lex_all);
    lemma_lex_next_wf(s, i);
}

// ---------------------------------------------------------------------------
// Executable byte classification
// ---------------------------------------------------------------------------

fn is_ws_b(b: u8) -> (r: bool)
    ensures
        r == is_ws(b),
{
    b == 0x20 || b == 0x09 || b == 0x0a || b == 0x0d || b == 0x0c
}

fn is_digit_b(b: u8) -> (r: bool)
    ensures
        r == is_digit(b),
{
    0x30 <= b && b <= 0x39
}

fn is_name_start_b(b: u8) -> (r: bool)
    ensures
        r == is_name_start(b),
{
    (0x41 <= b && b <= 0x5a) || (0x61 <= b && b <= 0x7a) || b == 0x5f || b >= 0x80
}

fn is_name_char_b(b: u8) -> (r: bool)
    ensures
        r == is_name_char(b),
{
    is_name_start_b(b) || is_digit_b(b) || b == 0x2d
}

// ---------------------------------------------------------------------------
// Executable scanners, each computing its spec counterpart
// ---------------------------------------------------------------------------

#[verifier::loop_isolation(false)]
fn scan_ws(source: &[u8], i: usize) -> (j: usize)
    requires
        i <= source@.len() <= MAX_LEN as int,
    ensures
        j as int == ws_end(source@, i as int),
        i <= j <= source@.len(),
{
    let mut j = i;
    while j < source.len() && is_ws_b(source[j])
        invariant
            i <= j <= source@.len(),
            ws_end(source@, i as int) == ws_end(source@, j as int),
        decreases source@.len() - j,
    {
        j = j + 1;
    }
    proof {
        lemma_ws_end(source@, i as int);
    }
    j
}

#[verifier::loop_isolation(false)]
fn scan_name(source: &[u8], i: usize) -> (j: usize)
    requires
        i <= source@.len() <= MAX_LEN as int,
    ensures
        j as int == name_end(source@, i as int),
        i <= j <= source@.len(),
{
    let mut j = i;
    while j < source.len() && is_name_char_b(source[j])
        invariant
            i <= j <= source@.len(),
            name_end(source@, i as int) == name_end(source@, j as int),
        decreases source@.len() - j,
    {
        j = j + 1;
    }
    proof {
        lemma_name_end(source@, i as int);
    }
    j
}

#[verifier::loop_isolation(false)]
fn scan_digits(source: &[u8], i: usize) -> (j: usize)
    requires
        i <= source@.len() <= MAX_LEN as int,
    ensures
        j as int == digit_end(source@, i as int),
        i <= j <= source@.len(),
{
    let mut j = i;
    while j < source.len() && is_digit_b(source[j])
        invariant
            i <= j <= source@.len(),
            digit_end(source@, i as int) == digit_end(source@, j as int),
        decreases source@.len() - j,
    {
        j = j + 1;
    }
    proof {
        lemma_digit_end(source@, i as int);
    }
    j
}

fn scan_number(source: &[u8], i: usize) -> (j: usize)
    requires
        i <= source@.len() <= MAX_LEN as int,
    ensures
        j as int == number_end(source@, i as int),
        i <= j <= source@.len(),
{
    let d = scan_digits(source, i);
    if d < source.len() && source[d] == 0x2e && d + 1 < source.len() && is_digit_b(source[d + 1]) {
        scan_digits(source, d + 1)
    } else {
        d
    }
}

#[verifier::loop_isolation(false)]
fn scan_string(source: &[u8], i: usize, q: u8) -> (r: (usize, bool))
    requires
        i <= source@.len() <= MAX_LEN as int,
    ensures
        r.0 as int == string_scan(source@, i as int, q).0,
        r.1 == string_scan(source@, i as int, q).1,
        i <= r.0 <= source@.len(),
{
    proof {
        lemma_string_scan(source@, i as int, q);
    }
    let mut j = i;
    loop
        invariant
            i <= j <= source@.len(),
            string_scan(source@, i as int, q) == string_scan(source@, j as int, q),
        decreases source@.len() - j,
    {
        if j >= source.len() {
            return (j, false);
        }
        let b = source[j];
        if b == q {
            return (j + 1, true);
        }
        if b == 0x0a {
            return (j, false);
        }
        if b == 0x5c {
            if j + 1 < source.len() {
                j = j + 2;
            } else {
                return (j + 1, false);
            }
        } else {
            j = j + 1;
        }
    }
}

#[verifier::loop_isolation(false)]
fn scan_comment_close(source: &[u8], i: usize) -> (r: (usize, bool))
    requires
        i <= source@.len() <= MAX_LEN as int,
    ensures
        r.1 <==> comment_close(source@, i as int) >= 0,
        r.1 ==> r.0 as int == comment_close(source@, i as int) && i <= r.0 <= source@.len(),
{
    proof {
        lemma_comment_close(source@, i as int);
    }
    let mut j = i;
    loop
        invariant
            i <= j <= source@.len(),
            comment_close(source@, i as int) == comment_close(source@, j as int),
        decreases source@.len() - j,
    {
        if j >= source.len() {
            return (0, false);
        }
        if j + 1 >= source.len() {
            return (0, false);
        }
        if source[j] == 0x2a && source[j + 1] == 0x2f {
            return (j + 2, true);
        }
        j = j + 1;
    }
}

// ---------------------------------------------------------------------------
// The lexer
// ---------------------------------------------------------------------------

/// The executable diagnostics `ds` realize the ghost diagnostics `ms`,
/// entry for entry.
pub open spec fn diags_match(ds: Seq<Diagnostic>, ms: Seq<DiagM>) -> bool {
    ds.len() == ms.len() && forall|i: int|
        0 <= i < ds.len() ==> (#[trigger] ds[i]).is(ms[i].kind, ms[i].span)
}

/// Produces one token at a time from the source bytes, accumulating
/// comment trivia and lexical diagnostics on the side.
pub struct Lexer<'a> {
    /// The source text being scanned.
    pub source: &'a [u8],
    /// The scan position.
    pub cursor: Cursor,
    /// Lexical diagnostics, in source order.
    pub errors: Vec<Diagnostic>,
    /// Comment spans, in source order.
    pub trivias: Vec<Span>,
    /// Ghost classification of `errors`.
    pub errs_m: Ghost<Seq<DiagM>>,
}

impl<'a> Lexer<'a> {
    pub open spec fn wf(self) -> bool {
        &&& self.source@.len() <= MAX_LEN as int
        &&& self.cursor.pos <= self.source@.len()
        &&& diags_match(self.errors@, self.errs_m@)
    }

    /// Create a lexer over `source`. The `UniquePromise` argument makes
    /// this constructible only through the single entry point (or the
    /// test backdoor), so no second cursor can alias this scan.
    pub fn new(source: &'a [u8], unique: UniquePromise) -> (l: Lexer<'a>)
        requires
            source@.len() <= MAX_LEN as int,
        ensures
            l.wf(),
            l.source@ == source@,
            l.cursor.pos == 0,
            l.errors@.len() == 0,
            l.trivias@.len() == 0,
            l.errs_m@.len() == 0,
    {
        let _ = unique;
        Lexer {
            source,
            cursor: Cursor::new(),
            errors: Vec::new(),
            trivias: Vec::new(),
            errs_m: Ghost(Seq::empty()),
        }
    }

    /// Advance past one lexical unit and return its token.
    ///
    /// Comments are diverted into `trivias` and unterminated ones into
    /// `errors`; whitespace is skipped. Repeated calls produce exactly the
    /// token sequence `lex_all` describes, terminating in the end-of-file
    /// token.
    #[verifier::loop_isolation(false)]
    pub fn next_token(&mut self) -> (t: Token)
        requires
            old(self).wf(),
        ensures
            final(self).wf(),
            final(self).source == old(self).source,
            final(self).source@ == old(self).source@,
            old(self).cursor.pos <= final(self).cursor.pos <= final(self).source@.len(),
            t == lex_all(final(self).source@, old(self).cursor.pos as int).toks[0],
            t.kind != Kind::Eof ==> final(self).cursor.pos > old(self).cursor.pos && lex_all(
                final(self).source@,
                old(self).cursor.pos as int,
            ).toks =~= seq![t] + lex_all(final(self).source@, final(self).cursor.pos as int).toks,
            t.kind == Kind::Eof ==> final(self).cursor.pos == final(self).source@.len() && lex_all(
                final(self).source@,
                old(self).cursor.pos as int,
            ).toks =~= seq![t],
            old(self).trivias@ + lex_all(final(self).source@, old(self).cursor.pos as int).trivs
                =~= final(self).trivias@ + lex_all(
                final(self).source@,
                final(self).cursor.pos as int,
            ).trivs,
            old(self).errs_m@ + lex_all(final(self).source@, old(self).cursor.pos as int).errs
                =~= final(self).errs_m@ + lex_all(
                final(self).source@,
                final(self).cursor.pos as int,
            ).errs,
    {
        let ghost s = self.source@;
        let ghost p0 = self.cursor.pos as int;
        proof {
            reveal(lex_all);
        }
        loop
            invariant
                self.wf(),
                self.source == old(self).source,
                self.source@ == s,
                p0 <= self.cursor.pos as int <= s.len(),
                lex_all(s, p0).toks =~= lex_all(s, self.cursor.pos as int).toks,
                old(self).trivias@ + lex_all(s, p0).trivs =~= self.trivias@ + lex_all(
                    s,
                    self.cursor.pos as int,
                ).trivs,
                old(self).errs_m@ + lex_all(s, p0).errs =~= self.errs_m@ + lex_all(
                    s,
                    self.cursor.pos as int,
                ).errs,
            decreases s.len() - self.cursor.pos,
        {
            proof {
                reveal(lex_all);
            }
            let pos = self.cursor.pos();
            let len = self.source.len();
            if pos >= len {
                return Token {
                    kind: Kind::Eof,
                    span: Span { start: len as u32, end: len as u32 },
                };
            }
            proof {
                lemma_lex_all_step(s, pos as int);
            }
            let ghost st = lex_next(s, pos as int);
            let b = self.source[pos];
            if is_ws_b(b) {
                let j = scan_ws(self.source, pos);
                self.cursor.set_position(j);
            } else if b == 0x2f && pos + 1 < len && self.source[pos + 1] == 0x2a {
                let (c, found) = scan_comment_close(self.source, pos + 2);
                if found {
                    let sp = Span { start: pos as u32, end: c as u32 };
                    self.trivias.push(sp);
                    self.cursor.set_position(c);
                    proof {
                        assert(old(self).trivias@ + lex_all(s, p0).trivs =~= self.trivias@
                            + lex_all(s, self.cursor.pos as int).trivs);
                    }
                } else {
                    let sp = Span { start: pos as u32, end: len as u32 };
                    self.errors.push(crate::diagnostics::unterminated_comment(sp));
                    proof {
                        self.errs_m@ = self.errs_m@.push(
                            DiagM { kind: DiagKind::UnterminatedComment, span: sp },
                        );
                    }
                    self.cursor.set_position(len);
                    proof {
                        assert(diags_match(self.errors@, self.errs_m@));
                        assert(old(self).errs_m@ + lex_all(s, p0).errs =~= self.errs_m@ + lex_all(
                            s,
                            self.cursor.pos as int,
                        ).errs);
                    }
                }
            } else if b == 0x22 || b == 0x27 {
                let (e, term) = scan_string(self.source, pos + 1, b);
                let sp = Span { start: pos as u32, end: e as u32 };
                if term {
                    self.cursor.set_position(e);
                    return Token { kind: Kind::Str, span: sp };
                } else {
                    self.errors.push(crate::diagnostics::unterminated_string(sp));
                    proof {
                        self.errs_m@ = self.errs_m@.push(
                            DiagM { kind: DiagKind::UnterminatedString, span: sp },
                        );
                    }
                    self.cursor.set_position(e);
                    proof {
                        assert(diags_match(self.errors@, self.errs_m@));
                    }
                    return Token { kind: Kind::Undetermined, span: sp };
                }
            } else if b == 0x40 {
                if pos + 1 < len && is_name_start_b(self.source[pos + 1]) {
                    let j = scan_name(self.source, pos + 1);
                    self.cursor.set_position(j);
                    return Token {
                        kind: Kind::AtKeyword,
                        span: Span { start: pos as u32, end: j as u32 },
                    };
                } else {
                    self.cursor.set_position(pos + 1);
                    return Token {
                        kind: Kind::Delim,
                        span: Span { start: pos as u32, end: (pos + 1) as u32 },
                    };
                }
            } else if is_name_start_b(b) {
                let j = scan_name(self.source, pos);
                self.cursor.set_position(j);
                return Token { kind: Kind::Ident, span: Span { start: pos as u32, end: j as u32 } };
            } else if b == 0x2d {
                if pos + 1 < len && is_name_char_b(self.source[pos + 1]) {
                    let j = scan_name(self.source, pos);
                    self.cursor.set_position(j);
                    return Token {
                        kind: Kind::Ident,
                        span: Span { start: pos as u32, end: j as u32 },
                    };
                } else {
                    self.cursor.set_position(pos + 1);
                    return Token {
                        kind: Kind::Delim,
                        span: Span { start: pos as u32, end: (pos + 1) as u32 },
                    };
                }
            } else if is_digit_b(b) {
                let j = scan_number(self.source, pos);
                self.cursor.set_position(j);
                return Token {
                    kind: Kind::Number,
                    span: Span { start: pos as u32, end: j as u32 },
                };
            } else if b == 0x2e {
                if pos + 1 < len && is_digit_b(self.source[pos + 1]) {
                    let j = scan_digits(self.source, pos + 1);
                    self.cursor.set_position(j);
                    return Token {
                        kind: Kind::Number,
                        span: Span { start: pos as u32, end: j as u32 },
                    };
                } else {
                    self.cursor.set_position(pos + 1);
                    return Token {
                        kind: Kind::Delim,
                        span: Span { start: pos as u32, end: (pos + 1) as u32 },
                    };
                }
            } else {
                let kind = if b == 0x2c {
                    Kind::Comma
                } else if b == 0x3a {
                    Kind::Colon
                } else if b == 0x3b {
                    Kind::Semicolon
                } else if b == 0x7b {
                    Kind::OpenBrace
                } else if b == 0x7d {
                    Kind::CloseBrace
                } else {
                    Kind::Delim
                };
                self.cursor.set_position(pos + 1);
                return Token { kind, span: Span { start: pos as u32, end: (pos + 1) as u32 } };
            }
        }
    }
}

} // verus!
