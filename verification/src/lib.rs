//! A recursive-descent CSS parser producing a stylesheet AST with precise
//! source spans, structured diagnostics, and comment trivia.
//!
//! The parser has a minimal API with one input and one return struct
//! ([`ParserReturn`]):
//!
//! ```ignore
//! let ret = Parser::new(source_bytes).parse();
//! ```
//!
//! It always returns a structurally valid (possibly empty) stylesheet; all
//! errors are reported as [`diagnostics::Diagnostic`] values, never by
//! unwinding.

use vstd::prelude::*;

pub mod ast;
pub mod ast_builder;
pub mod block;
pub mod cursor;
pub mod diagnostics;
pub mod grammar;
pub mod lexer;
pub mod rule;
pub mod selector;
pub mod span;
pub mod token;
pub mod value;

use crate::ast::{view_rules, view_stylesheet, wf_rules_v, wf_stylesheet_v, StyleSheet, StyleSheetV};
use crate::ast_builder::AstBuilder;
use crate::diagnostics::{DiagKind, Diagnostic};
use crate::grammar::sp_rules;
use crate::lexer::{diags_match, lex_all, toks_wf, DiagM, Lexer};
use crate::span::Span;
use crate::token::{Kind, Token};

verus! {

/// Maximum length of source which can be parsed, in bytes.
///
/// `Span` offsets are `u32`, so a source longer than `u32::MAX` bytes
/// cannot be addressed by spans; such a source is rejected up front with a
/// single dedicated diagnostic.
pub const MAX_LEN: usize = 0xffff_ffff;

/// A zero-sized proof value enforcing that at most one lexer/cursor/parser
/// chain is live at a time.
///
/// The constructors of `Lexer` and `ParserImpl` consume a `UniquePromise`,
/// and the production entry point manufactures exactly one per parse, so
/// the type system prevents two cursors from scanning the same buffer at
/// once — the discipline that makes `Cursor::set_position` sound to use.
pub struct UniquePromise {
    dummy: (),
}

impl UniquePromise {
    /// Manufacture the proof value; called once per parse by the entry
    /// point.
    pub fn new() -> UniquePromise {
        UniquePromise { dummy: () }
    }

    /// Backdoor for tests and benchmarks that construct a lexer or parser
    /// in isolation; never reachable from the production entry point.
    pub fn new_for_tests() -> UniquePromise {
        UniquePromise { dummy: () }
    }
}

// ---------------------------------------------------------------------------
// Trivia and the parse result
// ---------------------------------------------------------------------------

/// The comment spans collected during one parse, in source order,
/// restartable and finite.
pub struct Trivias {
    pub comments: Vec<Span>,
}

impl Trivias {
    /// Every comment's source range, in source order.
    pub fn comments(&self) -> (c: &Vec<Span>)
        ensures
            c@ == self.comments@,
    {
        &self.comments
    }
}

/// Return value of the parser: the AST, the diagnostics, the comment
/// trivia and a failure flag.
///
/// The stylesheet is always structurally valid. When `panicked` is true
/// (only for an over-long source) the stylesheet is empty; when `errors`
/// is non-empty the stylesheet may still hold the rules that parsed.
pub struct ParserReturn {
    pub stylesheet: StyleSheet,
    pub errors: Vec<Diagnostic>,
    pub trivias: Trivias,
    pub panicked: bool,
}

// ---------------------------------------------------------------------------
// What a parse returns, as a function of the source alone
// ---------------------------------------------------------------------------

/// The stylesheet produced for an over-long source: default span, no
/// rules, empty text.
pub open spec fn empty_stylesheet_v() -> StyleSheetV {
    StyleSheetV {
        span: Span { start: 0, end: 0 },
        children: Seq::empty(),
        source_text: Seq::empty(),
    }
}

/// The stylesheet model of a source within the length bound: the rules
/// the grammar derives from the token sequence, bracketed by a span from
/// offset zero to the end of the last consumed token.
pub open spec fn stylesheet_model(s: Seq<u8>) -> StyleSheetV {
    let toks = lex_all(s, 0).toks;
    let last = toks.len() as int - 1;
    let end = if last >= 1 {
        toks[last - 1].span.end
    } else {
        0u32
    };
    StyleSheetV {
        span: Span { start: 0u32, end },
        children: sp_rules(s, toks, 0).rules,
        source_text: s.subrange(0, end as int),
    }
}

/// The diagnostics of a parse, in order: for an over-long source exactly
/// the dedicated diagnostic; otherwise the lexer's diagnostics followed
/// by the parser's.
pub open spec fn errors_model(s: Seq<u8>) -> Seq<DiagM> {
    if s.len() > MAX_LEN as int {
        seq![DiagM { kind: DiagKind::OverlongSource, span: Span { start: 0, end: 0 } }]
    } else {
        lex_all(s, 0).errs + sp_rules(s, lex_all(s, 0).toks, 0).errs
    }
}

/// The comment spans of a parse, in source order.
pub open spec fn trivias_model(s: Seq<u8>) -> Seq<Span> {
    if s.len() > MAX_LEN as int {
        Seq::empty()
    } else {
        lex_all(s, 0).trivs
    }
}

/// Everything `parse` promises of its result, for any source.
pub open spec fn parse_post(s: Seq<u8>, r: ParserReturn) -> bool {
    &&& (r.panicked <==> s.len() > MAX_LEN as int)
    &&& diags_match(r.errors@, errors_model(s))
    &&& r.trivias.comments@ == trivias_model(s)
    &&& (s.len() > MAX_LEN as int ==> view_stylesheet(r.stylesheet) == empty_stylesheet_v())
    &&& (s.len() <= MAX_LEN as int ==> view_stylesheet(r.stylesheet) == stylesheet_model(s))
    &&& wf_stylesheet_v(view_stylesheet(r.stylesheet), s.len() as int)
}

// ---------------------------------------------------------------------------
// The parser
// ---------------------------------------------------------------------------

/// Recursive descent parser.
///
/// See [`Parser::parse`] for the entry function.
pub struct Parser<'a> {
    pub source_text: &'a [u8],
}

impl<'a> Parser<'a> {
    /// Create a new parser over the UTF-8 bytes of a source text.
    pub fn new(source_text: &'a [u8]) -> (p: Parser<'a>)
        ensures
            p.source_text@ == source_text@,
    {
        Parser { source_text }
    }

    /// Main entry point.
    ///
    /// Returns an empty stylesheet and `panicked` on the one
    /// unrecoverable error (a source longer than [`MAX_LEN`]); every
    /// other malformed input is recovered from, with the diagnostics
    /// collected in `errors`.
    pub fn parse(self) -> (r: ParserReturn)
        ensures
            parse_post(self.source_text@, r),
    {
        let ghost s = self.source_text@;
        if self.source_text.len() > MAX_LEN {
            let ast = AstBuilder::new();
            let mut errors: Vec<Diagnostic> = Vec::new();
            errors.push(crate::diagnostics::overlong_source());
            let sheet = ast.stylesheet(
                Span { start: 0, end: 0 },
                ast.new_vec(),
                ast.atom_from(self.source_text, 0, 0),
            );
            proof {
                assert(view_rules(sheet.children@) =~= Seq::empty());
                assert(view_stylesheet(sheet) == empty_stylesheet_v());
                assert(diags_match(errors@, errors_model(s)));
            }
            ParserReturn {
                stylesheet: sheet,
                errors,
                trivias: Trivias { comments: Vec::new() },
                panicked: true,
            }
        } else {
            let unique = UniquePromise::new();
            let parser = ParserImpl::new(self.source_text, unique);
            parser.parse()
        }
    }
}

/// Implementation of the parser; [`Parser`] is the public wrapper.
///
/// Holds the token stream, the trivia and diagnostics the lexer
/// accumulated, and the parser's own diagnostics.
pub struct ParserImpl<'a> {
    /// The source text.
    pub source_text: &'a [u8],
    /// The token stream, ending in the end-of-file token.
    pub tokens: Vec<Token>,
    /// Index of the current token.
    pub ti: usize,
    /// The lexer's diagnostics.
    pub lex_errors: Vec<Diagnostic>,
    /// Ghost classification of `lex_errors`.
    pub lex_errs_m: Ghost<Seq<DiagM>>,
    /// Comment spans, in source order.
    pub trivias: Vec<Span>,
    /// The parser's own diagnostics.
    pub errors: Vec<Diagnostic>,
    /// Ghost classification of `errors`.
    pub errs_m: Ghost<Seq<DiagM>>,
    /// End offset of the most recently consumed token, for span
    /// bracketing.
    pub prev_token_end: u32,
    /// Builder for all AST allocation.
    pub ast: AstBuilder,
}

impl<'a> ParserImpl<'a> {
    pub open spec fn src(self) -> Seq<u8> {
        self.source_text@
    }

    pub open spec fn toks(self) -> Seq<Token> {
        self.tokens@
    }

    /// The parser's internal invariant: the token stream is exactly the
    /// lexer model of the source, the current index is in range, and the
    /// diagnostic lists realize their ghost classifications.
    pub open spec fn wf(self) -> bool {
        &&& self.src().len() <= MAX_LEN as int
        &&& self.tokens@ == lex_all(self.src(), 0).toks
        &&& toks_wf(self.src(), 0, self.tokens@)
        &&& self.ti < self.tokens@.len()
        &&& diags_match(self.errors@, self.errs_m@)
        &&& diags_match(self.lex_errors@, self.lex_errs_m@)
        &&& self.lex_errs_m@ == lex_all(self.src(), 0).errs
        &&& self.trivias@ == lex_all(self.src(), 0).trivs
    }

    /// The parts of the state a grammar production never changes.
    pub open spec fn stream_eq(self, o: ParserImpl<'a>) -> bool {
        &&& self.source_text@ == o.source_text@
        &&& self.tokens@ == o.tokens@
        &&& self.lex_errors@ == o.lex_errors@
        &&& self.lex_errs_m@ == o.lex_errs_m@
        &&& self.trivias@ == o.trivias@
    }

    /// Create a `ParserImpl`: run the lexer over the whole source,
    /// collecting the token stream, the trivia and the lexical
    /// diagnostics.
    ///
    /// Requiring a `UniquePromise` guarantees only one `ParserImpl` can
    /// exist on a single thread at one time.
    #[verifier::loop_isolation(false)]
    pub fn new(source_text: &'a [u8], unique: UniquePromise) -> (p: ParserImpl<'a>)
        requires
            source_text@.len() <= MAX_LEN as int,
        ensures
            p.wf(),
            p.src() == source_text@,
            p.ti == 0,
            p.errors@.len() == 0,
            p.errs_m@ == Seq::<DiagM>::empty(),
    {
        proof {
            reveal(lex_all);
        }
        let ghost s = source_text@;
        let mut lexer = Lexer::new(source_text, unique);
        let mut tokens: Vec<Token> = Vec::new();
        let mut t = lexer.next_token();
        while t.kind != Kind::Eof
            invariant
                lexer.wf(),
                lexer.source@ == s,
                lexer.cursor.pos <= s.len(),
                forall|j: int| 0 <= j < tokens@.len() ==> (#[trigger] tokens@[j]).kind != Kind::Eof,
                t.kind != Kind::Eof ==> lex_all(s, 0).toks =~= tokens@.push(t) + lex_all(
                    s,
                    lexer.cursor.pos as int,
                ).toks,
                t.kind == Kind::Eof ==> lex_all(s, 0).toks =~= tokens@.push(t)
                    && lexer.cursor.pos == s.len(),
                lex_all(s, 0).trivs =~= lexer.trivias@ + lex_all(s, lexer.cursor.pos as int).trivs,
                lex_all(s, 0).errs =~= lexer.errs_m@ + lex_all(s, lexer.cursor.pos as int).errs,
            decreases s.len() - lexer.cursor.pos, (if t.kind != Kind::Eof {
                1int
            } else {
                0int
            }),
        {
            let ghost toks_b = tokens@;
            let ghost t_b = t;
            let ghost pos_b = lexer.cursor.pos as int;
            tokens.push(t);
            t = lexer.next_token();
            proof {
                if t.kind != Kind::Eof {
                    assert(lex_all(s, pos_b).toks =~= seq![t] + lex_all(
                        s,
                        lexer.cursor.pos as int,
                    ).toks);
                    assert(lex_all(s, 0).toks =~= tokens@.push(t) + lex_all(
                        s,
                        lexer.cursor.pos as int,
                    ).toks);
                } else {
                    assert(lex_all(s, pos_b).toks =~= seq![t]);
                    assert(lex_all(s, 0).toks =~= tokens@.push(t));
                }
            }
        }
        tokens.push(t);
        proof {
            assert(tokens@ =~= lex_all(s, 0).toks);
            crate::lexer::lemma_lex_all_wf(s, 0);
            assert(lex_all(s, s.len() as int).trivs =~= Seq::<Span>::empty());
            assert(lex_all(s, s.len() as int).errs =~= Seq::<DiagM>::empty());
            assert(lexer.trivias@ =~= lex_all(s, 0).trivs);
            assert(lexer.errs_m@ =~= lex_all(s, 0).errs);
        }
        let mut lex_errors: Vec<Diagnostic> = Vec::new();
        lex_errors.append(&mut lexer.errors);
        let mut trivias: Vec<Span> = Vec::new();
        trivias.append(&mut lexer.trivias);
        ParserImpl {
            source_text,
            tokens,
            ti: 0,
            lex_errors,
            lex_errs_m: Ghost(lexer.errs_m@),
            trivias,
            errors: Vec::new(),
            errs_m: Ghost(Seq::empty()),
            prev_token_end: 0,
            ast: AstBuilder::new(),
        }
    }

    /// Backdoor to create a `ParserImpl` without the production entry
    /// point, for building components in isolation under test.
    pub fn new_for_tests(source_text: &'a [u8]) -> (p: ParserImpl<'a>)
        requires
            source_text@.len() <= MAX_LEN as int,
        ensures
            p.wf(),
            p.src() == source_text@,
            p.ti == 0,
            p.errors@.len() == 0,
            p.errs_m@ == Seq::<DiagM>::empty(),
    {
        let unique = UniquePromise::new_for_tests();
        ParserImpl::new(source_text, unique)
    }

    /// Push one diagnostic.
    pub fn error(&mut self, error: Diagnostic, Ghost(m): Ghost<DiagM>)
        requires
            old(self).wf(),
            error.is(m.kind, m.span),
        ensures
            final(self).wf(),
            old(self).stream_eq(*final(self)),
            final(self).ti == old(self).ti,
            final(self).prev_token_end == old(self).prev_token_end,
            final(self).errs_m@ == old(self).errs_m@.push(m),
    {
        self.errors.push(error);
        proof {
            self.errs_m@ = self.errs_m@.push(m);
        }
    }

    /// Report a token that fits no production, unless the lexer already
    /// explained it (an `Undetermined` token) — then stay silent rather
    /// than adding a vaguer duplicate.
    pub fn unexpected(&mut self, t: Token)
        requires
            old(self).wf(),
        ensures
            final(self).wf(),
            old(self).stream_eq(*final(self)),
            final(self).ti == old(self).ti,
            final(self).prev_token_end == old(self).prev_token_end,
            final(self).errs_m@ == old(self).errs_m@ + crate::grammar::unexpected_diag(t),
    {
        if t.kind == Kind::Undetermined {
            proof {
                assert(final(self).errs_m@ =~= old(self).errs_m@ + crate::grammar::unexpected_diag(
                    t,
                ));
            }
        } else if t.kind == Kind::Eof {
            self.error(
                crate::diagnostics::unexpected_eof(t.span),
                Ghost(DiagM { kind: DiagKind::UnexpectedEof, span: t.span }),
            );
            proof {
                assert(self.errs_m@ =~= old(self).errs_m@ + crate::grammar::unexpected_diag(t));
            }
        } else {
            self.error(
                crate::diagnostics::unexpected_token(t.span),
                Ghost(DiagM { kind: DiagKind::UnexpectedToken, span: t.span }),
            );
            proof {
                assert(self.errs_m@ =~= old(self).errs_m@ + crate::grammar::unexpected_diag(t));
            }
        }
    }

    /// Parse the whole stylesheet: top-level rules until end of input,
    /// with the root span bracketing everything consumed.
    #[verifier::rlimit(100)]
    #[verifier::loop_isolation(false)]
    pub fn parse_stylesheet(&mut self) -> (r: StyleSheet)
        requires
            old(self).wf(),
            old(self).ti == 0,
        ensures
            final(self).wf(),
            old(self).stream_eq(*final(self)),
            view_stylesheet(r) == stylesheet_model(old(self).src()),
            final(self).errs_m@ == old(self).errs_m@ + sp_rules(
                old(self).src(),
                old(self).toks(),
                0,
            ).errs,
            wf_stylesheet_v(view_stylesheet(r), old(self).src().len() as int),
    {
        proof {
            reveal(sp_rules);
        }
        let ghost s = old(self).src();
        let ghost toks = old(self).toks();
        let mut children: Vec<crate::ast::Rule> = self.ast.new_vec();
        while self.tokens[self.ti].kind != Kind::Eof
            invariant
                self.wf(),
                old(self).stream_eq(*self),
                sp_rules(s, toks, 0).rules =~= view_rules(children@) + sp_rules(
                    s,
                    toks,
                    self.ti as int,
                ).rules,
                sp_rules(s, toks, 0).ti == sp_rules(s, toks, self.ti as int).ti,
                old(self).errs_m@ + sp_rules(s, toks, 0).errs =~= self.errs_m@ + sp_rules(
                    s,
                    toks,
                    self.ti as int,
                ).errs,
                wf_rules_v(view_rules(children@), s.len() as int),
            decreases toks.len() - self.ti,
        {
            proof {
                reveal(sp_rules);
            }
            let ghost ti_b = self.ti as int;
            let ghost ch_b = children@;
            let r = self.parse_rule();
            match r {
                Some(rule) => {
                    proof {
                        crate::ast::lemma_view_rules_push(ch_b, rule);
                    }
                    children.push(rule);
                },
                None => {},
            }
            proof {
                let m = crate::grammar::sp_rule(s, toks, ti_b);
                assert(sp_rules(s, toks, ti_b).rules =~= crate::lexer::opt_seq(m.rule) + sp_rules(
                    s,
                    toks,
                    self.ti as int,
                ).rules);
                assert(sp_rules(s, toks, ti_b).errs =~= m.errs + sp_rules(
                    s,
                    toks,
                    self.ti as int,
                ).errs);
                assert(sp_rules(s, toks, 0).rules =~= view_rules(children@) + sp_rules(
                    s,
                    toks,
                    self.ti as int,
                ).rules);
                assert(old(self).errs_m@ + sp_rules(s, toks, 0).errs =~= self.errs_m@ + sp_rules(
                    s,
                    toks,
                    self.ti as int,
                ).errs);
            }
        }
        proof {
            assert(self.ti as int == toks.len() - 1);
            assert(sp_rules(s, toks, self.ti as int).rules =~= Seq::empty());
            assert(sp_rules(s, toks, self.ti as int).errs =~= Seq::empty());
            assert(sp_rules(s, toks, 0).rules =~= view_rules(children@));
            assert(self.errs_m@ =~= old(self).errs_m@ + sp_rules(s, toks, 0).errs);
        }
        let last_end: u32 = if self.ti >= 1 {
            self.tokens[self.ti - 1].span.end
        } else {
            0
        };
        self.prev_token_end = last_end;
        let span = Span { start: 0, end: last_end };
        let text = self.ast.atom_from(self.source_text, 0, last_end as usize);
        let sheet = self.ast.stylesheet(span, children, text);
        proof {
            assert(view_stylesheet(sheet) == stylesheet_model(s));
        }
        sheet
    }

    /// Run the parse and assemble the result bundle: the lexer's
    /// diagnostics first, then the parser's, plus the trivia.
    pub fn parse(self) -> (r: ParserReturn)
        requires
            self.wf(),
            self.ti == 0,
            self.errors@.len() == 0,
            self.errs_m@ == Seq::<DiagM>::empty(),
        ensures
            parse_post(self.src(), r),
    {
        let ghost s = self.src();
        let mut p = self;
        let sheet = p.parse_stylesheet();
        let mut errors: Vec<Diagnostic> = Vec::new();
        errors.append(&mut p.lex_errors);
        errors.append(&mut p.errors);
        proof {
            assert(diags_match(errors@, errors_model(s)));
        }
        let mut comments: Vec<Span> = Vec::new();
        comments.append(&mut p.trivias);
        ParserReturn { stylesheet: sheet, errors, trivias: Trivias { comments }, panicked: false }
    }
}

// ---------------------------------------------------------------------------
// Laws
// ---------------------------------------------------------------------------

/// Any parse result is structurally valid — every node's span an ordered
/// byte range within the source — even when diagnostics were reported or
/// the parse panicked.
pub proof fn law_structurally_valid(s: Seq<u8>, r: ParserReturn)
    requires
        parse_post(s, r),
    ensures
        wf_stylesheet_v(view_stylesheet(r.stylesheet), s.len() as int),
{
}

/// Empty source parses to an empty rule sequence with no diagnostics and
/// no trivia.
pub proof fn law_empty_source(s: Seq<u8>)
    requires
        s.len() == 0,
    ensures
        stylesheet_model(s).children =~= Seq::<crate::ast::RuleV>::empty(),
        stylesheet_model(s).span == (Span { start: 0, end: 0 }),
        errors_model(s) =~= Seq::<DiagM>::empty(),
        trivias_model(s) =~= Seq::<Span>::empty(),
{
    reveal(lex_all);
    reveal(sp_rules);
    assert(lex_all(s, 0).toks =~= seq![crate::lexer::eof_token(s)]);
}

/// A source one byte over the limit always panics with exactly the
/// dedicated over-length diagnostic and an empty stylesheet, whatever its
/// content.
pub proof fn law_overlong_source(s: Seq<u8>, r: ParserReturn)
    requires
        parse_post(s, r),
        s.len() > MAX_LEN as int,
    ensures
        r.panicked,
        r.errors@.len() == 1,
        r.errors@[0].is(DiagKind::OverlongSource, Span { start: 0, end: 0 }),
        view_stylesheet(r.stylesheet).children =~= Seq::<crate::ast::RuleV>::empty(),
{
}

/// A source within the limit — the limit itself included — never panics,
/// and yields exactly the stylesheet, diagnostics and trivia that the
/// grammar model derives from its bytes.
pub proof fn law_max_len_source(s: Seq<u8>, r: ParserReturn)
    requires
        parse_post(s, r),
        s.len() <= MAX_LEN as int,
    ensures
        !r.panicked,
        view_stylesheet(r.stylesheet) == stylesheet_model(s),
        diags_match(r.errors@, errors_model(s)),
        r.trivias.comments@ == trivias_model(s),
{
}

/// A source that is one standalone comment — it opens at the first byte
/// and its first `*/` ends at the last — yields exactly one trivia entry,
/// covering the whole source, and no diagnostics.
pub proof fn law_single_comment(s: Seq<u8>)
    requires
        4 <= s.len() <= MAX_LEN as int,
        s[0] == 0x2fu8,
        s[1] == 0x2au8,
        crate::lexer::comment_close(s, 2) == s.len(),
    ensures
        trivias_model(s) =~= seq![Span { start: 0, end: s.len() as u32 }],
        errors_model(s) =~= Seq::<DiagM>::empty(),
        stylesheet_model(s).children =~= Seq::<crate::ast::RuleV>::empty(),
{
    reveal(lex_all);
    reveal(sp_rules);
    assert(!crate::lexer::is_ws(s[0]));
    assert(lex_all(s, s.len() as int).toks =~= seq![crate::lexer::eof_token(s)]);
}

/// Parsing identical source text in two independent calls produces the
/// same stylesheet, the same diagnostics (message for message, span for
/// span, in the same order) and the same comment spans.
pub proof fn law_reparse_identical(s: Seq<u8>, r1: ParserReturn, r2: ParserReturn)
    requires
        parse_post(s, r1),
        parse_post(s, r2),
    ensures
        r1.trivias.comments@ == r2.trivias.comments@,
        r1.errors@.len() == r2.errors@.len(),
        forall|i: int|
            0 <= i < r1.errors@.len() ==> (#[trigger] r1.errors@[i]).message@
                == r2.errors@[i].message@ && r1.errors@[i].span == r2.errors@[i].span,
        view_stylesheet(r1.stylesheet) == view_stylesheet(r2.stylesheet),
        r1.panicked == r2.panicked,
{
}

} // verus!
