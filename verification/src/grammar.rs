//! Ghost model of the recursive-descent grammar.
//!
//! Each `sp_*` function says, as a mathematical function of the source
//! bytes and the token sequence, exactly what the corresponding parser
//! production consumes, builds and reports. The executable parser is
//! proved to compute these models, which pins the whole parse down as a
//! function of the source alone.
//!
//! Error recovery is encoded here too: a malformed construct yields a
//! diagnostic (unless the lexer already explained the token) and a
//! resynchronization point, never a failure.

use vstd::prelude::*;
use crate::ast::{AtRuleV, BlockChildV, BlockV, DeclarationV, RuleV, SelectorV, StyleRuleV};
use crate::diagnostics::DiagKind;
use crate::lexer::{lex_all, opt_seq, DiagM};
use crate::span::Span;
use crate::token::{Kind, Token};

verus! {

// ---------------------------------------------------------------------------
// Token-range text and boundary scans
// ---------------------------------------------------------------------------

/// The source text covered by one token.
pub open spec fn tok_text(s: Seq<u8>, t: Token) -> Seq<u8> {
    s.subrange(t.span.start as int, t.span.end as int)
}

/// The source text stretching from the first byte of token `a` to the
/// last byte of token `b - 1`; empty when the range holds no token.
pub open spec fn range_text(s: Seq<u8>, toks: Seq<Token>, a: int, b: int) -> Seq<u8> {
    if a < b {
        s.subrange(toks[a].span.start as int, toks[b - 1].span.end as int)
    } else {
        Seq::empty()
    }
}

/// Tokens ending a selector segment.
pub open spec fn is_sel_stop(k: Kind) -> bool {
    k == Kind::Comma || k == Kind::OpenBrace || k == Kind::Semicolon || k == Kind::CloseBrace
        || k == Kind::Eof
}

/// Tokens ending an at-rule prelude.
pub open spec fn is_pre_stop(k: Kind) -> bool {
    k == Kind::OpenBrace || k == Kind::Semicolon || k == Kind::Eof
}

/// Tokens ending a declaration or deciding that a block item is a nested
/// rule.
pub open spec fn is_item_stop(k: Kind) -> bool {
    k == Kind::OpenBrace || k == Kind::Semicolon || k == Kind::CloseBrace || k == Kind::Eof
}

/// First index at or after `ti` holding a selector-segment stop.
pub open spec fn sel_end(toks: Seq<Token>, ti: int) -> int
    decreases toks.len() - ti,
{
    if ti < 0 || ti >= toks.len() {
        ti
    } else if is_sel_stop(toks[ti].kind) {
        ti
    } else {
        sel_end(toks, ti + 1)
    }
}

/// First index at or after `ti` holding a prelude stop.
pub open spec fn pre_end(toks: Seq<Token>, ti: int) -> int
    decreases toks.len() - ti,
{
    if ti < 0 || ti >= toks.len() {
        ti
    } else if is_pre_stop(toks[ti].kind) {
        ti
    } else {
        pre_end(toks, ti + 1)
    }
}

/// First index at or after `ti` holding an item stop.
pub open spec fn item_end(toks: Seq<Token>, ti: int) -> int
    decreases toks.len() - ti,
{
    if ti < 0 || ti >= toks.len() {
        ti
    } else if is_item_stop(toks[ti].kind) {
        ti
    } else {
        item_end(toks, ti + 1)
    }
}

// ---------------------------------------------------------------------------
// Index clamps keeping the recursion well founded
// ---------------------------------------------------------------------------

/// `j` when it is a strict successor of `ti` within `n`, else `ti + 1`.
pub open spec fn nxt(ti: int, j: int, n: int) -> int {
    if ti < j && j <= n {
        j
    } else {
        ti + 1
    }
}

/// `j` when it lies in `[ti, n]`, else `ti`.
pub open spec fn at_least(ti: int, j: int, n: int) -> int {
    if ti <= j && j <= n {
        j
    } else {
        ti
    }
}

// ---------------------------------------------------------------------------
// Production results
// ---------------------------------------------------------------------------

/// The diagnostic the parser reports for a token that fits no production:
/// none when the lexer already explained it, a dedicated one at end of
/// input, a generic one otherwise.
pub open spec fn unexpected_diag(t: Token) -> Seq<DiagM> {
    if t.kind == Kind::Undetermined {
        Seq::empty()
    } else if t.kind == Kind::Eof {
        seq![DiagM { kind: DiagKind::UnexpectedEof, span: t.span }]
    } else {
        seq![DiagM { kind: DiagKind::UnexpectedToken, span: t.span }]
    }
}

pub struct PRules {
    pub rules: Seq<RuleV>,
    pub ti: int,
    pub errs: Seq<DiagM>,
}

pub struct PRule {
    pub rule: Option<RuleV>,
    pub ti: int,
    pub errs: Seq<DiagM>,
}

pub struct PAt {
    pub rule: AtRuleV,
    pub ti: int,
    pub errs: Seq<DiagM>,
}

pub struct PSels {
    pub sels: Seq<SelectorV>,
    pub ti: int,
    pub errs: Seq<DiagM>,
    pub ok: bool,
}

pub struct PBlock {
    pub block: BlockV,
    pub ti: int,
    pub errs: Seq<DiagM>,
}

pub struct PChildren {
    pub children: Seq<BlockChildV>,
    pub ti: int,
    pub errs: Seq<DiagM>,
}

pub struct PItem {
    pub child: Option<BlockChildV>,
    pub ti: int,
    pub errs: Seq<DiagM>,
}

// ---------------------------------------------------------------------------
// The grammar
// ---------------------------------------------------------------------------

/// Top-level rule sequence: rules until the end-of-file token.
#[verifier::opaque]
pub open spec fn sp_rules(s: Seq<u8>, toks: Seq<Token>, ti: int) -> PRules
    decreases toks.len() - ti, 12int,
{
    if ti < 0 || ti >= toks.len() || toks[ti].kind == Kind::Eof {
        PRules { rules: Seq::empty(), ti, errs: Seq::empty() }
    } else {
        let pr = sp_rule(s, toks, ti);
        let rest = sp_rules(s, toks, nxt(ti, pr.ti, toks.len() as int));
        PRules { rules: opt_seq(pr.rule) + rest.rules, ti: rest.ti, errs: pr.errs + rest.errs }
    }
}

/// One top-level or nested rule: an at-rule or a qualified style rule.
#[verifier::opaque]
pub open spec fn sp_rule(s: Seq<u8>, toks: Seq<Token>, ti: int) -> PRule
    decreases toks.len() - ti, 9int,
{
    if 0 <= ti < toks.len() && toks[ti].kind == Kind::AtKeyword {
        let pa = sp_at_rule(s, toks, ti);
        PRule { rule: Some(RuleV::At(pa.rule)), ti: pa.ti, errs: pa.errs }
    } else {
        sp_style_rule(s, toks, ti)
    }
}

/// An at-rule: `@name`, a prelude, then `;`, a block, or end of input.
#[verifier::opaque]
pub open spec fn sp_at_rule(s: Seq<u8>, toks: Seq<Token>, ti: int) -> PAt
    decreases toks.len() - ti, 7int,
{
    let name = s.subrange(toks[ti].span.start as int + 1, toks[ti].span.end as int);
    let pe = at_least(ti + 1, pre_end(toks, ti + 1), toks.len() as int - 1);
    let prelude = range_text(s, toks, ti + 1, pe);
    if 0 <= pe < toks.len() && toks[pe].kind == Kind::Semicolon {
        PAt {
            rule: AtRuleV {
                span: Span { start: toks[ti].span.start, end: toks[pe].span.end },
                name,
                prelude,
                block: None,
            },
            ti: pe + 1,
            errs: Seq::empty(),
        }
    } else if 0 <= pe < toks.len() && toks[pe].kind == Kind::OpenBrace {
        let pb = sp_block(s, toks, at_least(ti + 1, pe, toks.len() as int));
        PAt {
            rule: AtRuleV {
                span: Span { start: toks[ti].span.start, end: pb.block.span.end },
                name,
                prelude,
                block: Some(pb.block),
            },
            ti: pb.ti,
            errs: pb.errs,
        }
    } else {
        let end_off = if pe >= 1 && pe - 1 < toks.len() {
            toks[pe - 1].span.end
        } else {
            toks[ti].span.end
        };
        PAt {
            rule: AtRuleV {
                span: Span { start: toks[ti].span.start, end: end_off },
                name,
                prelude,
                block: None,
            },
            ti: pe,
            errs: if 0 <= pe < toks.len() {
                unexpected_diag(toks[pe])
            } else {
                Seq::empty()
            },
        }
    }
}

/// A qualified rule: a selector list, then a block; on a malformed
/// prelude the offending token is reported and skipped and no rule is
/// produced.
#[verifier::opaque]
pub open spec fn sp_style_rule(s: Seq<u8>, toks: Seq<Token>, ti: int) -> PRule
    decreases toks.len() - ti, 8int,
{
    let ps = sp_selector_list(s, toks, ti);
    if ps.ok {
        let pb = sp_block(s, toks, at_least(ti, ps.ti, toks.len() as int));
        PRule {
            rule: Some(
                RuleV::Style(
                    StyleRuleV {
                        span: Span { start: toks[ti].span.start, end: pb.block.span.end },
                        selectors: ps.sels,
                        block: pb.block,
                    },
                ),
            ),
            ti: pb.ti,
            errs: ps.errs + pb.errs,
        }
    } else {
        let ti2 = if 0 <= ps.ti < toks.len() && toks[ps.ti].kind != Kind::Eof {
            ps.ti + 1
        } else {
            ps.ti
        };
        PRule { rule: None, ti: ti2, errs: ps.errs }
    }
}

/// A comma-separated selector list, ending successfully at `{`; an empty
/// segment is reported, and a `;`, `}` or end of input fails the list.
#[verifier::opaque]
pub open spec fn sp_selector_list(s: Seq<u8>, toks: Seq<Token>, ti: int) -> PSels
    decreases toks.len() - ti, 6int,
{
    if ti < 0 || ti >= toks.len() {
        PSels { sels: Seq::empty(), ti, errs: Seq::empty(), ok: false }
    } else {
        let e = at_least(ti, sel_end(toks, ti), toks.len() as int - 1);
        let sel: Option<SelectorV> = if e > ti {
            Some(
                SelectorV {
                    span: Span { start: toks[ti].span.start, end: toks[e - 1].span.end },
                    text: range_text(s, toks, ti, e),
                },
            )
        } else {
            None
        };
        let errs0: Seq<DiagM> = if e == ti {
            unexpected_diag(toks[e])
        } else {
            Seq::empty()
        };
        if toks[e].kind == Kind::Comma {
            let rest = sp_selector_list(s, toks, nxt(ti, e + 1, toks.len() as int));
            PSels {
                sels: opt_seq(sel) + rest.sels,
                ti: rest.ti,
                errs: errs0 + rest.errs,
                ok: rest.ok,
            }
        } else if toks[e].kind == Kind::OpenBrace {
            PSels { sels: opt_seq(sel), ti: e, errs: errs0, ok: true }
        } else {
            PSels { sels: opt_seq(sel), ti: e, errs: unexpected_diag(toks[e]), ok: false }
        }
    }
}

/// A brace-delimited block of declarations and nested rules; an
/// unterminated block is reported at end of input.
#[verifier::opaque]
pub open spec fn sp_block(s: Seq<u8>, toks: Seq<Token>, ti: int) -> PBlock
    decreases toks.len() - ti, 5int,
{
    if ti < 0 || ti >= toks.len() {
        PBlock {
            block: BlockV { span: Span { start: 0, end: 0 }, children: Seq::empty() },
            ti,
            errs: Seq::empty(),
        }
    } else {
        let pc = sp_block_children(s, toks, nxt(ti, ti + 1, toks.len() as int));
        if 0 <= pc.ti < toks.len() && toks[pc.ti].kind == Kind::CloseBrace {
            PBlock {
                block: BlockV {
                    span: Span { start: toks[ti].span.start, end: toks[pc.ti].span.end },
                    children: pc.children,
                },
                ti: pc.ti + 1,
                errs: pc.errs,
            }
        } else {
            let end_off = if pc.ti >= 1 && pc.ti - 1 < toks.len() {
                toks[pc.ti - 1].span.end
            } else {
                toks[ti].span.end
            };
            PBlock {
                block: BlockV {
                    span: Span { start: toks[ti].span.start, end: end_off },
                    children: pc.children,
                },
                ti: pc.ti,
                errs: pc.errs + (if 0 <= pc.ti < toks.len() {
                    unexpected_diag(toks[pc.ti])
                } else {
                    Seq::empty()
                }),
            }
        }
    }
}

/// The items of a block, until `}` or end of input.
#[verifier::opaque]
pub open spec fn sp_block_children(s: Seq<u8>, toks: Seq<Token>, ti: int) -> PChildren
    decreases toks.len() - ti, 11int,
{
    if ti < 0 || ti >= toks.len() || toks[ti].kind == Kind::CloseBrace || toks[ti].kind
        == Kind::Eof {
        PChildren { children: Seq::empty(), ti, errs: Seq::empty() }
    } else {
        let it = sp_block_item(s, toks, ti);
        let rest = sp_block_children(s, toks, nxt(ti, it.ti, toks.len() as int));
        PChildren {
            children: opt_seq(it.child) + rest.children,
            ti: rest.ti,
            errs: it.errs + rest.errs,
        }
    }
}

/// One block item: a stray `;`, a nested at-rule, a declaration, a nested
/// style rule, or a malformed run that is reported and skipped to the
/// next `;` or the block end.
#[verifier::opaque]
pub open spec fn sp_block_item(s: Seq<u8>, toks: Seq<Token>, ti: int) -> PItem
    decreases toks.len() - ti, 10int,
{
    if toks[ti].kind == Kind::Semicolon {
        PItem { child: None, ti: ti + 1, errs: Seq::empty() }
    } else if toks[ti].kind == Kind::AtKeyword {
        let pa = sp_at_rule(s, toks, ti);
        PItem { child: Some(BlockChildV::Rule(RuleV::At(pa.rule))), ti: pa.ti, errs: pa.errs }
    } else {
        let b = at_least(ti, item_end(toks, ti), toks.len() as int - 1);
        if toks[b].kind == Kind::OpenBrace {
            let pr = sp_style_rule(s, toks, ti);
            PItem {
                child: match pr.rule {
                    Some(r) => Some(BlockChildV::Rule(r)),
                    None => None,
                },
                ti: pr.ti,
                errs: pr.errs,
            }
        } else if ti + 1 < toks.len() && toks[ti].kind == Kind::Ident && toks[ti + 1].kind
            == Kind::Colon {
            let value = range_text(s, toks, ti + 2, b);
            let end_off = if toks[b].kind == Kind::Semicolon {
                toks[b].span.end
            } else if b >= 1 {
                toks[b - 1].span.end
            } else {
                toks[ti].span.end
            };
            let ti2 = if toks[b].kind == Kind::Semicolon {
                b + 1
            } else {
                b
            };
            PItem {
                child: Some(
                    BlockChildV::Declaration(
                        DeclarationV {
                            span: Span { start: toks[ti].span.start, end: end_off },
                            property: tok_text(s, toks[ti]),
                            value,
                        },
                    ),
                ),
                ti: ti2,
                errs: Seq::empty(),
            }
        } else {
            let ti2 = if toks[b].kind == Kind::Semicolon {
                b + 1
            } else {
                b
            };
            PItem { child: None, ti: ti2, errs: unexpected_diag(toks[ti]) }
        }
    }
}

/// Unfolding `sp_block_children` one item from a position inside the
/// block.
pub proof fn lemma_sp_block_children_step(s: Seq<u8>, toks: Seq<Token>, ti: int)
    requires
        0 <= ti < toks.len(),
        toks[ti].kind != Kind::CloseBrace,
        toks[ti].kind != Kind::Eof,
        ti < sp_block_item(s, toks, ti).ti <= toks.len(),
    ensures
        sp_block_children(s, toks, ti).children == opt_seq(sp_block_item(s, toks, ti).child)
            + sp_block_children(s, toks, sp_block_item(s, toks, ti).ti).children,
        sp_block_children(s, toks, ti).errs == sp_block_item(s, toks, ti).errs
            + sp_block_children(s, toks, sp_block_item(s, toks, ti).ti).errs,
        sp_block_children(s, toks, ti).ti == sp_block_children(
            s,
            toks,
            sp_block_item(s, toks, ti).ti,
        ).ti,
{
    reveal_with_fuel(sp_block_children, 2);
    reveal_with_fuel(sp_block_item, 2);
    reveal_with_fuel(sp_at_rule, 2);
    reveal_with_fuel(sp_style_rule, 2);
    reveal_with_fuel(sp_selector_list, 2);
    reveal_with_fuel(sp_block, 2);
    let it = sp_block_item(s, toks, ti);
    let j = nxt(ti, it.ti, toks.len() as int);
    assert(j == it.ti);
    let rest = sp_block_children(s, toks, j);
    assert(sp_block_children(s, toks, ti) == PChildren {
        children: opt_seq(it.child) + rest.children,
        ti: rest.ti,
        errs: it.errs + rest.errs,
    });
}

/// `sp_block_children` at a block end or end of input produces nothing.
pub proof fn lemma_sp_block_children_base(s: Seq<u8>, toks: Seq<Token>, ti: int)
    requires
        0 <= ti < toks.len(),
        toks[ti].kind == Kind::CloseBrace || toks[ti].kind == Kind::Eof,
    ensures
        sp_block_children(s, toks, ti).children == Seq::<BlockChildV>::empty(),
        sp_block_children(s, toks, ti).errs == Seq::<DiagM>::empty(),
        sp_block_children(s, toks, ti).ti == ti,
{
    reveal_with_fuel(sp_at_rule, 2);
    reveal_with_fuel(sp_style_rule, 2);
    reveal_with_fuel(sp_block, 2);
    reveal_with_fuel(sp_block_children, 2);
    reveal_with_fuel(sp_block_item, 2);
}

/// Unfolding `sp_block` at its opening brace, given where its children
/// run ends.
pub proof fn lemma_sp_block_unfold(s: Seq<u8>, toks: Seq<Token>, ti: int)
    requires
        0 <= ti < toks.len(),
        toks[ti].kind == Kind::OpenBrace,
    ensures
        ({
            let pc = sp_block_children(s, toks, ti + 1);
            &&& (0 <= pc.ti < toks.len() && toks[pc.ti].kind == Kind::CloseBrace ==> sp_block(
                s,
                toks,
                ti,
            ) == (PBlock {
                block: BlockV {
                    span: Span { start: toks[ti].span.start, end: toks[pc.ti].span.end },
                    children: pc.children,
                },
                ti: pc.ti + 1,
                errs: pc.errs,
            }))
            &&& (!(0 <= pc.ti < toks.len() && toks[pc.ti].kind == Kind::CloseBrace) ==> sp_block(
                s,
                toks,
                ti,
            ) == (PBlock {
                block: BlockV {
                    span: Span {
                        start: toks[ti].span.start,
                        end: (if pc.ti >= 1 && pc.ti - 1 < toks.len() {
                            toks[pc.ti - 1].span.end
                        } else {
                            toks[ti].span.end
                        }),
                    },
                    children: pc.children,
                },
                ti: pc.ti,
                errs: pc.errs + (if 0 <= pc.ti < toks.len() {
                    unexpected_diag(toks[pc.ti])
                } else {
                    Seq::empty()
                }),
            }))
        }),
{
    reveal_with_fuel(sp_at_rule, 2);
    reveal_with_fuel(sp_style_rule, 2);
    reveal_with_fuel(sp_block, 2);
    reveal_with_fuel(sp_block_children, 2);
    reveal_with_fuel(sp_block_item, 2);
}

} // verus!
