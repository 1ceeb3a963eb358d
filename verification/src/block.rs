//! The block productions: a brace-delimited run of declarations, nested
//! rules and stray semicolons, with per-item error recovery.

use vstd::prelude::*;
use crate::ast::{
    child_opt_view, lemma_view_block_children_push, view_block, view_block_children,
    wf_block_child_v, wf_block_v, Block, BlockChild, Rule,
};
use crate::grammar::{sp_at_rule, sp_block, sp_block_children, sp_block_item, sp_style_rule};
use crate::span::Span;
use crate::token::Kind;
use crate::ParserImpl;

verus! {

impl<'a> ParserImpl<'a> {
    /// Parse a `{ ... }` block. An unterminated block is reported at end
    /// of input and closed there.
    #[verifier::rlimit(100)]
    #[verifier::loop_isolation(false)]
    pub fn parse_block(&mut self) -> (b: Block)
        requires
            old(self).wf(),
            old(self).toks()[old(self).ti as int].kind == Kind::OpenBrace,
        ensures
            final(self).wf(),
            old(self).stream_eq(*final(self)),
            ({
                let m = sp_block(old(self).src(), old(self).toks(), old(self).ti as int);
                &&& view_block(b) == m.block
                &&& final(self).ti as int == m.ti
                &&& final(self).errs_m@ == old(self).errs_m@ + m.errs
                &&& old(self).ti < final(self).ti < final(self).toks().len()
                &&& wf_block_v(m.block, old(self).src().len() as int)
                &&& m.block.span.start == old(self).toks()[old(self).ti as int].span.start
            }),
        decreases old(self).toks().len() - old(self).ti, 5int,
    {
        let ghost s = old(self).src();
        let ghost toks = old(self).toks();
        let ghost ti0 = old(self).ti as int;
        // Reading the length as a machine word bounds every token index below.
        let _n = self.tokens.len();
        let open_t = self.tokens[self.ti];
        self.ti = self.ti + 1;
        let ghost tic = ti0 + 1;
        let mut children: Vec<BlockChild> = self.ast.new_vec();
        while self.tokens[self.ti].kind != Kind::CloseBrace && self.tokens[self.ti].kind
            != Kind::Eof
            invariant
                self.wf(),
                old(self).stream_eq(*self),
                tic <= self.ti as int && (self.ti as int) < toks.len(),
                sp_block_children(s, toks, tic).children =~= view_block_children(children@)
                    + sp_block_children(s, toks, self.ti as int).children,
                sp_block_children(s, toks, tic).ti == sp_block_children(
                    s,
                    toks,
                    self.ti as int,
                ).ti,
                old(self).errs_m@ + sp_block_children(s, toks, tic).errs =~= self.errs_m@
                    + sp_block_children(s, toks, self.ti as int).errs,
                forall|i: int|
                    0 <= i < view_block_children(children@).len() ==> wf_block_child_v(
                        #[trigger] view_block_children(children@)[i],
                        s.len() as int,
                    ),
            decreases toks.len() - self.ti,
        {
            let ghost ti_b = self.ti as int;
            let ghost ch_b = children@;
            let c = self.parse_block_item();
            match c {
                Some(child) => {
                    proof {
                        lemma_view_block_children_push(ch_b, child);
                    }
                    children.push(child);
                },
                None => {},
            }
            proof {
                crate::grammar::lemma_sp_block_children_step(s, toks, ti_b);
                let m = sp_block_item(s, toks, ti_b);
                assert(sp_block_children(s, toks, ti_b).children =~= crate::lexer::opt_seq(
                    m.child,
                ) + sp_block_children(s, toks, self.ti as int).children);
                assert(sp_block_children(s, toks, ti_b).errs =~= m.errs + sp_block_children(
                    s,
                    toks,
                    self.ti as int,
                ).errs);
                assert(sp_block_children(s, toks, tic).children =~= view_block_children(
                    children@,
                ) + sp_block_children(s, toks, self.ti as int).children);
                assert(old(self).errs_m@ + sp_block_children(s, toks, tic).errs =~= self.errs_m@
                    + sp_block_children(s, toks, self.ti as int).errs);
            }
        }
        proof {
            crate::grammar::lemma_sp_block_children_base(s, toks, self.ti as int);
            assert(sp_block_children(s, toks, self.ti as int).children =~= Seq::empty());
            assert(sp_block_children(s, toks, self.ti as int).errs =~= Seq::empty());
            assert(sp_block_children(s, toks, tic).children =~= view_block_children(children@));
            assert(sp_block_children(s, toks, tic).ti == self.ti as int);
            assert(self.errs_m@ =~= old(self).errs_m@ + sp_block_children(s, toks, tic).errs);
        }
        let ghost exit_ti = self.ti as int;
        let ghost em_exit = self.errs_m@;
        let ck = self.tokens[self.ti].kind;
        if ck == Kind::CloseBrace {
            let close_t = self.tokens[self.ti];
            self.ti = self.ti + 1;
            let blk = self.ast.block(
                Span { start: open_t.span.start, end: close_t.span.end },
                children,
            );
            proof {
                crate::grammar::lemma_sp_block_unfold(s, toks, ti0);
                let pc = sp_block_children(s, toks, ti0 + 1);
                let m = sp_block(s, toks, ti0);
                assert(pc.ti == exit_ti);
                assert(m.block.children =~= view_block_children(children@));
                assert(view_block(blk) =~= m.block);
                assert(view_block(blk) == m.block);
                assert(self.errs_m@ =~= old(self).errs_m@ + m.errs);
            }
            blk
        } else {
            let et = self.tokens[self.ti];
            self.unexpected(et);
            let end_off = self.tokens[self.ti - 1].span.end;
            let blk = self.ast.block(
                Span { start: open_t.span.start, end: end_off },
                children,
            );
            proof {
                crate::grammar::lemma_sp_block_unfold(s, toks, ti0);
                let pc = sp_block_children(s, toks, ti0 + 1);
                let m = sp_block(s, toks, ti0);
                assert(pc.ti == exit_ti);
                assert(m.block.children =~= view_block_children(children@));
                assert(view_block(blk) =~= m.block);
                assert(view_block(blk) == m.block);
                assert(self.errs_m@ =~= em_exit + crate::grammar::unexpected_diag(
                    toks[exit_ti],
                ));
                assert(self.errs_m@ =~= old(self).errs_m@ + (pc.errs
                    + crate::grammar::unexpected_diag(toks[exit_ti])));
                assert(self.errs_m@ =~= old(self).errs_m@ + m.errs);
            }
            blk
        }
    }

    /// Parse one block item: a stray `;`, a nested at-rule, a
    /// declaration, a nested style rule (decided by whether the next
    /// boundary is `{`), or a malformed run that is reported and skipped
    /// to the next `;` or the block end.
    #[verifier::rlimit(100)]
    pub fn parse_block_item(&mut self) -> (c: Option<BlockChild>)
        requires
            old(self).wf(),
            old(self).toks()[old(self).ti as int].kind != Kind::CloseBrace,
            old(self).toks()[old(self).ti as int].kind != Kind::Eof,
        ensures
            final(self).wf(),
            old(self).stream_eq(*final(self)),
            ({
                let m = sp_block_item(old(self).src(), old(self).toks(), old(self).ti as int);
                &&& child_opt_view(c) == m.child
                &&& final(self).ti as int == m.ti
                &&& final(self).errs_m@ == old(self).errs_m@ + m.errs
                &&& old(self).ti < final(self).ti < final(self).toks().len()
                &&& (match m.child {
                    Some(cv) => wf_block_child_v(cv, old(self).src().len() as int),
                    None => true,
                })
            }),
        decreases old(self).toks().len() - old(self).ti, 10int,
    {
        let ghost s = old(self).src();
        let ghost toks = old(self).toks();
        let ghost ti0 = old(self).ti as int;
        // Reading the length as a machine word bounds every token index below.
        let _n = self.tokens.len();
        let ti_start = self.ti;
        let t = self.tokens[ti_start];
        if t.kind == Kind::Semicolon {
            self.ti = ti_start + 1;
            proof {
                reveal_with_fuel(sp_at_rule, 2);
                reveal_with_fuel(sp_style_rule, 2);
                reveal_with_fuel(sp_block, 2);
                reveal_with_fuel(sp_block_children, 2);
                reveal_with_fuel(sp_block_item, 2);
                assert(self.errs_m@ =~= old(self).errs_m@ + sp_block_item(s, toks, ti0).errs);
            }
            None
        } else if t.kind == Kind::AtKeyword {
            let a = self.parse_at_rule();
            proof {
                reveal_with_fuel(sp_at_rule, 2);
                reveal_with_fuel(sp_style_rule, 2);
                reveal_with_fuel(sp_block, 2);
                reveal_with_fuel(sp_block_children, 2);
                reveal_with_fuel(sp_block_item, 2);
            }
            Some(BlockChild::Rule(Rule::At(a)))
        } else {
            let b = crate::value::find_item_stop(&self.tokens, ti_start);
            if self.tokens[b].kind == Kind::OpenBrace {
                let r = self.parse_style_rule();
                proof {
                    reveal_with_fuel(sp_at_rule, 2);
                reveal_with_fuel(sp_style_rule, 2);
                reveal_with_fuel(sp_block, 2);
                reveal_with_fuel(sp_block_children, 2);
                reveal_with_fuel(sp_block_item, 2);
                }
                match r {
                    Some(rule) => Some(BlockChild::Rule(rule)),
                    None => None,
                }
            } else if t.kind == Kind::Ident && ti_start + 1 < self.tokens.len()
                && self.tokens[ti_start + 1].kind == Kind::Colon {
                let prop = self.ast.atom_from(
                    self.source_text,
                    t.span.start as usize,
                    t.span.end as usize,
                );
                let value = if b > ti_start + 2 {
                    let first = self.tokens[ti_start + 2];
                    let last_t = self.tokens[b - 1];
                    self.ast.atom_from(
                        self.source_text,
                        first.span.start as usize,
                        last_t.span.end as usize,
                    )
                } else {
                    self.ast.atom_from(self.source_text, 0, 0)
                };
                proof {
                    assert(value@ == crate::grammar::range_text(s, toks, ti0 + 2, b as int));
                }
                let bk = self.tokens[b].kind;
                let end_off = if bk == Kind::Semicolon {
                    self.tokens[b].span.end
                } else {
                    self.tokens[b - 1].span.end
                };
                self.ti = if bk == Kind::Semicolon {
                    b + 1
                } else {
                    b
                };
                let d = self.ast.declaration(
                    Span { start: t.span.start, end: end_off },
                    prop,
                    value,
                );
                proof {
                    reveal_with_fuel(sp_at_rule, 2);
                reveal_with_fuel(sp_style_rule, 2);
                reveal_with_fuel(sp_block, 2);
                reveal_with_fuel(sp_block_children, 2);
                reveal_with_fuel(sp_block_item, 2);
                    assert(self.errs_m@ =~= old(self).errs_m@ + sp_block_item(s, toks, ti0).errs);
                }
                Some(BlockChild::Declaration(d))
            } else {
                self.unexpected(t);
                let bk = self.tokens[b].kind;
                self.ti = if bk == Kind::Semicolon {
                    b + 1
                } else {
                    b
                };
                proof {
                    reveal_with_fuel(sp_at_rule, 2);
                reveal_with_fuel(sp_style_rule, 2);
                reveal_with_fuel(sp_block, 2);
                reveal_with_fuel(sp_block_children, 2);
                reveal_with_fuel(sp_block_item, 2);
                }
                None
            }
        }
    }
}

} // verus!
