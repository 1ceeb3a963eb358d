//! The rule productions: at-rules and qualified style rules.
//!
//! Each production brackets its node's span from the first token it
//! consumes to the end of the last one, and is proved to compute the
//! grammar model (`sp_rule`, `sp_at_rule`, `sp_style_rule`) exactly.

use vstd::prelude::*;
use crate::ast::{
    rule_opt_view, view_at_rule, view_block, view_style_rule, wf_rule_v, AtRule, Rule, RuleV,
};
use crate::grammar::{sp_at_rule, sp_block, sp_rule, sp_selector_list, sp_style_rule};
use crate::span::Span;
use crate::token::Kind;
use crate::ParserImpl;

verus! {

impl<'a> ParserImpl<'a> {
    /// Parse one rule: an at-rule when the current token is an
    /// at-keyword, else a qualified style rule (which may fail and
    /// resynchronize, yielding no rule).
    #[verifier::rlimit(100)]
    pub fn parse_rule(&mut self) -> (r: Option<Rule>)
        requires
            old(self).wf(),
            old(self).toks()[old(self).ti as int].kind != Kind::Eof,
        ensures
            final(self).wf(),
            old(self).stream_eq(*final(self)),
            ({
                let m = sp_rule(old(self).src(), old(self).toks(), old(self).ti as int);
                &&& rule_opt_view(r) == m.rule
                &&& final(self).ti as int == m.ti
                &&& final(self).errs_m@ == old(self).errs_m@ + m.errs
                &&& old(self).ti < final(self).ti < final(self).toks().len()
                &&& (match m.rule {
                    Some(rv) => wf_rule_v(rv, old(self).src().len() as int),
                    None => true,
                })
            }),
        decreases old(self).toks().len() - old(self).ti, 9int,
    {
        proof {
            reveal(sp_rule);
        }
        let t = self.tokens[self.ti];
        if t.kind == Kind::AtKeyword {
            let a = self.parse_at_rule();
            proof {
                reveal(sp_rule);
            }
            Some(Rule::At(a))
        } else {
            let r = self.parse_style_rule();
            proof {
                reveal(sp_rule);
            }
            r
        }
    }

    /// Parse an at-rule: `@name`, a prelude, then `;` (no block), a
    /// brace-delimited block, or — at end of input — a reported,
    /// blockless rule.
    #[verifier::rlimit(100)]
    pub fn parse_at_rule(&mut self) -> (r: AtRule)
        requires
            old(self).wf(),
            old(self).toks()[old(self).ti as int].kind == Kind::AtKeyword,
        ensures
            final(self).wf(),
            old(self).stream_eq(*final(self)),
            ({
                let m = sp_at_rule(old(self).src(), old(self).toks(), old(self).ti as int);
                &&& view_at_rule(r) == m.rule
                &&& final(self).ti as int == m.ti
                &&& final(self).errs_m@ == old(self).errs_m@ + m.errs
                &&& old(self).ti < final(self).ti < final(self).toks().len()
                &&& wf_rule_v(RuleV::At(m.rule), old(self).src().len() as int)
            }),
        decreases old(self).toks().len() - old(self).ti, 7int,
    {
        proof {
            reveal(sp_at_rule);
        }
        let ghost s = old(self).src();
        let ghost toks = old(self).toks();
        let ghost ti0 = old(self).ti as int;
        // Reading the length as a machine word bounds every token index below.
        let _n = self.tokens.len();
        let ti_start = self.ti;
        let t = self.tokens[ti_start];
        proof {
            assert(t.span.start < t.span.end);
        }
        let name = self.ast.atom_from(
            self.source_text,
            t.span.start as usize + 1,
            t.span.end as usize,
        );
        let pe = crate::value::find_pre_stop(&self.tokens, ti_start + 1);
        let prelude = if pe > ti_start + 1 {
            let first = self.tokens[ti_start + 1];
            let last_t = self.tokens[pe - 1];
            self.ast.atom_from(
                self.source_text,
                first.span.start as usize,
                last_t.span.end as usize,
            )
        } else {
            self.ast.atom_from(self.source_text, 0, 0)
        };
        proof {
            assert(prelude@ == crate::grammar::range_text(s, toks, ti0 + 1, pe as int));
        }
        let pk = self.tokens[pe].kind;
        if pk == Kind::Semicolon {
            let end_t = self.tokens[pe];
            self.ti = pe + 1;
            let r = self.ast.at_rule(
                Span { start: t.span.start, end: end_t.span.end },
                name,
                prelude,
                None,
            );
            proof {
                reveal(sp_at_rule);
                assert(self.errs_m@ =~= old(self).errs_m@ + sp_at_rule(s, toks, ti0).errs);
            }
            r
        } else if pk == Kind::OpenBrace {
            self.ti = pe;
            let b = self.parse_block();
            let r = self.ast.at_rule(
                Span { start: t.span.start, end: b.span.end },
                name,
                prelude,
                Some(b),
            );
            proof {
                reveal(sp_at_rule);
                assert(crate::ast::view_block(b).span.start == toks[pe as int].span.start);
                assert(t.span.start <= toks[pe as int].span.start);
            }
            r
        } else {
            let et = self.tokens[pe];
            self.unexpected(et);
            let end_off = self.tokens[pe - 1].span.end;
            self.ti = pe;
            let r = self.ast.at_rule(
                Span { start: t.span.start, end: end_off },
                name,
                prelude,
                None,
            );
            proof {
                reveal(sp_at_rule);
            }
            r
        }
    }

    /// Parse a qualified rule: a selector list, then a block. A failed
    /// prelude is reported, the offending token is skipped, and no rule
    /// is produced.
    #[verifier::rlimit(100)]
    pub fn parse_style_rule(&mut self) -> (r: Option<Rule>)
        requires
            old(self).wf(),
            old(self).toks()[old(self).ti as int].kind != Kind::Eof,
        ensures
            final(self).wf(),
            old(self).stream_eq(*final(self)),
            ({
                let m = sp_style_rule(old(self).src(), old(self).toks(), old(self).ti as int);
                &&& rule_opt_view(r) == m.rule
                &&& final(self).ti as int == m.ti
                &&& final(self).errs_m@ == old(self).errs_m@ + m.errs
                &&& old(self).ti < final(self).ti < final(self).toks().len()
                &&& (match m.rule {
                    Some(rv) => wf_rule_v(rv, old(self).src().len() as int),
                    None => true,
                })
            }),
        decreases old(self).toks().len() - old(self).ti, 8int,
    {
        proof {
            reveal(sp_style_rule);
        }
        let ghost s = old(self).src();
        let ghost toks = old(self).toks();
        let ghost ti0 = old(self).ti as int;
        // Reading the length as a machine word bounds every token index below.
        let _n = self.tokens.len();
        let t0 = self.tokens[self.ti];
        let (sels, ok) = self.parse_selector_list();
        let ghost ps = sp_selector_list(s, toks, ti0);
        if ok {
            let b = self.parse_block();
            let ghost pb = sp_block(s, toks, ps.ti);
            let sr = self.ast.style_rule(
                Span { start: t0.span.start, end: b.span.end },
                sels,
                b,
            );
            proof {
                reveal(sp_style_rule);
                assert(self.errs_m@ =~= old(self).errs_m@ + (ps.errs + pb.errs));
                assert(crate::ast::view_block(b).span.start == toks[ps.ti].span.start);
                assert(t0.span.start <= toks[ps.ti].span.start);
            }
            Some(Rule::Style(sr))
        } else {
            let k = self.tokens[self.ti].kind;
            if k != Kind::Eof {
                self.ti = self.ti + 1;
            }
            proof {
                reveal(sp_style_rule);
                assert(toks[ps.ti].kind == Kind::Eof ==> ps.ti == toks.len() - 1);
                assert(self.errs_m@ =~= old(self).errs_m@ + sp_style_rule(s, toks, ti0).errs);
            }
            None
        }
    }
}

} // verus!
