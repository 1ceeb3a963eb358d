//! The selector-list production: comma-separated selector segments up to
//! the `{` that opens the rule's block.

use vstd::prelude::*;
use crate::ast::{
    lemma_view_selectors_push, view_selectors, wf_selectors_v, Selector,
};
use crate::grammar::sp_selector_list;
use crate::span::Span;
use crate::token::Kind;
use crate::ParserImpl;

verus! {

impl<'a> ParserImpl<'a> {
    /// Parse a comma-separated selector list.
    ///
    /// Succeeds (second component true) when the list ends at `{`; a `;`,
    /// `}` or end of input fails the prelude with a diagnostic. An empty
    /// segment is reported and skipped.
    #[verifier::rlimit(100)]
    #[verifier::loop_isolation(false)]
    pub fn parse_selector_list(&mut self) -> (r: (Vec<Selector>, bool))
        requires
            old(self).wf(),
        ensures
            final(self).wf(),
            old(self).stream_eq(*final(self)),
            final(self).prev_token_end == old(self).prev_token_end,
            ({
                let m = sp_selector_list(old(self).src(), old(self).toks(), old(self).ti as int);
                &&& view_selectors(r.0@) == m.sels
                &&& r.1 == m.ok
                &&& final(self).ti as int == m.ti
                &&& final(self).errs_m@ == old(self).errs_m@ + m.errs
                &&& old(self).ti <= final(self).ti < final(self).toks().len()
                &&& (m.ok ==> final(self).toks()[final(self).ti as int].kind == Kind::OpenBrace)
                &&& (!m.ok ==> (final(self).toks()[final(self).ti as int].kind == Kind::Semicolon
                    || final(self).toks()[final(self).ti as int].kind == Kind::CloseBrace
                    || final(self).toks()[final(self).ti as int].kind == Kind::Eof))
                &&& wf_selectors_v(m.sels, old(self).src().len() as int)
            }),
    {
        proof {
            reveal(sp_selector_list);
        }
        let ghost s = old(self).src();
        let ghost toks = old(self).toks();
        let ghost ti0 = old(self).ti as int;
        let mut sels: Vec<Selector> = self.ast.new_vec();
        let mut ok: bool = false;
        let mut fini: bool = false;
        while !fini
            invariant
                self.wf(),
                old(self).stream_eq(*self),
                self.prev_token_end == old(self).prev_token_end,
                ti0 <= self.ti as int && (self.ti as int) < toks.len(),
                wf_selectors_v(view_selectors(sels@), s.len() as int),
                !fini ==> sp_selector_list(s, toks, ti0).sels =~= view_selectors(sels@)
                    + sp_selector_list(s, toks, self.ti as int).sels,
                !fini ==> sp_selector_list(s, toks, ti0).ok == sp_selector_list(
                    s,
                    toks,
                    self.ti as int,
                ).ok,
                !fini ==> sp_selector_list(s, toks, ti0).ti == sp_selector_list(
                    s,
                    toks,
                    self.ti as int,
                ).ti,
                !fini ==> old(self).errs_m@ + sp_selector_list(s, toks, ti0).errs =~= self.errs_m@
                    + sp_selector_list(s, toks, self.ti as int).errs,
                fini ==> ({
                    let m = sp_selector_list(s, toks, ti0);
                    &&& view_selectors(sels@) == m.sels
                    &&& ok == m.ok
                    &&& self.ti as int == m.ti
                    &&& self.errs_m@ == old(self).errs_m@ + m.errs
                    &&& (m.ok ==> toks[self.ti as int].kind == Kind::OpenBrace)
                    &&& (!m.ok ==> toks[self.ti as int].kind == Kind::Semicolon || toks[self.ti as int].kind
                        == Kind::CloseBrace || toks[self.ti as int].kind == Kind::Eof)
                }),
            decreases toks.len() - self.ti, (if fini {
                0int
            } else {
                1int
            }),
        {
            proof {
                reveal(sp_selector_list);
            }
            let ghost ti_b = self.ti as int;
            let ghost sels_b = sels@;
            let ghost em_b = self.errs_m@;
            // Reading the length as a machine word bounds every token index below.
            let _nn = self.tokens.len();
            let e = crate::value::find_sel_stop(&self.tokens, self.ti);
            let ghost mut sel_delta: Seq<crate::ast::SelectorV> = Seq::empty();
            if e > self.ti {
                let first = self.tokens[self.ti];
                let last_t = self.tokens[e - 1];
                let sp = Span { start: first.span.start, end: last_t.span.end };
                let text = self.ast.atom_from(
                    self.source_text,
                    first.span.start as usize,
                    last_t.span.end as usize,
                );
                let sel = self.ast.selector(sp, text);
                proof {
                    lemma_view_selectors_push(sels_b, sel);
                    sel_delta = seq![crate::ast::view_selector(sel)];
                }
                sels.push(sel);
            }
            proof {
                assert(view_selectors(sels@) =~= view_selectors(sels_b) + sel_delta);
            }
            let et = self.tokens[e];
            if et.kind == Kind::Comma {
                let ghost err_delta: Seq<crate::lexer::DiagM> = if e as int == ti_b {
                    crate::grammar::unexpected_diag(toks[e as int])
                } else {
                    Seq::empty()
                };
                if e == self.ti {
                    self.unexpected(et);
                }
                self.ti = e + 1;
                proof {
                    assert(self.errs_m@ =~= em_b + err_delta);
                    let m_b = sp_selector_list(s, toks, ti_b);
                    let rest = sp_selector_list(s, toks, self.ti as int);
                    assert(m_b.sels =~= sel_delta + rest.sels);
                    assert(m_b.ok == rest.ok);
                    assert(m_b.ti == rest.ti);
                    assert(m_b.errs =~= err_delta + rest.errs);
                    assert(sp_selector_list(s, toks, ti0).sels =~= view_selectors(sels@)
                        + rest.sels);
                    assert(old(self).errs_m@ + sp_selector_list(s, toks, ti0).errs =~= self.errs_m@
                        + rest.errs);
                }
            } else if et.kind == Kind::OpenBrace {
                let ghost err_delta: Seq<crate::lexer::DiagM> = if e as int == ti_b {
                    crate::grammar::unexpected_diag(toks[e as int])
                } else {
                    Seq::empty()
                };
                if e == self.ti {
                    self.unexpected(et);
                }
                self.ti = e;
                ok = true;
                fini = true;
                proof {
                    assert(self.errs_m@ =~= em_b + err_delta);
                    let m_b = sp_selector_list(s, toks, ti_b);
                    assert(m_b.sels =~= sel_delta);
                    assert(m_b.ok);
                    assert(m_b.ti == e as int);
                    assert(m_b.errs =~= err_delta);
                    assert(view_selectors(sels@) =~= sp_selector_list(s, toks, ti0).sels);
                    assert(view_selectors(sels@) == sp_selector_list(s, toks, ti0).sels);
                    assert(self.errs_m@ =~= old(self).errs_m@ + sp_selector_list(
                        s,
                        toks,
                        ti0,
                    ).errs);
                }
            } else {
                self.unexpected(et);
                self.ti = e;
                ok = false;
                fini = true;
                proof {
                    let m_b = sp_selector_list(s, toks, ti_b);
                    assert(self.errs_m@ =~= em_b + crate::grammar::unexpected_diag(
                        toks[e as int],
                    ));
                    assert(m_b.sels =~= sel_delta);
                    assert(!m_b.ok);
                    assert(m_b.ti == e as int);
                    assert(m_b.errs =~= crate::grammar::unexpected_diag(toks[e as int]));
                    assert(view_selectors(sels@) =~= sp_selector_list(s, toks, ti0).sels);
                    assert(view_selectors(sels@) == sp_selector_list(s, toks, ti0).sels);
                    assert(self.errs_m@ =~= old(self).errs_m@ + sp_selector_list(
                        s,
                        toks,
                        ti0,
                    ).errs);
                }
            }
        }
        (sels, ok)
    }
}

} // verus!
