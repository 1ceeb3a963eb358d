//! The stylesheet AST.
//!
//! A stylesheet is a strict tree: a root with an ordered sequence of rules,
//! each rule owning its children exclusively. Every node carries exactly
//! one [`Span`] locating it in the original source.
//!
//! Each node shape has a ghost model (`...V`) holding mathematical
//! sequences instead of vectors, reached through the `view_*` functions;
//! contracts about the parser's output are stated over these models.

use vstd::prelude::*;
use crate::span::Span;

verus! {

broadcast use vstd::seq::axiom_seq_index_decreases, vstd::seq::axiom_seq_subrange_decreases, vstd::std_specs::vec::axiom_vec_decreases_to_view, vstd::std_specs::vec::axiom_vec_index_decreases;

/// An immutable short string copied out of the source text; equality is
/// value equality of the bytes.
#[derive(Debug)]
pub struct Atom {
    pub bytes: Vec<u8>,
}

impl View for Atom {
    type V = Seq<u8>;

    open spec fn view(&self) -> Seq<u8> {
        self.bytes@
    }
}

impl Atom {
    /// The bytes of this atom.
    pub fn as_bytes(&self) -> (b: &Vec<u8>)
        ensures
            b@ == self@,
    {
        &self.bytes
    }

    pub fn len(&self) -> (n: usize)
        ensures
            n == self@.len(),
    {
        self.bytes.len()
    }
}

/// The root node: an ordered sequence of top-level rules plus the raw text
/// the stylesheet spans.
#[derive(Debug)]
pub struct StyleSheet {
    pub span: Span,
    pub children: Vec<Rule>,
    pub source_text: Atom,
}

/// A top-level or nested rule.
#[derive(Debug)]
pub enum Rule {
    At(AtRule),
    Style(StyleRule),
}

/// An at-rule: `@name prelude;` or `@name prelude { ... }`.
#[derive(Debug)]
pub struct AtRule {
    pub span: Span,
    pub name: Atom,
    pub prelude: Atom,
    pub block: Option<Block>,
}

/// A qualified rule: a selector list followed by a block.
#[derive(Debug)]
pub struct StyleRule {
    pub span: Span,
    pub selectors: Vec<Selector>,
    pub block: Block,
}

/// One comma-separated selector of a selector list.
#[derive(Debug)]
pub struct Selector {
    pub span: Span,
    pub text: Atom,
}

/// A brace-delimited block of declarations and nested rules.
#[derive(Debug)]
pub struct Block {
    pub span: Span,
    pub children: Vec<BlockChild>,
}

/// One item of a block.
#[derive(Debug)]
pub enum BlockChild {
    Declaration(Declaration),
    Rule(Rule),
}

/// A `property: value` declaration.
#[derive(Debug)]
pub struct Declaration {
    pub span: Span,
    pub property: Atom,
    pub value: Atom,
}

// ---------------------------------------------------------------------------
// Ghost models
// ---------------------------------------------------------------------------

#[verifier::ext_equal]
pub struct StyleSheetV {
    pub span: Span,
    pub children: Seq<RuleV>,
    pub source_text: Seq<u8>,
}

#[verifier::ext_equal]
pub enum RuleV {
    At(AtRuleV),
    Style(StyleRuleV),
}

#[verifier::ext_equal]
pub struct AtRuleV {
    pub span: Span,
    pub name: Seq<u8>,
    pub prelude: Seq<u8>,
    pub block: Option<BlockV>,
}

#[verifier::ext_equal]
pub struct StyleRuleV {
    pub span: Span,
    pub selectors: Seq<SelectorV>,
    pub block: BlockV,
}

#[verifier::ext_equal]
pub struct SelectorV {
    pub span: Span,
    pub text: Seq<u8>,
}

#[verifier::ext_equal]
pub struct BlockV {
    pub span: Span,
    pub children: Seq<BlockChildV>,
}

#[verifier::ext_equal]
pub enum BlockChildV {
    Declaration(DeclarationV),
    Rule(RuleV),
}

#[verifier::ext_equal]
pub struct DeclarationV {
    pub span: Span,
    pub property: Seq<u8>,
    pub value: Seq<u8>,
}

// ---------------------------------------------------------------------------
// Views: from AST nodes to their ghost models
// ---------------------------------------------------------------------------

pub open spec fn view_stylesheet(s: StyleSheet) -> StyleSheetV {
    StyleSheetV { span: s.span, children: view_rules(s.children@), source_text: s.source_text@ }
}

pub open spec fn view_rules(s: Seq<Rule>) -> Seq<RuleV>
    decreases s,
{
    if s.len() == 0 {
        Seq::empty()
    } else {
        view_rules(s.drop_last()).push(view_rule(s.last()))
    }
}

pub open spec fn view_rule(r: Rule) -> RuleV
    decreases r,
{
    match r {
        Rule::At(a) => RuleV::At(view_at_rule(a)),
        Rule::Style(q) => RuleV::Style(view_style_rule(q)),
    }
}

pub open spec fn view_at_rule(a: AtRule) -> AtRuleV
    decreases a,
{
    AtRuleV {
        span: a.span,
        name: a.name@,
        prelude: a.prelude@,
        block: match a.block {
            Some(b) => Some(view_block(b)),
            None => None,
        },
    }
}

pub open spec fn view_style_rule(q: StyleRule) -> StyleRuleV
    decreases q,
{
    StyleRuleV {
        span: q.span,
        selectors: view_selectors(q.selectors@),
        block: view_block(q.block),
    }
}

pub open spec fn view_selectors(s: Seq<Selector>) -> Seq<SelectorV>
    decreases s,
{
    if s.len() == 0 {
        Seq::empty()
    } else {
        view_selectors(s.drop_last()).push(view_selector(s.last()))
    }
}

pub open spec fn view_selector(s: Selector) -> SelectorV {
    SelectorV { span: s.span, text: s.text@ }
}

pub open spec fn view_block(b: Block) -> BlockV
    decreases b,
{
    BlockV { span: b.span, children: view_block_children(b.children@) }
}

pub open spec fn view_block_children(s: Seq<BlockChild>) -> Seq<BlockChildV>
    decreases s,
{
    if s.len() == 0 {
        Seq::empty()
    } else {
        view_block_children(s.drop_last()).push(view_block_child(s.last()))
    }
}

pub open spec fn view_block_child(c: BlockChild) -> BlockChildV
    decreases c,
{
    match c {
        BlockChild::Declaration(d) => BlockChildV::Declaration(
            DeclarationV { span: d.span, property: d.property@, value: d.value@ },
        ),
        BlockChild::Rule(r) => BlockChildV::Rule(view_rule(r)),
    }
}

pub open spec fn rule_opt_view(r: Option<Rule>) -> Option<RuleV> {
    match r {
        Some(x) => Some(view_rule(x)),
        None => None,
    }
}

pub open spec fn child_opt_view(c: Option<BlockChild>) -> Option<BlockChildV> {
    match c {
        Some(x) => Some(view_block_child(x)),
        None => None,
    }
}

pub proof fn lemma_view_rules_push(s: Seq<Rule>, r: Rule)
    ensures
        view_rules(s.push(r)) =~= view_rules(s).push(view_rule(r)),
{
    assert(s.push(r).drop_last() =~= s);
    assert(s.push(r).last() == r);
}

pub proof fn lemma_view_selectors_push(s: Seq<Selector>, x: Selector)
    ensures
        view_selectors(s.push(x)) =~= view_selectors(s).push(view_selector(x)),
{
    assert(s.push(x).drop_last() =~= s);
    assert(s.push(x).last() == x);
}

pub proof fn lemma_view_block_children_push(s: Seq<BlockChild>, c: BlockChild)
    ensures
        view_block_children(s.push(c)) =~= view_block_children(s).push(view_block_child(c)),
{
    assert(s.push(c).drop_last() =~= s);
    assert(s.push(c).last() == c);
}

// ---------------------------------------------------------------------------
// Structural validity: every node's span is an ordered byte range inside
// the source.
// ---------------------------------------------------------------------------

pub open spec fn wf_stylesheet_v(s: StyleSheetV, len: int) -> bool {
    s.span.wf(len) && wf_rules_v(s.children, len)
}

pub open spec fn wf_rules_v(s: Seq<RuleV>, len: int) -> bool {
    forall|i: int| 0 <= i < s.len() ==> wf_rule_v(#[trigger] s[i], len)
}

pub open spec fn wf_rule_v(r: RuleV, len: int) -> bool
    decreases r,
{
    match r {
        RuleV::At(a) => a.span.wf(len) && match a.block {
            Some(b) => wf_block_v(b, len),
            None => true,
        },
        RuleV::Style(q) => q.span.wf(len) && wf_selectors_v(q.selectors, len) && wf_block_v(
            q.block,
            len,
        ),
    }
}

pub open spec fn wf_selectors_v(s: Seq<SelectorV>, len: int) -> bool {
    forall|i: int| 0 <= i < s.len() ==> (#[trigger] s[i]).span.wf(len)
}

pub open spec fn wf_block_v(b: BlockV, len: int) -> bool
    decreases b,
{
    b.span.wf(len) && forall|i: int|
        0 <= i < b.children.len() ==> wf_block_child_v(#[trigger] b.children[i], len)
}

pub open spec fn wf_block_child_v(c: BlockChildV, len: int) -> bool
    decreases c,
{
    match c {
        BlockChildV::Declaration(d) => d.span.wf(len),
        BlockChildV::Rule(r) => wf_rule_v(r, len),
    }
}

} // verus!
