//! Typed constructors for every AST node, sequence and interned string.
//!
//! The parser never assembles node storage by hand: each node shape has
//! one constructor here, which also centralizes the copying of source
//! text into [`Atom`] values. The document-level composition shapes
//! (root, fragment, opaque scripts) that embed a finished stylesheet are
//! built here as well.

use vstd::prelude::*;
use vstd::slice::{slice_subrange, slice_to_vec};
use crate::ast::{
    Atom, AtRule, Block, BlockChild, Declaration, Rule, Selector, StyleRule, StyleSheet,
};
use crate::span::Span;

verus! {

/// A script fragment of the embedding document; the stylesheet core
/// composes it without inspecting its contents.
#[derive(Debug)]
pub struct Script {
    pub span: Span,
    pub source: Atom,
}

/// A literal text node of the embedding document.
#[derive(Debug)]
pub struct TextNode {
    pub span: Span,
    pub raw: Atom,
}

/// One node of a document fragment.
#[derive(Debug)]
pub enum FragmentNodeKind {
    Text(TextNode),
}

/// A sequence of document nodes.
#[derive(Debug)]
pub struct Fragment {
    pub nodes: Vec<FragmentNodeKind>,
    pub transparent: bool,
}

#[derive(Debug)]
pub struct RootMetadata {
    pub ts: bool,
}

#[derive(Debug)]
pub struct RootOptions {
    pub span: Span,
}

/// The embedding document's root: its fragment, an optional stylesheet,
/// and optional instance and module scripts.
#[derive(Debug)]
pub struct Root {
    pub span: Span,
    pub options: Option<RootOptions>,
    pub fragment: Fragment,
    pub css: Option<StyleSheet>,
    pub instance: Option<Script>,
    pub module: Option<Script>,
    pub metadata: RootMetadata,
}

/// The only component that allocates AST nodes, child sequences, boxed
/// values and interned strings.
pub struct AstBuilder {
    pub dummy: bool,
}

impl AstBuilder {
    pub fn new() -> (b: AstBuilder) {
        AstBuilder { dummy: false }
    }

    /// Box a value.
    pub fn alloc_node<T>(&self, value: T) -> (r: Box<T>)
        ensures
            *r == value,
    {
        Box::new(value)
    }

    /// A fresh empty node sequence.
    pub fn new_vec<T>(&self) -> (v: Vec<T>)
        ensures
            v@ =~= Seq::<T>::empty(),
    {
        Vec::new()
    }

    /// A fresh empty node sequence with room for `capacity` nodes.
    pub fn new_vec_with_capacity<T>(&self, capacity: usize) -> (v: Vec<T>)
        ensures
            v@ =~= Seq::<T>::empty(),
    {
        Vec::with_capacity(capacity)
    }

    /// A sequence holding exactly `value`.
    pub fn new_vec_single<T>(&self, value: T) -> (v: Vec<T>)
        ensures
            v@ =~= seq![value],
    {
        let mut v = self.new_vec_with_capacity(1);
        v.push(value);
        v
    }

    /// A sequence holding the given items, in order.
    pub fn new_vec_from_iter<T>(&self, items: Vec<T>) -> (v: Vec<T>)
        ensures
            v@ == items@,
    {
        items
    }

    /// Copy a borrowed byte string.
    pub fn new_str(&self, value: &[u8]) -> (r: Vec<u8>)
        ensures
            r@ == value@,
    {
        slice_to_vec(value)
    }

    /// Intern a borrowed byte string as an [`Atom`].
    pub fn new_atom(&self, value: &[u8]) -> (a: Atom)
        ensures
            a@ == value@,
    {
        Atom { bytes: slice_to_vec(value) }
    }

    /// Intern the source bytes `start..end` as an [`Atom`].
    pub fn atom_from(&self, source: &[u8], start: usize, end: usize) -> (a: Atom)
        requires
            start <= end <= source@.len(),
        ensures
            a@ == source@.subrange(start as int, end as int),
    {
        let sub = slice_subrange(source, start, end);
        Atom { bytes: slice_to_vec(sub) }
    }

    /// Duplicate a plain-data value. Restricted to `Copy` types, so
    /// nothing with unique-ownership semantics can be duplicated.
    pub fn copy<T: Copy>(&self, src: &T) -> (r: T)
        ensures
            r == *src,
    {
        *src
    }

    /// Compose the document root from an already-built fragment,
    /// stylesheet and scripts.
    pub fn root(
        &self,
        span: Span,
        fragment: Fragment,
        css: Option<StyleSheet>,
        instance: Option<Script>,
        module: Option<Script>,
        ts: bool,
    ) -> (r: Root)
        ensures
            r.span == span,
            r.options is None,
            r.fragment == fragment,
            r.css == css,
            r.instance == instance,
            r.module == module,
            r.metadata.ts == ts,
    {
        Root { span, options: None, fragment, css, instance, module, metadata: RootMetadata { ts } }
    }

    /// Compose a document fragment.
    pub fn fragment(&self, nodes: Vec<FragmentNodeKind>, transparent: bool) -> (r: Fragment)
        ensures
            r.nodes == nodes,
            r.transparent == transparent,
    {
        Fragment { nodes, transparent }
    }

    /// The root stylesheet node.
    pub fn stylesheet(&self, span: Span, children: Vec<Rule>, source_text: Atom) -> (r: StyleSheet)
        ensures
            r.span == span,
            r.children == children,
            r.source_text == source_text,
    {
        StyleSheet { span, children, source_text }
    }

    /// An at-rule node.
    pub fn at_rule(&self, span: Span, name: Atom, prelude: Atom, block: Option<Block>) -> (r:
        AtRule)
        ensures
            r.span == span,
            r.name == name,
            r.prelude == prelude,
            r.block == block,
    {
        AtRule { span, name, prelude, block }
    }

    /// A qualified style rule node.
    pub fn style_rule(&self, span: Span, selectors: Vec<Selector>, block: Block) -> (r: StyleRule)
        ensures
            r.span == span,
            r.selectors == selectors,
            r.block == block,
    {
        StyleRule { span, selectors, block }
    }

    /// One selector of a selector list.
    pub fn selector(&self, span: Span, text: Atom) -> (r: Selector)
        ensures
            r.span == span,
            r.text == text,
    {
        Selector { span, text }
    }

    /// A declaration block node.
    pub fn block(&self, span: Span, children: Vec<BlockChild>) -> (r: Block)
        ensures
            r.span == span,
            r.children == children,
    {
        Block { span, children }
    }

    /// A `property: value` declaration node.
    pub fn declaration(&self, span: Span, property: Atom, value: Atom) -> (r: Declaration)
        ensures
            r.span == span,
            r.property == property,
            r.value == value,
    {
        Declaration { span, property, value }
    }
}

} // verus!
