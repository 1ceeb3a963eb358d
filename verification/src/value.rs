//! Boundary scans over the token stream: where a selector segment, an
//! at-rule prelude, or a declaration's value run ends.
//!
//! Each executable finder computes the corresponding spec scan from the
//! grammar model; all of them stop at the end-of-file token at the
//! latest, which always terminates the stream.

use vstd::prelude::*;
use crate::grammar::{is_item_stop, is_pre_stop, is_sel_stop, item_end, pre_end, sel_end};
use crate::token::{Kind, Token};

verus! {

fn is_sel_stop_k(k: Kind) -> (r: bool)
    ensures
        r == is_sel_stop(k),
{
    k == Kind::Comma || k == Kind::OpenBrace || k == Kind::Semicolon || k == Kind::CloseBrace || k
        == Kind::Eof
}

fn is_pre_stop_k(k: Kind) -> (r: bool)
    ensures
        r == is_pre_stop(k),
{
    k == Kind::OpenBrace || k == Kind::Semicolon || k == Kind::Eof
}

fn is_item_stop_k(k: Kind) -> (r: bool)
    ensures
        r == is_item_stop(k),
{
    k == Kind::OpenBrace || k == Kind::Semicolon || k == Kind::CloseBrace || k == Kind::Eof
}

/// First selector-segment stop at or after `ti`.
#[verifier::loop_isolation(false)]
pub fn find_sel_stop(tokens: &Vec<Token>, ti: usize) -> (j: usize)
    requires
        ti < tokens@.len(),
        tokens@[tokens@.len() - 1].kind == Kind::Eof,
    ensures
        j as int == sel_end(tokens@, ti as int),
        ti <= j < tokens@.len(),
        is_sel_stop(tokens@[j as int].kind),
{
    let n = tokens.len();
    let mut j = ti;
    while !is_sel_stop_k(tokens[j].kind)
        invariant
            ti <= j && j < n,
            n == tokens@.len(),
            sel_end(tokens@, ti as int) == sel_end(tokens@, j as int),
        decreases tokens@.len() - j,
    {
        j = j + 1;
    }
    j
}

/// First prelude stop at or after `ti`.
#[verifier::loop_isolation(false)]
pub fn find_pre_stop(tokens: &Vec<Token>, ti: usize) -> (j: usize)
    requires
        ti < tokens@.len(),
        tokens@[tokens@.len() - 1].kind == Kind::Eof,
    ensures
        j as int == pre_end(tokens@, ti as int),
        ti <= j < tokens@.len(),
        is_pre_stop(tokens@[j as int].kind),
    decreases tokens@.len() - ti,
{
    let n = tokens.len();
    let mut j = ti;
    while !is_pre_stop_k(tokens[j].kind)
        invariant
            ti <= j && j < n,
            n == tokens@.len(),
            pre_end(tokens@, ti as int) == pre_end(tokens@, j as int),
        decreases tokens@.len() - j,
    {
        j = j + 1;
    }
    j
}

/// First item stop at or after `ti`: the boundary that both ends a
/// declaration's value run and decides whether a block item is a nested
/// rule.
#[verifier::loop_isolation(false)]
pub fn find_item_stop(tokens: &Vec<Token>, ti: usize) -> (j: usize)
    requires
        ti < tokens@.len(),
        tokens@[tokens@.len() - 1].kind == Kind::Eof,
    ensures
        j as int == item_end(tokens@, ti as int),
        ti <= j < tokens@.len(),
        is_item_stop(tokens@[j as int].kind),
{
    let n = tokens.len();
    let mut j = ti;
    while !is_item_stop_k(tokens[j].kind)
        invariant
            ti <= j && j < n,
            n == tokens@.len(),
            item_end(tokens@, ti as int) == item_end(tokens@, j as int),
        decreases tokens@.len() - j,
    {
        j = j + 1;
    }
    j
}

} // verus!
