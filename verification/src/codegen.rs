//! Generates the Rust source for types, terms and tries.

mod bodies;
mod exprs;
mod items;
mod patterns;
mod values;

use crate::output::{can_codegen, codegen_text, header_text};
use crate::sema::{TermEnv, TypeEnv};
use crate::trie::TrieNode;
use std::collections::BTreeMap;
use vstd::prelude::*;

verus! {

/// What the source is generated from.
#[derive(Debug)]
pub struct Codegen<'a> {
    /// The types.
    pub typeenv: &'a TypeEnv,
    /// The terms.
    pub termenv: &'a TermEnv,
    /// The tries, by the index of the term that they belong to.
    pub functions_by_term: &'a BTreeMap<usize, TrieNode>,
}

impl<'a> Codegen<'a> {
    /// Returns a generator for the given types, terms and tries.
    pub fn compile(
        typeenv: &'a TypeEnv,
        termenv: &'a TermEnv,
        tries: &'a BTreeMap<usize, TrieNode>,
    ) -> (codegen: Codegen<'a>)
        ensures
            codegen.typeenv == typeenv,
            codegen.termenv == termenv,
            codegen.functions_by_term == tries,
    {
        Codegen { typeenv, termenv, functions_by_term: tries }
    }

    /// Returns the generated file.
    pub fn generate_rust(&self) -> (code: String)
        requires
            can_codegen(*self.typeenv, *self.termenv, self.functions_by_term@),
        ensures
            code@ == codegen_text(*self.typeenv, *self.termenv, self.functions_by_term@),
    {
        let mut code = String::new();
        self.generate_header(&mut code);
        assert(code@ =~= header_text(*self.typeenv));
        self.generate_ctx_trait(&mut code);
        self.generate_internal_types(&mut code);
        self.generate_internal_term_constructors(&mut code);
        code
    }
}

/// Returns the Rust source for the given types and terms. The tries are given by the index of the
/// term that they belong to.
pub fn codegen(typeenv: &TypeEnv, termenv: &TermEnv, tries: &BTreeMap<usize, TrieNode>) -> (code:
    String)
    requires
        can_codegen(*typeenv, *termenv, tries@),
    ensures
        code@ == codegen_text(*typeenv, *termenv, tries@),
{
    Codegen::compile(typeenv, termenv, tries).generate_rust()
}

} // verus!
