//! The generated file closes all blocks that it opens, and each function in it returns.

use crate::laws::blocks::{group_blocks, lemma_brace_literals, lemma_plain_literals, plain};
use crate::laws::nesting::{
    ends_line, law_body_nesting, law_returns_after, law_whole_code_concat, lemma_line_ends,
    returns_at, returns_outside, whole_code,
};
use crate::laws::pieces::{all_plain, group_pieces, plain_filenames, plain_names, plain_syms};
use crate::output::{
    can_codegen, can_declare, can_declare_context, can_declare_field, can_declare_methods,
    can_declare_type, can_declare_types, can_declare_variant, can_generate, codegen_text,
    context_constructor, context_extractor, context_text, declaration_text, declarations_text,
    fields_text, file_lines, function_body, function_text, functions_text, has_named_types,
    header_text, method_text, methods_text, param_texts, ret_texts, root_run, term_methods,
    type_text, variant_text, variants_text,
};
use crate::sema::{Signature, Term, TermEnv, Type, TypeEnv, TypeId, Variant};
use crate::trie::TrieNode;
use vstd::prelude::*;

verus! {

broadcast use {group_blocks, group_pieces};

proof fn lemma_file_lines(te: TypeEnv, n: nat)
    requires
        plain_filenames(te),
        n <= te.filenames@.len(),
    ensures
        plain(file_lines(te.filenames@, n)),
    decreases n,
{
    lemma_plain_literals();
    if n > 0 {
        lemma_file_lines(te, (n - 1) as nat);
        assert(plain(te.filenames@[n - 1]@));
    }
}

/// The header is whole code.
pub proof fn law_header(te: TypeEnv)
    requires
        plain_filenames(te),
    ensures
        whole_code(header_text(te)),
{
    lemma_plain_literals();
    lemma_line_ends();
    lemma_file_lines(te, te.filenames@.len());
}

proof fn lemma_params(te: TypeEnv, tys: Seq<TypeId>)
    requires
        plain_syms(te),
        has_named_types(te, tys),
    ensures
        all_plain(param_texts(te, tys)),
        all_plain(ret_texts(te, tys)),
{
    lemma_plain_literals();
    let params = param_texts(te, tys);
    assert forall|i: int| 0 <= i < params.len() implies plain(#[trigger] params[i]) by {
        assert(te.has_named_type(tys[i]));
        assert(plain(type_text(te, tys[i], true)));
    }
    let rets = ret_texts(te, tys);
    assert forall|i: int| 0 <= i < rets.len() implies plain(#[trigger] rets[i]) by {
        assert(te.has_named_type(tys[i]));
        assert(plain(type_text(te, tys[i], false)));
    }
}

proof fn lemma_method(te: TypeEnv, sig: Signature)
    requires
        plain_syms(te),
        plain(sig.func_name),
        can_declare(te, sig),
    ensures
        plain(method_text(te, "    "@, sig)),
        ends_line(method_text(te, "    "@, sig)),
{
    lemma_plain_literals();
    lemma_line_ends();
    lemma_params(te, sig.param_tys);
    lemma_params(te, sig.ret_tys);
}

proof fn lemma_term_methods(te: TypeEnv, term: Term)
    requires
        plain_syms(te),
        can_declare_methods(te, term),
    ensures
        plain(term_methods(te, term)),
{
    lemma_plain_literals();
    if let Some(sig) = context_extractor(te, term) {
        lemma_method(te, sig);
    }
    if let Some(sig) = context_constructor(te, term) {
        lemma_method(te, sig);
    }
}

proof fn lemma_methods(te: TypeEnv, tm: TermEnv, n: nat)
    requires
        plain_syms(te),
        can_declare_context(te, tm),
        n <= tm.terms@.len(),
    ensures
        plain(methods_text(te, tm.terms@, n)),
    decreases n,
{
    lemma_plain_literals();
    if n > 0 {
        lemma_methods(te, tm, (n - 1) as nat);
        assert(can_declare_methods(te, tm.terms@[n - 1]));
        lemma_term_methods(te, tm.terms@[n - 1]);
    }
}

/// The trait that holds the context's methods is whole code.
pub proof fn law_context(te: TypeEnv, tm: TermEnv)
    requires
        plain_syms(te),
        can_declare_context(te, tm),
    ensures
        whole_code(context_text(te, tm)),
{
    lemma_plain_literals();
    lemma_brace_literals();
    lemma_line_ends();
    lemma_methods(te, tm, tm.terms@.len());
}

proof fn lemma_fields(te: TypeEnv, variant: Variant, n: nat)
    requires
        plain_syms(te),
        can_declare_variant(te, variant),
        n <= variant.fields@.len(),
    ensures
        plain(fields_text(te, variant.fields@, n)),
    decreases n,
{
    lemma_plain_literals();
    if n > 0 {
        let field = variant.fields@[n - 1];
        lemma_fields(te, variant, (n - 1) as nat);
        assert(can_declare_field(te, field));
        assert(plain(te.sym_text(field.name)));
        assert(plain(te.sym_text(te.type_at(field.ty).name_sym())));
    }
}

proof fn lemma_variant(te: TypeEnv, variant: Variant)
    requires
        plain_syms(te),
        can_declare_variant(te, variant),
    ensures
        whole_code(variant_text(te, variant)),
{
    lemma_plain_literals();
    lemma_brace_literals();
    lemma_line_ends();
    lemma_fields(te, variant, variant.fields@.len());
    assert(plain(te.sym_text(variant.name)));
}

proof fn lemma_variants(te: TypeEnv, variants: Seq<Variant>, n: nat)
    requires
        plain_syms(te),
        n <= variants.len(),
        forall|i: int|
            0 <= i < variants.len() ==> can_declare_variant(te, #[trigger] variants[i]),
    ensures
        whole_code(variants_text(te, variants, n)),
    decreases n,
{
    lemma_plain_literals();
    lemma_line_ends();
    if n > 0 {
        lemma_variants(te, variants, (n - 1) as nat);
        lemma_variant(te, variants[n - 1]);
        law_whole_code_concat(
            variants_text(te, variants, (n - 1) as nat),
            variant_text(te, variants[n - 1]),
        );
    }
}

/// The declaration of a type is whole code.
pub proof fn law_declaration(te: TypeEnv, ty: Type)
    requires
        plain_names(te),
        can_declare_type(te, ty),
    ensures
        whole_code(declaration_text(te, ty)),
{
    lemma_plain_literals();
    lemma_brace_literals();
    lemma_line_ends();
    match ty {
        Type::Enum { name, is_extern: false, variants, pos, .. } => {
            lemma_variants(te, variants@, variants@.len());
            assert(plain(te.sym_text(name)));
            assert(plain(te.filenames@[pos.file as int]@));
        },
        _ => {},
    }
}

proof fn lemma_declarations(te: TypeEnv, n: nat)
    requires
        plain_names(te),
        can_declare_types(te),
        n <= te.types@.len(),
    ensures
        whole_code(declarations_text(te, n)),
    decreases n,
{
    lemma_plain_literals();
    lemma_line_ends();
    if n > 0 {
        lemma_declarations(te, (n - 1) as nat);
        assert(can_declare_type(te, te.types@[n - 1]));
        law_declaration(te, te.types@[n - 1]);
        law_whole_code_concat(
            declarations_text(te, (n - 1) as nat),
            declaration_text(te, te.types@[n - 1]),
        );
    }
}

/// The body of a function is whole code, and returns outside all blocks of its own.
#[verifier::spinoff_prover]
#[verifier::rlimit(40)]
pub proof fn law_function_returns(te: TypeEnv, tm: TermEnv, trie: TrieNode)
    requires
        plain_names(te),
        root_run(te, tm, trie).valid,
    ensures
        whole_code(function_body(te, tm, trie)),
        returns_outside(function_body(te, tm, trie), "    "@),
{
    lemma_plain_literals();
    lemma_line_ends();
    let run = root_run(te, tm, trie);
    law_body_nesting(te, tm, 0, trie, "    "@, Map::empty());
    if run.returned {
        assert(run.text + ""@ =~= run.text);
    } else {
        let line = "    return None;\n"@;
        law_whole_code_concat(run.text, line);
        assert(returns_at(line, "    "@, 0)) by {
            reveal_strlit("    ");
            reveal_strlit("return ");
            reveal_strlit("    return None;\n");
            assert(line.take(0) =~= ""@);
            assert(line.skip(0) =~= line);
        }
        law_returns_after(run.text, line, "    "@);
    }
}

/// The function for a term is whole code.
#[verifier::spinoff_prover]
#[verifier::rlimit(40)]
pub proof fn law_function(te: TypeEnv, tm: TermEnv, term: Term, trie: TrieNode)
    requires
        plain_names(te),
        can_generate(te, tm, term, trie),
    ensures
        whole_code(function_text(te, tm, term, trie)),
{
    lemma_plain_literals();
    lemma_brace_literals();
    lemma_line_ends();
    if term.is_generated() {
        law_function_returns(te, tm, trie);
        lemma_params(te, term.arg_tys@);
        assert(plain(te.sym_text(term.name)));
        assert(plain(type_text(te, term.ret_ty, false)));
    }
}

proof fn lemma_functions(te: TypeEnv, tm: TermEnv, tries: Map<usize, TrieNode>, n: nat)
    requires
        plain_names(te),
        can_codegen(te, tm, tries),
        n <= tm.terms@.len(),
    ensures
        whole_code(functions_text(te, tm, tries, n)),
    decreases n,
{
    lemma_plain_literals();
    lemma_line_ends();
    if n > 0 {
        let t = (n - 1) as usize;
        assert(tm.terms.len() == tm.terms@.len());
        lemma_functions(te, tm, tries, (n - 1) as nat);
        if tries.contains_key(t) {
            law_function(te, tm, tm.terms@[n - 1], tries[t]);
            law_whole_code_concat(
                functions_text(te, tm, tries, (n - 1) as nat),
                function_text(te, tm, tm.terms@[n - 1], tries[t]),
            );
        }
    }
}

/// The generated file is whole code: it closes all blocks that it opens, and no others.
pub proof fn law_file(te: TypeEnv, tm: TermEnv, tries: Map<usize, TrieNode>)
    requires
        plain_names(te),
        can_codegen(te, tm, tries),
    ensures
        whole_code(codegen_text(te, tm, tries)),
{
    law_header(te);
    law_context(te, tm);
    lemma_declarations(te, te.types@.len());
    lemma_functions(te, tm, tries, tm.terms@.len());
    let top = header_text(te) + context_text(te, tm);
    law_whole_code_concat(header_text(te), context_text(te, tm));
    let declared = top + declarations_text(te, te.types@.len());
    law_whole_code_concat(top, declarations_text(te, te.types@.len()));
    law_whole_code_concat(declared, functions_text(te, tm, tries, tm.terms@.len()));
}

} // verus!
