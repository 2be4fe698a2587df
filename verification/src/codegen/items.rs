//! The parts of the generated file.

use crate::codegen::Codegen;
use crate::context::BodyContext;
use crate::output::{
    can_declare, can_declare_context, can_declare_field, can_declare_methods, can_declare_type,
    can_declare_types, can_declare_variant, can_generate, can_generate_all, context_text,
    declaration_text, declarations_text, fields_text, file_lines, function_text, functions_text,
    has_named_types, header_text, method_text, methods_text, param_texts, ret_texts, term_methods,
    type_text, variant_text, variants_text,
};
use crate::sema::{ExternalSig, Term, TermEnv, Type, TypeEnv, TypeId, Variant};
use crate::text::{decimal, decimal_string, join_comma, texts};
use crate::trie::TrieNode;
use crate::tries::{lists_tries, tries_in_order};
use vstd::prelude::*;
use vstd::string::StringExecFns;

verus! {

proof fn lemma_functions_next(te: TypeEnv, tm: TermEnv, tries: Map<usize, TrieNode>, t: usize)
    requires
        tries.contains_key(t),
    ensures
        functions_text(te, tm, tries, (t + 1) as nat) == functions_text(te, tm, tries, t as nat)
            + function_text(te, tm, tm.terms@[t as int], tries[t]),
{
}

/// Terms without a trie have no function.
proof fn lemma_functions_gap(
    te: TypeEnv,
    tm: TermEnv,
    tries: Map<usize, TrieNode>,
    m: nat,
    n: nat,
)
    requires
        m <= n <= tm.terms@.len(),
        forall|u: usize| m <= u < n ==> !tries.contains_key(u),
    ensures
        functions_text(te, tm, tries, m) == functions_text(te, tm, tries, n),
    decreases n,
{
    if m < n {
        lemma_functions_gap(te, tm, tries, m, (n - 1) as nat);
        reveal_strlit("");
        assert(n <= tm.terms.len());
        let before = functions_text(te, tm, tries, (n - 1) as nat);
        assert(!tries.contains_key((n - 1) as usize));
        assert(before + ""@ =~= before);
    }
}

impl<'a> Codegen<'a> {
    /// Writes the lines at the top of the generated file.
    pub fn generate_header(&self, code: &mut String)
        ensures
            final(code)@ == old(code)@ + header_text(*self.typeenv),
    {
        let ghost files = self.typeenv.filenames@;
        let mut text = "// GENERATED BY ISLE. DO NOT EDIT!\n".to_string();
        text.append("//\n");
        text.append("// Generated automatically from the instruction-selection DSL code in:\n");
        let ghost start = text@;
        proof {
            reveal_strlit("");
            assert(start =~= start + file_lines(files, 0));
        }
        for i in 0..self.typeenv.filenames.len()
            invariant
                files == self.typeenv.filenames@,
                text@ == start + file_lines(files, i as nat),
        {
            let mut line = "// - ".to_string();
            line.append(self.typeenv.filenames[i].as_str());
            line.append("\n");
            text.append(line.as_str());
            assert(text@ =~= start + file_lines(files, (i + 1) as nat));
        }
        text.append("\n#![allow(dead_code, unreachable_code, unreachable_patterns)]\n");
        text.append("#![allow(unused_imports, unused_variables, non_snake_case)]\n");
        text.append("#![allow(irrefutable_let_patterns)]\n");
        text.append("\nuse super::*;  // Pulls in all external types.\n");
        code.append(text.as_str());
    }

    /// Returns the parameters of a function, named by their places.
    pub(crate) fn params(&self, tys: &Vec<TypeId>) -> (params: Vec<String>)
        requires
            has_named_types(*self.typeenv, tys@),
        ensures
            texts(params@) == param_texts(*self.typeenv, tys@),
    {
        let mut params: Vec<String> = Vec::new();
        for i in 0..tys.len()
            invariant
                has_named_types(*self.typeenv, tys@),
                params@.len() == i,
                forall|j: int|
                    0 <= j < i ==> (#[trigger] params@[j])@ == "arg"@ + decimal(j as nat) + ": "@
                        + type_text(*self.typeenv, tys@[j], true),
        {
            let mut param = "arg".to_string();
            param.append(decimal_string(i as u64).as_str());
            param.append(": ");
            param.append(self.ty_name(tys[i], true).as_str());
            params.push(param);
        }
        assert(texts(params@) =~= param_texts(*self.typeenv, tys@));
        params
    }

    /// Returns the types of a function's results.
    pub(crate) fn rets(&self, tys: &Vec<TypeId>) -> (rets: Vec<String>)
        requires
            has_named_types(*self.typeenv, tys@),
        ensures
            texts(rets@) == ret_texts(*self.typeenv, tys@),
    {
        let mut rets: Vec<String> = Vec::new();
        for i in 0..tys.len()
            invariant
                has_named_types(*self.typeenv, tys@),
                rets@.len() == i,
                forall|j: int|
                    0 <= j < i ==> (#[trigger] rets@[j])@ == type_text(
                        *self.typeenv,
                        tys@[j],
                        false,
                    ),
        {
            rets.push(self.ty_name(tys[i], false));
        }
        assert(texts(rets@) =~= ret_texts(*self.typeenv, tys@));
        rets
    }

    /// Writes the declaration of a method of the context.
    pub fn generate_trait_sig(&self, code: &mut String, indent: &str, sig: &ExternalSig)
        requires
            can_declare(*self.typeenv, sig@),
        ensures
            final(code)@ == old(code)@ + method_text(*self.typeenv, indent@, sig@),
    {
        let params = self.params(&sig.param_tys);
        let rets = self.tuple(&self.rets(&sig.ret_tys));
        let ret = if sig.infallible {
            rets
        } else {
            let mut ret = "Option<".to_string();
            ret.append(rets.as_str());
            ret.append(">");
            ret
        };
        let mut line = indent.to_string();
        line.append("fn ");
        line.append(sig.func_name.as_str());
        line.append("(&mut self, ");
        line.append(join_comma(&params).as_str());
        line.append(") -> ");
        line.append(ret.as_str());
        line.append(";\n");
        code.append(line.as_str());
    }

    /// Writes the context's methods for a term.
    pub(crate) fn generate_term_methods(&self, code: &mut String, term: &Term)
        requires
            can_declare_methods(*self.typeenv, *term),
        ensures
            final(code)@ == old(code)@ + term_methods(*self.typeenv, *term),
    {
        let ghost start = code@;
        proof {
            reveal_strlit("");
        }
        if term.has_external_extractor() {
            let ext_sig = term.extractor_sig(self.typeenv).unwrap();
            self.generate_trait_sig(code, "    ", &ext_sig);
        }
        if term.has_external_constructor() {
            let ext_sig = term.constructor_sig(self.typeenv).unwrap();
            self.generate_trait_sig(code, "    ", &ext_sig);
        }
        assert(code@ =~= start + term_methods(*self.typeenv, *term));
    }

    /// Writes the trait that holds all external constructors and extractors.
    pub fn generate_ctx_trait(&self, code: &mut String)
        requires
            can_declare_context(*self.typeenv, *self.termenv),
        ensures
            final(code)@ == old(code)@ + context_text(*self.typeenv, *self.termenv),
    {
        let ghost te = *self.typeenv;
        let ghost terms = self.termenv.terms@;
        let mut text = "\n".to_string();
        text.append("/// Context during lowering: an implementation of this trait\n");
        text.append("/// must be provided with all external constructors and extractors.\n");
        text.append("/// A mutable borrow is passed along through all lowering logic.\n");
        text.append("pub trait Context {\n");
        let ghost start = text@;
        proof {
            reveal_strlit("");
            assert(start =~= start + methods_text(te, terms, 0));
        }
        for i in 0..self.termenv.terms.len()
            invariant
                te == *self.typeenv,
                terms == self.termenv.terms@,
                can_declare_context(*self.typeenv, *self.termenv),
                text@ == start + methods_text(te, terms, i as nat),
        {
            self.generate_term_methods(&mut text, &self.termenv.terms[i]);
            assert(text@ =~= start + methods_text(te, terms, (i + 1) as nat));
        }
        text.append("}\n");
        code.append(text.as_str());
    }

    /// Writes the declaration of a variant.
    pub(crate) fn generate_variant(&self, code: &mut String, variant: &Variant)
        requires
            can_declare_variant(*self.typeenv, *variant),
        ensures
            final(code)@ == old(code)@ + variant_text(*self.typeenv, *variant),
    {
        let ghost te = *self.typeenv;
        let ghost fields = variant.fields@;
        let mut text = "    ".to_string();
        text.append(self.typeenv.syms[variant.name.index()].as_str());
        if variant.fields.len() == 0 {
            text.append(",\n");
        } else {
            text.append(" {\n");
            let ghost start = text@;
            proof {
                reveal_strlit("");
                assert(start =~= start + fields_text(te, fields, 0));
            }
            for i in 0..variant.fields.len()
                invariant
                    te == *self.typeenv,
                    fields == variant.fields@,
                    can_declare_variant(te, *variant),
                    text@ == start + fields_text(te, fields, i as nat),
            {
                let field = &variant.fields[i];
                assert(can_declare_field(te, fields[i as int]));
                let mut line = "        ".to_string();
                line.append(self.typeenv.syms[field.name.index()].as_str());
                line.append(": ");
                line.append(self.typeenv.types[field.ty.index()].name(self.typeenv).as_str());
                line.append(",\n");
                text.append(line.as_str());
                assert(text@ =~= start + fields_text(te, fields, (i + 1) as nat));
            }
            text.append("    },\n");
        }
        code.append(text.as_str());
    }

    /// Writes the declaration of a type, where it is an internal enum.
    pub(crate) fn generate_internal_type(&self, code: &mut String, ty: &Type)
        requires
            can_declare_type(*self.typeenv, *ty),
        ensures
            final(code)@ == old(code)@ + declaration_text(*self.typeenv, *ty),
    {
        let ghost te = *self.typeenv;
        match ty {
            Type::Enum { name, is_extern: false, variants, pos, .. } => {
                let name = &self.typeenv.syms[name.index()];
                let mut text = "\n/// Internal type ".to_string();
                text.append(name.as_str());
                text.append(": defined at ");
                text.append(pos.pretty_print_line(&self.typeenv.filenames).as_str());
                text.append(".\n");
                text.append("#[derive(Clone, Debug)]\n");
                text.append("pub enum ");
                text.append(name.as_str());
                text.append(" {\n");
                let ghost start = text@;
                proof {
                    reveal_strlit("");
                    assert(start =~= start + variants_text(te, variants@, 0));
                }
                for i in 0..variants.len()
                    invariant
                        te == *self.typeenv,
                        forall|j: int|
                            0 <= j < variants@.len() ==> can_declare_variant(
                                te,
                                #[trigger] variants@[j],
                            ),
                        text@ == start + variants_text(te, variants@, i as nat),
                {
                    self.generate_variant(&mut text, &variants[i]);
                    assert(text@ =~= start + variants_text(te, variants@, (i + 1) as nat));
                }
                text.append("}\n");
                code.append(text.as_str());
            },
            _ => {
                proof {
                    reveal_strlit("");
                    assert(code@ =~= code@ + ""@);
                }
            },
        }
    }

    /// Writes the declarations of the internal enums.
    pub fn generate_internal_types(&self, code: &mut String)
        requires
            can_declare_types(*self.typeenv),
        ensures
            final(code)@ == old(code)@ + declarations_text(
                *self.typeenv,
                self.typeenv.types@.len(),
            ),
    {
        let ghost te = *self.typeenv;
        let ghost start = code@;
        proof {
            reveal_strlit("");
            assert(start =~= start + declarations_text(te, 0));
        }
        for i in 0..self.typeenv.types.len()
            invariant
                te == *self.typeenv,
                can_declare_types(te),
                code@ == start + declarations_text(te, i as nat),
        {
            self.generate_internal_type(code, &self.typeenv.types[i]);
            assert(code@ =~= start + declarations_text(te, (i + 1) as nat));
        }
    }

    /// Writes the function for a term, where its constructor is to be generated.
    #[verifier::spinoff_prover]
    #[verifier::rlimit(40)]
    pub(crate) fn generate_internal_term_constructor(
        &self,
        code: &mut String,
        term: &Term,
        trie: &TrieNode,
    )
        requires
            can_generate(*self.typeenv, *self.termenv, *term, *trie),
        ensures
            final(code)@ == old(code)@ + function_text(
                *self.typeenv,
                *self.termenv,
                *term,
                *trie,
            ),
    {
        // Skip terms that are enum variants or that have external constructors.
        if !term.has_constructor() || term.has_external_constructor() {
            proof {
                reveal_strlit("");
                assert(code@ =~= code@ + ""@);
            }
            return;
        }
        let sig = term.constructor_sig(self.typeenv).unwrap();
        let args = self.params(&sig.param_tys);
        let ret = self.ty_name(sig.ret_tys[0], false);
        let mut text = "\n// Generated as internal constructor for term ".to_string();
        text.append(self.typeenv.syms[term.name.index()].as_str());
        text.append(".\n");
        text.append("pub fn ");
        text.append(sig.func_name.as_str());
        text.append("<C: Context>(ctx: &mut C, ");
        text.append(join_comma(&args).as_str());
        text.append(") -> Option<");
        text.append(ret.as_str());
        text.append("> {\n");
        let mut body_ctx = BodyContext::default();
        let returned = self.generate_body(&mut text, 0, trie, "    ", &mut body_ctx);
        text.append(
            if returned {
                ""
            } else {
                "    return None;\n"
            },
        );
        text.append("}\n");
        code.append(text.as_str());
    }

    /// Writes the functions in the order of their terms.
    #[verifier::spinoff_prover]
    #[verifier::rlimit(40)]
    pub fn generate_internal_term_constructors(&self, code: &mut String)
        requires
            can_generate_all(*self.typeenv, *self.termenv, self.functions_by_term@),
        ensures
            final(code)@ == old(code)@ + functions_text(
                *self.typeenv,
                *self.termenv,
                self.functions_by_term@,
                self.termenv.terms@.len(),
            ),
    {
        let ghost te = *self.typeenv;
        let ghost tm = *self.termenv;
        let ghost tries = self.functions_by_term@;
        let ghost start = code@;
        let entries = tries_in_order(self.functions_by_term);
        let ghost mut reached: nat = 0;
        proof {
            reveal_strlit("");
            assert(start =~= start + functions_text(te, tm, tries, 0));
        }
        for i in 0..entries.len()
            invariant
                te == *self.typeenv,
                tm == *self.termenv,
                tries == self.functions_by_term@,
                can_generate_all(te, tm, tries),
                lists_tries(entries@, tries),
                reached <= tm.terms@.len(),
                i == 0 ==> reached == 0,
                i > 0 ==> reached == entries@[i - 1].0 + 1,
                code@ == start + functions_text(te, tm, tries, reached),
        {
            let (t, trie) = entries[i];
            proof {
                assert(tries.contains_key(entries@[i as int].0));
                assert forall|u: usize| reached <= u < t implies !tries.contains_key(u) by {
                    if tries.contains_key(u) {
                        let k = choose|k: int| 0 <= k < entries@.len() && entries@[k].0 == u;
                        if k < i {
                            assert(k <= i - 1);
                        }
                    }
                }
                lemma_functions_gap(te, tm, tries, reached, t as nat);
            }
            self.generate_internal_term_constructor(code, &self.termenv.terms[t], trie);
            proof {
                lemma_functions_next(te, tm, tries, t);
                reached = (t + 1) as nat;
                assert(code@ =~= start + functions_text(te, tm, tries, reached));
            }
        }
        proof {
            let n = tm.terms@.len();
            assert forall|u: usize| reached <= u < n implies !tries.contains_key(u) by {
                if tries.contains_key(u) {
                    let k = choose|k: int| 0 <= k < entries@.len() && entries@[k].0 == u;
                    assert(k <= entries@.len() - 1);
                }
            }
            lemma_functions_gap(te, tm, tries, reached, n);
        }
    }
}

} // verus!
