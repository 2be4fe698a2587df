//! What the items of the generated file say: the context's methods, the types, the functions.

use crate::ir::{InstId, PatternInst, Value};
use crate::laws::declared::{holds, law_holds_itself, law_holds_within};
use crate::output::{
    argument_text, body_run, borrowed_texts, can_borrow, codegen_text, context_text,
    declarations_text, fields_text, file_lines, functions_text, header_text, method_text,
    methods_text, output_texts, param_texts, pattern_run, ret_texts, root_run, tuple_text,
    type_text, value_text, variants_text, Bindings,
};
use crate::sema::{
    args_with_polarity, ArgPolarity, ConstructorKind, ExtractorKind, Field, Signature, Sym, Term,
    TermEnv, TermId, TermKind, Type, TypeEnv, TypeId, Variant,
};
use crate::text::{comma_list, decimal};
use crate::trie::TrieNode;
use vstd::prelude::*;

verus! {

/// Parameters are numbered from zero and have their types as they are passed; results have their
/// types on their own.
pub proof fn law_params(te: TypeEnv, tys: Seq<TypeId>, i: int)
    requires
        0 <= i < tys.len(),
    ensures
        param_texts(te, tys).len() == tys.len(),
        param_texts(te, tys)[i] == "arg"@ + decimal(i as nat) + ": "@ + type_text(te, tys[i], true),
        ret_texts(te, tys).len() == tys.len(),
        ret_texts(te, tys)[i] == type_text(te, tys[i], false),
{
}

/// The declaration of a method that may give nothing is that of the same method when it always
/// gives a result, with `Option<` and `>` around the type of the results, however many there are.
pub proof fn law_method_option(
    te: TypeEnv,
    indent: Seq<char>,
    func_name: Seq<char>,
    full_name: Seq<char>,
    param_tys: Seq<TypeId>,
    ret_tys: Seq<TypeId>,
)
    ensures
        ({
            let sure = Signature { func_name, full_name, param_tys, ret_tys, infallible: true };
            let unsure = Signature { func_name, full_name, param_tys, ret_tys, infallible: false };
            let start = indent + "fn "@ + func_name + "(&mut self, "@ + comma_list(
                param_texts(te, param_tys),
            ) + ") -> "@;
            let rets = ret_texts(te, ret_tys);
            let result = if ret_tys.len() == 1 {
                rets[0]
            } else {
                "("@ + comma_list(rets) + ")"@
            };
            &&& method_text(te, indent, sure) == start + result + ";\n"@
            &&& method_text(te, indent, unsure) == start + ("Option<"@ + result + ">"@) + ";\n"@
        }),
{
}

/// The arguments of a polarity keep their order, and each argument with that polarity is among
/// them: one more argument is added at the end exactly where it has the polarity.
pub proof fn law_polarity(
    args: Seq<TypeId>,
    polarities: Seq<ArgPolarity>,
    arg: TypeId,
    own: ArgPolarity,
    polarity: ArgPolarity,
)
    requires
        args.len() == polarities.len(),
    ensures
        args_with_polarity(args.push(arg), polarities.push(own), polarity) == if own == polarity {
            args_with_polarity(args, polarities, polarity).push(arg)
        } else {
            args_with_polarity(args, polarities, polarity)
        },
        args_with_polarity(Seq::empty(), polarities, polarity).len() == 0,
    decreases args.len(),
{
    reveal_with_fuel(args_with_polarity, 2);
    if args.len() == 0 {
        assert(args.push(arg).skip(1) =~= Seq::empty());
        assert(args_with_polarity(args.push(arg), polarities.push(own), polarity) =~= if own
            == polarity {
            args_with_polarity(args, polarities, polarity).push(arg)
        } else {
            args_with_polarity(args, polarities, polarity)
        });
    } else {
        law_polarity(args.skip(1), polarities.skip(1), arg, own, polarity);
        assert(args.push(arg).skip(1) =~= args.skip(1).push(arg));
        assert(polarities.push(own).skip(1) =~= polarities.skip(1).push(own));
        assert(args_with_polarity(args.push(arg), polarities.push(own), polarity) =~= if own
            == polarity {
            args_with_polarity(args, polarities, polarity).push(arg)
        } else {
            args_with_polarity(args, polarities, polarity)
        });
    }
}

/// The signature of an external extractor: it takes the term's value and then the arguments that
/// it does not give, gives the others, and may fail exactly where it is said to.
pub proof fn law_extractor_signature(
    te: TypeEnv,
    term: Term,
    constructor_kind: Option<ConstructorKind>,
    name: Sym,
    arg_polarity: Vec<ArgPolarity>,
    infallible: bool,
)
    requires
        term.kind == (TermKind::Decl {
            constructor_kind,
            extractor_kind: Some(
                ExtractorKind::ExternalExtractor { name, arg_polarity, infallible },
            ),
        }),
    ensures
        term.extractor_signature(te) matches Some(sig) && {
            &&& sig.func_name == te.syms@[name.0 as int]@
            &&& sig.full_name == "C::"@ + te.syms@[name.0 as int]@
            &&& sig.param_tys == seq![term.ret_ty] + args_with_polarity(
                term.arg_tys@,
                arg_polarity@,
                ArgPolarity::Input,
            )
            &&& sig.ret_tys == args_with_polarity(
                term.arg_tys@,
                arg_polarity@,
                ArgPolarity::Output,
            )
            &&& sig.infallible == infallible
        },
{
}

/// The signature of a constructor: it takes the term's arguments and gives its value. One of the
/// context always gives it, a generated one may give none. No other term has one.
pub proof fn law_constructor_signature(te: TypeEnv, term: Term)
    ensures
        match term.kind {
            TermKind::Decl { constructor_kind: Some(kind), .. } => {
                term.constructor_signature(te) matches Some(sig) && {
                    &&& sig.param_tys == term.arg_tys@
                    &&& sig.ret_tys == seq![term.ret_ty]
                    &&& match kind {
                        ConstructorKind::ExternalConstructor { name } => {
                            &&& sig.func_name == te.syms@[name.0 as int]@
                            &&& sig.full_name == "C::"@ + te.syms@[name.0 as int]@
                            &&& sig.infallible
                        },
                        ConstructorKind::InternalConstructor => {
                            &&& sig.func_name == "constructor_"@ + te.syms@[term.name.0 as int]@
                            &&& sig.full_name == sig.func_name
                            &&& !sig.infallible
                        },
                    }
                }
            },
            _ => term.constructor_signature(te) is None,
        },
{
}

/// A term adds to the context the method for its external extractor, where it has one, and then
/// the method for its external constructor, where it has one, and nothing else. The terms follow
/// one another.
#[verifier::spinoff_prover]
#[verifier::rlimit(40)]
pub proof fn law_methods_follow(te: TypeEnv, terms: Seq<Term>, n: nat)
    ensures
        ({
            let before = methods_text(te, terms, n);
            let after = methods_text(te, terms, n + 1);
            let term = terms[n as int];
            let extractor = term.extractor_signature(te);
            let constructor = term.constructor_signature(te);
            match term.kind {
                TermKind::EnumVariant { .. } => after == before,
                TermKind::Decl { constructor_kind, extractor_kind } => {
                    let taken = extractor_kind matches Some(
                        ExtractorKind::ExternalExtractor { .. },
                    );
                    let built = constructor_kind matches Some(
                        ConstructorKind::ExternalConstructor { .. },
                    );
                    &&& taken && built ==> after == before + (method_text(te, "    "@, extractor->0)
                        + method_text(te, "    "@, constructor->0))
                    &&& taken && !built ==> after == before + method_text(te, "    "@, extractor->0)
                    &&& !taken && built ==> after == before + method_text(
                        te,
                        "    "@,
                        constructor->0,
                    )
                    &&& !taken && !built ==> after == before
                },
            }
        }),
        methods_text(te, terms, 0).len() == 0,
{
    reveal_strlit("");
    let before = methods_text(te, terms, n);
    let term = terms[n as int];
    let none = ""@;
    assert(none + none =~= none);
    assert(before + none =~= before);
    if let Some(sig) = term.extractor_signature(te) {
        let method = method_text(te, "    "@, sig);
        assert(method + none =~= method);
    }
    if let Some(sig) = term.constructor_signature(te) {
        let method = method_text(te, "    "@, sig);
        assert(none + method =~= method);
    }
}

/// The context is a trait with these methods and no others.
pub proof fn law_context_is_trait(te: TypeEnv, tm: TermEnv)
    ensures
        context_text(te, tm) == "\n"@
            + "/// Context during lowering: an implementation of this trait\n"@
            + "/// must be provided with all external constructors and extractors.\n"@
            + "/// A mutable borrow is passed along through all lowering logic.\n"@
            + "pub trait Context {\n"@ + methods_text(te, tm.terms@, tm.terms@.len()) + "}\n"@,
{
}

/// A value that is bound at the type it is passed at is passed as the parameter is declared: at an
/// enum the parameter is a reference and so is what is passed; at a primitive type both are the
/// value.
pub proof fn law_passed_as_declared(
    te: TypeEnv,
    bindings: Bindings,
    value: Value,
    ty: TypeId,
    tys: Seq<TypeId>,
    i: int,
)
    requires
        0 <= i < tys.len(),
        tys[i] == ty,
        can_borrow(te, bindings, value),
        bindings[value].1 == ty,
        te.types@[ty.0 as int] is Primitive ==> !bindings[value].0,
    ensures
        ({
            let passed = argument_text(te, bindings, (value, ty));
            let declared = param_texts(te, tys)[i];
            let start = "arg"@ + decimal(i as nat) + ": "@;
            match te.types@[ty.0 as int] {
                Type::Enum { name, .. } => {
                    &&& declared == start + ("&"@ + te.syms@[name.0 as int]@)
                    &&& bindings[value].0 ==> passed == value_text(value)
                    &&& !bindings[value].0 ==> passed == "&"@ + value_text(value)
                },
                Type::Primitive(_, name, _) => {
                    &&& declared == start + te.syms@[name.0 as int]@
                    &&& passed == value_text(value)
                },
            }
        }),
{
}

/// The fields of a variant follow one another, each on a line with its name and the name of its
/// type.
pub proof fn law_fields_follow(te: TypeEnv, fields: Seq<Field>, n: nat)
    ensures
        fields_text(te, fields, n + 1) == fields_text(te, fields, n) + ("        "@
            + te.syms@[fields[n as int].name.0 as int]@ + ": "@ + type_text(
            te,
            fields[n as int].ty,
            false,
        ) + ",\n"@),
        fields_text(te, fields, 0).len() == 0,
{
    reveal_strlit("");
}

/// The variants of an enum follow one another. One without fields is its name, any other has its
/// fields between braces.
pub proof fn law_variants_follow(te: TypeEnv, variants: Seq<Variant>, n: nat)
    ensures
        ({
            let variant = variants[n as int];
            let start = "    "@ + te.syms@[variant.name.0 as int]@;
            let own = if variant.fields@.len() > 0 {
                start + " {\n"@ + fields_text(te, variant.fields@, variant.fields@.len())
                    + "    },\n"@
            } else {
                start + ",\n"@
            };
            variants_text(te, variants, n + 1) == variants_text(te, variants, n) + own
        }),
        variants_text(te, variants, 0).len() == 0,
{
    reveal_strlit("");
}

/// Types are declared one after the other: an enum that is not external with its name, where it
/// comes from, and its variants; nothing is written for any other type.
#[verifier::spinoff_prover]
#[verifier::rlimit(40)]
pub proof fn law_types_follow(te: TypeEnv, n: nat)
    ensures
        ({
            let before = declarations_text(te, n);
            let after = declarations_text(te, n + 1);
            match te.types@[n as int] {
                Type::Enum { name, is_extern, variants, pos, .. } => if is_extern {
                    after == before
                } else {
                    after == before + ("\n/// Internal type "@ + te.syms@[name.0 as int]@
                        + ": defined at "@ + (te.filenames@[pos.file as int]@ + " line "@
                        + decimal(pos.line as nat)) + ".\n"@ + "#[derive(Clone, Debug)]\n"@
                        + "pub enum "@ + te.syms@[name.0 as int]@ + " {\n"@ + variants_text(
                        te,
                        variants@,
                        variants@.len(),
                    ) + "}\n"@)
                },
                Type::Primitive(..) => after == before,
            }
        }),
        declarations_text(te, 0).len() == 0,
{
    reveal_strlit("");
    assert(declarations_text(te, n) + ""@ =~= declarations_text(te, n));
}

/// Functions are written one after the other, in the order of their terms: one for a term that has
/// a trie and whose constructor is generated, and nothing for any other. A function takes the
/// context and the term's arguments and gives the term's value or none; its body is the code for
/// the trie, and the return of none where that is not known to return.
#[verifier::spinoff_prover]
#[verifier::rlimit(40)]
pub proof fn law_functions_follow(
    te: TypeEnv,
    tm: TermEnv,
    tries: Map<usize, TrieNode>,
    t: usize,
)
    ensures
        ({
            let before = functions_text(te, tm, tries, t as nat);
            let after = functions_text(te, tm, tries, (t + 1) as nat);
            let term = tm.terms@[t as int];
            let name = te.syms@[term.name.0 as int]@;
            let generated = term.kind matches TermKind::Decl {
                constructor_kind: Some(ConstructorKind::InternalConstructor),
                ..
            };
            if tries.contains_key(t) && generated {
                let run = root_run(te, tm, tries[t]);
                let head = "\n// Generated as internal constructor for term "@ + name + ".\n"@
                    + "pub fn "@ + ("constructor_"@ + name) + "<C: Context>(ctx: &mut C, "@
                    + comma_list(param_texts(te, term.arg_tys@)) + ") -> Option<"@ + type_text(
                    te,
                    term.ret_ty,
                    false,
                ) + "> {\n"@;
                &&& run.returned ==> after == before + (head + run.text + "}\n"@)
                &&& !run.returned ==> after == before + (head + (run.text + "    return None;\n"@)
                    + "}\n"@)
            } else {
                after == before
            }
        }),
        functions_text(te, tm, tries, 0).len() == 0,
{
    reveal_strlit("");
    let before = functions_text(te, tm, tries, t as nat);
    assert(before + ""@ =~= before);
    if tries.contains_key(t) {
        let run = root_run(te, tm, tries[t]);
        assert(run.text + ""@ =~= run.text);
    }
}

/// The code for a trie stands in its function at the first depth, with four spaces of indentation,
/// and finds nothing bound.
pub proof fn law_root(te: TypeEnv, tm: TermEnv, trie: TrieNode)
    ensures
        root_run(te, tm, trie) == body_run(
            te,
            tm,
            0,
            trie,
            "    "@,
            Map::empty(),
        ),
{
}

/// The header lists the files in order, each on a line, between the notice and the attributes.
pub proof fn law_header_lists_files(te: TypeEnv, n: nat)
    ensures
        file_lines(te.filenames@, n + 1) == file_lines(te.filenames@, n) + ("// - "@
            + te.filenames@[n as int]@ + "\n"@),
        file_lines(te.filenames@, 0).len() == 0,
        header_text(te) == "// GENERATED BY ISLE. DO NOT EDIT!\n"@ + "//\n"@
            + "// Generated automatically from the instruction-selection DSL code in:\n"@
            + file_lines(te.filenames@, te.filenames@.len())
            + "\n#![allow(dead_code, unreachable_code, unreachable_patterns)]\n"@
            + "#![allow(unused_imports, unused_variables, non_snake_case)]\n"@
            + "#![allow(irrefutable_let_patterns)]\n"@
            + "\nuse super::*;  // Pulls in all external types.\n"@,
{
    reveal_strlit("");
}

/// The file is the header, the context, the declarations of all types and the functions of all
/// terms, in this order.
pub proof fn law_file_in_order(te: TypeEnv, tm: TermEnv, tries: Map<usize, TrieNode>)
    ensures
        codegen_text(te, tm, tries) == header_text(te) + context_text(te, tm) + declarations_text(
            te,
            te.types@.len(),
        ) + functions_text(te, tm, tries, tm.terms@.len()),
{
}

/// An extractor that may fail is declared to give an `Option`, and what it gives is taken out of
/// `Some` where it is called; one that always matches is declared to give its results, and they
/// are taken as they are.
#[verifier::spinoff_prover]
#[verifier::rlimit(40)]
pub proof fn law_option_taken_apart(
    te: TypeEnv,
    tm: TermEnv,
    id: InstId,
    term: TermId,
    constructor_kind: Option<ConstructorKind>,
    name: Sym,
    arg_polarity: Vec<ArgPolarity>,
    infallible: bool,
    inputs: Vec<Value>,
    input_tys: Vec<TypeId>,
    output_tys: Vec<TypeId>,
    indent: Seq<char>,
    bindings: Bindings,
)
    requires
        tm.terms@[term.0 as int].kind == (TermKind::Decl {
            constructor_kind,
            extractor_kind: Some(
                ExtractorKind::ExternalExtractor { name, arg_polarity, infallible },
            ),
        }),
    ensures
        ({
            let data = tm.terms@[term.0 as int];
            let sig = data.extractor_signature(te)->0;
            let declared = method_text(te, indent, sig);
            let op = PatternInst::Extract { inputs, input_tys, output_tys, term, infallible };
            let called = pattern_run(te, tm, id, op, indent, bindings).text;
            let start = indent + "fn "@ + sig.func_name + "(&mut self, "@ + comma_list(
                param_texts(te, sig.param_tys),
            ) + ") -> "@;
            let given = tuple_text(ret_texts(te, sig.ret_tys));
            let call = "C::"@ + sig.func_name + "(ctx, "@;
            if infallible {
                &&& declared == start + given + ";\n"@
                &&& (indent + "let "@).is_prefix_of(called)
                &&& holds(called, " = "@ + call)
            } else {
                &&& declared == start + ("Option<"@ + given + ">"@) + ";\n"@
                &&& (indent + "if let Some("@).is_prefix_of(called)
                &&& holds(called, ") = "@ + call)
            }
        }),
{
    let data = tm.terms@[term.0 as int];
    let sig = data.extractor_signature(te)->0;
    law_extractor_signature(te, data, constructor_kind, name, arg_polarity, infallible);
    let variables = tuple_text(output_texts(id, output_tys@.len()));
    let arguments = comma_list(borrowed_texts(te, bindings, inputs@));
    let (start, equals, end) = if infallible {
        (indent + "let "@, " = "@, ";\n"@)
    } else {
        (indent + "if let Some("@, ") = "@, " {\n"@)
    };
    lemma_call_held(start, variables, equals, sig.full_name, "(ctx, "@, arguments, ")"@, end);
}

proof fn lemma_call_held(
    start: Seq<char>,
    variables: Seq<char>,
    equals: Seq<char>,
    name: Seq<char>,
    open: Seq<char>,
    arguments: Seq<char>,
    close: Seq<char>,
    end: Seq<char>,
)
    ensures
        ({
            let line = start + variables + equals + (name + open + arguments + close) + end;
            start.is_prefix_of(line) && holds(line, equals + (name + open))
        }),
{
    let line = start + variables + equals + (name + open + arguments + close) + end;
    let part = equals + (name + open);
    let before = start + variables;
    let behind = arguments + close + end;
    assert(start =~= line.take(start.len() as int));
    law_holds_itself(part);
    law_holds_within(before, part, behind, part);
    assert(before + part + behind =~= line);
}

} // verus!
