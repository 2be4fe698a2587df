//! What the generated file declares, and the names under which it is called.

use crate::output::{
    codegen_text, context_constructor, context_extractor, context_text, declaration_text,
    declarations_text, function_text, functions_text, header_text, method_text, methods_text,
    term_methods,
};
use crate::sema::{Term, TermEnv, TypeEnv};
use crate::trie::TrieNode;
use vstd::prelude::*;

verus! {

/// Whether a part stands in a text, behind the first `n` characters.
pub open spec fn holds_at(text: Seq<char>, part: Seq<char>, n: int) -> bool {
    0 <= n && n + part.len() <= text.len() && text.subrange(n, n + part.len()) == part
}

/// Whether a part stands somewhere in a text.
pub open spec fn holds(text: Seq<char>, part: Seq<char>) -> bool {
    exists|n: int| holds_at(text, part, n)
}

/// A text holds itself.
pub proof fn law_holds_itself(text: Seq<char>)
    ensures
        holds(text, text),
{
    assert(text.subrange(0, text.len() as int) =~= text);
    assert(holds_at(text, text, 0));
}

/// What a text holds, it still holds with more before it and behind it.
pub proof fn law_holds_within(a: Seq<char>, text: Seq<char>, b: Seq<char>, part: Seq<char>)
    requires
        holds(text, part),
    ensures
        holds(a + text + b, part),
{
    let n = choose|n: int| holds_at(text, part, n);
    let m = a.len() + n;
    let whole = a + text + b;
    assert(whole.subrange(m, m + part.len()) =~= text.subrange(n, n + part.len()));
    assert(holds_at(whole, part, m));
}

proof fn lemma_methods_held(te: TypeEnv, terms: Seq<Term>, n: nat, t: int)
    requires
        0 <= t < n,
    ensures
        holds(methods_text(te, terms, n), term_methods(te, terms[t])),
    decreases n,
{
    let before = methods_text(te, terms, (n - 1) as nat);
    let last = term_methods(te, terms[n - 1]);
    let none = Seq::<char>::empty();
    if t == n - 1 {
        law_holds_itself(last);
        law_holds_within(before, last, none, last);
    } else {
        lemma_methods_held(te, terms, (n - 1) as nat, t);
        law_holds_within(none, before, last, term_methods(te, terms[t]));
    }
    assert(before + last + none =~= before + last);
    assert(none + before + last =~= before + last);
}

proof fn lemma_context_held(te: TypeEnv, tm: TermEnv, part: Seq<char>)
    requires
        holds(methods_text(te, tm.terms@, tm.terms@.len()), part),
    ensures
        holds(context_text(te, tm), part),
{
    let head = "\n"@ + "/// Context during lowering: an implementation of this trait\n"@
        + "/// must be provided with all external constructors and extractors.\n"@
        + "/// A mutable borrow is passed along through all lowering logic.\n"@
        + "pub trait Context {\n"@;
    law_holds_within(head, methods_text(te, tm.terms@, tm.terms@.len()), "}\n"@, part);
}

proof fn lemma_file_held(
    te: TypeEnv,
    tm: TermEnv,
    tries: Map<usize, TrieNode>,
    part: Seq<char>,
)
    requires
        holds(context_text(te, tm), part) || holds(declarations_text(te, te.types@.len()), part)
            || holds(functions_text(te, tm, tries, tm.terms@.len()), part),
    ensures
        holds(codegen_text(te, tm, tries), part),
{
    let header = header_text(te);
    let context = context_text(te, tm);
    let types = declarations_text(te, te.types@.len());
    let functions = functions_text(te, tm, tries, tm.terms@.len());
    let whole = codegen_text(te, tm, tries);
    if holds(context, part) {
        law_holds_within(header, context, types + functions, part);
        assert(header + context + (types + functions) =~= whole);
    } else if holds(types, part) {
        law_holds_within(header + context, types, functions, part);
    } else {
        let none = Seq::<char>::empty();
        law_holds_within(header + context + types, functions, none, part);
        assert(whole + none =~= whole);
    }
}

/// The context has a method for each external extractor and each external constructor.
#[verifier::spinoff_prover]
#[verifier::rlimit(40)]
pub proof fn law_context_complete(te: TypeEnv, tm: TermEnv, tries: Map<usize, TrieNode>, t: int)
    requires
        0 <= t < tm.terms@.len(),
    ensures
        context_extractor(te, tm.terms@[t]) matches Some(sig) ==> {
            &&& holds(context_text(te, tm), method_text(te, "    "@, sig))
            &&& holds(codegen_text(te, tm, tries), method_text(te, "    "@, sig))
        },
        context_constructor(te, tm.terms@[t]) matches Some(sig) ==> {
            &&& holds(context_text(te, tm), method_text(te, "    "@, sig))
            &&& holds(codegen_text(te, tm, tries), method_text(te, "    "@, sig))
        },
{
    let term = tm.terms@[t];
    let none = Seq::<char>::empty();
    let methods = term_methods(te, term);
    let all = methods_text(te, tm.terms@, tm.terms@.len());
    lemma_methods_held(te, tm.terms@, tm.terms@.len(), t);
    let n = choose|n: int| holds_at(all, methods, n);
    let before = all.take(n);
    let behind = all.skip(n + methods.len());
    assert(before + methods + behind =~= all) by {
        assert(methods =~= all.subrange(n, n + methods.len()));
    }
    let extractor = match context_extractor(te, term) {
        Some(sig) => method_text(te, "    "@, sig),
        None => ""@,
    };
    let constructor = match context_constructor(te, term) {
        Some(sig) => method_text(te, "    "@, sig),
        None => ""@,
    };
    assert(methods == extractor + constructor);
    law_holds_itself(extractor);
    law_holds_within(none, extractor, constructor, extractor);
    assert(none + extractor + constructor =~= methods);
    law_holds_within(before, methods, behind, extractor);
    lemma_context_held(te, tm, extractor);
    lemma_file_held(te, tm, tries, extractor);
    law_holds_itself(constructor);
    law_holds_within(extractor, constructor, none, constructor);
    assert(extractor + constructor + none =~= methods);
    law_holds_within(before, methods, behind, constructor);
    lemma_context_held(te, tm, constructor);
    lemma_file_held(te, tm, tries, constructor);
}

proof fn lemma_functions_held(
    te: TypeEnv,
    tm: TermEnv,
    tries: Map<usize, TrieNode>,
    n: nat,
    t: usize,
)
    requires
        t < n <= tm.terms@.len(),
        tries.contains_key(t),
    ensures
        holds(
            functions_text(te, tm, tries, n),
            function_text(te, tm, tm.terms@[t as int], tries[t]),
        ),
    decreases n,
{
    let before = functions_text(te, tm, tries, (n - 1) as nat);
    let function = function_text(te, tm, tm.terms@[t as int], tries[t]);
    let none = Seq::<char>::empty();
    assert(tm.terms.len() == tm.terms@.len());
    if t == n - 1 {
        law_holds_itself(function);
        law_holds_within(before, function, none, function);
        assert(before + function + none =~= before + function);
    } else {
        let u = (n - 1) as usize;
        let last = if tries.contains_key(u) {
            function_text(te, tm, tm.terms@[n - 1], tries[u])
        } else {
            ""@
        };
        lemma_functions_held(te, tm, tries, (n - 1) as nat, t);
        law_holds_within(none, before, last, function);
        assert(none + before + last =~= before + last);
    }
}

/// The file holds the function for each term that has a trie.
pub proof fn law_functions_complete(
    te: TypeEnv,
    tm: TermEnv,
    tries: Map<usize, TrieNode>,
    t: usize,
)
    requires
        t < tm.terms@.len(),
        tries.contains_key(t),
    ensures
        holds(
            codegen_text(te, tm, tries),
            function_text(te, tm, tm.terms@[t as int], tries[t]),
        ),
{
    lemma_functions_held(te, tm, tries, tm.terms@.len(), t);
    lemma_file_held(te, tm, tries, function_text(te, tm, tm.terms@[t as int], tries[t]));
}

proof fn lemma_declarations_held(te: TypeEnv, n: nat, i: int)
    requires
        0 <= i < n,
    ensures
        holds(declarations_text(te, n), declaration_text(te, te.types@[i])),
    decreases n,
{
    let before = declarations_text(te, (n - 1) as nat);
    let last = declaration_text(te, te.types@[n - 1]);
    let none = Seq::<char>::empty();
    if i == n - 1 {
        law_holds_itself(last);
        law_holds_within(before, last, none, last);
    } else {
        lemma_declarations_held(te, (n - 1) as nat, i);
        law_holds_within(none, before, last, declaration_text(te, te.types@[i]));
    }
    assert(before + last + none =~= before + last);
    assert(none + before + last =~= before + last);
}

/// The file holds the declaration of each type.
pub proof fn law_types_complete(te: TypeEnv, tm: TermEnv, tries: Map<usize, TrieNode>, i: int)
    requires
        0 <= i < te.types@.len(),
    ensures
        holds(codegen_text(te, tm, tries), declaration_text(te, te.types@[i])),
{
    lemma_declarations_held(te, te.types@.len(), i);
    lemma_file_held(te, tm, tries, declaration_text(te, te.types@[i]));
}

/// A function is called by the name under which it is declared: a method of the context as an
/// associated function of the context's type `C`, a generated function as it is.
pub proof fn law_called_as_declared(te: TypeEnv, term: Term)
    ensures
        term.extractor_signature(te) matches Some(sig) ==> {
            &&& context_extractor(te, term) == Some(sig)
            &&& sig.full_name == "C::"@ + sig.func_name
        },
        term.constructor_signature(te) matches Some(sig) ==> if term.is_generated() {
            &&& context_constructor(te, term) is None
            &&& sig.full_name == sig.func_name
            &&& sig.func_name == "constructor_"@ + te.sym_text(term.name)
        } else {
            &&& context_constructor(te, term) == Some(sig)
            &&& sig.full_name == "C::"@ + sig.func_name
        },
{
}

} // verus!
