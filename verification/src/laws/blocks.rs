//! The blocks that a text opens and closes.

use vstd::prelude::*;

verus! {

/// The number of open blocks after a text, where `from` are open before it; below zero once the
/// text closes a block that is not open.
#[verifier::opaque]
pub open spec fn level(text: Seq<char>, from: int) -> int
    decreases text.len(),
{
    if text.len() == 0 {
        from
    } else {
        let before = level(text.drop_last(), from);
        if before < 0 {
            before
        } else if text.last() == '{' {
            before + 1
        } else if text.last() == '}' {
            before - 1
        } else {
            before
        }
    }
}

/// Whether a text neither opens nor closes a block.
#[verifier::opaque]
pub open spec fn plain(text: Seq<char>) -> bool {
    forall|i: int| 0 <= i < text.len() ==> #[trigger] text[i] != '{' && text[i] != '}'
}

/// The blocks that are open after two texts are those after the second, where those after the
/// first are open before it.
pub broadcast proof fn law_level_concat(a: Seq<char>, b: Seq<char>, from: int)
    ensures
        #[trigger] level(a + b, from) == level(b, level(a, from)),
    decreases b.len(),
{
    reveal(level);
    if b.len() == 0 {
        assert(a + b =~= a);
    } else {
        assert((a + b).drop_last() =~= a + b.drop_last());
        law_level_concat(a, b.drop_last(), from);
    }
}

/// A plain text leaves the open blocks as they are.
pub broadcast proof fn law_level_plain(text: Seq<char>, from: int)
    requires
        plain(text),
    ensures
        #[trigger] level(text, from) == from,
    decreases text.len(),
{
    reveal(level);
    if text.len() > 0 {
        reveal(plain);
        assert(plain(text.drop_last()));
        law_level_plain(text.drop_last(), from);
    }
}

/// Two plain texts make a plain one.
pub broadcast proof fn law_plain_concat(a: Seq<char>, b: Seq<char>)
    requires
        plain(a),
        plain(b),
    ensures
        #[trigger] plain(a + b),
{
    reveal(plain);
}

/// What texts one after the other do to the open blocks.
pub broadcast group group_blocks {
    law_level_concat,
    law_level_plain,
    law_plain_concat,
}

/// Whether a text closes all blocks that it opens, and no others.
pub open spec fn balanced(text: Seq<char>) -> bool {
    forall|from: int| from >= 0 ==> #[trigger] level(text, from) == from
}

/// Whether a text leaves one block open, and closes no others.
pub open spec fn opens_block(text: Seq<char>) -> bool {
    forall|from: int| from >= 0 ==> #[trigger] level(text, from) == from + 1
}

/// Whether a text closes one block that is open before it, and leaves none open.
pub open spec fn closes_block(text: Seq<char>) -> bool {
    forall|from: int| from >= 0 ==> #[trigger] level(text, from) == from - 1
}

proof fn lemma_one_brace(text: Seq<char>, k: int)
    requires
        0 <= k < text.len(),
        text[k] == '{' || text[k] == '}',
        plain(text.take(k)),
        plain(text.skip(k + 1)),
    ensures
        if text[k] == '{' {
            opens_block(text)
        } else {
            closes_block(text)
        },
{
    let first = text.take(k + 1);
    let rest = text.skip(k + 1);
    assert(text =~= first + rest);
    assert(first.drop_last() =~= text.take(k));
    assert forall|from: int| from >= 0 implies #[trigger] level(text, from) == (if text[k] == '{' {
        from + 1
    } else {
        from - 1
    }) by {
        reveal(level);
        law_level_concat(first, rest, from);
        law_level_plain(text.take(k), from);
        law_level_plain(rest, level(first, from));
    }
}

/// The fixed texts without braces.
pub proof fn lemma_plain_literals()
    ensures
        plain("        "@),
        plain("    "@),
        plain("    &"@),
        plain("    return None;\n"@),
        plain(" "@),
        plain(" = "@),
        plain(" = arg"@),
        plain(" == "@),
        plain(" line "@),
        plain(""@),
        plain("#![allow(irrefutable_let_patterns)]\n"@),
        plain("#![allow(unused_imports, unused_variables, non_snake_case)]\n"@),
        plain("#[derive(Clone, Debug)]\n"@),
        plain("&"@),
        plain("("@),
        plain("(&mut self, "@),
        plain("(ctx, "@),
        plain(") -> "@),
        plain(") -> Option<"@),
        plain(") = "@),
        plain(")"@),
        plain(");\n"@),
        plain(", "@),
        plain(",\n"@),
        plain("-"@),
        plain(".\n"@),
        plain(".clone()"@),
        plain("// - "@),
        plain("// GENERATED BY ISLE. DO NOT EDIT!\n"@),
        plain("// Generated automatically from the instruction-selection DSL code in:\n"@),
        plain("// Rule at "@),
        plain("/// A mutable borrow is passed along through all lowering logic.\n"@),
        plain("/// Context during lowering: an implementation of this trait\n"@),
        plain("/// must be provided with all external constructors and extractors.\n"@),
        plain("//\n"@),
        plain("0"@),
        plain("1"@),
        plain("2"@),
        plain("3"@),
        plain("4"@),
        plain("5"@),
        plain("6"@),
        plain("7"@),
        plain("8"@),
        plain("9"@),
        plain(": "@),
        plain(": defined at "@),
        plain("::"@),
        plain(";\n"@),
        plain("<C: Context>(ctx: &mut C, "@),
        plain(">"@),
        plain("?"@),
        plain("C::"@),
        plain("Option<"@),
        plain("\n"@),
        plain("\n#![allow(dead_code, unreachable_code, unreachable_patterns)]\n"@),
        plain("\n// Generated as internal constructor for term "@),
        plain("\n/// Internal type "@),
        plain("\nuse super::*;  // Pulls in all external types.\n"@),
        plain("_"@),
        plain("arg"@),
        plain("bool"@),
        plain("closure"@),
        plain("constructor_"@),
        plain("expr"@),
        plain("false"@),
        plain("fn "@),
        plain("if "@),
        plain("if let "@),
        plain("if let Some("@),
        plain("let "@),
        plain("match "@),
        plain("pattern"@),
        plain("pub enum "@),
        plain("pub fn "@),
        plain("ref "@),
        plain("return Some("@),
        plain("true"@),
{
    reveal(plain);
    reveal_strlit("        ");
    reveal_strlit("    ");
    reveal_strlit("    &");
    reveal_strlit("    return None;\n");
    reveal_strlit(" ");
    reveal_strlit(" = ");
    reveal_strlit(" = arg");
    reveal_strlit(" == ");
    reveal_strlit(" line ");
    reveal_strlit("");
    reveal_strlit("#![allow(irrefutable_let_patterns)]\n");
    reveal_strlit("#![allow(unused_imports, unused_variables, non_snake_case)]\n");
    reveal_strlit("#[derive(Clone, Debug)]\n");
    reveal_strlit("&");
    reveal_strlit("(");
    reveal_strlit("(&mut self, ");
    reveal_strlit("(ctx, ");
    reveal_strlit(") -> ");
    reveal_strlit(") -> Option<");
    reveal_strlit(") = ");
    reveal_strlit(")");
    reveal_strlit(");\n");
    reveal_strlit(", ");
    reveal_strlit(",\n");
    reveal_strlit("-");
    reveal_strlit(".\n");
    reveal_strlit(".clone()");
    reveal_strlit("// - ");
    reveal_strlit("// GENERATED BY ISLE. DO NOT EDIT!\n");
    reveal_strlit("// Generated automatically from the instruction-selection DSL code in:\n");
    reveal_strlit("// Rule at ");
    reveal_strlit("/// A mutable borrow is passed along through all lowering logic.\n");
    reveal_strlit("/// Context during lowering: an implementation of this trait\n");
    reveal_strlit("/// must be provided with all external constructors and extractors.\n");
    reveal_strlit("//\n");
    reveal_strlit("0");
    reveal_strlit("1");
    reveal_strlit("2");
    reveal_strlit("3");
    reveal_strlit("4");
    reveal_strlit("5");
    reveal_strlit("6");
    reveal_strlit("7");
    reveal_strlit("8");
    reveal_strlit("9");
    reveal_strlit(": ");
    reveal_strlit(": defined at ");
    reveal_strlit("::");
    reveal_strlit(";\n");
    reveal_strlit("<C: Context>(ctx: &mut C, ");
    reveal_strlit(">");
    reveal_strlit("?");
    reveal_strlit("C::");
    reveal_strlit("Option<");
    reveal_strlit("\n");
    reveal_strlit("\n#![allow(dead_code, unreachable_code, unreachable_patterns)]\n");
    reveal_strlit("\n// Generated as internal constructor for term ");
    reveal_strlit("\n/// Internal type ");
    reveal_strlit("\nuse super::*;  // Pulls in all external types.\n");
    reveal_strlit("_");
    reveal_strlit("arg");
    reveal_strlit("bool");
    reveal_strlit("closure");
    reveal_strlit("constructor_");
    reveal_strlit("expr");
    reveal_strlit("false");
    reveal_strlit("fn ");
    reveal_strlit("if ");
    reveal_strlit("if let ");
    reveal_strlit("if let Some(");
    reveal_strlit("let ");
    reveal_strlit("match ");
    reveal_strlit("pattern");
    reveal_strlit("pub enum ");
    reveal_strlit("pub fn ");
    reveal_strlit("ref ");
    reveal_strlit("return Some(");
    reveal_strlit("true");
}

/// The fixed texts with braces.
pub proof fn lemma_brace_literals()
    ensures
        balanced("    _ => {}\n"@),
        closes_block("    },\n"@),
        closes_block("    }\n"@),
        opens_block(" = || {\n"@),
        opens_block(" => {\n"@),
        opens_block(" {\n"@),
        closes_block(" }"@),
        opens_block("() {\n"@),
        opens_block("> {\n"@),
        opens_block("pub trait Context {\n"@),
        opens_block("{ "@),
        closes_block("};\n"@),
        closes_block("}\n"@),
{
    reveal(plain);
    reveal_strlit("    },\n");
    lemma_one_brace("    },\n"@, 4);
    reveal_strlit("    }\n");
    lemma_one_brace("    }\n"@, 4);
    reveal_strlit(" = || {\n");
    lemma_one_brace(" = || {\n"@, 6);
    reveal_strlit(" => {\n");
    lemma_one_brace(" => {\n"@, 4);
    reveal_strlit(" {\n");
    lemma_one_brace(" {\n"@, 1);
    reveal_strlit(" }");
    lemma_one_brace(" }"@, 1);
    reveal_strlit("() {\n");
    lemma_one_brace("() {\n"@, 3);
    reveal_strlit("> {\n");
    lemma_one_brace("> {\n"@, 2);
    reveal_strlit("pub trait Context {\n");
    lemma_one_brace("pub trait Context {\n"@, 18);
    reveal_strlit("{ ");
    lemma_one_brace("{ "@, 0);
    reveal_strlit("};\n");
    lemma_one_brace("};\n"@, 0);
    reveal_strlit("}\n");
    lemma_one_brace("}\n"@, 0);
    reveal_strlit("    _ => {}\n");
    let case = "    _ => {}\n"@;
    let start = case.take(10);
    let rest = case.skip(10);
    lemma_one_brace(start, 9);
    lemma_one_brace(rest, 0);
    assert(case =~= start + rest);
    assert forall|from: int| from >= 0 implies #[trigger] level(case, from) == from by {
        law_level_concat(start, rest, from);
    }
}

} // verus!
