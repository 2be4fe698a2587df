//! The pieces of the generated source that neither open nor close a block.

use crate::ir::Value;
use crate::laws::blocks::{group_blocks, lemma_brace_literals, lemma_plain_literals, level, plain};
use crate::output::{
    binder_text, borrowed_text, braced, const_text, owned_text, tuple_text, type_text, value_text,
    Bindings,
};
use crate::sema::{Sym, TypeEnv, TypeId};
use crate::text::{comma_list, decimal, signed_decimal};
use vstd::prelude::*;

verus! {

broadcast use group_blocks;

/// Whether the names of types, terms and constants hold no braces.
pub open spec fn plain_syms(te: TypeEnv) -> bool {
    forall|i: int| 0 <= i < te.syms@.len() ==> plain((#[trigger] te.syms@[i])@)
}

/// Whether the names of the files hold no braces.
pub open spec fn plain_filenames(te: TypeEnv) -> bool {
    forall|i: int| 0 <= i < te.filenames@.len() ==> plain((#[trigger] te.filenames@[i])@)
}

/// Whether no name at all holds a brace.
pub open spec fn plain_names(te: TypeEnv) -> bool {
    plain_syms(te) && plain_filenames(te)
}

/// Whether all the given texts are plain.
pub open spec fn all_plain(parts: Seq<Seq<char>>) -> bool {
    forall|i: int| 0 <= i < parts.len() ==> plain(#[trigger] parts[i])
}

pub broadcast proof fn lemma_plain_decimal(n: nat)
    ensures
        #[trigger] plain(decimal(n)),
    decreases n,
{
    lemma_plain_literals();
    if n >= 10 {
        lemma_plain_decimal(n / 10);
    }
}

pub broadcast proof fn lemma_plain_signed_decimal(n: int)
    ensures
        #[trigger] plain(signed_decimal(n)),
{
    lemma_plain_literals();
    lemma_plain_decimal(n as nat);
    lemma_plain_decimal((-n) as nat);
}

pub broadcast proof fn lemma_plain_comma_list(parts: Seq<Seq<char>>)
    requires
        all_plain(parts),
    ensures
        #[trigger] plain(comma_list(parts)),
    decreases parts.len(),
{
    lemma_plain_literals();
    if parts.len() > 0 {
        assert(plain(parts[0]));
        assert(plain(parts.last()));
        let init = parts.drop_last();
        assert forall|i: int| 0 <= i < init.len() implies plain(#[trigger] init[i]) by {
            assert(init[i] == parts[i]);
        }
        lemma_plain_comma_list(init);
    }
}

pub broadcast proof fn lemma_plain_tuple(parts: Seq<Seq<char>>)
    requires
        all_plain(parts),
    ensures
        #[trigger] plain(tuple_text(parts)),
{
    lemma_plain_literals();
    lemma_plain_comma_list(parts);
}

pub broadcast proof fn lemma_plain_value(value: Value)
    ensures
        #[trigger] plain(value_text(value)),
{
    lemma_plain_literals();
    broadcast use lemma_plain_decimal;

}

pub broadcast proof fn lemma_plain_owned(bindings: Bindings, value: Value)
    ensures
        #[trigger] plain(owned_text(bindings, value)),
{
    lemma_plain_literals();
    lemma_plain_value(value);
}

pub broadcast proof fn lemma_plain_borrowed(te: TypeEnv, bindings: Bindings, value: Value)
    ensures
        #[trigger] plain(borrowed_text(te, bindings, value)),
{
    lemma_plain_literals();
    lemma_plain_value(value);
}

pub broadcast proof fn lemma_plain_binder(te: TypeEnv, value: Value, is_ref: bool, ty: TypeId)
    ensures
        #[trigger] plain(binder_text(te, value, is_ref, ty)),
{
    lemma_plain_literals();
    lemma_plain_value(value);
}

pub broadcast proof fn lemma_plain_sym(te: TypeEnv, sym: Sym)
    requires
        plain_syms(te),
        te.has_sym(sym),
    ensures
        #[trigger] plain(te.sym_text(sym)),
{
}

pub broadcast proof fn lemma_plain_type(te: TypeEnv, ty: TypeId, by_ref: bool)
    requires
        plain_syms(te),
        te.has_named_type(ty),
    ensures
        #[trigger] plain(type_text(te, ty, by_ref)),
{
    lemma_plain_literals();
    lemma_plain_sym(te, te.type_at(ty).name_sym());
}

pub broadcast proof fn lemma_plain_const(te: TypeEnv, val: i64, ty: TypeId)
    ensures
        #[trigger] plain(const_text(te, val, ty)),
{
    lemma_plain_literals();
    lemma_plain_signed_decimal(val as int);
}

pub broadcast proof fn lemma_braced_balanced(binders: Seq<Seq<char>>, from: int)
    requires
        from >= 0,
        all_plain(binders),
    ensures
        #[trigger] level(braced(binders), from) == from,
{
    lemma_plain_literals();
    lemma_brace_literals();
    lemma_plain_comma_list(binders);
}

/// What the pieces of a line do to the open blocks.
pub broadcast group group_pieces {
    lemma_plain_decimal,
    lemma_plain_signed_decimal,
    lemma_plain_comma_list,
    lemma_plain_tuple,
    lemma_plain_value,
    lemma_plain_owned,
    lemma_plain_borrowed,
    lemma_plain_binder,
    lemma_plain_sym,
    lemma_plain_type,
    lemma_plain_const,
    lemma_braced_balanced,
}

} // verus!
