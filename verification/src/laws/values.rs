//! What the pieces of a line say: numbers, lists, names of types and variables, and how a variable
//! is used once it is bound.

use crate::ir::Value;
use crate::laws::names::{is_digit, law_decimal_digits, law_signed_decimal_injective, lemma_digit};
use crate::output::{
    bind, binder_text, borrowed_text, const_text, owned_text, tuple_text, type_text, value_text,
    Bindings,
};
use crate::pos::Pos;
use crate::sema::{Type, TypeEnv, TypeId};
use crate::text::{comma_list, decimal, signed_decimal, truth_text};
use vstd::prelude::*;

verus! {

/// The number that decimal digits stand for.
pub open spec fn read(digits: Seq<char>) -> int
    decreases digits.len(),
{
    if digits.len() == 0 {
        0
    } else {
        10 * read(digits.drop_last()) + (digits.last() as int - '0' as int)
    }
}

/// A number in decimal reads as the number, and has no leading zero.
pub proof fn law_decimal_reads_back(n: nat)
    ensures
        read(decimal(n)) == n,
        forall|i: int| 0 <= i < decimal(n).len() ==> is_digit(#[trigger] decimal(n)[i]),
        n == 0 <==> decimal(n)[0] == '0',
        n < 10 ==> decimal(n).len() == 1,
    decreases n,
{
    law_decimal_digits(n);
    reveal_with_fuel(read, 2);
    if n < 10 {
        lemma_digit(n);
        assert(decimal(n).drop_last() =~= Seq::empty());
    } else {
        law_decimal_reads_back(n / 10);
        law_decimal_digits(n / 10);
        lemma_digit(n % 10);
        assert(decimal(n).drop_last() =~= decimal(n / 10));
        assert(decimal(n)[0] == decimal(n / 10)[0]);
    }
}

/// An integer reads as the integer: one that is negative has a minus sign and then its magnitude,
/// any other one is written as a number.
pub proof fn law_signed_decimal_reads_back(n: int)
    ensures
        n < 0 ==> signed_decimal(n)[0] == '-' && read(signed_decimal(n).skip(1)) == -n,
        n >= 0 ==> is_digit(signed_decimal(n)[0]) && read(signed_decimal(n)) == n,
{
    reveal_strlit("-");
    if n < 0 {
        law_decimal_reads_back((-n) as nat);
        assert(signed_decimal(n).skip(1) =~= decimal((-n) as nat));
    } else {
        law_decimal_digits(n as nat);
        law_decimal_reads_back(n as nat);
    }
}

/// Two lists one after the other have a comma and a space between them; a list of one part is the
/// part, and one of none is empty.
pub proof fn law_comma_list_concat(xs: Seq<Seq<char>>, ys: Seq<Seq<char>>)
    ensures
        xs.len() > 0 && ys.len() > 0 ==> comma_list(xs + ys) == comma_list(xs) + ", "@ + comma_list(
            ys,
        ),
        xs.len() == 1 ==> comma_list(xs) == xs[0],
        xs.len() == 0 ==> comma_list(xs).len() == 0,
    decreases ys.len(),
{
    reveal_strlit("");
    if xs.len() > 0 && ys.len() == 1 {
        assert((xs + ys).drop_last() =~= xs);
    } else if xs.len() > 0 && ys.len() > 1 {
        law_comma_list_concat(xs, ys.drop_last());
        assert((xs + ys).drop_last() =~= xs + ys.drop_last());
        assert(comma_list(xs + ys) =~= comma_list(xs) + ", "@ + comma_list(ys));
    }
}

/// Results stand in parentheses unless there is exactly one.
pub proof fn law_tuple(parts: Seq<Seq<char>>)
    ensures
        parts.len() == 1 ==> tuple_text(parts) == parts[0],
        parts.len() != 1 ==> tuple_text(parts) == "("@ + comma_list(parts) + ")"@,
{
}

/// The truth values have their Rust names.
pub proof fn law_truth()
    ensures
        truth_text(true) == "true"@,
        truth_text(false) == "false"@,
{
}

/// A position is shown by its file's name and its line.
pub proof fn law_position(pos: Pos, filenames: Seq<String>)
    ensures
        pos.line_text(filenames) == filenames[pos.file as int]@ + " line "@ + decimal(
            pos.line as nat,
        ),
{
}

/// A variable names the kind of its instruction, the place of the instruction and the output.
pub proof fn law_variable(value: Value)
    ensures
        match value {
            Value::Pattern { inst, output } => value_text(value) == "pattern"@ + decimal(
                inst.0 as nat,
            ) + "_"@ + decimal(output as nat),
            Value::Expr { inst, output } => value_text(value) == "expr"@ + decimal(inst.0 as nat)
                + "_"@ + decimal(output as nat),
        },
{
}

/// A type is written by its name; one that is passed by reference has `&` in front of it exactly
/// where it is an enum.
pub proof fn law_type_name(te: TypeEnv, ty: TypeId)
    ensures
        match te.types@[ty.0 as int] {
            Type::Primitive(_, name, _) => {
                &&& type_text(te, ty, false) == te.syms@[name.0 as int]@
                &&& type_text(te, ty, true) == te.syms@[name.0 as int]@
            },
            Type::Enum { name, .. } => {
                &&& type_text(te, ty, false) == te.syms@[name.0 as int]@
                &&& type_text(te, ty, true) == "&"@ + te.syms@[name.0 as int]@
            },
        },
{
}

/// A borrowed value is always a reference where its type is an enum: there is `&` in front of the
/// variable exactly where the variable holds the value itself.
pub proof fn law_borrowed(te: TypeEnv, bindings: Bindings, value: Value)
    ensures
        borrowed_text(te, bindings, value) == if te.types@[bindings[value].1.0 as int] is Enum
            && !bindings[value].0 {
            "&"@ + value_text(value)
        } else {
            value_text(value)
        },
{
}

/// A value that is taken is cloned exactly where its variable is a reference.
pub proof fn law_owned(bindings: Bindings, value: Value)
    ensures
        owned_text(bindings, value) == if bindings[value].0 {
            value_text(value) + ".clone()"@
        } else {
            value_text(value)
        },
{
}

/// A variable is bound by reference exactly where that is asked for and its type is an enum.
pub proof fn law_binder(te: TypeEnv, value: Value, is_ref: bool, ty: TypeId)
    ensures
        binder_text(te, value, is_ref, ty) == if is_ref && te.types@[ty.0 as int] is Enum {
            "ref "@ + value_text(value)
        } else {
            value_text(value)
        },
{
}

/// Once a value is bound it has the type that it was bound at, it is a reference exactly where
/// that was asked for and the type is an enum, and all other values are as before.
pub proof fn law_bind(te: TypeEnv, bindings: Bindings, value: Value, is_ref: bool, ty: TypeId)
    ensures
        ({
            let after = bind(te, bindings, value, is_ref, ty);
            &&& after.contains_key(value)
            &&& after[value].1 == ty
            &&& after[value].0 <==> is_ref && te.types@[ty.0 as int] is Enum
            &&& after.remove(value) =~= bindings.remove(value)
        }),
{
}

/// A constant of the type `bool` is a truth value; one of any other type reads as the integer.
pub proof fn law_constant(te: TypeEnv, val: i64, ty: TypeId)
    ensures
        ({
            let text = const_text(te, val, ty);
            if type_text(te, ty, false) == "bool"@ {
                text == if val == 0 {
                    "false"@
                } else {
                    "true"@
                }
            } else if val < 0 {
                text[0] == '-' && read(text.skip(1)) == -val
            } else {
                is_digit(text[0]) && read(text) == val
            }
        }),
{
    law_signed_decimal_reads_back(val as int);
}

/// Different integers are different constants of a type other than `bool`.
pub proof fn law_constants_distinct(te: TypeEnv, a: i64, b: i64, ty: TypeId)
    requires
        type_text(te, ty, false) != "bool"@,
        const_text(te, a, ty) == const_text(te, b, ty),
    ensures
        a == b,
{
    law_signed_decimal_injective(a as int, b as int);
}

} // verus!
