//! Numbers and variables have names of their own.

use crate::ir::Value;
use crate::output::value_text;
use crate::text::{decimal, digit_text, signed_decimal};
use vstd::prelude::*;

verus! {

/// Whether a character is a decimal digit.
pub open spec fn is_digit(c: char) -> bool {
    '0' <= c <= '9'
}

pub proof fn lemma_digit(d: nat)
    requires
        d < 10,
    ensures
        digit_text(d).len() == 1,
        digit_text(d)[0] as int == '0' as int + d,
{
    reveal_strlit("0");
    reveal_strlit("1");
    reveal_strlit("2");
    reveal_strlit("3");
    reveal_strlit("4");
    reveal_strlit("5");
    reveal_strlit("6");
    reveal_strlit("7");
    reveal_strlit("8");
    reveal_strlit("9");
}

/// A number in decimal is made of digits, and of one at least.
pub proof fn law_decimal_digits(n: nat)
    ensures
        decimal(n).len() >= 1,
        forall|i: int| 0 <= i < decimal(n).len() ==> is_digit(#[trigger] decimal(n)[i]),
    decreases n,
{
    if n < 10 {
        lemma_digit(n);
    } else {
        law_decimal_digits(n / 10);
        lemma_digit(n % 10);
    }
}

/// Different numbers are written differently.
pub proof fn law_decimal_injective(m: nat, n: nat)
    requires
        decimal(m) == decimal(n),
    ensures
        m == n,
    decreases m,
{
    law_decimal_digits(m / 10);
    law_decimal_digits(n / 10);
    lemma_digit(m % 10);
    lemma_digit(n % 10);
    assert(decimal(m).last() == digit_text(m % 10)[0]);
    assert(decimal(n).last() == digit_text(n % 10)[0]);
    if m >= 10 && n >= 10 {
        assert(decimal(m).drop_last() =~= decimal(m / 10));
        assert(decimal(n).drop_last() =~= decimal(n / 10));
        law_decimal_injective(m / 10, n / 10);
    }
}

/// Different integers are written differently.
pub proof fn law_signed_decimal_injective(m: int, n: int)
    requires
        signed_decimal(m) == signed_decimal(n),
    ensures
        m == n,
{
    reveal_strlit("-");
    let a = if m < 0 {
        (-m) as nat
    } else {
        m as nat
    };
    let b = if n < 0 {
        (-n) as nat
    } else {
        n as nat
    };
    law_decimal_digits(a);
    law_decimal_digits(b);
    if m < 0 {
        assert(signed_decimal(m)[0] == '-');
        assert(signed_decimal(m).skip(1) =~= decimal(a));
    } else {
        assert(is_digit(decimal(a)[0]));
    }
    if n < 0 {
        assert(signed_decimal(n)[0] == '-');
        assert(signed_decimal(n).skip(1) =~= decimal(b));
    } else {
        assert(is_digit(decimal(b)[0]));
    }
    law_decimal_injective(a, b);
}

/// Different values have different variables.
pub proof fn law_value_names_distinct(a: Value, b: Value)
    requires
        value_text(a) == value_text(b),
    ensures
        a == b,
{
    reveal_strlit("pattern");
    reveal_strlit("expr");
    match (a, b) {
        (Value::Pattern { inst: i, output: x }, Value::Pattern { inst: j, output: y }) => {
            lemma_numbered("pattern"@, i.0 as nat, x as nat, j.0 as nat, y as nat);
        },
        (Value::Expr { inst: i, output: x }, Value::Expr { inst: j, output: y }) => {
            lemma_numbered("expr"@, i.0 as nat, x as nat, j.0 as nat, y as nat);
        },
        _ => {
            assert("pattern"@[0] == 'p');
            assert("expr"@[0] == 'e');
            assert(value_text(a)[0] == if a is Pattern { 'p' } else { 'e' });
            assert(value_text(b)[0] == if b is Pattern { 'p' } else { 'e' });
        },
    }
}

proof fn lemma_numbered(prefix: Seq<char>, i: nat, x: nat, j: nat, y: nat)
    requires
        prefix + decimal(i) + "_"@ + decimal(x) == prefix + decimal(j) + "_"@ + decimal(y),
    ensures
        i == j,
        x == y,
{
    reveal_strlit("_");
    law_decimal_digits(i);
    law_decimal_digits(j);
    let s = prefix + decimal(i) + "_"@ + decimal(x);
    let t = prefix + decimal(j) + "_"@ + decimal(y);
    let p = (prefix + decimal(i)).len() as int;
    let q = (prefix + decimal(j)).len() as int;
    assert(s[p] == '_');
    assert(t[q] == '_');
    if p < q {
        assert(t[p] == decimal(j)[p - prefix.len()]);
    } else if q < p {
        assert(s[q] == decimal(i)[q - prefix.len()]);
    }
    assert(p == q);
    assert(s.subrange(prefix.len() as int, p) =~= decimal(i));
    assert(t.subrange(prefix.len() as int, q) =~= decimal(j));
    assert(s.skip(p + 1) =~= decimal(x));
    assert(t.skip(q + 1) =~= decimal(y));
    law_decimal_injective(i, j);
    law_decimal_injective(x, y);
}

} // verus!
