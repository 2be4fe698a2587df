//! Pieces of text: numbers in decimal and comma-separated lists.

use vstd::prelude::*;
use vstd::string::StringExecFns;

verus! {

/// The decimal digit `d`, for `d` below ten.
pub open spec fn digit_text(d: nat) -> Seq<char> {
    if d == 0 {
        "0"@
    } else if d == 1 {
        "1"@
    } else if d == 2 {
        "2"@
    } else if d == 3 {
        "3"@
    } else if d == 4 {
        "4"@
    } else if d == 5 {
        "5"@
    } else if d == 6 {
        "6"@
    } else if d == 7 {
        "7"@
    } else if d == 8 {
        "8"@
    } else {
        "9"@
    }
}

/// The number `n` in decimal, without leading zeros.
pub open spec fn decimal(n: nat) -> Seq<char>
    decreases n,
{
    if n < 10 {
        digit_text(n)
    } else {
        decimal(n / 10) + digit_text(n % 10)
    }
}

/// The number `n` in decimal, with a leading `-` where it is negative.
pub open spec fn signed_decimal(n: int) -> Seq<char> {
    if n < 0 {
        "-"@ + decimal((-n) as nat)
    } else {
        decimal(n as nat)
    }
}

/// The words `true` and `false`.
pub open spec fn truth_text(b: bool) -> Seq<char> {
    if b {
        "true"@
    } else {
        "false"@
    }
}

/// The given parts in order, with a comma and a space between two of them.
pub open spec fn comma_list(parts: Seq<Seq<char>>) -> Seq<char>
    decreases parts.len(),
{
    if parts.len() == 0 {
        ""@
    } else if parts.len() == 1 {
        parts[0]
    } else {
        comma_list(parts.drop_last()) + ", "@ + parts.last()
    }
}

/// The texts that the strings hold.
pub open spec fn texts(parts: Seq<String>) -> Seq<Seq<char>> {
    Seq::new(parts.len(), |i: int| parts[i]@)
}

fn digit(d: u64) -> (s: &'static str)
    requires
        d < 10,
    ensures
        s@ == digit_text(d as nat),
{
    if d == 0 {
        "0"
    } else if d == 1 {
        "1"
    } else if d == 2 {
        "2"
    } else if d == 3 {
        "3"
    } else if d == 4 {
        "4"
    } else if d == 5 {
        "5"
    } else if d == 6 {
        "6"
    } else if d == 7 {
        "7"
    } else if d == 8 {
        "8"
    } else {
        "9"
    }
}

/// Returns `n` in decimal.
pub fn decimal_string(n: u64) -> (s: String)
    ensures
        s@ == decimal(n as nat),
    decreases n,
{
    if n < 10 {
        digit(n).to_string()
    } else {
        let mut s = decimal_string(n / 10);
        s.append(digit(n % 10));
        s
    }
}

/// Returns `n` in decimal, with its sign where it is negative.
pub fn signed_decimal_string(n: i64) -> (s: String)
    ensures
        s@ == signed_decimal(n as int),
{
    if n < 0 {
        let mut s = "-".to_string();
        let magnitude: u64 = (0 - (n as i128)) as u64;
        s.append(decimal_string(magnitude).as_str());
        s
    } else {
        decimal_string(n as u64)
    }
}

/// Returns the word for `b`.
pub fn truth_str(b: bool) -> (s: &'static str)
    ensures
        s@ == truth_text(b),
{
    if b {
        "true"
    } else {
        "false"
    }
}

/// Returns the parts in order, with a comma and a space between two of them.
pub fn join_comma(parts: &Vec<String>) -> (s: String)
    ensures
        s@ == comma_list(texts(parts@)),
{
    let mut s = "".to_string();
    for i in 0..parts.len()
        invariant
            s@ == comma_list(texts(parts@).take(i as int)),
    {
        proof {
            let ghost all = texts(parts@);
            assert(all.take(i + 1).drop_last() =~= all.take(i as int));
            if i == 0 {
                reveal_strlit("");
                assert(s@ + all[0] =~= all[0]);
            }
        }
        if i != 0 {
            s.append(", ");
        }
        s.append(parts[i].as_str());
    }
    assert(texts(parts@).take(parts@.len() as int) =~= texts(parts@));
    s
}

} // verus!
