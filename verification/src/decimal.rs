//! Decimal notation of natural numbers, as it appears inside control sequences
//! and messages.

use vstd::prelude::*;
use vstd::string::*;

verus! {

/// The character of one decimal digit.
pub open spec fn digit_char(d: nat) -> char
    recommends
        d < 10,
{
    if d == 0 {
        '0'
    } else if d == 1 {
        '1'
    } else if d == 2 {
        '2'
    } else if d == 3 {
        '3'
    } else if d == 4 {
        '4'
    } else if d == 5 {
        '5'
    } else if d == 6 {
        '6'
    } else if d == 7 {
        '7'
    } else if d == 8 {
        '8'
    } else {
        '9'
    }
}

/// The decimal notation of `n`: most significant digit first, no leading zero
/// except for zero itself.
pub open spec fn decimal(n: nat) -> Seq<char>
    decreases n,
{
    if n < 10 {
        seq![digit_char(n)]
    } else {
        decimal(n / 10).push(digit_char(n % 10))
    }
}

fn digit_str(d: u8) -> (r: &'static str)
    requires
        d < 10,
    ensures
        r@ == seq![digit_char(d as nat)],
{
    proof {
        reveal_strlit("0");
        reveal_strlit("1");
        reveal_strlit("2");
        reveal_strlit("3");
        reveal_strlit("4");
        reveal_strlit("5");
        reveal_strlit("6");
        reveal_strlit("7");
        reveal_strlit("8");
        reveal_strlit("9");
    }
    let r = if d == 0 {
        "0"
    } else if d == 1 {
        "1"
    } else if d == 2 {
        "2"
    } else if d == 3 {
        "3"
    } else if d == 4 {
        "4"
    } else if d == 5 {
        "5"
    } else if d == 6 {
        "6"
    } else if d == 7 {
        "7"
    } else if d == 8 {
        "8"
    } else {
        "9"
    };
    assert(r@ =~= seq![digit_char(d as nat)]);
    r
}

/// Writes `n` in decimal notation.
pub fn to_decimal(n: u128) -> (r: String)
    ensures
        r@ == decimal(n as nat),
{
    let mut rest: u128 = n / 10;
    let mut out = String::from_str(digit_str((n % 10) as u8));
    while rest > 0
        invariant
            decimal(n as nat) == (if rest > 0 {
                decimal(rest as nat) + out@
            } else {
                out@
            }),
        decreases rest,
    {
        let digit = digit_str((rest % 10) as u8);
        let ghost tail = out@;
        out = String::from_str(digit).concat(out.as_str());
        proof {
            if rest >= 10 {
                assert(decimal(rest as nat) + tail =~= decimal((rest / 10) as nat) + out@);
            } else {
                assert(decimal(rest as nat) + tail =~= out@);
            }
        }
        rest = rest / 10;
    }
    out
}

/// Whether the character is a decimal digit.
pub open spec fn is_digit(c: char) -> bool {
    c == '0' || c == '1' || c == '2' || c == '3' || c == '4' || c == '5' || c == '6' || c == '7'
        || c == '8' || c == '9'
}

/// The number that a decimal digit stands for.
pub open spec fn digit_value(c: char) -> nat
    recommends
        is_digit(c),
{
    if c == '0' {
        0
    } else if c == '1' {
        1
    } else if c == '2' {
        2
    } else if c == '3' {
        3
    } else if c == '4' {
        4
    } else if c == '5' {
        5
    } else if c == '6' {
        6
    } else if c == '7' {
        7
    } else if c == '8' {
        8
    } else {
        9
    }
}

/// The number that a sequence of decimal digits stands for.
pub open spec fn decimal_value(digits: Seq<char>) -> nat
    decreases digits.len(),
{
    if digits.len() == 0 {
        0
    } else {
        decimal_value(digits.drop_last()) * 10 + digit_value(digits.last())
    }
}

/// Decimal notation is one digit at least, and digits only.
pub proof fn lemma_decimal_is_digits(n: nat)
    ensures
        decimal(n).len() >= 1,
        forall|i: int| 0 <= i < decimal(n).len() ==> is_digit(#[trigger] decimal(n)[i]),
    decreases n,
{
    if n >= 10 {
        lemma_decimal_is_digits(n / 10);
    }
}

/// Decimal notation stands for the number it was written for.
pub proof fn lemma_decimal_value(n: nat)
    ensures
        decimal_value(decimal(n)) == n,
    decreases n,
{
    if n < 10 {
        assert(decimal(n).drop_last() =~= Seq::<char>::empty());
        assert(decimal_value(decimal(n).drop_last()) == 0);
    } else {
        lemma_decimal_value(n / 10);
        assert(decimal(n).drop_last() =~= decimal(n / 10));
    }
}

/// Two numbers with the same decimal notation are the same number.
pub proof fn lemma_decimal_injective(a: nat, b: nat)
    requires
        decimal(a) == decimal(b),
    ensures
        a == b,
{
    lemma_decimal_value(a);
    lemma_decimal_value(b);
}

/// A number in decimal notation ends where the first character that is no
/// digit stands: two texts that start with a number, a separator and a rest are
/// equal only if number and rest are.
pub proof fn lemma_decimal_splits(a: nat, b: nat, sep: char, rest_a: Seq<char>, rest_b: Seq<char>)
    requires
        !is_digit(sep),
        decimal(a) + seq![sep] + rest_a == decimal(b) + seq![sep] + rest_b,
    ensures
        a == b,
        rest_a == rest_b,
{
    let left = decimal(a) + seq![sep] + rest_a;
    let right = decimal(b) + seq![sep] + rest_b;
    let la = decimal(a).len() as int;
    let lb = decimal(b).len() as int;
    lemma_decimal_is_digits(a);
    lemma_decimal_is_digits(b);
    if la < lb {
        assert(left[la] == sep);
        assert(right[la] == decimal(b)[la]);
    } else if lb < la {
        assert(right[lb] == sep);
        assert(left[lb] == decimal(a)[lb]);
    }
    assert(decimal(a) =~= left.take(la));
    assert(decimal(b) =~= right.take(lb));
    lemma_decimal_injective(a, b);
    assert(rest_a =~= left.skip(la + 1));
    assert(rest_b =~= right.skip(lb + 1));
}

} // verus!
