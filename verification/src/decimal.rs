//! Decimal rendering of integers, as it appears in disambiguating suffixes.
use vstd::prelude::*;

verus! {

/// The character that stands for the digit `d`.
pub open spec fn digit_char(d: int) -> char {
    if d == 0 {
        '0'
    } else if d == 1 {
        '1'
    } else if d == 2 {
        '2'
    } else if d == 3 {
        '3'
    } else if d == 4 {
        '4'
    } else if d == 5 {
        '5'
    } else if d == 6 {
        '6'
    } else if d == 7 {
        '7'
    } else if d == 8 {
        '8'
    } else {
        '9'
    }
}

/// The value of a digit character; 0 for every other character.
pub open spec fn digit_value(c: char) -> nat {
    if c == '1' {
        1
    } else if c == '2' {
        2
    } else if c == '3' {
        3
    } else if c == '4' {
        4
    } else if c == '5' {
        5
    } else if c == '6' {
        6
    } else if c == '7' {
        7
    } else if c == '8' {
        8
    } else if c == '9' {
        9
    } else {
        0
    }
}

/// Whether `c` is one of the ten digit characters.
pub open spec fn is_digit(c: char) -> bool {
    digit_char(digit_value(c) as int) == c
}

/// The digits of `n` in base ten, most significant first, without leading
/// zeros; zero is the single digit `0`.
pub open spec fn digits(n: nat) -> Seq<char>
    decreases n,
{
    if n < 10 {
        seq![digit_char(n as int)]
    } else {
        digits(n / 10).push(digit_char((n % 10) as int))
    }
}

/// The number that a sequence of digits denotes in base ten.
pub open spec fn digits_value(s: Seq<char>) -> nat
    decreases s.len(),
{
    if s.len() == 0 {
        0
    } else {
        10 * digits_value(s.drop_last()) + digit_value(s.last())
    }
}

/// The decimal text of an integer: its digits, after a `-` if it is negative.
pub open spec fn decimal(i: int) -> Seq<char> {
    if i < 0 {
        seq!['-'] + digits((-i) as nat)
    } else {
        digits(i as nat)
    }
}

/// Reading back the digits of a number gives the number; there is at least
/// one digit, and nothing but digits.
pub proof fn lemma_digits_value(n: nat)
    ensures
        digits_value(digits(n)) == n,
        digits(n).len() >= 1,
        forall|k: int| 0 <= k < digits(n).len() ==> is_digit(#[trigger] digits(n)[k]),
    decreases n,
{
    if n < 10 {
        let s = digits(n);
        assert(digits_value(s.drop_last()) == 0);
    } else {
        lemma_digits_value(n / 10);
        let s = digits(n);
        assert(s.drop_last() =~= digits(n / 10));
    }
}

/// Two integers with the same decimal text are the same integer.
pub proof fn lemma_decimal_injective(a: int, b: int)
    requires
        decimal(a) == decimal(b),
    ensures
        a == b,
{
    lemma_digits_value(if a < 0 { (-a) as nat } else { a as nat });
    lemma_digits_value(if b < 0 { (-b) as nat } else { b as nat });
    if a < 0 && b < 0 {
        let da = digits((-a) as nat);
        let db = digits((-b) as nat);
        assert(decimal(a).subrange(1, decimal(a).len() as int) =~= da);
        assert(decimal(b).subrange(1, decimal(b).len() as int) =~= db);
    } else if a < 0 {
        assert(decimal(a)[0] == '-');
        assert(is_digit(decimal(b)[0]));
    } else if b < 0 {
        assert(decimal(b)[0] == '-');
        assert(is_digit(decimal(a)[0]));
    }
}

/// A decimal text is not empty and holds digits and `-` only.
pub proof fn lemma_decimal_chars(i: int)
    ensures
        decimal(i).len() >= 1,
        forall|k: int|
            0 <= k < decimal(i).len() ==> is_digit(#[trigger] decimal(i)[k]) || decimal(i)[k]
                == '-',
{
    lemma_digits_value(if i < 0 { (-i) as nat } else { i as nat });
    if i < 0 {
        let d = digits((-i) as nat);
        assert forall|k: int| 0 <= k < decimal(i).len() implies is_digit(
            #[trigger] decimal(i)[k],
        ) || decimal(i)[k] == '-' by {
            if k > 0 {
                assert(decimal(i)[k] == d[k - 1]);
            }
        }
    }
}

/// The text of one digit.
fn digit_text(d: u32) -> (text: &'static str)
    requires
        d < 10,
    ensures
        text@ == seq![digit_char(d as int)],
{
    proof {
        reveal_strlit("0");
        reveal_strlit("1");
        reveal_strlit("2");
        reveal_strlit("3");
        reveal_strlit("4");
        reveal_strlit("5");
        reveal_strlit("6");
        reveal_strlit("7");
        reveal_strlit("8");
        reveal_strlit("9");
    }
    if d == 0 {
        "0"
    } else if d == 1 {
        "1"
    } else if d == 2 {
        "2"
    } else if d == 3 {
        "3"
    } else if d == 4 {
        "4"
    } else if d == 5 {
        "5"
    } else if d == 6 {
        "6"
    } else if d == 7 {
        "7"
    } else if d == 8 {
        "8"
    } else {
        "9"
    }
}

/// Appends the digits of `n` to `out`.
fn push_digits(out: &mut String, n: u32)
    ensures
        final(out)@ == old(out)@ + digits(n as nat),
    decreases n,
{
    if n >= 10 {
        push_digits(out, n / 10);
    }
    out.append(digit_text(n % 10));
}

/// Appends the decimal text of `i` to `out`.
pub fn push_decimal(out: &mut String, i: i32)
    ensures
        final(out)@ == old(out)@ + decimal(i as int),
{
    if i < 0 {
        proof {
            reveal_strlit("-");
        }
        out.append("-");
        let magnitude: i64 = 0 - (i as i64);
        push_digits(out, magnitude as u32);
    } else {
        push_digits(out, i as u32);
    }
}

} // verus!
