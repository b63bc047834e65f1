//! Whole numbers written in decimal digits.

use vstd::prelude::*;

verus! {

/// The character of the digit `d`.
pub open spec fn digit_char(d: int) -> char {
    if d == 0 {
        '0'
    } else if d == 1 {
        '1'
    } else if d == 2 {
        '2'
    } else if d == 3 {
        '3'
    } else if d == 4 {
        '4'
    } else if d == 5 {
        '5'
    } else if d == 6 {
        '6'
    } else if d == 7 {
        '7'
    } else if d == 8 {
        '8'
    } else {
        '9'
    }
}

/// The last `width` decimal digits of `n`, zeros in front where `n` has
/// fewer.
pub open spec fn fixed_digits(n: int, width: nat) -> Seq<char>
    decreases width,
{
    if width == 0 {
        Seq::empty()
    } else {
        fixed_digits(n / 10, (width - 1) as nat).push(digit_char(n % 10))
    }
}

/// The decimal digits of `n`, as many as it has.
pub open spec fn decimal_digits(n: int) -> Seq<char>
    decreases n,
{
    if n < 10 {
        seq![digit_char(n)]
    } else {
        decimal_digits(n / 10).push(digit_char(n % 10))
    }
}

/// Two digits put behind the digits of a number are the digits of a
/// hundred times the number, and the two more.
pub proof fn lemma_two_more_digits(n: int, low: int, width: nat)
    requires
        0 <= n,
        0 <= low < 100,
    ensures
        fixed_digits(n * 100 + low, width + 2) == fixed_digits(n, width) + fixed_digits(low, 2),
{
    reveal_with_fuel(fixed_digits, 3);
    let m = n * 100 + low;
    assert(m % 10 == low % 10);
    assert(m / 10 == n * 10 + low / 10);
    assert((m / 10) % 10 == low / 10);
    assert(m / 10 / 10 == n);
    assert((low / 10) % 10 == low / 10);
    assert(fixed_digits(low, 2) =~= seq![digit_char(low / 10), digit_char(low % 10)]);
    assert(fixed_digits(m, width + 2) =~= fixed_digits(n, width).push(digit_char(low / 10)).push(
        digit_char(low % 10),
    ));
    assert(fixed_digits(m, width + 2) =~= fixed_digits(n, width) + fixed_digits(low, 2));
}

fn digit_text(d: usize) -> (text: &'static str)
    requires
        d < 10,
    ensures
        text@ == seq![digit_char(d as int)],
{
    proof {
        reveal_strlit("0");
        reveal_strlit("1");
        reveal_strlit("2");
        reveal_strlit("3");
        reveal_strlit("4");
        reveal_strlit("5");
        reveal_strlit("6");
        reveal_strlit("7");
        reveal_strlit("8");
        reveal_strlit("9");
    }
    let text = if d == 0 {
        "0"
    } else if d == 1 {
        "1"
    } else if d == 2 {
        "2"
    } else if d == 3 {
        "3"
    } else if d == 4 {
        "4"
    } else if d == 5 {
        "5"
    } else if d == 6 {
        "6"
    } else if d == 7 {
        "7"
    } else if d == 8 {
        "8"
    } else {
        "9"
    };
    assert(text@ =~= seq![digit_char(d as int)]);
    text
}

/// `n` in decimal digits.
pub fn decimal_string(n: usize) -> (text: String)
    ensures
        text@ == decimal_digits(n as int),
    decreases n,
{
    if n < 10 {
        String::from_str(digit_text(n))
    } else {
        let mut text = decimal_string(n / 10);
        text.append(digit_text(n % 10));
        assert(text@ =~= decimal_digits(n as int));
        text
    }
}

} // verus!
