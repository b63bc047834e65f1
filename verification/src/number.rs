//! The text of a number: which texts denote one.
//!
//! A text denotes a number when it follows the grammar that Rust documents
//! for reading a floating-point number from a string:
//!
//! ```text
//! Number   ::= Sign? ( Word | Decimal )
//! Word     ::= 'inf' | 'infinity' | 'nan'        (in either case)
//! Decimal  ::= Mantissa ( ('e' | 'E') Sign? Digit+ )?
//! Mantissa ::= Digit+ | Digit+ '.' Digit* | Digit* '.' Digit+
//! Sign     ::= '+' | '-'
//! ```
//!
//! Nothing may stand before or after it, blanks included.

use vstd::prelude::*;
use vstd::slice::slice_subrange;

verus! {

/// One of the ten digits.
pub open spec fn is_digit(c: char) -> bool {
    '0' <= c && c <= '9'
}

/// A plus or a minus.
pub open spec fn is_sign(c: char) -> bool {
    c == '+' || c == '-'
}

/// Every character of `s` is a digit.
pub open spec fn all_digits(s: Seq<char>) -> bool {
    forall|i: int| 0 <= i < s.len() ==> is_digit(#[trigger] s[i])
}

/// `s` has a point at `k` with nothing but digits on both sides.
pub open spec fn point_at(s: Seq<char>, k: int) -> bool {
    &&& 0 <= k < s.len()
    &&& s[k] == '.'
    &&& all_digits(s.take(k))
    &&& all_digits(s.skip(k + 1))
}

/// Digits, with at most one point among them or at either end, and at
/// least one digit.
pub open spec fn is_mantissa(s: Seq<char>) -> bool {
    ||| (s.len() >= 1 && all_digits(s))
    ||| (s.len() >= 2 && exists|k: int| point_at(s, k))
}

/// `s` without the sign it may begin with.
pub open spec fn unsigned(s: Seq<char>) -> Seq<char> {
    if s.len() > 0 && is_sign(s[0]) {
        s.skip(1)
    } else {
        s
    }
}

/// At least one digit, with or without a sign in front.
pub open spec fn is_exponent(s: Seq<char>) -> bool {
    unsigned(s).len() >= 1 && all_digits(unsigned(s))
}

/// `s` has an exponent mark at `k`, a mantissa before it and an exponent
/// after it.
pub open spec fn exponent_at(s: Seq<char>, k: int) -> bool {
    &&& 0 <= k < s.len()
    &&& (s[k] == 'e' || s[k] == 'E')
    &&& is_mantissa(s.take(k))
    &&& is_exponent(s.skip(k + 1))
}

/// A mantissa, alone or followed by an exponent.
pub open spec fn is_decimal(s: Seq<char>) -> bool {
    is_mantissa(s) || exists|k: int| exponent_at(s, k)
}

/// `s` is the word `small`, each letter in either case.
pub open spec fn spells(s: Seq<char>, small: Seq<char>, capital: Seq<char>) -> bool {
    &&& s.len() == small.len()
    &&& forall|i: int|
        0 <= i < s.len() ==> (#[trigger] s[i] == small[i] || s[i] == capital[i])
}

/// One of the words for what is not finite or not a number.
pub open spec fn is_word(s: Seq<char>) -> bool {
    ||| spells(s, seq!['i', 'n', 'f'], seq!['I', 'N', 'F'])
    ||| spells(s, seq!['n', 'a', 'n'], seq!['N', 'A', 'N'])
    ||| spells(
        s,
        seq!['i', 'n', 'f', 'i', 'n', 'i', 't', 'y'],
        seq!['I', 'N', 'F', 'I', 'N', 'I', 'T', 'Y'],
    )
}

/// `s` denotes a number.
pub open spec fn is_number_text(s: Seq<char>) -> bool {
    is_decimal(unsigned(s)) || is_word(unsigned(s))
}

/// A character that the text of a number can hold: a digit, a sign, the
/// point, or a letter of the exponent mark and of the three words.
pub open spec fn is_number_char(c: char) -> bool {
    ||| is_digit(c)
    ||| is_sign(c)
    ||| c == '.'
    ||| c == 'e' || c == 'n' || c == 'i' || c == 'f' || c == 'a' || c == 't' || c == 'y'
    ||| c == 'E' || c == 'N' || c == 'I' || c == 'F' || c == 'A' || c == 'T' || c == 'Y'
}

/// Every character of `s` is one that the text of a number can hold.
pub open spec fn all_number_chars(s: Seq<char>) -> bool {
    forall|i: int| 0 <= i < s.len() ==> is_number_char(#[trigger] s[i])
}

proof fn lemma_mantissa_chars(s: Seq<char>)
    requires
        is_mantissa(s),
    ensures
        all_number_chars(s),
{
    if !all_digits(s) {
        let k = choose|k: int| point_at(s, k);
        assert forall|i: int| 0 <= i < s.len() implies is_number_char(#[trigger] s[i]) by {
            if i < k {
                assert(is_digit(s.take(k)[i]));
            } else if i > k {
                assert(is_digit(s.skip(k + 1)[i - k - 1]));
            }
        }
    }
}

proof fn lemma_exponent_chars(s: Seq<char>)
    requires
        is_exponent(s),
    ensures
        all_number_chars(s),
{
    let digits = unsigned(s);
    assert forall|i: int| 0 <= i < s.len() implies is_number_char(#[trigger] s[i]) by {
        if s.len() > 0 && is_sign(s[0]) {
            if i > 0 {
                assert(is_digit(digits[i - 1]));
            }
        } else {
            assert(is_digit(digits[i]));
        }
    }
}

proof fn lemma_decimal_chars(s: Seq<char>)
    requires
        is_decimal(s),
    ensures
        all_number_chars(s),
{
    if is_mantissa(s) {
        lemma_mantissa_chars(s);
    } else {
        let k = choose|k: int| exponent_at(s, k);
        lemma_mantissa_chars(s.take(k));
        lemma_exponent_chars(s.skip(k + 1));
        assert forall|i: int| 0 <= i < s.len() implies is_number_char(#[trigger] s[i]) by {
            if i < k {
                assert(is_number_char(s.take(k)[i]));
            } else if i > k {
                assert(is_number_char(s.skip(k + 1)[i - k - 1]));
            }
        }
    }
}

proof fn lemma_spelled_chars(s: Seq<char>, small: Seq<char>, capital: Seq<char>)
    requires
        spells(s, small, capital),
        small.len() == capital.len(),
        all_number_chars(small),
        all_number_chars(capital),
    ensures
        all_number_chars(s),
{
    assert forall|i: int| 0 <= i < s.len() implies is_number_char(#[trigger] s[i]) by {
        assert(is_number_char(small[i]));
        assert(is_number_char(capital[i]));
    }
}

proof fn lemma_word_chars(s: Seq<char>)
    requires
        is_word(s),
    ensures
        all_number_chars(s),
{
    let inf = seq!['i', 'n', 'f'];
    let inf_capital = seq!['I', 'N', 'F'];
    let nan = seq!['n', 'a', 'n'];
    let nan_capital = seq!['N', 'A', 'N'];
    let infinity = seq!['i', 'n', 'f', 'i', 'n', 'i', 't', 'y'];
    let infinity_capital = seq!['I', 'N', 'F', 'I', 'N', 'I', 'T', 'Y'];
    if spells(s, inf, inf_capital) {
        lemma_spelled_chars(s, inf, inf_capital);
    } else if spells(s, nan, nan_capital) {
        lemma_spelled_chars(s, nan, nan_capital);
    } else {
        lemma_spelled_chars(s, infinity, infinity_capital);
    }
}

/// The text of a number holds no character but those that such a text can
/// hold. So a text with a blank, a slash, a comma or a quote in it is no
/// number.
pub proof fn lemma_number_chars(s: Seq<char>)
    requires
        is_number_text(s),
    ensures
        all_number_chars(s),
{
    let body = unsigned(s);
    if is_decimal(body) {
        lemma_decimal_chars(body);
    } else {
        lemma_word_chars(body);
    }
    assert forall|i: int| 0 <= i < s.len() implies is_number_char(#[trigger] s[i]) by {
        if s.len() > 0 && is_sign(s[0]) {
            if i > 0 {
                assert(is_number_char(body[i - 1]));
            }
        } else {
            assert(is_number_char(body[i]));
        }
    }
}

/// The text of a number is not empty.
pub proof fn lemma_number_is_not_empty(s: Seq<char>)
    requires
        is_number_text(s),
    ensures
        s.len() > 0,
{
    if is_word(unsigned(s)) {
        assert(unsigned(s).len() >= 3);
    }
}

/// The characters of `text`, one by one.
fn text_chars(text: &str) -> (chars: Vec<char>)
    ensures
        chars@ == text@,
{
    let mut chars: Vec<char> = Vec::new();
    for c in it: text.chars()
        invariant
            it.seq() == text@,
            chars@ == text@.take(it.index() as int),
    {
        chars.push(c);
    }
    chars
}

fn digit(c: char) -> (yes: bool)
    ensures
        yes == is_digit(c),
{
    '0' <= c && c <= '9'
}

fn digits_only(v: &[char]) -> (yes: bool)
    ensures
        yes == all_digits(v@),
{
    let mut i: usize = 0;
    while i < v.len()
        invariant
            i <= v.len(),
            forall|j: int| 0 <= j < i ==> is_digit(#[trigger] v@[j]),
        decreases v.len() - i,
    {
        if !digit(v[i]) {
            return false;
        }
        i += 1;
    }
    true
}

/// Where `a` or `b` stands first in `v`.
fn first_of(v: &[char], a: char, b: char) -> (at: Option<usize>)
    ensures
        match at {
            Some(k) => {
                &&& k < v.len()
                &&& (v@[k as int] == a || v@[k as int] == b)
                &&& forall|j: int| 0 <= j < k ==> #[trigger] v@[j] != a && v@[j] != b
            },
            None => forall|j: int| 0 <= j < v.len() ==> #[trigger] v@[j] != a && v@[j] != b,
        },
{
    let mut i: usize = 0;
    while i < v.len()
        invariant
            i <= v.len(),
            forall|j: int| 0 <= j < i ==> #[trigger] v@[j] != a && v@[j] != b,
        decreases v.len() - i,
    {
        if v[i] == a || v[i] == b {
            return Some(i);
        }
        i += 1;
    }
    None
}

fn mantissa(v: &[char]) -> (yes: bool)
    ensures
        yes == is_mantissa(v@),
{
    match first_of(v, '.', '.') {
        None => {
            proof {
                assert forall|k: int| !point_at(v@, k) by {}
            }
            v.len() >= 1 && digits_only(v)
        },
        Some(k) => {
            let before = slice_subrange(v, 0, k);
            let after = slice_subrange(v, k + 1, v.len());
            let sides = digits_only(before) && digits_only(after);
            proof {
                assert(v@.take(k as int) == v@.subrange(0, k as int));
                assert(v@.skip(k + 1) == v@.subrange(k + 1, v@.len() as int));
                assert(!is_digit(v@[k as int]));
                assert(sides == point_at(v@, k as int));
                assert forall|j: int| j != k implies !point_at(v@, j) by {
                    if 0 <= j < v@.len() && v@[j] == '.' {
                        // the first point stands at k, so one at j has it on its left
                        assert(k < j);
                        assert(v@.take(j)[k as int] == v@[k as int]);
                    }
                }
            }
            v.len() >= 2 && sides
        },
    }
}

fn sign(c: char) -> (yes: bool)
    ensures
        yes == is_sign(c),
{
    c == '+' || c == '-'
}

/// `v` from behind the sign it may begin with.
fn without_sign(v: &[char]) -> (rest: &[char])
    ensures
        rest@ == unsigned(v@),
{
    if v.len() > 0 && sign(v[0]) {
        let rest = slice_subrange(v, 1, v.len());
        proof {
            assert(v@.skip(1) == v@.subrange(1, v@.len() as int));
        }
        rest
    } else {
        v
    }
}

fn exponent(v: &[char]) -> (yes: bool)
    ensures
        yes == is_exponent(v@),
{
    let digits = without_sign(v);
    digits.len() >= 1 && digits_only(digits)
}

fn decimal(v: &[char]) -> (yes: bool)
    ensures
        yes == is_decimal(v@),
{
    match first_of(v, 'e', 'E') {
        None => {
            proof {
                assert forall|k: int| !exponent_at(v@, k) by {}
            }
            mantissa(v)
        },
        Some(k) => {
            let before = slice_subrange(v, 0, k);
            let after = slice_subrange(v, k + 1, v.len());
            let parts = mantissa(before) && exponent(after);
            proof {
                assert(v@.take(k as int) == v@.subrange(0, k as int));
                assert(v@.skip(k + 1) == v@.subrange(k + 1, v@.len() as int));
                lemma_mantissa_has_no_mark(v@, k as int);
                assert(parts == exponent_at(v@, k as int));
                assert forall|j: int| j != k implies !exponent_at(v@, j) by {
                    if 0 <= j < v@.len() && (v@[j] == 'e' || v@[j] == 'E') {
                        assert(k < j);
                        assert(v@.take(j)[k as int] == v@[k as int]);
                        lemma_mantissa_has_no_mark(v@.take(j), k as int);
                    }
                }
            }
            parts
        },
    }
}

/// A text with an exponent mark in it is no mantissa.
proof fn lemma_mantissa_has_no_mark(s: Seq<char>, k: int)
    requires
        0 <= k < s.len(),
        s[k] == 'e' || s[k] == 'E',
    ensures
        !is_mantissa(s),
{
    assert(!is_digit(s[k]));
    assert forall|p: int| !point_at(s, p) by {
        if 0 <= p < s.len() && s[p] == '.' {
            if k < p {
                assert(s.take(p)[k] == s[k]);
            } else {
                assert(s.skip(p + 1)[k - p - 1] == s[k]);
            }
        }
    }
}

fn spelled(v: &[char], small: &Vec<char>, capital: &Vec<char>) -> (yes: bool)
    requires
        small@.len() == capital@.len(),
    ensures
        yes == spells(v@, small@, capital@),
{
    if v.len() != small.len() {
        return false;
    }
    let mut i: usize = 0;
    while i < v.len()
        invariant
            i <= v.len(),
            v@.len() == small@.len(),
            small@.len() == capital@.len(),
            forall|j: int| 0 <= j < i ==> (#[trigger] v@[j] == small@[j] || v@[j] == capital@[j]),
        decreases v.len() - i,
    {
        if v[i] != small[i] && v[i] != capital[i] {
            return false;
        }
        i += 1;
    }
    true
}

fn word(v: &[char]) -> (yes: bool)
    ensures
        yes == is_word(v@),
{
    let inf = vec!['i', 'n', 'f'];
    let inf_capital = vec!['I', 'N', 'F'];
    let nan = vec!['n', 'a', 'n'];
    let nan_capital = vec!['N', 'A', 'N'];
    let infinity = vec!['i', 'n', 'f', 'i', 'n', 'i', 't', 'y'];
    let infinity_capital = vec!['I', 'N', 'F', 'I', 'N', 'I', 'T', 'Y'];
    spelled(v, &inf, &inf_capital) || spelled(v, &nan, &nan_capital) || spelled(
        v,
        &infinity,
        &infinity_capital,
    )
}

/// Whether `text` denotes a number.
pub fn is_number(text: &str) -> (yes: bool)
    ensures
        yes == is_number_text(text@),
{
    let chars = text_chars(text);
    let body = without_sign(chars.as_slice());
    decimal(body) || word(body)
}

} // verus!
