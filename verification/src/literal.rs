//! The literal parser: hexadecimal, binary, octal and decimal value tokens.

use crate::text::chars_of;
use vstd::prelude::*;

verus! {

/// Whether `c` is one of `0-9`, `a-f`, `A-F`.
pub open spec fn is_hex_digit(c: char) -> bool {
    ||| '0' <= c <= '9'
    ||| 'a' <= c <= 'f'
    ||| 'A' <= c <= 'F'
}

/// The value of a hexadecimal digit.
pub open spec fn digit_value(c: char) -> nat {
    if '0' <= c <= '9' {
        (c as int - '0' as int) as nat
    } else if 'a' <= c <= 'f' {
        (c as int - 'a' as int + 10) as nat
    } else {
        (c as int - 'A' as int + 10) as nat
    }
}

/// Whether `c` is a digit of the given radix (at most 16).
pub open spec fn is_digit(c: char, radix: nat) -> bool {
    is_hex_digit(c) && digit_value(c) < radix
}

/// Whether every character is a digit of the given radix.
pub open spec fn all_digits(digits: Seq<char>, radix: nat) -> bool {
    forall|i: int| 0 <= i < digits.len() ==> is_digit(#[trigger] digits[i], radix)
}

/// The number that a digit string denotes in positional notation; the empty
/// string denotes zero.
pub open spec fn number_value(digits: Seq<char>, radix: nat) -> nat
    decreases digits.len(),
{
    if digits.len() == 0 {
        0
    } else {
        number_value(digits.drop_last(), radix) * radix + digit_value(digits.last())
    }
}

/// `0x` followed by one or more hexadecimal digits.
pub open spec fn is_hex_form(token: Seq<char>) -> bool {
    &&& token.len() > 2
    &&& token[0] == '0'
    &&& token[1] == 'x'
    &&& all_digits(token.skip(2), 16)
}

/// `0b` followed by one or more binary digits.
pub open spec fn is_binary_form(token: Seq<char>) -> bool {
    &&& token.len() > 2
    &&& token[0] == '0'
    &&& token[1] == 'b'
    &&& all_digits(token.skip(2), 2)
}

/// `0` followed by any number of octal digits.
pub open spec fn is_octal_form(token: Seq<char>) -> bool {
    &&& token.len() >= 1
    &&& token[0] == '0'
    &&& all_digits(token.skip(1), 8)
}

/// One or more decimal digits, the first of them not `0`.
pub open spec fn is_decimal_form(token: Seq<char>) -> bool {
    &&& token.len() >= 1
    &&& token[0] != '0'
    &&& all_digits(token, 10)
}

/// The number that a token denotes, where it has one of the four literal forms.
pub open spec fn literal_value(token: Seq<char>) -> Option<nat> {
    if is_hex_form(token) {
        Some(number_value(token.skip(2), 16))
    } else if is_binary_form(token) {
        Some(number_value(token.skip(2), 2))
    } else if is_octal_form(token) {
        Some(number_value(token.skip(1), 8))
    } else if is_decimal_form(token) {
        Some(number_value(token, 10))
    } else {
        None
    }
}

/// What the literal parser returns for a token: the number it denotes,
/// where it is a literal whose number fits in `usize`.
pub open spec fn parse_value_spec(token: Seq<char>) -> Option<usize> {
    match literal_value(token) {
        Some(n) => if n <= usize::MAX {
            Some(n as usize)
        } else {
            None
        },
        None => None,
    }
}

/// A digit string denotes at least what any of its leading parts denotes.
pub proof fn lemma_number_value_grows(digits: Seq<char>, radix: nat, n: int)
    requires
        radix >= 1,
        0 <= n <= digits.len(),
    ensures
        number_value(digits.take(n), radix) <= number_value(digits, radix),
    decreases digits.len(),
{
    if n == digits.len() {
        assert(digits.take(n) =~= digits);
    } else {
        let init = digits.drop_last();
        assert(init.take(n) =~= digits.take(n));
        lemma_number_value_grows(init, radix, n);
        let high = number_value(init, radix);
        assert(high <= high * radix) by (nonlinear_arith)
            requires
                radix >= 1,
                high >= 0,
        ;
    }
}

/// The value of `c` as a hexadecimal digit, if it is one.
fn hex_digit(c: char) -> (d: Option<usize>)
    ensures
        match d {
            Some(d) => is_hex_digit(c) && d == digit_value(c),
            None => !is_hex_digit(c),
        },
{
    if c >= '0' && c <= '9' {
        Some((c as u8 - '0' as u8) as usize)
    } else if c >= 'a' && c <= 'f' {
        Some((c as u8 - 'a' as u8 + 10) as usize)
    } else if c >= 'A' && c <= 'F' {
        Some((c as u8 - 'A' as u8 + 10) as usize)
    } else {
        None
    }
}

/// Reads `chars[from..]` as a number of the given radix.
fn parse_digits(chars: &[char], from: usize, radix: usize) -> (r: Option<usize>)
    requires
        from <= chars.len(),
        1 <= radix <= 16,
    ensures
        r == if all_digits(chars@.skip(from as int), radix as nat) && number_value(
            chars@.skip(from as int),
            radix as nat,
        ) <= usize::MAX {
            Some(number_value(chars@.skip(from as int), radix as nat) as usize)
        } else {
            None
        },
{
    let ghost digits = chars@.skip(from as int);
    let mut value: usize = 0;
    let mut i: usize = from;
    while i < chars.len()
        invariant
            from <= i <= chars.len(),
            1 <= radix <= 16,
            digits == chars@.skip(from as int),
            all_digits(digits.take(i - from), radix as nat),
            value == number_value(digits.take(i - from), radix as nat),
        decreases chars.len() - i,
    {
        let ghost read = digits.take(i - from);
        let ghost next = digits.take(i - from + 1);
        proof {
            assert(next.drop_last() =~= read);
            assert(next.last() == chars@[i as int]);
            assert(digits[i - from] == chars@[i as int]);
        }
        let digit = match hex_digit(chars[i]) {
            Some(d) => d,
            None => {
                return None;
            },
        };
        if digit >= radix {
            return None;
        }
        assert(all_digits(next, radix as nat)) by {
            assert forall|k: int| 0 <= k < next.len() implies is_digit(
                #[trigger] next[k],
                radix as nat,
            ) by {
                if k < read.len() {
                    assert(next[k] == read[k]);
                }
            }
        }
        assert(number_value(next, radix as nat) == value * radix + digit);
        proof {
            lemma_number_value_grows(digits, radix as nat, i - from + 1);
        }
        let shifted = match value.checked_mul(radix) {
            Some(s) => s,
            None => {
                return None;
            },
        };
        value = match shifted.checked_add(digit) {
            Some(v) => v,
            None => {
                return None;
            },
        };
        i += 1;
    }
    assert(digits.take(i - from) =~= digits);
    Some(value)
}

/// Reads a value token as an unsigned integer: `0x` introduces a
/// hexadecimal literal, `0b` a binary one, any other leading `0` an octal
/// one, and everything else is read as decimal. A token that is not a
/// literal, or whose number does not fit in `usize`, gives `None`.
pub fn parse_value(value: &str) -> (r: Option<usize>)
    ensures
        r == parse_value_spec(value@),
{
    let chars = chars_of(value);
    parse_value_chars(chars.as_slice())
}

/// `parse_value` on a token given as characters.
pub fn parse_value_chars(token: &[char]) -> (r: Option<usize>)
    ensures
        r == parse_value_spec(token@),
{
    let n = token.len();
    if n >= 2 && token[0] == '0' && token[1] == 'x' {
        if n == 2 {
            assert(!is_octal_form(token@)) by {
                assert(!is_digit(token@.skip(1)[0], 8));
            }
            None
        } else {
            assert(!is_octal_form(token@)) by {
                assert(!is_digit(token@.skip(1)[0], 8));
            }
            parse_digits(token, 2, 16)
        }
    } else if n >= 2 && token[0] == '0' && token[1] == 'b' {
        assert(!is_octal_form(token@)) by {
            assert(!is_digit(token@.skip(1)[0], 8));
        }
        if n == 2 {
            None
        } else {
            parse_digits(token, 2, 2)
        }
    } else if n >= 1 && token[0] == '0' {
        parse_digits(token, 1, 8)
    } else if n >= 1 {
        assert(token@.skip(0) =~= token@);
        parse_digits(token, 0, 10)
    } else {
        None
    }
}

} // verus!
