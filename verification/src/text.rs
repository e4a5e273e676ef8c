//! Decimal numerals as sequences of characters.

use vstd::prelude::*;

verus! {

/// `String::push` appends one character and leaves the rest of the string as
/// it was.
pub assume_specification[ String::push ](text: &mut String, c: char)
    ensures
        final(text)@ == old(text)@.push(c),
;

/// The character that stands for a digit below ten.
pub open spec fn digit_char(d: nat) -> char {
    (48 + d) as char
}

/// The decimal numeral of `n`, most significant digit first, without
/// leading zeros.
pub open spec fn decimal(n: nat) -> Seq<char>
    decreases n,
{
    if n < 10 {
        seq![digit_char(n)]
    } else {
        decimal(n / 10).push(digit_char(n % 10))
    }
}

/// A number below ten has one digit, and a number of thirty-two bits has at
/// most ten.
pub proof fn lemma_decimal_width(n: nat)
    ensures
        n < 10 ==> decimal(n).len() == 1,
        n <= 0xffff_ffff ==> decimal(n).len() <= 10,
{
    reveal_with_fuel(decimal, 11);
}

pub fn digit(d: u32) -> (c: char)
    requires
        d < 10,
    ensures
        c == digit_char(d as nat),
{
    match d {
        0 => '0',
        1 => '1',
        2 => '2',
        3 => '3',
        4 => '4',
        5 => '5',
        6 => '6',
        7 => '7',
        8 => '8',
        _ => '9',
    }
}

/// Writes `n` in decimal.
pub fn decimal_text(n: u32) -> (text: String)
    ensures
        text@ == decimal(n as nat),
    decreases n,
{
    if n < 10 {
        let mut text = String::new();
        text.push(digit(n));
        text
    } else {
        let mut text = decimal_text(n / 10);
        text.push(digit(n % 10));
        text
    }
}

} // verus!
