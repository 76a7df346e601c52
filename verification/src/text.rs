//! Building the texts of prompts: decimal numbers and option letters.

use vstd::prelude::*;
use vstd::string::*;

verus! {

/// `String::push` of std: the string afterwards is the string before with the
/// character added at its end.
pub assume_specification[ String::push ](s: &mut String, c: char)
    ensures
        final(s)@ == old(s)@.push(c),
;

/// `char::from_u32` of std: a number is turned into the character with that
/// code point where it is a Unicode scalar value, that is below the surrogate
/// range or from its end up to `0x10FFFF`, and into `None` otherwise.
pub assume_specification[ char::from_u32 ](i: u32) -> (c: Option<char>)
    ensures
        c == if i <= 0xD7FF || (0xE000 <= i && i <= 0x10FFFF) {
            Some(i as char)
        } else {
            None::<char>
        },
;

/// The character of a decimal digit.
pub open spec fn digit(d: nat) -> char
    recommends
        d < 10,
{
    (48 + d) as char
}

/// A natural number written in decimal, without leading zeros.
pub open spec fn decimal(n: nat) -> Seq<char>
    decreases n,
{
    if n < 10 {
        seq![digit(n)]
    } else {
        decimal(n / 10).push(digit(n % 10))
    }
}

/// How many option letters there are: the characters from `'a'` up to, and
/// without, the last character of all.
pub const LETTERS: usize = 1_111_966;

/// The letter that labels the option at a position: `'a'` for the first, then
/// the characters that follow it in code point order.
pub open spec fn letter(index: nat) -> char
    recommends
        index < LETTERS,
{
    if 97 + index < 0xD800 {
        (97 + index) as char
    } else {
        (97 + index + 0x800) as char
    }
}

/// Writes a number in decimal.
pub fn decimal_string(n: usize) -> (text: String)
    ensures
        text@ == decimal(n as nat),
    decreases n,
{
    if n < 10 {
        let mut text = String::new();
        text.push(digit_char(n));
        assert(text@ =~= seq![digit(n as nat)]);
        text
    } else {
        let mut text = decimal_string(n / 10);
        text.push(digit_char(n % 10));
        text
    }
}

fn digit_char(d: usize) -> (c: char)
    requires
        d < 10,
    ensures
        c == digit(d as nat),
{
    let code: u8 = 48 + d as u8;
    code as char
}

/// The letter that labels the option at a position.
pub fn letter_char(index: usize) -> (c: char)
    requires
        index < LETTERS,
    ensures
        c == letter(index as nat),
{
    let code: u32 = 97 + index as u32;
    let scalar: u32 = if code < 0xD800 {
        code
    } else {
        code + 0x800
    };
    match char::from_u32(scalar) {
        Some(c) => c,
        None => 'a',
    }
}

} // verus!
