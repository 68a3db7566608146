//! Hexadecimal digits.

use crate::errors::{MacAddressError, MacFault};
use vstd::prelude::*;

verus! {

/// Whether `c` is one of `0-9`, `a-f`, `A-F`.
pub open spec fn is_hex_digit(c: char) -> bool {
    ('0' <= c && c <= '9') || ('a' <= c && c <= 'f') || ('A' <= c && c <= 'F')
}

/// The value, `0..=15`, of a hexadecimal digit.
pub open spec fn hex_digit_value(c: char) -> int {
    if '0' <= c && c <= '9' {
        c as int - '0' as int
    } else if 'a' <= c && c <= 'f' {
        c as int - 'a' as int + 10
    } else {
        c as int - 'A' as int + 10
    }
}

/// The digit that writes `n`, for `0 <= n < 16`, with `A-F` where `upper`
/// is set and `a-f` where it is not.
pub open spec fn hex_digit_char(n: int, upper: bool) -> char {
    if n < 10 {
        (n + '0' as int) as char
    } else if upper {
        (n - 10 + 'A' as int) as char
    } else {
        (n - 10 + 'a' as int) as char
    }
}

/// `c` with `A-Z` turned into `a-z`.
pub open spec fn ascii_lowercase(c: char) -> char {
    if 'A' <= c && c <= 'Z' {
        (c as int + 32) as char
    } else {
        c
    }
}

/// Converts a character to a hexadecimal value.
///
/// A character that is no hexadecimal digit comes back inside
/// [`MacAddressError::InvalidByteInMac`].
pub fn hex_val(c: char) -> (r: Result<u8, MacAddressError>)
    ensures
        match r {
            Ok(v) => is_hex_digit(c) && v as int == hex_digit_value(c),
            Err(e) => !is_hex_digit(c) && e@ == MacFault::InvalidByteInMac(seq![c]),
        },
{
    if '0' <= c && c <= '9' {
        Ok(c as u8 - '0' as u8)
    } else if 'a' <= c && c <= 'f' {
        Ok(c as u8 - 'a' as u8 + 10)
    } else if 'A' <= c && c <= 'F' {
        Ok(c as u8 - 'A' as u8 + 10)
    } else {
        let mut fragment = String::new();
        fragment.push(c);
        Err(MacAddressError::InvalidByteInMac(fragment))
    }
}

/// The digit that writes the low four bits' worth of `n`.
pub(crate) fn hex_char(n: u8, upper: bool) -> (c: char)
    requires
        n < 16,
    ensures
        c == hex_digit_char(n as int, upper),
        is_hex_digit(c),
        hex_digit_value(c) == n,
        !upper ==> ascii_lowercase(c) == c,
{
    if n < 10 {
        (n + '0' as u8) as char
    } else if upper {
        (n - 10 + 'A' as u8) as char
    } else {
        (n - 10 + 'a' as u8) as char
    }
}

/// Writing the value of a digit in lower case gives the digit in lower
/// case.
pub proof fn lemma_digit_of_value(c: char)
    requires
        is_hex_digit(c),
    ensures
        0 <= hex_digit_value(c) < 16,
        hex_digit_char(hex_digit_value(c), false) == ascii_lowercase(c),
{
}

/// Reading a written digit gives the value back, in either case.
pub proof fn lemma_value_of_digit(n: int, upper: bool)
    requires
        0 <= n < 16,
    ensures
        is_hex_digit(hex_digit_char(n, upper)),
        hex_digit_value(hex_digit_char(n, upper)) == n,
{
}

} // verus!
