//! Numbers as text.

use vstd::prelude::*;
use vstd::string::*;
use vstd::utf8::{decode_utf8, valid_utf8};

verus! {

/// `String::push`: appends one character.
pub assume_specification[ String::push ](text: &mut String, c: char)
    ensures
        final(text)@ == old(text)@.push(c),
;

/// What `core::str::from_utf8` says of bytes that are not valid UTF-8.
pub uninterp spec fn utf8_error_text(bytes: Seq<u8>) -> Seq<char>;

/// `core::str::from_utf8`: the text that the bytes encode, or what is wrong with them.
#[verifier::external_body]
pub(crate) fn text_from_utf8(bytes: &[u8]) -> (result: Result<String, String>)
    ensures
        match result {
            Ok(text) => valid_utf8(bytes@) && text@ == decode_utf8(bytes@),
            Err(message) => !valid_utf8(bytes@) && message@ == utf8_error_text(bytes@),
        },
{
    match core::str::from_utf8(bytes) {
        Ok(text) => Ok(text.to_string()),
        Err(error) => Err(error.to_string()),
    }
}

/// The digit that stands for a value below sixteen.
pub open spec fn hex_digit(value: int) -> char {
    if value < 10 {
        (48 + value) as u8 as char
    } else {
        (87 + value) as u8 as char
    }
}

/// The digits of a number to the base ten, without leading zeros.
pub open spec fn decimal(value: nat) -> Seq<char>
    decreases value,
{
    if value < 10 {
        seq![hex_digit(value as int)]
    } else {
        decimal(value / 10).push(hex_digit((value % 10) as int))
    }
}

/// The last `digits` digits of a number to the base sixteen.
pub open spec fn hex(value: nat, digits: nat) -> Seq<char>
    decreases digits,
{
    if digits == 0 {
        Seq::empty()
    } else {
        hex(value / 16, (digits - 1) as nat).push(hex_digit((value % 16) as int))
    }
}

/// The digit that stands for a value below sixteen.
pub(crate) fn hex_digit_of(value: u8) -> (digit: char)
    requires
        value < 16,
    ensures
        digit == hex_digit(value as int),
{
    if value < 10 {
        (48 + value) as char
    } else {
        (87 + value) as char
    }
}

/// Appends a number to the base ten.
pub(crate) fn push_decimal(text: &mut String, value: u64)
    ensures
        final(text)@ == old(text)@ + decimal(value as nat),
    decreases value,
{
    if value >= 10 {
        push_decimal(text, value / 10);
    }
    text.push(hex_digit_of((value % 10) as u8));
    assert(text@ =~= old(text)@ + decimal(value as nat));
}

/// Appends the last digits of a number to the base sixteen.
pub(crate) fn push_hex(text: &mut String, value: u64, digits: u8)
    ensures
        final(text)@ == old(text)@ + hex(value as nat, digits as nat),
    decreases digits,
{
    if digits > 0 {
        push_hex(text, value / 16, digits - 1);
        text.push(hex_digit_of((value % 16) as u8));
    }
    assert(text@ =~= old(text)@ + hex(value as nat, digits as nat));
}

} // verus!
