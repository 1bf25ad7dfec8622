//! Classification of single bytes. Each predicate is a function of the
//! byte's value alone.

use vstd::prelude::*;

verus! {

/// `byte` is a decimal digit, `'0'` to `'9'`.
pub open spec fn digit(byte: u8) -> bool {
    0x30 <= byte <= 0x39
}

/// `byte` is a hexadecimal digit: `'0'` to `'9'`, `'A'` to `'F'` or `'a'` to
/// `'f'`.
pub open spec fn hex(byte: u8) -> bool {
    ||| 0x30 <= byte <= 0x39
    ||| 0x41 <= byte <= 0x46
    ||| 0x61 <= byte <= 0x66
}

/// `byte` is a letter, `'A'` to `'Z'` or `'a'` to `'z'`.
pub open spec fn alpha(byte: u8) -> bool {
    ||| 0x41 <= byte <= 0x5A
    ||| 0x61 <= byte <= 0x7A
}

/// `byte` is a control character: below `0x20`, or `0x7F`.
pub open spec fn control(byte: u8) -> bool {
    byte < 0x20 || byte == 0x7F
}

/// `byte` is a printable 7-bit character, `0x21` to `0x7E`. The space is
/// not.
pub open spec fn visible_7bit(byte: u8) -> bool {
    0x21 <= byte <= 0x7E
}

/// `byte` is a printable 8-bit character: above the space, and neither
/// `0x7F` nor `0xFF`.
pub open spec fn visible_8bit(byte: u8) -> bool {
    0x21 <= byte && byte != 0x7F && byte != 0xFF
}

/// Tells whether `byte` is a decimal digit.
#[verifier::when_used_as_spec(digit)]
pub fn is_digit(byte: u8) -> (r: bool)
    ensures
        r == digit(byte),
{
    byte > 0x2F && byte < 0x3A
}

/// Tells whether `byte` is a hexadecimal digit.
#[verifier::when_used_as_spec(hex)]
pub fn is_hex(byte: u8) -> (r: bool)
    ensures
        r == hex(byte),
{
    (byte > 0x2F && byte < 0x3A) || (byte > 0x40 && byte < 0x47) || (byte > 0x60 && byte < 0x67)
}

/// Tells whether `byte` is a letter.
#[verifier::when_used_as_spec(alpha)]
pub fn is_alpha(byte: u8) -> (r: bool)
    ensures
        r == alpha(byte),
{
    (byte > 0x40 && byte < 0x5B) || (byte > 0x60 && byte < 0x7B)
}

/// Tells whether `byte` is a control character.
#[verifier::when_used_as_spec(control)]
pub fn is_control(byte: u8) -> (r: bool)
    ensures
        r == control(byte),
{
    byte < 0x20 || byte == 0x7F
}

/// Tells whether `byte` is a printable 7-bit character.
#[verifier::when_used_as_spec(visible_7bit)]
pub fn is_visible_7bit(byte: u8) -> (r: bool)
    ensures
        r == visible_7bit(byte),
{
    byte > 0x20 && byte < 0x7F
}

/// Tells whether `byte` is no printable 7-bit character.
pub fn is_not_visible_7bit(byte: u8) -> (r: bool)
    ensures
        r == !visible_7bit(byte),
{
    byte < 0x21 || byte > 0x7E
}

/// Tells whether `byte` is a printable 8-bit character.
#[verifier::when_used_as_spec(visible_8bit)]
pub fn is_visible_8bit(byte: u8) -> (r: bool)
    ensures
        r == visible_8bit(byte),
{
    byte > 0x20 && byte < 0xFF && byte != 0x7F
}

/// Tells whether `byte` is no printable 8-bit character.
pub fn is_not_visible_8bit(byte: u8) -> (r: bool)
    ensures
        r == !visible_8bit(byte),
{
    byte < 0x21 || byte == 0x7F || byte == 0xFF
}

} // verus!
