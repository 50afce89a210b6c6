//! The ASCII bytes that escape sequences are made of.

use vstd::prelude::*;

verus! {

/// `BEL`, one of the two string terminators.
pub const BEL: u8 = 0x07;

/// `ESC`, which starts every escape sequence.
pub const ESC: u8 = 0x1b;

/// `0`.
pub const ZERO: u8 = 0x30;

/// `9`.
pub const NINE: u8 = 0x39;

/// `;`, which separates the fields of a sequence.
pub const SEMICOLON: u8 = 0x3b;

/// `?`, which marks a private mode.
pub const QUESTION: u8 = 0x3f;

/// `[`, which makes `ESC [` a control sequence introducer.
pub const LEFT_BRACKET: u8 = 0x5b;

/// `\`, which makes `ESC \` a string terminator.
pub const BACKSLASH: u8 = 0x5c;

/// `]`, which makes `ESC ]` an operating system command introducer.
pub const RIGHT_BRACKET: u8 = 0x5d;

/// `h`, the final byte that sets a mode.
pub const LOWER_H: u8 = 0x68;

/// `l`, the final byte that resets a mode.
pub const LOWER_L: u8 = 0x6c;

/// The decimal digits.
pub open spec fn is_digit(b: u8) -> bool {
    ZERO <= b <= NINE
}

} // verus!
