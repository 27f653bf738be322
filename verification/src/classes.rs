//! Byte classes of the source alphabet.
//!
//! The scanner treats its input as ASCII and decides on one byte at a time.
//! Each class comes twice: as a predicate for contracts and proofs, and as an
//! executable test that is proved to compute it.

use vstd::prelude::*;

verus! {

/// The line feed, the one byte that ends a line.
pub const NEWLINE: u8 = 0x0A;

/// The byte that stands for "past the end of the input".
pub const SENTINEL: u8 = 0;

/// ASCII whitespace: space, horizontal tab, line feed, form feed, carriage return.
pub open spec fn is_space_spec(b: u8) -> bool {
    b == ' ' as u8 || b == '\t' as u8 || b == NEWLINE || b == 0x0C || b == '\r' as u8
}

/// `a`..`z` and `A`..`Z`.
pub open spec fn is_letter_spec(b: u8) -> bool {
    ('a' as u8 <= b && b <= 'z' as u8) || ('A' as u8 <= b && b <= 'Z' as u8)
}

/// `0`..`9`.
pub open spec fn is_digit_spec(b: u8) -> bool {
    '0' as u8 <= b && b <= '9' as u8
}

/// A byte that may begin an identifier or keyword: a letter or `_`.
pub open spec fn is_word_start_spec(b: u8) -> bool {
    is_letter_spec(b) || b == '_' as u8
}

/// A byte that may continue an identifier or keyword: a letter, a digit or `_`.
pub open spec fn is_word_byte_spec(b: u8) -> bool {
    is_letter_spec(b) || is_digit_spec(b) || b == '_' as u8
}

/// The first byte of an operator that a following `=` extends: `!`, `=`, `<`, `>`.
pub open spec fn pairs_with_equals_spec(b: u8) -> bool {
    b == '!' as u8 || b == '=' as u8 || b == '<' as u8 || b == '>' as u8
}

#[verifier::when_used_as_spec(is_space_spec)]
pub fn is_space(b: u8) -> (yes: bool)
    ensures
        yes == is_space_spec(b),
{
    b == ' ' as u8 || b == '\t' as u8 || b == NEWLINE || b == 0x0C || b == '\r' as u8
}

#[verifier::when_used_as_spec(is_letter_spec)]
pub fn is_letter(b: u8) -> (yes: bool)
    ensures
        yes == is_letter_spec(b),
{
    ('a' as u8 <= b && b <= 'z' as u8) || ('A' as u8 <= b && b <= 'Z' as u8)
}

#[verifier::when_used_as_spec(is_digit_spec)]
pub fn is_digit(b: u8) -> (yes: bool)
    ensures
        yes == is_digit_spec(b),
{
    '0' as u8 <= b && b <= '9' as u8
}

#[verifier::when_used_as_spec(is_word_start_spec)]
pub fn is_word_start(b: u8) -> (yes: bool)
    ensures
        yes == is_word_start_spec(b),
{
    is_letter(b) || b == '_' as u8
}

#[verifier::when_used_as_spec(is_word_byte_spec)]
pub fn is_word_byte(b: u8) -> (yes: bool)
    ensures
        yes == is_word_byte_spec(b),
{
    is_letter(b) || is_digit(b) || b == '_' as u8
}

#[verifier::when_used_as_spec(pairs_with_equals_spec)]
pub fn pairs_with_equals(b: u8) -> (yes: bool)
    ensures
        yes == pairs_with_equals_spec(b),
{
    b == '!' as u8 || b == '=' as u8 || b == '<' as u8 || b == '>' as u8
}

/// The runs of bytes that the scanner consumes as a whole.
#[derive(Clone, Copy, Debug, PartialEq, Eq, Structural)]
pub enum ByteClass {
    /// Whitespace between tokens.
    Space,
    /// The bytes of an identifier or keyword.
    Word,
    /// The bytes of a number.
    Digit,
}

impl ByteClass {
    /// Whether `b` belongs to the class.
    pub open spec fn holds_spec(self, b: u8) -> bool {
        match self {
            ByteClass::Space => is_space(b),
            ByteClass::Word => is_word_byte(b),
            ByteClass::Digit => is_digit(b),
        }
    }

    #[verifier::when_used_as_spec(holds_spec)]
    pub fn holds(self, b: u8) -> (yes: bool)
        ensures
            yes == self.holds_spec(b),
    {
        match self {
            ByteClass::Space => is_space(b),
            ByteClass::Word => is_word_byte(b),
            ByteClass::Digit => is_digit(b),
        }
    }
}

/// No class holds the sentinel, a line feed outside whitespace, or a byte
/// outside ASCII: a run of any class ends there.
pub proof fn lemma_class_members(class: ByteClass, b: u8)
    requires
        class.holds(b),
    ensures
        b != SENTINEL,
        b < 0x80,
        b == NEWLINE ==> class == ByteClass::Space,
{
}

} // verus!
