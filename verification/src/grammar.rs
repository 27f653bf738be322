//! The lexical grammar, as functions of the source bytes.
//!
//! Nothing here runs. These functions say which token stands at a position of
//! a byte sequence and where the next one begins; the scanner is proved to
//! return exactly that.

use vstd::prelude::*;
use vstd::utf8::encode_utf8;
use crate::classes::{
    ByteClass, NEWLINE, SENTINEL, is_digit, is_word_start, lemma_class_members, pairs_with_equals,
};
use crate::token::{Kind, TokenView, tag_of};

verus! {

/// The character that stands in for a byte that is no text by itself.
pub const REPLACEMENT: char = '\u{FFFD}';

/// The byte at index `i`, or the sentinel where `i` is past the end.
pub open spec fn byte_at(source: Seq<u8>, i: int) -> u8 {
    if 0 <= i < source.len() {
        source[i]
    } else {
        SENTINEL
    }
}

/// Where the longest run of `class` bytes that begins at `from` ends: the
/// index of the first byte at or after `from` that is not in the class, or
/// the length of the source.
pub open spec fn run_end(source: Seq<u8>, from: int, class: ByteClass) -> int
    decreases source.len() - from,
{
    if 0 <= from < source.len() && class.holds(source[from]) {
        run_end(source, from + 1, class)
    } else {
        from
    }
}

/// The number of line feeds among the first `i` bytes.
pub open spec fn newlines_before(source: Seq<u8>, i: int) -> int
    decreases i,
{
    if i <= 0 {
        0
    } else {
        newlines_before(source, i - 1) + if byte_at(source, i - 1) == NEWLINE {
            1int
        } else {
            0int
        }
    }
}

/// The index at which the line that holds index `i` begins: just after the
/// last line feed before `i`, or 0.
pub open spec fn line_start(source: Seq<u8>, i: int) -> int
    decreases i,
{
    if i <= 0 {
        0
    } else if byte_at(source, i - 1) == NEWLINE {
        i
    } else {
        line_start(source, i - 1)
    }
}

/// The line of index `i`, counted from 1.
pub open spec fn line_at(source: Seq<u8>, i: int) -> int {
    1 + newlines_before(source, i)
}

/// The column of index `i` within its line, counted from 1.
pub open spec fn column_at(source: Seq<u8>, i: int) -> int {
    i - line_start(source, i) + 1
}

/// The text of a stretch of bytes, each byte read on its own: an ASCII byte
/// is the character of the same code, any other byte is [`REPLACEMENT`].
pub open spec fn lossy_text(bytes: Seq<u8>) -> Seq<char> {
    Seq::new(bytes.len(), |i: int| if bytes[i] < 0x80 { bytes[i] as char } else { REPLACEMENT })
}

/// The kind of an identifier-shaped run with the given text: one of the
/// eight keywords, or an identifier that carries the text.
pub open spec fn word_kind(text: Seq<char>) -> Kind {
    if text == "fn"@ {
        Kind::Function
    } else if text == "let"@ {
        Kind::Let
    } else if text == "if"@ {
        Kind::If
    } else if text == "elif"@ {
        Kind::Elif
    } else if text == "else"@ {
        Kind::Else
    } else if text == "false"@ {
        Kind::False
    } else if text == "true"@ {
        Kind::True
    } else if text == "return"@ {
        Kind::Return
    } else {
        Kind::Identifier(text)
    }
}

/// The kind of the operator or punctuation token that begins with `first`,
/// where `second` is the byte after it.
pub open spec fn symbol_kind(first: u8, second: u8) -> Kind {
    if first == '{' as u8 {
        Kind::LCurly
    } else if first == '}' as u8 {
        Kind::RCurly
    } else if first == '(' as u8 {
        Kind::LParen
    } else if first == ')' as u8 {
        Kind::RParen
    } else if first == ',' as u8 {
        Kind::Comma
    } else if first == ';' as u8 {
        Kind::Semicolon
    } else if first == '+' as u8 {
        Kind::Plus
    } else if first == '-' as u8 {
        Kind::Minus
    } else if first == '*' as u8 {
        Kind::Asterisk
    } else if first == '/' as u8 {
        Kind::FSlash
    } else if first == '!' as u8 {
        if second == '=' as u8 { Kind::NotEqual } else { Kind::Bang }
    } else if first == '=' as u8 {
        if second == '=' as u8 { Kind::Equal } else { Kind::Assign }
    } else if first == '<' as u8 {
        if second == '=' as u8 { Kind::LessThanOrEqual } else { Kind::LessThan }
    } else if first == '>' as u8 {
        if second == '=' as u8 { Kind::GreaterThanOrEqual } else { Kind::GreaterThan }
    } else {
        Kind::Illegal
    }
}

/// Where the token that is scanned from `pos` begins: after the whitespace
/// at `pos`, if any.
pub open spec fn token_start(source: Seq<u8>, pos: int) -> int {
    run_end(source, pos, ByteClass::Space)
}

/// The number of source bytes of the token whose first byte stands at `at`.
/// The end of the input has none.
pub open spec fn lexeme_len(source: Seq<u8>, at: int) -> int {
    let first = byte_at(source, at);
    if first == SENTINEL {
        0
    } else if is_word_start(first) {
        run_end(source, at, ByteClass::Word) - at
    } else if is_digit(first) {
        run_end(source, at, ByteClass::Digit) - at
    } else if pairs_with_equals(first) && byte_at(source, at + 1) == '=' as u8 {
        2
    } else {
        1
    }
}

/// The literal of the token whose first byte stands at `at`.
pub open spec fn lexeme_text(source: Seq<u8>, at: int) -> Seq<char> {
    lossy_text(source.subrange(at, at + lexeme_len(source, at)))
}

/// The kind of the token whose first byte stands at `at`.
pub open spec fn lexeme_kind(source: Seq<u8>, at: int) -> Kind {
    let first = byte_at(source, at);
    if first == SENTINEL {
        Kind::EOF
    } else if is_word_start(first) {
        word_kind(lexeme_text(source, at))
    } else if is_digit(first) {
        Kind::Number(lexeme_text(source, at))
    } else {
        symbol_kind(first, byte_at(source, at + 1))
    }
}

/// The token that a scan from `pos` yields.
pub open spec fn token_at(source: Seq<u8>, pos: int) -> TokenView {
    let at = token_start(source, pos);
    let kind = lexeme_kind(source, at);
    let literal = lexeme_text(source, at);
    TokenView {
        tag: tag_of(kind),
        kind,
        literal,
        line: line_at(source, at),
        column: column_at(source, at),
        width: encode_utf8(literal).len() as int,
    }
}

/// Where the scanner stands after it has yielded the token scanned from
/// `pos`: past the token, or at the end of the input for good.
pub open spec fn after_token(source: Seq<u8>, pos: int) -> int {
    let at = token_start(source, pos);
    at + lexeme_len(source, at)
}

/// Every token from `pos` on, up to and with the first end-of-input token.
pub open spec fn tokens_from(source: Seq<u8>, pos: int) -> Seq<TokenView>
    decreases source.len() - pos,
    via tokens_from_decreases
{
    let token = token_at(source, pos);
    if token.kind == Kind::EOF {
        seq![token]
    } else {
        seq![token] + tokens_from(source, after_token(source, pos))
    }
}

#[via_fn]
proof fn tokens_from_decreases(source: Seq<u8>, pos: int) {
    lemma_token_extent(source, pos);
}

/// A run lies within the source, holds bytes of its class only, and cannot
/// be made longer.
pub proof fn lemma_run_end(source: Seq<u8>, from: int, class: ByteClass)
    requires
        0 <= from <= source.len(),
    ensures
        from <= run_end(source, from, class) <= source.len(),
        forall|i: int| from <= i < run_end(source, from, class) ==> class.holds(#[trigger] source[i]),
        !class.holds(byte_at(source, run_end(source, from, class))),
    decreases source.len() - from,
{
    if from < source.len() && class.holds(source[from]) {
        lemma_run_end(source, from + 1, class);
    }
}

/// Lines and columns are at least 1 and grow by at most one per byte.
pub proof fn lemma_position_bounds(source: Seq<u8>, i: int)
    requires
        0 <= i,
    ensures
        0 <= newlines_before(source, i) <= i,
        0 <= line_start(source, i) <= i,
        1 <= line_at(source, i) <= i + 1,
        1 <= column_at(source, i) <= i + 1,
    decreases i,
{
    if i > 0 {
        lemma_position_bounds(source, i - 1);
    }
}

/// Along a stretch without a line feed the line stays and the column counts
/// the bytes.
pub proof fn lemma_position_along(source: Seq<u8>, from: int, to: int)
    requires
        0 <= from <= to,
        forall|i: int| from <= i < to ==> byte_at(source, i) != NEWLINE,
    ensures
        line_at(source, to) == line_at(source, from),
        column_at(source, to) == column_at(source, from) + (to - from),
    decreases to - from,
{
    if from < to {
        lemma_position_along(source, from, to - 1);
    }
}

/// What the bytes of one token are. A token that begins at a byte other
/// than the sentinel has at least that byte and lies within the source. No
/// line feed is part of it unless it begins with one. It is all ASCII, or it
/// is a single byte.
pub proof fn lemma_lexeme(source: Seq<u8>, at: int)
    requires
        byte_at(source, at) != SENTINEL,
    ensures
        0 <= at < at + lexeme_len(source, at) <= source.len(),
        byte_at(source, at) != NEWLINE ==> forall|i: int|
            at <= i < at + lexeme_len(source, at) ==> byte_at(source, i) != NEWLINE,
        lexeme_len(source, at) == 1 || forall|i: int|
            at <= i < at + lexeme_len(source, at) ==> #[trigger] source[i] < 0x80,
{
    let first = byte_at(source, at);
    if is_word_start(first) {
        lemma_run_end(source, at, ByteClass::Word);
        assert forall|i: int| at <= i < run_end(source, at, ByteClass::Word) implies source[i]
            != NEWLINE && #[trigger] source[i] < 0x80 by {
            lemma_class_members(ByteClass::Word, source[i]);
        }
    } else if is_digit(first) {
        lemma_run_end(source, at, ByteClass::Digit);
        assert forall|i: int| at <= i < run_end(source, at, ByteClass::Digit) implies source[i]
            != NEWLINE && #[trigger] source[i] < 0x80 by {
            lemma_class_members(ByteClass::Digit, source[i]);
        }
    }
}

/// How far one scan goes. A token other than the end of the input begins at
/// or after `pos`, within the source, and has at least one byte: the scan
/// moves on. At the end of the input the scan stops where the token would
/// begin.
pub proof fn lemma_token_extent(source: Seq<u8>, pos: int)
    ensures
        token_at(source, pos).kind != Kind::EOF ==> 0 <= pos <= token_start(source, pos)
            < after_token(source, pos) <= source.len(),
        token_at(source, pos).kind == Kind::EOF ==> after_token(source, pos) == token_start(
            source,
            pos,
        ),
        token_at(source, pos).kind == Kind::EOF <==> byte_at(source, token_start(source, pos))
            == SENTINEL,
        0 <= pos <= source.len() ==> pos <= token_start(source, pos) <= source.len(),
{
    let at = token_start(source, pos);
    if 0 <= pos <= source.len() {
        lemma_run_end(source, pos, ByteClass::Space);
    }
    let first = byte_at(source, at);
    if first != SENTINEL {
        lemma_lexeme(source, at);
    }
}

} // verus!
