//! The two fixed tables of the language: its keywords, and its operators and
//! punctuation.

use vstd::prelude::*;
use crate::grammar::{symbol_kind, word_kind};
use crate::text::same_text;
use crate::token::TokenType;

verus! {

/// Looks an identifier-shaped word up in the keyword table: `fn`, `let`,
/// `if`, `elif`, `else`, `false`, `true` and `return` are keywords, any other
/// word is an identifier that carries its own text.
pub fn word_type(word: &str) -> (token_type: TokenType)
    ensures
        token_type@ == word_kind(word@),
{
    if same_text(word, "fn") {
        TokenType::Function
    } else if same_text(word, "let") {
        TokenType::Let
    } else if same_text(word, "if") {
        TokenType::If
    } else if same_text(word, "elif") {
        TokenType::Elif
    } else if same_text(word, "else") {
        TokenType::Else
    } else if same_text(word, "false") {
        TokenType::False
    } else if same_text(word, "true") {
        TokenType::True
    } else if same_text(word, "return") {
        TokenType::Return
    } else {
        TokenType::Identifier(word.to_owned())
    }
}

/// The operator or punctuation token that begins with the byte `first`,
/// where `second` is the byte after it: `!`, `=`, `<` and `>` join with a
/// following `=`, and a byte that begins nothing is illegal.
pub fn symbol_type(first: u8, second: u8) -> (token_type: TokenType)
    ensures
        token_type@ == symbol_kind(first, second),
{
    let joined = second == '=' as u8;
    if first == '{' as u8 {
        TokenType::LCurly
    } else if first == '}' as u8 {
        TokenType::RCurly
    } else if first == '(' as u8 {
        TokenType::LParen
    } else if first == ')' as u8 {
        TokenType::RParen
    } else if first == ',' as u8 {
        TokenType::Comma
    } else if first == ';' as u8 {
        TokenType::Semicolon
    } else if first == '+' as u8 {
        TokenType::Plus
    } else if first == '-' as u8 {
        TokenType::Minus
    } else if first == '*' as u8 {
        TokenType::Asterisk
    } else if first == '/' as u8 {
        TokenType::FSlash
    } else if first == '!' as u8 {
        if joined { TokenType::NotEqual } else { TokenType::Bang }
    } else if first == '=' as u8 {
        if joined { TokenType::Equal } else { TokenType::Assign }
    } else if first == '<' as u8 {
        if joined { TokenType::LessThanOrEqual } else { TokenType::LessThan }
    } else if first == '>' as u8 {
        if joined { TokenType::GreaterThanOrEqual } else { TokenType::GreaterThan }
    } else {
        TokenType::Illegal
    }
}

} // verus!
