//! Tokens, and the mathematical values that contracts speak of in their place.

use vstd::prelude::*;

verus! {

/// What a token is.
#[derive(Debug, PartialEq, Clone)]
pub enum TokenType {
    // Single-character tokens
    LParen,
    RParen,
    LCurly,
    RCurly,
    Comma,
    Dot,
    Minus,
    Plus,
    Semicolon,
    FSlash,
    Asterisk,
    // One or two character tokens
    Bang,
    NotEqual,
    Assign,
    Equal,
    GreaterThan,
    GreaterThanOrEqual,
    LessThan,
    LessThanOrEqual,
    // Literals
    Identifier(String),
    Number(String),
    // Keywords
    If,
    Else,
    Elif,
    True,
    False,
    Let,
    Function,
    Return,
    // End of file
    EOF,
    Illegal,
}

/// A token's kind as a mathematical value: [`TokenType`] with the text of
/// identifiers and numbers as a sequence of characters.
pub enum Kind {
    LParen,
    RParen,
    LCurly,
    RCurly,
    Comma,
    Dot,
    Minus,
    Plus,
    Semicolon,
    FSlash,
    Asterisk,
    Bang,
    NotEqual,
    Assign,
    Equal,
    GreaterThan,
    GreaterThanOrEqual,
    LessThan,
    LessThanOrEqual,
    Identifier(Seq<char>),
    Number(Seq<char>),
    If,
    Else,
    Elif,
    True,
    False,
    Let,
    Function,
    Return,
    EOF,
    Illegal,
}

impl View for TokenType {
    type V = Kind;

    open spec fn view(&self) -> Kind {
        match self {
            TokenType::LParen => Kind::LParen,
            TokenType::RParen => Kind::RParen,
            TokenType::LCurly => Kind::LCurly,
            TokenType::RCurly => Kind::RCurly,
            TokenType::Comma => Kind::Comma,
            TokenType::Dot => Kind::Dot,
            TokenType::Minus => Kind::Minus,
            TokenType::Plus => Kind::Plus,
            TokenType::Semicolon => Kind::Semicolon,
            TokenType::FSlash => Kind::FSlash,
            TokenType::Asterisk => Kind::Asterisk,
            TokenType::Bang => Kind::Bang,
            TokenType::NotEqual => Kind::NotEqual,
            TokenType::Assign => Kind::Assign,
            TokenType::Equal => Kind::Equal,
            TokenType::GreaterThan => Kind::GreaterThan,
            TokenType::GreaterThanOrEqual => Kind::GreaterThanOrEqual,
            TokenType::LessThan => Kind::LessThan,
            TokenType::LessThanOrEqual => Kind::LessThanOrEqual,
            TokenType::Identifier(text) => Kind::Identifier(text@),
            TokenType::Number(text) => Kind::Number(text@),
            TokenType::If => Kind::If,
            TokenType::Else => Kind::Else,
            TokenType::Elif => Kind::Elif,
            TokenType::True => Kind::True,
            TokenType::False => Kind::False,
            TokenType::Let => Kind::Let,
            TokenType::Function => Kind::Function,
            TokenType::Return => Kind::Return,
            TokenType::EOF => Kind::EOF,
            TokenType::Illegal => Kind::Illegal,
        }
    }
}

/// Where a token stands in the source.
#[derive(Debug, Clone)]
pub struct Position {
    /// The line of the token's first byte, counted from 1.
    pub line: usize,
    /// The column of the token's first byte within its line, counted from 1.
    pub column: usize,
    /// The length of the token's literal in bytes.
    pub width: usize,
}

/// One lexical unit of the source.
#[derive(Debug, Clone)]
pub struct Token {
    /// A coarse category for display: `keyword`, `boolean`, `identifier`,
    /// `number` or `operator`.
    pub tag: String,
    pub token_type: TokenType,
    /// The text of the token, as it stands in the source.
    pub literal: String,
    pub position: Position,
}

/// A token as a mathematical value.
pub struct TokenView {
    pub tag: Seq<char>,
    pub kind: Kind,
    pub literal: Seq<char>,
    pub line: int,
    pub column: int,
    pub width: int,
}

impl View for Token {
    type V = TokenView;

    open spec fn view(&self) -> TokenView {
        TokenView {
            tag: self.tag@,
            kind: self.token_type@,
            literal: self.literal@,
            line: self.position.line as int,
            column: self.position.column as int,
            width: self.position.width as int,
        }
    }
}

/// The views of a vector of tokens, one for one.
pub open spec fn views(tokens: Vec<Token>) -> Seq<TokenView> {
    tokens@.map_values(|t: Token| t@)
}

/// The display category that goes with a kind.
pub open spec fn tag_of(kind: Kind) -> Seq<char> {
    match kind {
        Kind::If | Kind::Else | Kind::Elif | Kind::Let | Kind::Function | Kind::Return => "keyword"@,
        Kind::True | Kind::False => "boolean"@,
        Kind::Identifier(_) => "identifier"@,
        Kind::Number(_) => "number"@,
        _ => "operator"@,
    }
}

/// Names the display category of `token_type`.
pub fn tag_for(token_type: &TokenType) -> (tag: String)
    ensures
        tag@ == tag_of(token_type@),
{
    match token_type {
        TokenType::If
        | TokenType::Else
        | TokenType::Elif
        | TokenType::Let
        | TokenType::Function
        | TokenType::Return => "keyword".to_string(),
        TokenType::True | TokenType::False => "boolean".to_string(),
        TokenType::Identifier(_) => "identifier".to_string(),
        TokenType::Number(_) => "number".to_string(),
        _ => "operator".to_string(),
    }
}

} // verus!
