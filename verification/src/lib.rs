//! A scanner for a small C-like scripting language: source text in,
//! position-annotated tokens out.
//!
//! The input is read as a stream of bytes. [`Lexer::next_token`] hands out one
//! token per call and never fails: a byte that starts no token comes back as
//! an `Illegal` token, and the end of the input as `EOF`, again and again.
//!
//! What each call returns is fixed by the functions of [`grammar`], which say
//! in terms of the source bytes alone which token stands at a position.

pub mod classes;
pub mod token;
pub mod grammar;
pub mod text;
pub mod kinds;
pub mod lexer;
pub mod laws;

pub use crate::lexer::{Lexer, Position, Token, TokenType};
