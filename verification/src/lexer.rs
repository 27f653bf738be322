//! The scanner: a byte buffer, a cursor over it, and the operation that
//! yields the next token.

use vstd::prelude::*;
use vstd::utf8::encode_utf8;
use crate::classes::{
    ByteClass, NEWLINE, SENTINEL, is_digit, is_space, is_word_start, lemma_class_members,
    pairs_with_equals,
};
use crate::grammar::{
    after_token, byte_at, column_at, lemma_lexeme, lemma_position_along, lemma_position_bounds,
    lemma_run_end, lemma_token_extent, lexeme_len, line_at, lossy_text, run_end, token_at,
    token_start, tokens_from,
};
use crate::kinds::{symbol_type, word_type};
use crate::laws::{lemma_end_is_final, lemma_scan_terminates};
use crate::text::{decode, lemma_lossy_text_width};
pub use crate::token::{Position, Token, TokenType};
use crate::token::{Kind, tag_for, views};

verus! {

/// The scanner's place in the source: the byte under it, the index of that
/// byte and of the one after it, and the line and column of that byte.
#[derive(Debug, Clone, Copy)]
struct Cursor {
    ch: u8,
    curr_pos: usize,
    peek_pos: usize,
    line: usize,
    column: usize,
}

impl Cursor {
    /// The cursor stands on a byte of `source`, or at its end, and its
    /// counters agree with what lies before it.
    spec fn tracks(self, source: Seq<u8>) -> bool {
        &&& self.curr_pos <= source.len()
        &&& self.peek_pos == self.curr_pos + 1
        &&& self.ch == byte_at(source, self.curr_pos as int)
        &&& self.line == line_at(source, self.curr_pos as int)
        &&& self.column == column_at(source, self.curr_pos as int)
    }

    /// The cursor before anything has been read: line 1, column 0.
    fn origin() -> (cursor: Cursor)
        ensures
            cursor == (Cursor { ch: SENTINEL, curr_pos: 0, peek_pos: 0, line: 1, column: 0 }),
    {
        Cursor { ch: SENTINEL, curr_pos: 0, peek_pos: 0, line: 1, column: 0 }
    }

    /// The advance step: moves on by one byte, from any state.
    ///
    /// The byte ahead becomes the current one, or the sentinel where the
    /// lookahead is past the end of the input, and it stays the sentinel on
    /// every later step. The column goes up by one on every call. The input
    /// and the line counter are left alone. The two bounds are those of the
    /// machine: the counters that go up must have room.
    fn read_char(self, input: &Vec<u8>) -> (next: Cursor)
        requires
            self.peek_pos < usize::MAX,
            self.column < usize::MAX,
        ensures
            next.ch == (if self.peek_pos < input@.len() {
                input@[self.peek_pos as int]
            } else {
                SENTINEL
            }),
            next.curr_pos == self.peek_pos,
            next.peek_pos == self.peek_pos + 1,
            next.column == self.column + 1,
            next.line == self.line,
            self.peek_pos >= input@.len() ==> next.ch == SENTINEL && next.peek_pos > input@.len(),
    {
        let ch: u8 = if self.peek_pos >= input.len() {
            SENTINEL
        } else {
            input[self.peek_pos]
        };
        Cursor {
            ch,
            curr_pos: self.peek_pos,
            peek_pos: self.peek_pos + 1,
            line: self.line,
            column: self.column + 1,
        }
    }
}

/// A scanner over one source text.
///
/// It owns the bytes of the text and a cursor into them. What it has yet to
/// yield depends on two things only: the bytes, [`Lexer::source`], and the
/// index it stands at, [`Lexer::offset`].
#[derive(Debug)]
pub struct Lexer {
    input: Vec<u8>,
    cursor: Cursor,
}

impl Lexer {
    #[verifier::type_invariant]
    spec fn well_formed(self) -> bool {
        &&& self.input@.len() < usize::MAX
        &&& self.cursor.tracks(self.input@)
    }

    /// The bytes that the scanner reads.
    pub closed spec fn source(self) -> Seq<u8> {
        self.input@
    }

    /// The index of the byte that the scanner stands on; the length of the
    /// source once it has run off the end.
    pub closed spec fn offset(self) -> int {
        self.cursor.curr_pos as int
    }

    /// A scanner at the first byte of `input`.
    ///
    /// Lines and columns are counted in `usize`, up to one more than the
    /// number of bytes, so the input must be shorter than `usize::MAX` bytes.
    pub fn new(input: String) -> (lexer: Lexer)
        requires
            encode_utf8(input@).len() < usize::MAX,
        ensures
            lexer.source() == encode_utf8(input@),
            lexer.offset() == 0,
    {
        let input = input.into_bytes();
        let cursor = Cursor::origin().read_char(&input);
        Lexer { input, cursor }
    }

    /// The byte after the current one, or the sentinel past the end. Nothing
    /// is consumed.
    fn peek_char(&self) -> (b: u8)
        ensures
            b == byte_at(self.source(), self.offset() + 1),
    {
        proof {
            use_type_invariant(self);
        }
        if self.cursor.peek_pos >= self.input.len() {
            SENTINEL
        } else {
            self.input[self.cursor.peek_pos]
        }
    }

    /// Takes the advance step on the scanner's own cursor. The current byte
    /// is neither the sentinel nor a line feed: past such a byte the step
    /// alone keeps the line and the column right.
    fn consume(&mut self)
        requires
            byte_at(old(self).source(), old(self).offset()) != SENTINEL,
            byte_at(old(self).source(), old(self).offset()) != NEWLINE,
        ensures
            final(self).source() == old(self).source(),
            final(self).offset() == old(self).offset() + 1,
    {
        proof {
            use_type_invariant(&*self);
            lemma_position_bounds(self.input@, self.cursor.curr_pos as int);
        }
        self.cursor = self.cursor.read_char(&self.input);
    }

    /// Consumes the whitespace under the cursor, if any. A line feed begins a
    /// new line: the line counter goes up and the column starts over before
    /// the byte is consumed.
    fn skip_whitespace(&mut self)
        ensures
            final(self).source() == old(self).source(),
            final(self).offset() == token_start(old(self).source(), old(self).offset()),
    {
        proof {
            use_type_invariant(&*self);
        }
        while is_space(self.cursor.ch)
            invariant
                self.source() == old(self).source(),
                self.input@.len() < usize::MAX,
                self.cursor.tracks(self.input@),
                token_start(self.source(), self.offset()) == token_start(
                    old(self).source(),
                    old(self).offset(),
                ),
            decreases self.source().len() - self.offset(),
        {
            let mut cursor = self.cursor;
            proof {
                lemma_position_bounds(self.input@, cursor.curr_pos as int);
            }
            if cursor.ch == NEWLINE {
                cursor.line = cursor.line + 1;
                cursor.column = 0;
            }
            self.cursor = cursor.read_char(&self.input);
        }
    }

    /// Consumes the longest run of `class` bytes under the cursor and returns
    /// its text. The class is one without line feeds.
    fn read_run(&mut self, class: ByteClass) -> (text: String)
        requires
            class != ByteClass::Space,
        ensures
            final(self).source() == old(self).source(),
            final(self).offset() == run_end(old(self).source(), old(self).offset(), class),
            text@ == lossy_text(
                old(self).source().subrange(old(self).offset(), final(self).offset()),
            ),
    {
        let start_pos: usize = self.cursor.curr_pos;
        proof {
            use_type_invariant(&*self);
        }
        while class.holds(self.cursor.ch)
            invariant
                self.source() == old(self).source(),
                self.input@.len() < usize::MAX,
                self.cursor.tracks(self.input@),
                class != ByteClass::Space,
                start_pos == old(self).offset(),
                start_pos <= self.offset(),
                run_end(self.source(), self.offset(), class) == run_end(
                    old(self).source(),
                    old(self).offset(),
                    class,
                ),
            decreases self.source().len() - self.offset(),
        {
            proof {
                lemma_class_members(class, self.cursor.ch);
            }
            self.consume();
            proof {
                use_type_invariant(&*self);
            }
        }
        let run = &self.input[start_pos..self.cursor.curr_pos];
        proof {
            lemma_run_end(self.input@, start_pos as int, class);
            assert forall|i: int| 0 <= i < run@.len() implies #[trigger] run@[i] < 0x80 by {
                lemma_class_members(class, self.input@[start_pos + i]);
            }
        }
        decode(run)
    }

    /// Consumes the identifier or keyword under the cursor and returns its
    /// text.
    fn read_identifier(&mut self) -> (text: String)
        ensures
            final(self).source() == old(self).source(),
            final(self).offset() == run_end(
                old(self).source(),
                old(self).offset(),
                ByteClass::Word,
            ),
            text@ == lossy_text(
                old(self).source().subrange(old(self).offset(), final(self).offset()),
            ),
    {
        self.read_run(ByteClass::Word)
    }

    /// Consumes the number under the cursor and returns its digits.
    fn read_number(&mut self) -> (text: String)
        ensures
            final(self).source() == old(self).source(),
            final(self).offset() == run_end(
                old(self).source(),
                old(self).offset(),
                ByteClass::Digit,
            ),
            text@ == lossy_text(
                old(self).source().subrange(old(self).offset(), final(self).offset()),
            ),
    {
        self.read_run(ByteClass::Digit)
    }

    /// Scans the next token and moves past it.
    ///
    /// Whitespace is skipped first. Then the byte under the cursor decides:
    /// a letter or `_` begins an identifier or keyword, a digit a number,
    /// the sentinel is the end of the input, and any other byte is an
    /// operator, a punctuation mark or illegal. An illegal byte is a token
    /// like any other: the scan goes on after it.
    ///
    /// At the end of the input the scanner stays where it is, so that every
    /// further call gives the same end-of-input token. A zero byte in the
    /// source is the sentinel too, and ends the scan where it stands.
    pub fn next_token(&mut self) -> (token: Token)
        ensures
            token@ == token_at(old(self).source(), old(self).offset()),
            final(self).source() == old(self).source(),
            final(self).offset() == after_token(old(self).source(), old(self).offset()),
            old(self).offset() <= final(self).offset() <= final(self).source().len(),
            token@.kind != Kind::EOF ==> old(self).offset() < final(self).offset(),
            token@.kind == Kind::EOF ==> token_at(final(self).source(), final(self).offset())
                == token@,
            token@.kind == Kind::EOF ==> after_token(final(self).source(), final(self).offset())
                == final(self).offset(),
    {
        proof {
            use_type_invariant(&*self);
            lemma_token_extent(self.source(), self.offset());
            lemma_run_end(self.source(), self.offset(), ByteClass::Space);
            if token_at(self.source(), self.offset()).kind == Kind::EOF {
                lemma_end_is_final(self.source(), self.offset(), 1);
            }
        }
        self.skip_whitespace();
        proof {
            use_type_invariant(&*self);
        }
        let ghost at = self.offset();
        let ch: u8 = self.cursor.ch;
        let line: usize = self.cursor.line;
        if ch == SENTINEL {
            proof {
                assert(self.input@.subrange(at, at) =~= Seq::<u8>::empty());
                assert(lossy_text(Seq::<u8>::empty()) =~= Seq::<char>::empty());
            }
            let token_type = TokenType::EOF;
            return Token {
                tag: tag_for(&token_type),
                token_type,
                literal: String::new(),
                position: Position { line, column: self.cursor.column, width: 0 },
            };
        }
        proof {
            let end = at + lexeme_len(self.input@, at);
            lemma_lexeme(self.input@, at);
            lemma_position_along(self.input@, at, end);
            lemma_lossy_text_width(self.input@.subrange(at, end));
        }
        if is_word_start(ch) {
            let identifier = self.read_identifier();
            proof {
                use_type_invariant(&*self);
            }
            let token_type = word_type(identifier.as_str());
            let width: usize = identifier.as_str().len();
            return Token {
                tag: tag_for(&token_type),
                token_type,
                literal: identifier,
                position: Position { line, column: self.cursor.column - width, width },
            };
        }
        if is_digit(ch) {
            let number = self.read_number();
            proof {
                use_type_invariant(&*self);
            }
            let token_type = TokenType::Number(number.clone());
            let width: usize = number.as_str().len();
            return Token {
                tag: tag_for(&token_type),
                token_type,
                literal: number,
                position: Position { line, column: self.cursor.column - width, width },
            };
        }
        let start_pos: usize = self.cursor.curr_pos;
        let column: usize = self.cursor.column;
        let peek: u8 = self.peek_char();
        let token_type = symbol_type(ch, peek);
        if pairs_with_equals(ch) && peek == '=' as u8 {
            self.consume();
            proof {
                use_type_invariant(&*self);
            }
        }
        let literal = decode(&self.input[start_pos..self.cursor.peek_pos]);
        let width: usize = literal.as_str().len();
        self.consume();
        Token {
            tag: tag_for(&token_type),
            token_type,
            literal,
            position: Position { line, column, width },
        }
    }
}

impl vstd::std_specs::convert::IntoSpecImpl<Vec<Token>> for Lexer {
    /// Two scans of one source give equal tokens in strings of their own, so
    /// what `into` returns is stated in its contract, over the tokens' views,
    /// and not as one value here.
    open spec fn obeys_into_spec() -> bool {
        false
    }

    open spec fn into_spec(self) -> Vec<Token> {
        arbitrary()
    }
}

impl Into<Vec<Token>> for Lexer {
    /// Drains the scanner: every token from where it stands, in order, up to
    /// and with the first end-of-input token. There are at most as many
    /// tokens before that one as there are bytes left.
    fn into(self) -> (tokens: Vec<Token>)
        ensures
            views(tokens) == tokens_from(self.source(), self.offset()),
            1 <= views(tokens).len() <= self.source().len() - self.offset() + 1,
    {
        let mut lexer = self;
        let mut tokens: Vec<Token> = Vec::new();
        let mut done = false;
        proof {
            use_type_invariant(&lexer);
            lemma_scan_terminates(self.source(), self.offset());
        }
        while !done
            invariant
                lexer.source() == self.source(),
                !done ==> views(tokens) + tokens_from(lexer.source(), lexer.offset())
                    == tokens_from(self.source(), self.offset()),
                done ==> views(tokens) == tokens_from(self.source(), self.offset()),
            decreases (if done { 0 } else { 1 + lexer.source().len() - lexer.offset() }),
        {
            let ghost rest = tokens_from(lexer.source(), lexer.offset());
            let ghost earlier = tokens;
            let token = lexer.next_token();
            done = match token.token_type {
                TokenType::EOF => true,
                _ => false,
            };
            tokens.push(token);
            proof {
                assert(views(earlier) + rest =~= views(tokens) + rest.subrange(
                    1,
                    rest.len() as int,
                ));
                if !done {
                    assert(rest.subrange(1, rest.len() as int) =~= tokens_from(
                        lexer.source(),
                        lexer.offset(),
                    ));
                }
            }
        }
        tokens
    }
}

} // verus!
