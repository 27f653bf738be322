//! What holds of every scan, proved from the grammar.
//!
//! The scanner's contracts say that it returns what the grammar says, so each
//! statement here about the grammar is a statement about the scanner.

use vstd::prelude::*;
use vstd::utf8::encode_utf8;
use crate::classes::{ByteClass, SENTINEL, is_word_start, pairs_with_equals};
use crate::grammar::{
    REPLACEMENT, after_token, byte_at, lemma_lexeme, lemma_position_bounds, lemma_token_extent,
    lexeme_len, line_start, lossy_text, newlines_before, run_end, token_at, token_start,
    tokens_from, word_kind,
};
use crate::text::{all_ascii, lemma_ascii_text, lemma_lossy_text_width};
use crate::token::{Kind, tag_of};

verus! {

/// Where the scanner stands after `calls` tokens have been taken from `pos`.
pub open spec fn after_tokens(source: Seq<u8>, pos: int, calls: nat) -> int
    decreases calls,
{
    if calls == 0 {
        pos
    } else {
        after_token(source, after_tokens(source, pos, (calls - 1) as nat))
    }
}

/// A scan comes to its end. The tokens from any position are at most one
/// more than the bytes that are left, the last of them is the end of the
/// input, and no other is.
pub proof fn lemma_scan_terminates(source: Seq<u8>, pos: int)
    requires
        0 <= pos <= source.len(),
    ensures
        1 <= tokens_from(source, pos).len() <= source.len() - pos + 1,
        tokens_from(source, pos).last().kind == Kind::EOF,
        forall|i: int|
            0 <= i < tokens_from(source, pos).len() - 1 ==> (#[trigger] tokens_from(
                source,
                pos,
            )[i]).kind != Kind::EOF,
    decreases source.len() - pos,
{
    lemma_token_extent(source, pos);
    if token_at(source, pos).kind != Kind::EOF {
        lemma_scan_terminates(source, after_token(source, pos));
    }
}

/// Every token but the end of the input takes at least one byte, and none
/// reaches past the source.
pub proof fn lemma_scan_moves_on(source: Seq<u8>, pos: int)
    requires
        0 <= pos <= source.len(),
    ensures
        pos <= after_token(source, pos) <= source.len(),
        token_at(source, pos).kind != Kind::EOF ==> pos < after_token(source, pos),
{
    lemma_token_extent(source, pos);
}

/// The keyword table is exact: each of the eight keywords has its own kind,
/// and every other word is an identifier that carries its text unchanged.
pub proof fn lemma_keyword_table(text: Seq<char>)
    ensures
        text == "fn"@ ==> word_kind(text) == Kind::Function,
        text == "let"@ ==> word_kind(text) == Kind::Let,
        text == "if"@ ==> word_kind(text) == Kind::If,
        text == "elif"@ ==> word_kind(text) == Kind::Elif,
        text == "else"@ ==> word_kind(text) == Kind::Else,
        text == "true"@ ==> word_kind(text) == Kind::True,
        text == "false"@ ==> word_kind(text) == Kind::False,
        text == "return"@ ==> word_kind(text) == Kind::Return,
        text != "fn"@ && text != "let"@ && text != "if"@ && text != "elif"@ && text != "else"@
            && text != "true"@ && text != "false"@ && text != "return"@ ==> word_kind(text)
            == Kind::Identifier(text),
{
    reveal_strlit("fn");
    reveal_strlit("let");
    reveal_strlit("if");
    reveal_strlit("elif");
    reveal_strlit("else");
    reveal_strlit("true");
    reveal_strlit("false");
    reveal_strlit("return");
    assert("fn"@[0] != "if"@[0]);
    assert("let"@.len() == 3);
    assert("elif"@[2] != "else"@[2]);
    assert("elif"@[0] != "true"@[0]);
    assert("else"@[0] != "true"@[0]);
    assert("false"@.len() == 5);
    assert("return"@.len() == 6);
}

/// A token that begins with a letter or `_` is the longest run of letters,
/// digits and `_` from there: its literal is the text of that run, and its
/// kind is what the keyword table gives for that text.
pub proof fn lemma_word_token(source: Seq<u8>, pos: int)
    requires
        is_word_start(byte_at(source, token_start(source, pos))),
    ensures
        after_token(source, pos) == run_end(source, token_start(source, pos), ByteClass::Word),
        token_at(source, pos).literal == lossy_text(
            source.subrange(token_start(source, pos), after_token(source, pos)),
        ),
        token_at(source, pos).literal.len() == after_token(source, pos) - token_start(source, pos),
        token_at(source, pos).kind == word_kind(token_at(source, pos).literal),
{
    lemma_lexeme(source, token_start(source, pos));
}

/// The rule of the two-byte operators. Where `!`, `=`, `<` or `>` is
/// followed by `=`, both bytes make one token. Where it is not, the token is
/// the one byte, and the next scan begins at the byte right after it.
pub proof fn lemma_operator_pairs(source: Seq<u8>, pos: int)
    requires
        pairs_with_equals(byte_at(source, token_start(source, pos))),
    ensures
        ({
            let at = token_start(source, pos);
            let first = byte_at(source, at);
            let token = token_at(source, pos);
            if byte_at(source, at + 1) == '=' as u8 {
                &&& after_token(source, pos) == at + 2
                &&& token.literal == seq![first as char, '=']
                &&& first == '=' as u8 ==> token.kind == Kind::Equal
                &&& first == '!' as u8 ==> token.kind == Kind::NotEqual
                &&& first == '<' as u8 ==> token.kind == Kind::LessThanOrEqual
                &&& first == '>' as u8 ==> token.kind == Kind::GreaterThanOrEqual
            } else {
                &&& after_token(source, pos) == at + 1
                &&& token.literal == seq![first as char]
                &&& first == '=' as u8 ==> token.kind == Kind::Assign
                &&& first == '!' as u8 ==> token.kind == Kind::Bang
                &&& first == '<' as u8 ==> token.kind == Kind::LessThan
                &&& first == '>' as u8 ==> token.kind == Kind::GreaterThan
            }
        }),
{
    let at = token_start(source, pos);
    lemma_lexeme(source, at);
    let len = lexeme_len(source, at);
    assert(token_at(source, pos).literal =~= if len == 2 {
        seq![byte_at(source, at) as char, '=']
    } else {
        seq![byte_at(source, at) as char]
    });
}

/// The end of the input is final. Once a scan has given the end-of-input
/// token, the scanner stays where it is, and every further scan, however
/// many there are, gives that same token.
pub proof fn lemma_end_is_final(source: Seq<u8>, pos: int, calls: nat)
    requires
        token_at(source, pos).kind == Kind::EOF,
    ensures
        after_tokens(source, pos, calls + 1) == after_token(source, pos),
        token_at(source, after_tokens(source, pos, calls)) == token_at(source, pos),
    decreases calls,
{
    lemma_token_extent(source, pos);
    if calls > 0 {
        lemma_end_is_final(source, pos, (calls - 1) as nat);
    }
}

/// The shape of every token. Its tag goes with its kind. Its line is one
/// more than the number of line feeds before it, and its column counts from 1
/// at the start of its line. Its literal is the stretch of source it was
/// made of, and its width is the length of the literal in bytes. The one
/// exception is an illegal byte outside ASCII, whose literal is the
/// replacement character, three bytes wide. The end of the input has an empty
/// literal, and identifiers and numbers carry their literal.
pub proof fn lemma_token_shape(source: Seq<u8>, pos: int)
    requires
        0 <= pos <= source.len(),
    ensures
        ({
            let at = token_start(source, pos);
            let token = token_at(source, pos);
            &&& token.tag == tag_of(token.kind)
            &&& token.line == 1 + newlines_before(source, at)
            &&& token.column == at - line_start(source, at) + 1
            &&& 1 <= token.line <= at + 1
            &&& 1 <= token.column <= at + 1
            &&& token.width == encode_utf8(token.literal).len()
            &&& token.literal.len() == after_token(source, pos) - at
            &&& byte_at(source, at) < 0x80 ==> encode_utf8(token.literal) == source.subrange(
                at,
                after_token(source, pos),
            )
            &&& byte_at(source, at) < 0x80 ==> token.width == after_token(source, pos) - at
            &&& byte_at(source, at) >= 0x80 ==> token.kind == Kind::Illegal && token.literal
                == seq![REPLACEMENT] && token.width == 3
            &&& token.kind == Kind::EOF ==> token.literal == Seq::<char>::empty()
            &&& token.kind matches Kind::Identifier(text) ==> text == token.literal
            &&& token.kind matches Kind::Number(text) ==> text == token.literal
        }),
{
    let at = token_start(source, pos);
    let len = lexeme_len(source, at);
    let bytes = source.subrange(at, at + len);
    lemma_token_extent(source, pos);
    lemma_position_bounds(source, at);
    if byte_at(source, at) == SENTINEL {
        assert(lossy_text(bytes) =~= Seq::<char>::empty());
    } else {
        lemma_lexeme(source, at);
        lemma_lossy_text_width(bytes);
        if byte_at(source, at) >= 0x80 {
            assert(lossy_text(bytes) =~= seq![REPLACEMENT]);
        } else {
            lemma_ascii_text(bytes);
        }
    }
}

} // verus!
