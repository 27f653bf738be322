//! Between bytes and text: the two calls into the standard library that the
//! scanner rests on, and what is proved of their results.

use vstd::prelude::*;
use vstd::utf8::{
    decode_utf8, encode_utf8, encode_utf8_decode_utf8, encode_utf8_valid_utf8, is_ascii_chars,
    is_ascii_chars_encode_utf8, valid_utf8,
};
use crate::grammar::{REPLACEMENT, lossy_text};

verus! {

/// `String::into_bytes`: the bytes of a string are its UTF-8 encoding.
/// Believed, not proved.
pub assume_specification[ String::into_bytes ](text: String) -> (bytes: Vec<u8>)
    ensures
        bytes@ == encode_utf8(text@),
;

/// `String::from_utf8_lossy`, made into an owned string. Believed, not
/// proved: bytes that are valid UTF-8 come back as the text they encode, and
/// a single byte that is no character by itself comes back as one
/// replacement character. Of other invalid input nothing is claimed.
#[verifier::external_body]
fn from_utf8_lossy(bytes: &[u8]) -> (text: String)
    ensures
        valid_utf8(bytes@) ==> text@ == decode_utf8(bytes@),
        bytes@.len() == 1 && bytes@[0] >= 0x80 ==> text@ == seq![REPLACEMENT],
{
    String::from_utf8_lossy(bytes).into_owned()
}

/// Whether every byte is ASCII.
pub open spec fn all_ascii(bytes: Seq<u8>) -> bool {
    forall|i: int| 0 <= i < bytes.len() ==> #[trigger] bytes[i] < 0x80
}

/// ASCII bytes are valid UTF-8. They encode the text that has one character
/// per byte, of the same code, and that text encodes back to them.
pub proof fn lemma_ascii_text(bytes: Seq<u8>)
    requires
        all_ascii(bytes),
    ensures
        valid_utf8(bytes),
        decode_utf8(bytes) == lossy_text(bytes),
        encode_utf8(lossy_text(bytes)) == bytes,
        is_ascii_chars(lossy_text(bytes)),
{
    let text = lossy_text(bytes);
    is_ascii_chars_encode_utf8(text);
    assert(encode_utf8(text) =~= bytes);
    encode_utf8_valid_utf8(text);
    encode_utf8_decode_utf8(text);
}

/// The replacement character takes three bytes.
pub proof fn lemma_replacement_width()
    ensures
        encode_utf8(seq![REPLACEMENT]).len() == 3,
{
    let text = seq![REPLACEMENT];
    assert(text.drop_first() =~= Seq::<char>::empty());
    reveal_with_fuel(encode_utf8, 2);
}

/// The length in bytes of the text of a stretch of source: one per ASCII
/// byte, and three for a lone byte outside ASCII.
pub proof fn lemma_lossy_text_width(bytes: Seq<u8>)
    requires
        all_ascii(bytes) || bytes.len() == 1,
    ensures
        encode_utf8(lossy_text(bytes)).len() == if all_ascii(bytes) {
            bytes.len()
        } else {
            3
        },
{
    if all_ascii(bytes) {
        lemma_ascii_text(bytes);
    } else {
        assert(lossy_text(bytes) =~= seq![REPLACEMENT]);
        lemma_replacement_width();
    }
}

/// The text of a stretch of source bytes, each byte read on its own. The
/// stretch is all ASCII, or it is a single byte.
pub(crate) fn decode(bytes: &[u8]) -> (text: String)
    requires
        all_ascii(bytes@) || bytes@.len() == 1,
    ensures
        text@ == lossy_text(bytes@),
{
    proof {
        if all_ascii(bytes@) {
            lemma_ascii_text(bytes@);
        } else {
            assert(lossy_text(bytes@) =~= seq![REPLACEMENT]);
        }
    }
    from_utf8_lossy(bytes)
}

/// Whether two strings hold the same text, decided on their bytes.
pub fn same_text(a: &str, b: &str) -> (yes: bool)
    ensures
        yes == (a@ == b@),
{
    let left = a.as_bytes();
    let right = b.as_bytes();
    if left.len() != right.len() {
        return false;
    }
    let mut i: usize = 0;
    while i < left.len()
        invariant
            i <= left@.len(),
            left@.len() == right@.len(),
            left@ == encode_utf8(a@),
            right@ == encode_utf8(b@),
            forall|k: int| 0 <= k < i ==> left@[k] == right@[k],
        decreases left@.len() - i,
    {
        if left[i] != right[i] {
            return false;
        }
        i += 1;
    }
    proof {
        assert(left@ =~= right@);
        encode_utf8_decode_utf8(a@);
        encode_utf8_decode_utf8(b@);
    }
    true
}

} // verus!
