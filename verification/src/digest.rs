//! Digests of text, written in hexadecimal.

use vstd::prelude::*;
use vstd::utf8::encode_utf8;

verus! {

/// The sixteen bytes of the MD5 digest of `data`.
pub uninterp spec fn md5_digest(data: Seq<u8>) -> Seq<u8>;

/// `md5::compute`, handing out the bytes of the digest.
/// Trusted: the answer is `md5_digest`; that it has sixteen bytes is in its type.
#[verifier::external_body]
fn md5_of(data: &[u8]) -> (digest: [u8; 16])
    ensures
        digest@ == md5_digest(data@),
{
    md5::compute(data).0
}

/// The lower-case hexadecimal digit that stands for `n`.
pub open spec fn hex_digit(n: int) -> char {
    if n < 10 {
        crate::text::digit_char(n)
    } else if n == 10 {
        'a'
    } else if n == 11 {
        'b'
    } else if n == 12 {
        'c'
    } else if n == 13 {
        'd'
    } else if n == 14 {
        'e'
    } else {
        'f'
    }
}

/// The bytes written in lower-case hexadecimal, two digits each, the high half first.
pub open spec fn hex_text(bytes: Seq<u8>) -> Seq<char> {
    Seq::new(
        2 * bytes.len(),
        |i: int|
            if i % 2 == 0 {
                hex_digit(bytes[i / 2] as int / 16)
            } else {
                hex_digit(bytes[i / 2] as int % 16)
            },
    )
}

/// The lower-case hexadecimal digit that stands for `n`.
fn hex_digit_of(n: u8) -> (c: char)
    requires
        n < 16,
    ensures
        c == hex_digit(n as int),
{
    if n == 0 {
        '0'
    } else if n == 1 {
        '1'
    } else if n == 2 {
        '2'
    } else if n == 3 {
        '3'
    } else if n == 4 {
        '4'
    } else if n == 5 {
        '5'
    } else if n == 6 {
        '6'
    } else if n == 7 {
        '7'
    } else if n == 8 {
        '8'
    } else if n == 9 {
        '9'
    } else if n == 10 {
        'a'
    } else if n == 11 {
        'b'
    } else if n == 12 {
        'c'
    } else if n == 13 {
        'd'
    } else if n == 14 {
        'e'
    } else {
        'f'
    }
}

/// Writes `bytes` in lower-case hexadecimal.
pub fn to_hex(bytes: &[u8]) -> (text: String)
    ensures
        text@ == hex_text(bytes@),
{
    let mut text = String::new();
    let mut i: usize = 0;
    while i < bytes.len()
        invariant
            i <= bytes.len(),
            text@ == hex_text(bytes@.take(i as int)),
        decreases bytes.len() - i,
    {
        let byte = bytes[i];
        text.push(hex_digit_of(byte / 16));
        text.push(hex_digit_of(byte % 16));
        i += 1;
    }
    text
}

/// The MD5 digest of the UTF-8 form of a text, in lower-case hexadecimal.
pub open spec fn md5_hex(text: Seq<char>) -> Seq<char> {
    hex_text(md5_digest(encode_utf8(text)))
}

/// A word that can stand in a line of words: it is not empty and holds neither
/// a blank nor a line break.
pub open spec fn is_word(s: Seq<char>) -> bool {
    s.len() > 0 && !s.contains(' ') && !s.contains('\n')
}

/// Hexadecimal text of one byte or more is a word.
pub proof fn lemma_hex_is_word(bytes: Seq<u8>)
    requires
        bytes.len() > 0,
    ensures
        is_word(hex_text(bytes)),
        hex_text(bytes).len() == 2 * bytes.len(),
{
    let text = hex_text(bytes);
    assert forall|i: int| 0 <= i < text.len() implies text[i] != ' ' && text[i] != '\n' by {}
}

/// The MD5 digest of the UTF-8 form of `text`, in lower-case hexadecimal:
/// thirty-two digits.
pub fn md5_hex_of(text: &str) -> (hex: String)
    ensures
        hex@ == md5_hex(text@),
        hex@.len() == 32,
        is_word(hex@),
{
    let digest = md5_of(text.as_bytes());
    proof {
        lemma_hex_is_word(digest@);
    }
    to_hex(digest.as_slice())
}

} // verus!
