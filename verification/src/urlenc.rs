//! Percent-encoding of URL components through the `urlencoding` crate.
use vstd::prelude::*;
use vstd::utf8::encode_utf8;

verus! {

/// Bytes that `urlencoding` leaves as they are: ASCII alphanumerics and `-`, `.`, `_`, `~`.
pub open spec fn is_unreserved_byte(b: u8) -> bool {
    (48 <= b && b <= 57) || (65 <= b && b <= 90) || (97 <= b && b <= 122) || b == 45 || b == 46
        || b == 95 || b == 126
}

/// Upper-case hexadecimal digit for a value below 16.
pub open spec fn hex_upper(d: u8) -> char {
    if d < 10 {
        (48 + d) as char
    } else {
        (55 + d) as char
    }
}

/// The text that one byte of input becomes.
pub open spec fn encode_byte(b: u8) -> Seq<char> {
    if is_unreserved_byte(b) {
        seq![b as char]
    } else {
        seq!['%', hex_upper(b / 16), hex_upper(b % 16)]
    }
}

/// Percent-encoding of a byte sequence, byte by byte.
pub open spec fn encode_bytes(bs: Seq<u8>) -> Seq<char>
    decreases bs.len(),
{
    if bs.len() == 0 {
        seq![]
    } else {
        encode_byte(bs[0]) + encode_bytes(bs.drop_first())
    }
}

/// Percent-encoding of a string: its UTF-8 bytes, each encoded on its own.
pub open spec fn url_encoded(s: Seq<char>) -> Seq<char> {
    encode_bytes(encode_utf8(s))
}

/// Characters that can appear in percent-encoded text: none of them is a
/// query or path delimiter such as `?`, `&`, `=` or `/`.
pub open spec fn is_encoded_char(c: char) -> bool {
    let u = c as u32;
    (48 <= u && u <= 57) || (65 <= u && u <= 90) || (97 <= u && u <= 122) || u == 45 || u == 46
        || u == 95 || u == 126 || u == 37
}

/// `urlencoding::encode`: percent-encodes every UTF-8 byte of `s` except ASCII
/// alphanumerics and `-`, `_`, `.`, `~`, with upper-case hexadecimal digits.
#[verifier::external_body]
pub(crate) fn url_encode(s: &str) -> (r: String)
    ensures
        r@ == url_encoded(s@),
{
    urlencoding::encode(s).into_owned()
}

proof fn lemma_encode_byte_chars(b: u8)
    ensures
        forall|i: int| 0 <= i < encode_byte(b).len() ==> is_encoded_char(#[trigger] encode_byte(b)[i]),
{
    assert(b / 16 < 16) by (bit_vector);
    assert(b % 16 < 16) by (bit_vector);
}

/// Encoded text consists of unreserved characters and `%` escapes only.
pub proof fn lemma_encoded_chars(bs: Seq<u8>)
    ensures
        forall|i: int| 0 <= i < encode_bytes(bs).len() ==> is_encoded_char(#[trigger] encode_bytes(bs)[i]),
    decreases bs.len(),
{
    if bs.len() > 0 {
        lemma_encode_byte_chars(bs[0]);
        lemma_encoded_chars(bs.drop_first());
        let a = encode_byte(bs[0]);
        let b = encode_bytes(bs.drop_first());
        assert forall|i: int| 0 <= i < (a + b).len() implies is_encoded_char(#[trigger] (a + b)[i]) by {
            if i < a.len() {
                assert((a + b)[i] == a[i]);
            } else {
                assert((a + b)[i] == b[i - a.len()]);
            }
        }
    }
}

/// The percent-encoding of any string contains no delimiter.
pub proof fn lemma_url_encoded_chars(s: Seq<char>)
    ensures
        forall|i: int| 0 <= i < url_encoded(s).len() ==> is_encoded_char(#[trigger] url_encoded(s)[i]),
{
    lemma_encoded_chars(encode_utf8(s));
}

} // verus!
