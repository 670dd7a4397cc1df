//! SHA-256 digests and hexadecimal encoding.

use vstd::prelude::*;
use sha2::Digest;
use crate::text::{decimal, is_white_space, lemma_trimmed_unchanged, trimmed, u64_to_decimal};
use crate::error::owned;

verus! {

/// What `sha2::Sha256::digest` returns for the given bytes.
pub uninterp spec fn sha256_of(data: Seq<u8>) -> Seq<u8>;

/// SHA-256 digest of `data` (`sha2::Sha256::digest`); a digest is 32 bytes long.
#[verifier::external_body]
pub(crate) fn sha256(data: &[u8]) -> (r: Vec<u8>)
    ensures
        r@ == sha256_of(data@),
        r@.len() == 32,
{
    sha2::Sha256::digest(data).to_vec()
}

/// Lowercase hexadecimal digit of a nibble.
pub open spec fn hex_digit(n: u8) -> char {
    if n < 10 {
        ((48 + n) as u8) as char
    } else {
        ((87 + n) as u8) as char
    }
}

/// Lowercase hexadecimal text of bytes: two digits per byte, high nibble first.
pub open spec fn hex_lower(data: Seq<u8>) -> Seq<char>
    decreases data.len(),
{
    if data.len() == 0 {
        Seq::empty()
    } else {
        hex_lower(data.drop_last()) + seq![hex_digit(data.last() / 16), hex_digit(data.last() % 16)]
    }
}

/// Lowercase hexadecimal text of `data` (`hex::encode`).
#[verifier::external_body]
pub(crate) fn hex_encode(data: &[u8]) -> (r: String)
    ensures
        r@ == hex_lower(data@),
{
    hex::encode(data)
}

/// Value of a hexadecimal digit byte, upper or lower case.
pub open spec fn hex_val(c: u8) -> Option<u8> {
    if 65 <= c <= 70 {
        Some((c - 55) as u8)
    } else if 97 <= c <= 102 {
        Some((c - 87) as u8)
    } else if 48 <= c <= 57 {
        Some((c - 48) as u8)
    } else {
        None
    }
}

/// Why hexadecimal text was rejected.
#[derive(Debug, Clone, Copy, PartialEq, Eq)]
pub enum HexError {
    InvalidHexCharacter { c: char, index: usize },
    OddLength,
    InvalidStringLength,
}

/// Bytes of hexadecimal text whose digits are all valid: each pair of digits is a byte.
pub open spec fn hex_bytes(b: Seq<u8>) -> Seq<u8> {
    Seq::new(
        b.len() / 2,
        |k: int| (hex_val(b[2 * k]).unwrap() * 16 + hex_val(b[2 * k + 1]).unwrap()) as u8,
    )
}

/// Whether position `i` holds the first byte of `b` that is no hexadecimal digit.
pub open spec fn first_invalid_hex(b: Seq<u8>, i: int) -> bool {
    &&& 0 <= i < b.len()
    &&& hex_val(b[i]) is None
    &&& forall|j: int| 0 <= j < i ==> #[trigger] hex_val(b[j]) is Some
}

/// Outcome of decoding hexadecimal text given as bytes.
pub open spec fn hex_decode_spec(b: Seq<u8>) -> Result<Seq<u8>, HexError> {
    if b.len() % 2 != 0 {
        Err(HexError::OddLength)
    } else if exists|i: int| first_invalid_hex(b, i) {
        let i = choose|i: int| first_invalid_hex(b, i);
        Err(HexError::InvalidHexCharacter { c: b[i] as char, index: i as usize })
    } else {
        Ok(hex_bytes(b))
    }
}

/// Decodes hexadecimal text (`hex::decode`): an odd length is refused, then the first
/// byte that is no digit; upper and lower case digits are accepted.
#[verifier::external_body]
pub(crate) fn hex_decode(data: &[u8]) -> (r: Result<Vec<u8>, HexError>)
    ensures
        match r {
            Ok(v) => hex_decode_spec(data@) == Ok::<Seq<u8>, HexError>(v@),
            Err(e) => hex_decode_spec(data@) == Err::<Seq<u8>, HexError>(e),
        },
{
    match hex::decode(data) {
        Ok(v) => Ok(v),
        Err(hex::FromHexError::InvalidHexCharacter { c, index }) => Err(
            HexError::InvalidHexCharacter { c, index },
        ),
        Err(hex::FromHexError::OddLength) => Err(HexError::OddLength),
        Err(hex::FromHexError::InvalidStringLength) => Err(HexError::InvalidStringLength),
    }
}

/// What `format!("{:?}", c)` gives for a character: the quoted, escaped character.
pub uninterp spec fn char_debug(c: char) -> Seq<char>;

/// Debug text of a character (`<char as Debug>::fmt`).
#[verifier::external_body]
pub(crate) fn char_debug_text(c: char) -> (r: String)
    ensures
        r@ == char_debug(c),
{
    format!("{:?}", c)
}

/// Message of a hexadecimal decoding error.
pub open spec fn hex_error_message(e: HexError) -> Seq<char> {
    match e {
        HexError::InvalidHexCharacter { c, index } => "Invalid character "@ + char_debug(c)
            + " at position "@ + decimal(index as nat),
        HexError::OddLength => "Odd number of digits"@,
        HexError::InvalidStringLength => "Invalid string length"@,
    }
}

impl HexError {
    pub fn message(&self) -> (r: String)
        ensures
            r@ == hex_error_message(*self),
    {
        match self {
            HexError::InvalidHexCharacter { c, index } => {
                let mut m = owned("Invalid character ");
                m.append(char_debug_text(*c).as_str());
                m.append(" at position ");
                m.append(u64_to_decimal(*index as u64).as_str());
                m
            },
            HexError::OddLength => owned("Odd number of digits"),
            HexError::InvalidStringLength => owned("Invalid string length"),
        }
    }
}

proof fn lemma_hex_digit(n: u8)
    requires
        n < 16,
    ensures
        (hex_digit(n) as u32) == if n < 10 { 48 + n } else { 87 + n },
{
    if n < 10 {
        assert((((48 + n) as u8) as char) as u32 == ((48 + n) as u8) as u32);
    } else {
        assert((((87 + n) as u8) as char) as u32 == ((87 + n) as u8) as u32);
    }
}

pub(crate) proof fn lemma_hex_lower_len(data: Seq<u8>)
    ensures
        hex_lower(data).len() == 2 * data.len(),
        forall|k: int|
            0 <= k < data.len() ==> #[trigger] hex_lower(data)[2 * k] == hex_digit(data[k] / 16),
        forall|k: int|
            0 <= k < data.len() ==> #[trigger] hex_lower(data)[2 * k + 1] == hex_digit(data[k] % 16),
    decreases data.len(),
{
    if data.len() > 0 {
        let p = data.drop_last();
        lemma_hex_lower_len(p);
        assert forall|k: int| 0 <= k < data.len() implies #[trigger] hex_lower(data)[2 * k]
            == hex_digit(data[k] / 16) by {
            if k < data.len() - 1 {
                assert(p[k] == data[k]);
                assert(hex_lower(data)[2 * k] == hex_lower(p)[2 * k]);
            }
        }
        assert forall|k: int| 0 <= k < data.len() implies #[trigger] hex_lower(data)[2 * k + 1]
            == hex_digit(data[k] % 16) by {
            if k < data.len() - 1 {
                assert(p[k] == data[k]);
                assert(hex_lower(data)[2 * k + 1] == hex_lower(p)[2 * k + 1]);
            }
        }
    }
}

/// Decoding the bytes of lowercase hexadecimal text gives back the encoded bytes.
pub proof fn lemma_hex_roundtrip(data: Seq<u8>, text: Seq<u8>)
    requires
        text.len() == hex_lower(data).len(),
        forall|i: int| 0 <= i < text.len() ==> (#[trigger] text[i] as u32) == (hex_lower(data)[i] as u32),
    ensures
        hex_decode_spec(text) == Ok::<Seq<u8>, HexError>(data),
{
    lemma_hex_lower_len(data);
    assert forall|k: int| 0 <= k < data.len() implies hex_val(#[trigger] text[2 * k]) == Some(
        (data[k] / 16) as u8,
    ) && hex_val(text[2 * k + 1]) == Some((data[k] % 16) as u8) by {
        let hi = (data[k] / 16) as u8;
        let lo = (data[k] % 16) as u8;
        lemma_hex_digit(hi);
        lemma_hex_digit(lo);
        assert(hex_lower(data)[2 * k] == hex_digit(hi));
        assert(hex_lower(data)[2 * k + 1] == hex_digit(lo));
        assert(text[2 * k] as u32 == hex_digit(hi) as u32);
        assert(text[2 * k + 1] as u32 == hex_digit(lo) as u32);
    }
    assert forall|i: int| 0 <= i < text.len() implies #[trigger] hex_val(text[i]) is Some by {
        let k = i / 2;
        if i % 2 == 0 {
            assert(i == 2 * k);
            assert(hex_val(text[2 * k]) is Some);
        } else {
            assert(i == 2 * k + 1);
            assert(hex_val(text[2 * k + 1]) is Some);
        }
    }
    assert(!exists|i: int| first_invalid_hex(text, i));
    assert(hex_bytes(text) =~= data) by {
        assert forall|k: int| 0 <= k < data.len() implies #[trigger] hex_bytes(text)[k] == data[k] by {
            assert(hex_val(text[2 * k]) == Some((data[k] / 16) as u8));
        }
    }
}

proof fn lemma_ascii_char(c: char)
    requires
        c as u32 <= 127,
    ensures
        '\0' <= c <= '\u{7f}',
{
}

/// Lowercase hexadecimal text is ASCII, has no white space to trim, and its UTF-8
/// bytes decode back to the encoded bytes.
pub proof fn lemma_hex_text(data: Seq<u8>)
    ensures
        vstd::utf8::is_ascii_chars(hex_lower(data)),
        trimmed(hex_lower(data)) == hex_lower(data),
        hex_decode_spec(vstd::utf8::encode_utf8(hex_lower(data))) == Ok::<Seq<u8>, HexError>(data),
{
    let h = hex_lower(data);
    lemma_hex_lower_len(data);
    assert forall|i: int| 0 <= i < h.len() implies (48 <= (#[trigger] h[i]) as u32 <= 57
        || 97 <= h[i] as u32 <= 102) by {
        let k = i / 2;
        if i % 2 == 0 {
            assert(i == 2 * k);
            lemma_hex_digit((data[k] / 16) as u8);
        } else {
            assert(i == 2 * k + 1);
            lemma_hex_digit((data[k] % 16) as u8);
        }
    }
    assert forall|i: int| 0 <= i < h.len() implies '\0' <= #[trigger] h[i] <= '\u{7f}' by {
        assert((h[i] as u32) <= 127);
        lemma_ascii_char(h[i]);
    }
    assert(vstd::utf8::is_ascii_chars(h));
    if h.len() > 0 {
        assert(!is_white_space(h[0]));
        assert(!is_white_space(h.last()));
    }
    lemma_trimmed_unchanged(h);
    let b = vstd::utf8::encode_utf8(h);
    vstd::utf8::is_ascii_chars_encode_utf8(h);
    assert forall|i: int| 0 <= i < b.len() implies (#[trigger] b[i] as u32) == (h[i] as u32) by {
        assert(h[i] as u8 == b[i]);
        assert((h[i] as u32) < 128);
    }
    lemma_hex_roundtrip(data, b);
}

/// Two byte sequences with the same hexadecimal text are equal.
pub proof fn lemma_hex_injective(a: Seq<u8>, b: Seq<u8>)
    requires
        hex_lower(a) == hex_lower(b),
    ensures
        a == b,
{
    lemma_hex_text(a);
    lemma_hex_text(b);
}

} // verus!
