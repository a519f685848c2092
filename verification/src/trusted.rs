//! The few outside calls the engine rests on: whitespace trimming, the
//! SHA-256 digest, and hex encoding. Each call stands behind a wrapper
//! whose contract states what the outside function returns.

use sha2::Digest;
use vstd::prelude::*;

verus! {

/// What `str::trim` returns for a given character sequence: the sequence
/// with leading and trailing whitespace removed. A function of the
/// characters alone; its exact extent (which characters count as
/// whitespace) is left to the standard library.
pub uninterp spec fn trim_of(s: Seq<char>) -> Seq<char>;

/// The trimmed form of a character sequence. Trimming an empty sequence
/// leaves it empty; on any other input this is exactly [`trim_of`].
pub open spec fn spec_trimmed(s: Seq<char>) -> Seq<char> {
    if s.len() == 0 {
        Seq::<char>::empty()
    } else {
        trim_of(s)
    }
}

/// Relies on `str::trim`: returns the string without leading and trailing
/// whitespace; the result depends on the characters alone, and trimming an
/// empty string yields an empty string.
#[verifier::external_body]
pub fn trim_str<'a>(s: &'a str) -> (r: &'a str)
    ensures
        r@ == spec_trimmed(s@),
        s@.len() != 0 ==> r@ == trim_of(s@),
{
    s.trim()
}

/// What `sha2::Sha256` computes over the UTF-8 bytes of a character
/// sequence. A function of the characters alone.
pub uninterp spec fn sha256_of(s: Seq<char>) -> Seq<u8>;

/// The SHA-256 digest of the UTF-8 bytes of a character sequence. A
/// SHA-256 digest always has 32 bytes, so this is exactly [`sha256_of`];
/// the padding arm exists only to give the spec that length outright.
pub open spec fn spec_digest(s: Seq<char>) -> Seq<u8> {
    if sha256_of(s).len() == 32 {
        sha256_of(s)
    } else {
        Seq::new(32, |i| 0u8)
    }
}

/// Relies on `sha2::Sha256` (through `sha2::Digest::digest`): returns the
/// 32-byte SHA-256 digest of the input's UTF-8 bytes, a function of the
/// characters alone.
#[verifier::external_body]
pub fn sha256_str(s: &str) -> (r: Vec<u8>)
    ensures
        r@ == spec_digest(s@),
        r@ == sha256_of(s@),
{
    sha2::Sha256::digest(s.as_bytes()).to_vec()
}

/// The lowercase hexadecimal digit for a value below 16.
pub open spec fn spec_hex_digit(v: u8) -> char
    recommends
        v < 16,
{
    if v == 0 {
        '0'
    } else if v == 1 {
        '1'
    } else if v == 2 {
        '2'
    } else if v == 3 {
        '3'
    } else if v == 4 {
        '4'
    } else if v == 5 {
        '5'
    } else if v == 6 {
        '6'
    } else if v == 7 {
        '7'
    } else if v == 8 {
        '8'
    } else if v == 9 {
        '9'
    } else if v == 10 {
        'a'
    } else if v == 11 {
        'b'
    } else if v == 12 {
        'c'
    } else if v == 13 {
        'd'
    } else if v == 14 {
        'e'
    } else {
        'f'
    }
}

/// The lowercase hexadecimal encoding of a byte sequence: two digits per
/// byte, high nibble first.
pub open spec fn spec_hex(bytes: Seq<u8>) -> Seq<char>
    decreases bytes.len(),
{
    if bytes.len() == 0 {
        Seq::<char>::empty()
    } else {
        spec_hex(bytes.drop_last()) + seq![
            spec_hex_digit(bytes.last() / 16),
            spec_hex_digit(bytes.last() % 16),
        ]
    }
}

/// Relies on `hex::encode`: returns the lowercase hexadecimal encoding of
/// the bytes, two digits per byte, high nibble first.
#[verifier::external_body]
pub fn hex_encode(bytes: &[u8]) -> (r: String)
    ensures
        r@ == spec_hex(bytes@),
{
    hex::encode(bytes)
}

} // verus!
