//! SHA-256 digests and hex encoding of digests.
//!
//! The digest itself is computed by the `sha2` crate; everything layered on
//! top of it (domain-separated node hashes, hex identifiers) is verified
//! against the digest of an exactly-described input byte sequence.

use vstd::prelude::*;

use crate::errors::StratumError;
use sha2::Digest;

verus! {

/// The SHA-256 digest of a byte sequence, as computed by the `sha2` crate.
pub uninterp spec fn sha256_of(data: Seq<u8>) -> Seq<u8>;

/// Relies on `sha2::Sha256` (via the `Digest` trait): the digest is a
/// function of the input bytes alone and is always 32 bytes long.
#[verifier::external_body]
pub fn sha256(data: &[u8]) -> (r: Vec<u8>)
    ensures
        r@ == sha256_of(data@),
        r@.len() == 32,
{
    sha2::Sha256::digest(data).to_vec()
}

/// SHA-256 convenience front-end used by the Merkle code.
#[derive(Clone)]
pub struct Sha256Hasher;

impl Sha256Hasher {
    /// Hash a byte slice with plain SHA-256.
    pub fn hash(data: &[u8]) -> (r: Vec<u8>)
        ensures
            r@ == sha256_of(data@),
            r@.len() == 32,
    {
        sha256(data)
    }
}

/// Derives a new hash by hashing the concatenation of two byte strings.
/// The order of the inputs matters.
pub fn derive_hash(left: &[u8], right: &[u8]) -> (r: Vec<u8>)
    ensures
        r@ == sha256_of(left@ + right@),
        r@.len() == 32,
{
    let mut buf: Vec<u8> = Vec::new();
    buf.extend_from_slice(left);
    buf.extend_from_slice(right);
    let r = sha256(buf.as_slice());
    assert(buf@ == left@ + right@);
    r
}

/// Hash of a Merkle leaf: the data is prefixed with a 0x00 marker so that
/// leaves and internal nodes can never collide.
pub fn hash_leaf(data: &[u8]) -> (r: Vec<u8>)
    ensures
        r@ == sha256_of(seq![0u8] + data@),
        r@.len() == 32,
{
    let mut buf: Vec<u8> = Vec::new();
    buf.push(0u8);
    buf.extend_from_slice(data);
    let r = sha256(buf.as_slice());
    assert(buf@ == seq![0u8] + data@);
    r
}

/// Hash of an internal Merkle node: the two child hashes are prefixed with a
/// 0x01 marker.
pub fn hash_internal_node(left_hash: &[u8], right_hash: &[u8]) -> (r: Vec<u8>)
    ensures
        r@ == sha256_of(seq![1u8] + left_hash@ + right_hash@),
        r@.len() == 32,
{
    let mut buf: Vec<u8> = Vec::new();
    buf.push(1u8);
    buf.extend_from_slice(left_hash);
    buf.extend_from_slice(right_hash);
    let r = sha256(buf.as_slice());
    assert(buf@ == seq![1u8] + left_hash@ + right_hash@);
    r
}

/// The lower-case hex digit for a value below 16.
pub open spec fn hex_digit(v: u8) -> char {
    if v == 0 {
        '0'
    } else if v == 1 {
        '1'
    } else if v == 2 {
        '2'
    } else if v == 3 {
        '3'
    } else if v == 4 {
        '4'
    } else if v == 5 {
        '5'
    } else if v == 6 {
        '6'
    } else if v == 7 {
        '7'
    } else if v == 8 {
        '8'
    } else if v == 9 {
        '9'
    } else if v == 10 {
        'a'
    } else if v == 11 {
        'b'
    } else if v == 12 {
        'c'
    } else if v == 13 {
        'd'
    } else if v == 14 {
        'e'
    } else {
        'f'
    }
}

/// Lower-case hex encoding of a byte sequence: two digits per byte,
/// high nibble first.
pub open spec fn hex_of(data: Seq<u8>) -> Seq<char>
    decreases data.len(),
{
    if data.len() == 0 {
        Seq::<char>::empty()
    } else {
        seq![hex_digit(data.first() / 16), hex_digit(data.first() % 16)] + hex_of(
            data.drop_first(),
        )
    }
}

/// Hex encoding doubles the length.
pub proof fn lemma_hex_of_len(data: Seq<u8>)
    ensures
        hex_of(data).len() == 2 * data.len(),
    decreases data.len(),
{
    if data.len() != 0 {
        lemma_hex_of_len(data.drop_first());
    }
}

/// Relies on `hex::encode`: lower-case hex, two digits per byte,
/// high nibble first.
#[verifier::external_body]
pub fn hex_encode(data: &[u8]) -> (r: String)
    ensures
        r@ == hex_of(data@),
{
    hex::encode(data)
}

/// The numeric value of a hex digit character, accepting both cases.
pub open spec fn hex_char_value(c: char) -> Option<u8> {
    let v = c as int;
    if 48 <= v && v <= 57 {
        Some((v - 48) as u8)
    } else if 97 <= v && v <= 102 {
        Some((v - 87) as u8)
    } else if 65 <= v && v <= 70 {
        Some((v - 55) as u8)
    } else {
        None
    }
}

/// Exact decoding relation for hex strings: defined when the length is even
/// and every character is a hex digit.
pub open spec fn hex_decode_spec(s: Seq<char>) -> Option<Seq<u8>>
    decreases s.len(),
{
    if s.len() % 2 != 0 {
        None
    } else if s.len() == 0 {
        Some(Seq::<u8>::empty())
    } else {
        match (hex_char_value(s[0]), hex_char_value(s[1])) {
            (Some(hi), Some(lo)) => match hex_decode_spec(s.skip(2)) {
                Some(rest) => Some(seq![(hi * 16 + lo) as u8] + rest),
                None => None,
            },
            _ => None,
        }
    }
}

/// Relies on `hex::decode`: succeeds exactly on even-length strings of hex
/// digits (either case) and returns the denoted bytes.
#[verifier::external_body]
pub fn hex_decode(s: &str) -> (r: Result<Vec<u8>, StratumError>)
    ensures
        match r {
            Ok(v) => hex_decode_spec(s@) == Some(v@),
            Err(_) => hex_decode_spec(s@) is None,
        },
{
    match hex::decode(s) {
        Ok(v) => Ok(v),
        Err(e) => Err(StratumError::InvalidInput(format!("invalid hex string: {e}"))),
    }
}

} // verus!
