//! SHA-256 integrity values, written as lowercase hexadecimal text.

use vstd::prelude::*;
use crate::hexcode::{hex_encode, hex_lower};

verus! {

/// The SHA-256 digest of `data`.
pub uninterp spec fn sha256_digest(data: Seq<u8>) -> Seq<u8>;

/// The integrity text of `data`: its SHA-256 digest in lowercase hexadecimal.
pub open spec fn hash_text(data: Seq<u8>) -> Seq<char> {
    hex_lower(sha256_digest(data))
}

/// Trusted: `<sha2::Sha256 as Digest>::digest`, whose output is 32 bytes.
#[verifier::external_body]
fn sha256(data: &[u8]) -> (digest: Vec<u8>)
    ensures
        digest@ == sha256_digest(data@),
        digest@.len() == 32,
{
    <sha2::Sha256 as sha2::Digest>::digest(data).to_vec()
}

/// Trusted: `<[u8] as subtle::ConstantTimeEq>::ct_eq`, converted to `bool`. It
/// gives `false` for slices of different lengths and otherwise compares every
/// byte without stopping early.
#[verifier::external_body]
fn ct_eq_bytes(a: &[u8], b: &[u8]) -> (r: bool)
    ensures
        r == (a@ == b@),
{
    subtle::ConstantTimeEq::ct_eq(a, b).into()
}

/// The SHA-256 digest of `data` as 64 lowercase hexadecimal characters.
pub fn compute(data: &[u8]) -> (h: String)
    ensures
        h@ == hash_text(data@),
        h@.len() == 64,
{
    let digest = sha256(data);
    hex_encode(digest.as_slice())
}

/// Whether `data` hashes to `expected`, compared in constant time.
pub fn verify(data: &[u8], expected: &str) -> (ok: bool)
    ensures
        ok == (expected@ == hash_text(data@)),
{
    let actual = compute(data);
    let ok = ct_eq_bytes(actual.as_str().as_bytes(), expected.as_bytes());
    proof {
        vstd::utf8::encode_utf8_decode_utf8(actual@);
        vstd::utf8::encode_utf8_decode_utf8(expected@);
    }
    ok
}

} // verus!
