//! Lowercase hexadecimal text, written and read through the `hex` crate.

use vstd::prelude::*;

verus! {

/// The lowercase hexadecimal digit for a value below sixteen.
pub open spec fn lower_hex_digit(n: nat) -> char {
    if n < 10 {
        (('0' as u32) + n) as char
    } else {
        (('a' as u32) + n - 10) as char
    }
}

/// Two lowercase hexadecimal digits per byte, high nibble first.
pub open spec fn hex_lower(bytes: Seq<u8>) -> Seq<char> {
    Seq::new(
        2 * bytes.len(),
        |i: int|
            if i % 2 == 0 {
                lower_hex_digit((bytes[i / 2] / 16) as nat)
            } else {
                lower_hex_digit((bytes[i / 2] % 16) as nat)
            },
    )
}

/// Whether `c` is a hexadecimal digit in either case.
pub open spec fn is_hex_digit(c: char) -> bool {
    ||| '0' <= c <= '9'
    ||| 'a' <= c <= 'f'
    ||| 'A' <= c <= 'F'
}

/// The value of a hexadecimal digit.
pub open spec fn hex_digit_value(c: char) -> nat {
    if '0' <= c <= '9' {
        ((c as u32) - ('0' as u32)) as nat
    } else if 'a' <= c <= 'f' {
        ((c as u32) - ('a' as u32) + 10) as nat
    } else {
        ((c as u32) - ('A' as u32) + 10) as nat
    }
}

/// Whether `hex::decode` accepts `s`: an even number of hexadecimal digits.
pub open spec fn hex_decodable(s: Seq<char>) -> bool {
    &&& s.len() % 2 == 0
    &&& forall|i: int| 0 <= i < s.len() ==> is_hex_digit(#[trigger] s[i])
}

/// The bytes that `hex::decode` returns for an accepted `s`.
pub open spec fn hex_decoded(s: Seq<char>) -> Seq<u8> {
    Seq::new(
        s.len() / 2,
        |i: int| (hex_digit_value(s[2 * i]) * 16 + hex_digit_value(s[2 * i + 1])) as u8,
    )
}

/// Whether every character of `s` is a lowercase hexadecimal digit.
pub open spec fn all_lower_hex(s: Seq<char>) -> bool {
    forall|i: int| 0 <= i < s.len() ==> ('0' <= #[trigger] s[i] <= '9' || 'a' <= s[i] <= 'f')
}

/// Lowercase hexadecimal text holds only the digits `0`..`9` and `a`..`f`.
pub proof fn lemma_hex_lower_digits(bytes: Seq<u8>)
    ensures
        all_lower_hex(hex_lower(bytes)),
        hex_lower(bytes).len() == 2 * bytes.len(),
{
}

/// Reading lowercase hexadecimal text gives back the bytes that were written.
pub proof fn lemma_hex_roundtrip(bytes: Seq<u8>)
    ensures
        hex_decodable(hex_lower(bytes)),
        hex_decoded(hex_lower(bytes)) == bytes,
{
    let s = hex_lower(bytes);
    assert(s.len() % 2 == 0);
    assert forall|i: int| 0 <= i < bytes.len() implies #[trigger] hex_decoded(s)[i] == bytes[i] by {
        assert(s[2 * i] == lower_hex_digit((bytes[i] / 16) as nat));
        assert(s[2 * i + 1] == lower_hex_digit((bytes[i] % 16) as nat));
        assert((2 * i + 1) / 2 == i);
    }
    assert(hex_decoded(s) =~= bytes);
}

/// The `Display` text of the error that `hex::decode` gives for `s`: which
/// fault it met first (an odd length, or a non-digit and its position).
pub uninterp spec fn hex_decode_error_text(s: Seq<char>) -> Seq<char>;

/// Trusted: `hex::encode`, two lowercase hexadecimal digits per byte.
///
/// The bound on the length keeps the output's allocation within `isize::MAX`.
#[verifier::external_body]
pub(crate) fn hex_encode(data: &[u8]) -> (r: String)
    requires
        data@.len() <= usize::MAX / 4,
    ensures
        r@ == hex_lower(data@),
{
    hex::encode(data)
}

/// Trusted: `hex::decode` on the bytes of `s`. It fails on an odd length and on
/// any byte that is not a hexadecimal digit in either case; otherwise each pair
/// of digits gives one byte, high nibble first. A non-ASCII character is never a
/// digit, so the statement over characters is the statement over bytes.
/// The error is handed back as its `Display` text, which depends on `s` alone.
#[verifier::external_body]
pub(crate) fn hex_decode(s: &str) -> (r: Result<Vec<u8>, String>)
    ensures
        r is Ok <==> hex_decodable(s@),
        r matches Ok(v) ==> v@ == hex_decoded(s@),
        r matches Err(m) ==> m@ == hex_decode_error_text(s@),
{
    hex::decode(s).map_err(|e| e.to_string())
}

} // verus!
