//! Text armouring of ciphertext and key files: raw bytes, Base64 or hex.

use vstd::prelude::*;
use vstd::string::StringSliceAdditionalSpecFns;
use vstd::utf8::{decode_utf8, encode_utf8, valid_utf8};
use crate::cli::Encoding;
use crate::hexcode::{
    hex_decodable, hex_decode, hex_decode_error_text, hex_decoded, hex_encode, hex_lower,
    lemma_hex_lower_digits, lemma_hex_roundtrip,
};
use crate::text::{is_white_space, lemma_trim_no_white_space_ends, str_trim, string_of, trim_spec};
use crate::wrap::str_from_utf8;

verus! {

/// The character of a six-bit value in the standard Base64 alphabet.
pub open spec fn base64_digit(v: nat) -> char {
    if v < 26 {
        (('A' as u32) + v) as char
    } else if v < 52 {
        (('a' as u32) + v - 26) as char
    } else if v < 62 {
        (('0' as u32) + v - 52) as char
    } else if v == 62 {
        '+'
    } else {
        '/'
    }
}

/// Byte `j` of `data`, or zero past its end.
pub open spec fn byte_or_zero(data: Seq<u8>, j: int) -> nat {
    if 0 <= j < data.len() {
        data[j] as nat
    } else {
        0
    }
}

/// The 24-bit value of the three bytes of group `g`, zeros filling a short
/// last group.
pub open spec fn base64_group(data: Seq<u8>, g: int) -> nat {
    byte_or_zero(data, 3 * g) * 65536 + byte_or_zero(data, 3 * g + 1) * 256 + byte_or_zero(
        data,
        3 * g + 2,
    )
}

/// The six-bit value that character `k` of a group stands for.
pub open spec fn base64_sextet(group: nat, k: int) -> nat {
    if k == 0 {
        (group / 262144) % 64
    } else if k == 1 {
        (group / 4096) % 64
    } else if k == 2 {
        (group / 64) % 64
    } else {
        group % 64
    }
}

/// The standard Base64 text, with padding, of `data` (RFC 4648, section 4):
/// four characters for each group of three bytes, the last group filled with
/// zero bits and its missing characters written as `=`.
pub open spec fn base64_standard(data: Seq<u8>) -> Seq<char> {
    Seq::new(
        ((data.len() + 2) / 3 * 4) as nat,
        |i: int|
            if i % 4 > data.len() - 3 * (i / 4) {
                '='
            } else {
                base64_digit(base64_sextet(base64_group(data, i / 4), i % 4))
            },
    )
}

/// What the standard Base64 decoder makes of `text`: the bytes whose Base64
/// text it is, or `None` where it is no such text. The decoder requires the
/// canonical padding and zero trailing bits, so it accepts exactly the texts
/// that the encoder writes; `lemma_base64_injective` makes the bytes unique.
pub open spec fn base64_standard_decoded(text: Seq<char>) -> Option<Seq<u8>> {
    if exists|d: Seq<u8>| #[trigger] base64_standard(d) == text {
        Some(choose|d: Seq<u8>| #[trigger] base64_standard(d) == text)
    } else {
        None
    }
}

/// The six-bit value of a character of the standard Base64 alphabet.
pub open spec fn base64_value(c: char) -> nat {
    if 'A' <= c <= 'Z' {
        ((c as u32) - ('A' as u32)) as nat
    } else if 'a' <= c <= 'z' {
        ((c as u32) - ('a' as u32) + 26) as nat
    } else if '0' <= c <= '9' {
        ((c as u32) - ('0' as u32) + 52) as nat
    } else if c == '+' {
        62
    } else {
        63
    }
}

proof fn lemma_base64_value(v: nat)
    requires
        v < 64,
    ensures
        base64_value(base64_digit(v)) == v,
        base64_digit(v) != '=',
{
}

proof fn lemma_group_bytes(b0: u32, b1: u32, b2: u32)
    by (bit_vector)
    requires
        b0 < 256,
        b1 < 256,
        b2 < 256,
    ensures
        ((b0 * 65536 + b1 * 256 + b2) / 262144 % 64) * 4 + ((b0 * 65536 + b1 * 256 + b2) / 4096
            % 64) / 16 == b0,
        ((b0 * 65536 + b1 * 256 + b2) / 4096 % 64) % 16 * 16 + ((b0 * 65536 + b1 * 256 + b2) / 64
            % 64) / 4 == b1,
        ((b0 * 65536 + b1 * 256 + b2) / 64 % 64) % 4 * 64 + (b0 * 65536 + b1 * 256 + b2) % 64
            == b2,
{
}

/// Byte `j` as read back from Base64 text.
pub open spec fn base64_byte(t: Seq<char>, j: int) -> nat {
    let g = j / 3;
    let s0 = base64_value(t[4 * g]);
    let s1 = base64_value(t[4 * g + 1]);
    let s2 = base64_value(t[4 * g + 2]);
    let s3 = base64_value(t[4 * g + 3]);
    if j % 3 == 0 {
        s0 * 4 + s1 / 16
    } else if j % 3 == 1 {
        (s1 % 16) * 16 + s2 / 4
    } else {
        (s2 % 4) * 64 + s3
    }
}

proof fn lemma_base64_byte(d: Seq<u8>, j: int)
    requires
        0 <= j < d.len(),
    ensures
        base64_byte(base64_standard(d), j) == d[j],
{
    let t = base64_standard(d);
    let n = d.len();
    let g = j / 3;
    assert(4 * g + 3 < t.len()) by (nonlinear_arith)
        requires
            0 <= j < n,
            g == j / 3,
            t.len() == (n + 2) / 3 * 4,
    ;
    let b0 = byte_or_zero(d, 3 * g);
    let b1 = byte_or_zero(d, 3 * g + 1);
    let b2 = byte_or_zero(d, 3 * g + 2);
    let grp = base64_group(d, g);
    assert(grp == b0 * 65536 + b1 * 256 + b2);
    lemma_group_bytes(b0 as u32, b1 as u32, b2 as u32);
    assert forall|k: int| 0 <= k < 4 && k <= j % 3 + 1 implies #[trigger] t[4 * g + k]
        == base64_digit(base64_sextet(grp, k)) by {
        assert((4 * g + k) / 4 == g);
        assert((4 * g + k) % 4 == k);
    }
    lemma_base64_value(base64_sextet(grp, 0));
    lemma_base64_value(base64_sextet(grp, 1));
    lemma_base64_value(base64_sextet(grp, 2));
    lemma_base64_value(base64_sextet(grp, 3));
}

proof fn lemma_base64_last_group(d: Seq<u8>)
    requires
        d.len() > 0,
    ensures
        ({
            let g = (d.len() + 2) / 3 - 1;
            &&& 1 <= d.len() - 3 * g <= 3
            &&& 4 * g + 3 < base64_standard(d).len()
            &&& (base64_standard(d)[4 * g + 2] == '=' <==> d.len() - 3 * g == 1)
            &&& (base64_standard(d)[4 * g + 3] == '=' <==> d.len() - 3 * g <= 2)
        }),
{
    let n = d.len();
    let g = (n + 2) / 3 - 1;
    let t = base64_standard(d);
    assert(1 <= n - 3 * g <= 3 && 4 * g + 3 < (n + 2) / 3 * 4) by (nonlinear_arith)
        requires
            n > 0,
            g == (n + 2) / 3 - 1,
    ;
    let grp = base64_group(d, g);
    assert((4 * g + 2) / 4 == g && (4 * g + 2) % 4 == 2);
    assert((4 * g + 3) / 4 == g && (4 * g + 3) % 4 == 3);
    lemma_base64_value(base64_sextet(grp, 2));
    lemma_base64_value(base64_sextet(grp, 3));
}

/// Different bytes never share their Base64 text.
pub proof fn lemma_base64_injective(a: Seq<u8>, b: Seq<u8>)
    requires
        base64_standard(a) == base64_standard(b),
    ensures
        a == b,
{
    let t = base64_standard(a);
    assert(base64_standard(a).len() == (a.len() + 2) / 3 * 4);
    assert(base64_standard(b).len() == (b.len() + 2) / 3 * 4);
    assert((a.len() + 2) / 3 == (b.len() + 2) / 3) by (nonlinear_arith)
        requires
            (a.len() + 2) / 3 * 4 == (b.len() + 2) / 3 * 4,
    {
    }
    if a.len() > 0 && b.len() > 0 {
        lemma_base64_last_group(a);
        lemma_base64_last_group(b);
    } else if a.len() > 0 {
        assert((a.len() + 2) / 3 >= 1) by (nonlinear_arith)
            requires
                a.len() > 0,
        ;
        assert((b.len() + 2) / 3 == 0);
    } else if b.len() > 0 {
        assert((b.len() + 2) / 3 >= 1) by (nonlinear_arith)
            requires
                b.len() > 0,
        ;
        assert((a.len() + 2) / 3 == 0);
    }
    assert(a.len() == b.len());
    assert forall|j: int| 0 <= j < a.len() implies a[j] == b[j] by {
        lemma_base64_byte(a, j);
        lemma_base64_byte(b, j);
    }
    assert(a =~= b);
}

/// Whether `c` belongs to the standard Base64 alphabet or is the padding `=`.
pub open spec fn is_base64_char(c: char) -> bool {
    ||| 'A' <= c <= 'Z'
    ||| 'a' <= c <= 'z'
    ||| '0' <= c <= '9'
    ||| c == '+'
    ||| c == '/'
    ||| c == '='
}

/// Trusted: `base64::engine::general_purpose::STANDARD.encode`, the standard
/// alphabet with padding. The bound keeps the length computation within
/// `usize`, where the crate would otherwise panic.
#[verifier::external_body]
fn base64_encode(data: &[u8]) -> (r: String)
    requires
        data@.len() <= usize::MAX / 4,
    ensures
        r@ == base64_standard(data@),
{
    base64::Engine::encode(&base64::engine::general_purpose::STANDARD, data)
}

/// The `Display` text of the error that the standard Base64 decoder gives for
/// `text`: which fault it met first and where.
pub uninterp spec fn base64_decode_error_text(text: Seq<char>) -> Seq<char>;

/// Trusted: `base64::engine::general_purpose::STANDARD.decode` on the bytes of
/// `text`. With the standard configuration it requires canonical padding and
/// rejects nonzero trailing bits, so it succeeds exactly on the texts that the
/// standard encoder writes, and gives back the bytes that text was written
/// from. The error is handed back as its `Display` text, which depends on
/// `text` alone.
#[verifier::external_body]
fn base64_decode(text: &str) -> (r: Result<Vec<u8>, String>)
    ensures
        r is Ok <==> exists|d: Seq<u8>| #[trigger] base64_standard(d) == text@,
        r matches Ok(v) ==> base64_standard(v@) == text@,
        r matches Err(m) ==> m@ == base64_decode_error_text(text@),
{
    base64::Engine::decode(&base64::engine::general_purpose::STANDARD, text).map_err(|e| e.to_string())
}

/// The file contents that `encoding` makes of `data`.
pub open spec fn armored(data: Seq<u8>, encoding: Encoding) -> Seq<u8> {
    match encoding {
        Encoding::Raw => data,
        Encoding::Base64 => encode_utf8(base64_standard(data)),
        Encoding::Hex => encode_utf8(hex_lower(data)),
    }
}

/// The bytes that file contents `data` stand for under `encoding`, or `None`
/// where they cannot be read.
pub open spec fn dearmored(data: Seq<u8>, encoding: Encoding) -> Option<Seq<u8>> {
    match encoding {
        Encoding::Raw => Some(data),
        Encoding::Base64 => {
            if valid_utf8(data) {
                base64_standard_decoded(trim_spec(decode_utf8(data)))
            } else {
                None
            }
        },
        Encoding::Hex => {
            if valid_utf8(data) && hex_decodable(trim_spec(decode_utf8(data))) {
                Some(hex_decoded(trim_spec(decode_utf8(data))))
            } else {
                None
            }
        },
    }
}

/// The decoder's own description of why the trimmed text `t` does not decode.
pub open spec fn decoder_error_text(t: Seq<char>, encoding: Encoding) -> Seq<char> {
    match encoding {
        Encoding::Raw => Seq::empty(),
        Encoding::Base64 => base64_decode_error_text(t),
        Encoding::Hex => hex_decode_error_text(t),
    }
}

/// Whether `m` is the message for contents `data` that do not decode under
/// `encoding`: a fixed message for contents that are not UTF-8, else one that
/// names the file and the encoding and goes on with the decoder's own
/// description of the trimmed text.
pub open spec fn armor_error(data: Seq<u8>, encoding: Encoding, context: Seq<char>, m: Seq<char>) -> bool {
    if valid_utf8(data) {
        m == not_decodable_prefix(context, encoding) + decoder_error_text(
            trim_spec(decode_utf8(data)),
            encoding,
        )
    } else {
        m == not_utf8_message(context, encoding)
    }
}

/// Whether the Base64 text of `d` keeps to the alphabet and `=`.
pub open spec fn base64_text_plain(d: Seq<u8>) -> bool {
    forall|i: int| 0 <= i < base64_standard(d).len() ==> is_base64_char(#[trigger] base64_standard(d)[i])
}

/// Every digit is in the alphabet.
proof fn lemma_base64_digit(v: nat)
    requires
        v < 64,
    ensures
        is_base64_char(base64_digit(v)),
{
}

/// Base64 text holds only the alphabet and `=`.
pub proof fn lemma_base64_text_plain(d: Seq<u8>)
    ensures
        base64_text_plain(d),
{
    assert forall|i: int| 0 <= i < base64_standard(d).len() implies is_base64_char(
        #[trigger] base64_standard(d)[i],
    ) by {
        if !(i % 4 > d.len() - 3 * (i / 4)) {
            lemma_base64_digit(base64_sextet(base64_group(d, i / 4), i % 4));
        }
    }
}

/// The name of the text form that an encoding requires.
pub open spec fn encoding_name(encoding: Encoding) -> Seq<char> {
    match encoding {
        Encoding::Raw => seq!['r', 'a', 'w'],
        Encoding::Base64 => seq!['b', 'a', 's', 'e', '6', '4'],
        Encoding::Hex => seq!['h', 'e', 'x'],
    }
}

/// The message for contents that are not UTF-8 text.
pub open spec fn not_utf8_message(context: Seq<char>, encoding: Encoding) -> Seq<char> {
    context + " is not valid UTF-8 (required for "@ + encoding_name(encoding) + ")"@
}

/// The start of the message for text that does not decode.
pub open spec fn not_decodable_prefix(context: Seq<char>, encoding: Encoding) -> Seq<char> {
    context + " is not valid "@ + encoding_name(encoding) + ": "@
}

proof fn lemma_base64_text_untrimmed(t: Seq<char>)
    requires
        forall|i: int| 0 <= i < t.len() ==> is_base64_char(#[trigger] t[i]),
    ensures
        trim_spec(t) == t,
{
    if t.len() > 0 {
        assert(is_base64_char(t[0]));
        assert(is_base64_char(t.last()));
    }
    lemma_trim_no_white_space_ends(t);
}

/// Writes `data` in the given encoding.
pub fn encode_armored(data: &[u8], encoding: Encoding) -> (out: Vec<u8>)
    requires
        data@.len() <= usize::MAX / 4,
    ensures
        out@ == armored(data@, encoding),
{
    match encoding {
        Encoding::Raw => vstd::slice::slice_to_vec(data),
        Encoding::Base64 => {
            let s = base64_encode(data);
            vstd::slice::slice_to_vec(s.as_str().as_bytes())
        },
        Encoding::Hex => {
            let s = hex_encode(data);
            vstd::slice::slice_to_vec(s.as_str().as_bytes())
        },
    }
}

fn encoding_word(encoding: Encoding) -> (s: &'static str)
    ensures
        s@ == encoding_name(encoding),
{
    proof {
        reveal_strlit("raw");
        reveal_strlit("base64");
        reveal_strlit("hex");
    }
    match encoding {
        Encoding::Raw => "raw",
        Encoding::Base64 => "base64",
        Encoding::Hex => "hex",
    }
}

fn not_utf8(context: &str, encoding: Encoding) -> (m: String)
    ensures
        m@ == not_utf8_message(context@, encoding),
{
    let mut m = string_of(context);
    m.append(" is not valid UTF-8 (required for ");
    m.append(encoding_word(encoding));
    m.append(")");
    m
}

fn not_decodable(context: &str, encoding: Encoding, detail: &str) -> (m: String)
    ensures
        m@ == not_decodable_prefix(context@, encoding) + detail@,
{
    let mut m = string_of(context);
    m.append(" is not valid ");
    m.append(encoding_word(encoding));
    m.append(": ");
    m.append(detail);
    m
}

/// Reads file contents written in the given encoding. `context` names the file
/// in error messages.
pub fn decode_if_armored(data: Vec<u8>, encoding: Encoding, context: &str) -> (r: Result<Vec<u8>, String>)
    ensures
        r is Ok <==> dearmored(data@, encoding) is Some,
        r matches Ok(v) ==> dearmored(data@, encoding) == Some(v@),
        r matches Err(m) ==> armor_error(data@, encoding, context@, m@),
        forall|d: Seq<u8>|
            d.len() <= usize::MAX / 4 && data@ == #[trigger] armored(d, encoding) ==> r is Ok
                && r->Ok_0@ == d,
{
    match encoding {
        Encoding::Raw => Ok(data),
        Encoding::Base64 => {
            match str_from_utf8(data.as_slice()) {
                None => {
                    proof {
                        assert forall|d: Seq<u8>|
                            d.len() <= usize::MAX / 4 && data@ == #[trigger] armored(d, encoding)
                            implies false by {
                            vstd::utf8::encode_utf8_valid_utf8(base64_standard(d));
                        }
                    }
                    Err(not_utf8(context, encoding))
                },
                Some(text) => {
                    let trimmed = str_trim(text);
                    proof {
                        assert forall|d: Seq<u8>|
                            d.len() <= usize::MAX / 4 && data@
                                == #[trigger] armored(d, encoding) implies trimmed@ == base64_standard(
                            d,
                        ) by {
                            let t = base64_standard(d);
                            lemma_base64_text_plain(d);
                            vstd::utf8::encode_utf8_decode_utf8(t);
                            lemma_base64_text_untrimmed(t);
                        }
                    }
                    match base64_decode(trimmed) {
                        Ok(v) => {
                            proof {
                                let c = choose|d: Seq<u8>| #[trigger] base64_standard(d) == trimmed@;
                                lemma_base64_injective(c, v@);
                                assert forall|d: Seq<u8>|
                                    d.len() <= usize::MAX / 4 && data@ == #[trigger] armored(
                                        d,
                                        encoding,
                                    ) implies v@ == d by {
                                    lemma_base64_injective(d, v@);
                                }
                            }
                            Ok(v)
                        },
                        Err(detail) => {
                            let m = not_decodable(context, encoding, detail.as_str());
                            Err(m)
                        },
                    }
                },
            }
        },
        Encoding::Hex => {
            match str_from_utf8(data.as_slice()) {
                None => {
                    proof {
                        assert forall|d: Seq<u8>|
                            d.len() <= usize::MAX / 4 && data@ == #[trigger] armored(d, encoding)
                            implies false by {
                            vstd::utf8::encode_utf8_valid_utf8(hex_lower(d));
                        }
                    }
                    Err(not_utf8(context, encoding))
                },
                Some(text) => {
                    let trimmed = str_trim(text);
                    proof {
                        assert forall|d: Seq<u8>|
                            d.len() <= usize::MAX / 4 && data@ == #[trigger] armored(d, encoding)
                            implies trimmed@ == hex_lower(d) by {
                            let t = hex_lower(d);
                            vstd::utf8::encode_utf8_decode_utf8(t);
                            lemma_hex_lower_digits(d);
                            if t.len() > 0 {
                                assert(!is_white_space(t[0]));
                                assert(!is_white_space(t.last()));
                            }
                            lemma_trim_no_white_space_ends(t);
                            lemma_hex_roundtrip(d);
                        }
                    }
                    match hex_decode(trimmed) {
                        Ok(v) => Ok(v),
                        Err(detail) => {
                            let m = not_decodable(context, encoding, detail.as_str());
                            Err(m)
                        },
                    }
                },
            }
        },
    }
}

} // verus!
