//! Password-wrapped key files: Argon2id derives a key from the password and
//! AES-256-GCM seals the one-time-pad key under it. The file is ASCII text of
//! four lines: a header, then the salt, nonce and sealed key in hexadecimal.

use aes_gcm::aead::{Aead, KeyInit};
use vstd::prelude::*;
use vstd::string::StringSliceAdditionalSpecFns;
use vstd::utf8::{decode_utf8, encode_utf8, is_ascii_chars, valid_utf8};
use crate::hexcode::{
    hex_decodable, hex_decode, hex_decoded, hex_encode, hex_lower,
    lemma_hex_lower_digits, lemma_hex_roundtrip,
};
use crate::otp::fill_random;
use crate::text::{is_white_space, str_trim, trim_spec};

verus! {

/// The first line of every wrapped key file.
pub const HEADER: &'static str = "coldpad-wrapped-key-v1";

/// The label that starts the salt line.
pub const SALT_LABEL: &'static str = "salt:";

/// The label that starts the nonce line.
pub const NONCE_LABEL: &'static str = "nonce:";

/// The label that starts the sealed-key line.
pub const CIPHERTEXT_LABEL: &'static str = "ciphertext:";

/// Length in bytes of the Argon2id salt.
pub const SALT_LEN: usize = 16;

/// Length in bytes of the AES-GCM nonce.
pub const NONCE_LEN: usize = 12;

/// Length in bytes of the derived AES-256 key.
pub const KEY_LEN: usize = 32;

/// Argon2id memory cost in KiB.
pub const ARGON2_M_KIB: u32 = 19456;

/// Argon2id number of passes.
pub const ARGON2_T: u32 = 2;

/// Argon2id degree of parallelism.
pub const ARGON2_P: u32 = 1;

/// The longest plaintext AES-GCM seals: 2^36 bytes.
pub const AES_GCM_P_MAX: u64 = 0x10_0000_0000;

/// The byte of a line feed.
pub const NEWLINE: u8 = 10;

/// The byte of a carriage return.
pub const CARRIAGE_RETURN: u8 = 13;

/// Why a wrapped key could not be opened.
#[derive(Debug, Clone, Copy, PartialEq, Eq, Structural)]
pub enum WrapError {
    /// The text is not a wrapped key file of this format.
    InvalidFormat,
    /// The password is wrong or the sealed key was altered.
    AuthenticationFailed,
}

impl WrapError {
    /// The human-readable description of the error.
    pub fn message(&self) -> (m: &'static str)
        ensures
            m@ == (match self {
                WrapError::InvalidFormat => "invalid wrapped key format"@,
                WrapError::AuthenticationFailed => "wrong password or tampered wrapped key"@,
            }),
    {
        match self {
            WrapError::InvalidFormat => "invalid wrapped key format",
            WrapError::AuthenticationFailed => "wrong password or tampered wrapped key",
        }
    }
}

/// The bytes of ASCII text, one per character.
pub open spec fn ascii_bytes(s: Seq<char>) -> Seq<u8> {
    s.map_values(|c: char| c as u8)
}

/// The text of a wrapped key file for the given salt, nonce and sealed key.
pub open spec fn wrapped_key_text(salt: Seq<u8>, nonce: Seq<u8>, ciphertext: Seq<u8>) -> Seq<char> {
    HEADER@ + seq!['\n'] + SALT_LABEL@ + hex_lower(salt) + seq!['\n'] + NONCE_LABEL@ + hex_lower(nonce)
        + seq!['\n'] + CIPHERTEXT_LABEL@ + hex_lower(ciphertext) + seq!['\n']
}

/// The bytes of a wrapped key file for the given salt, nonce and sealed key.
pub open spec fn wrapped_key_format(salt: Seq<u8>, nonce: Seq<u8>, ciphertext: Seq<u8>) -> Seq<u8> {
    ascii_bytes(wrapped_key_text(salt, nonce, ciphertext))
}

/// The number of bytes before the first line feed, or all of them.
pub open spec fn newline_index(b: Seq<u8>) -> nat
    decreases b.len(),
{
    if b.len() == 0 || b[0] == NEWLINE {
        0
    } else {
        1 + newline_index(b.drop_first())
    }
}

/// The first line of `b`, without its line feed and without a carriage return
/// that stands right before that line feed.
pub open spec fn line_of(b: Seq<u8>) -> Seq<u8> {
    let n = newline_index(b);
    let raw = b.take(n as int);
    if n < b.len() && n > 0 && raw.last() == CARRIAGE_RETURN {
        raw.drop_last()
    } else {
        raw
    }
}

/// What follows the first line and its line feed.
pub open spec fn rest_after_line(b: Seq<u8>) -> Seq<u8> {
    let n = newline_index(b);
    if n < b.len() {
        b.skip(n + 1int)
    } else {
        Seq::empty()
    }
}

/// The bytes a labelled line holds: the label, then hexadecimal digits that
/// may be surrounded by white space.
pub open spec fn field_value(line: Seq<u8>, label: Seq<u8>) -> Option<Seq<u8>> {
    if label.len() <= line.len() && line.take(label.len() as int) == label {
        let v = line.skip(label.len() as int);
        if valid_utf8(v) {
            let t = trim_spec(decode_utf8(v));
            if hex_decodable(t) {
                Some(hex_decoded(t))
            } else {
                None
            }
        } else {
            None
        }
    } else {
        None
    }
}

/// The salt, nonce and sealed key that a wrapped key file holds, or `None`
/// where the bytes are not such a file.
pub open spec fn parse_wrapped_spec(b: Seq<u8>) -> Option<(Seq<u8>, Seq<u8>, Seq<u8>)> {
    let r1 = rest_after_line(b);
    let r2 = rest_after_line(r1);
    let r3 = rest_after_line(r2);
    if !valid_utf8(b) || b.len() == 0 || line_of(b) != ascii_bytes(HEADER@) || r1.len() == 0
        || r2.len() == 0 || r3.len() == 0 {
        None
    } else {
        match (
            field_value(line_of(r1), ascii_bytes(SALT_LABEL@)),
            field_value(line_of(r2), ascii_bytes(NONCE_LABEL@)),
            field_value(line_of(r3), ascii_bytes(CIPHERTEXT_LABEL@)),
        ) {
            (Some(salt), Some(nonce), Some(ciphertext)) => {
                if salt.len() == SALT_LEN && nonce.len() == NONCE_LEN {
                    Some((salt, nonce, ciphertext))
                } else {
                    None
                }
            },
            _ => None,
        }
    }
}

/// The three fields of a wrapped key file.
pub struct WrappedKeyFields {
    pub salt: Vec<u8>,
    pub nonce: Vec<u8>,
    pub ciphertext: Vec<u8>,
}

pub proof fn lemma_ascii_bytes_encode(s: Seq<char>)
    requires
        is_ascii_chars(s),
    ensures
        encode_utf8(s) == ascii_bytes(s),
{
    vstd::utf8::is_ascii_chars_encode_utf8(s);
    assert(encode_utf8(s) =~= ascii_bytes(s));
}

proof fn lemma_ascii_bytes_concat(a: Seq<char>, b: Seq<char>)
    ensures
        ascii_bytes(a + b) == ascii_bytes(a) + ascii_bytes(b),
{
    assert(ascii_bytes(a + b) =~= ascii_bytes(a) + ascii_bytes(b));
}

pub proof fn lemma_labels()
    ensures
        HEADER@ == seq![
            'c', 'o', 'l', 'd', 'p', 'a', 'd', '-', 'w', 'r', 'a', 'p', 'p', 'e', 'd', '-', 'k',
            'e', 'y', '-', 'v', '1',
        ],
        SALT_LABEL@ == seq!['s', 'a', 'l', 't', ':'],
        NONCE_LABEL@ == seq!['n', 'o', 'n', 'c', 'e', ':'],
        CIPHERTEXT_LABEL@ == seq!['c', 'i', 'p', 'h', 'e', 'r', 't', 'e', 'x', 't', ':'],
{
    reveal_strlit("coldpad-wrapped-key-v1");
    reveal_strlit("salt:");
    reveal_strlit("nonce:");
    reveal_strlit("ciphertext:");
    assert(HEADER@ =~= seq![
        'c', 'o', 'l', 'd', 'p', 'a', 'd', '-', 'w', 'r', 'a', 'p', 'p', 'e', 'd', '-', 'k',
        'e', 'y', '-', 'v', '1',
    ]);
    assert(SALT_LABEL@ =~= seq!['s', 'a', 'l', 't', ':']);
    assert(NONCE_LABEL@ =~= seq!['n', 'o', 'n', 'c', 'e', ':']);
    assert(CIPHERTEXT_LABEL@ =~= seq!['c', 'i', 'p', 'h', 'e', 'r', 't', 'e', 'x', 't', ':']);
}

/// The header and the labels are printable ASCII without line breaks.
proof fn lemma_labels_plain()
    ensures
        is_ascii_chars(HEADER@),
        is_ascii_chars(SALT_LABEL@),
        is_ascii_chars(NONCE_LABEL@),
        is_ascii_chars(CIPHERTEXT_LABEL@),
        forall|i: int| 0 <= i < HEADER@.len() ==> #[trigger] HEADER@[i] != '\n' && HEADER@[i] != '\r',
        forall|i: int| 0 <= i < SALT_LABEL@.len() ==> #[trigger] SALT_LABEL@[i] != '\n',
        forall|i: int| 0 <= i < NONCE_LABEL@.len() ==> #[trigger] NONCE_LABEL@[i] != '\n',
        forall|i: int| 0 <= i < CIPHERTEXT_LABEL@.len() ==> #[trigger] CIPHERTEXT_LABEL@[i] != '\n',
        HEADER@.len() > 0,
        HEADER@.last() == '1',
{
    lemma_labels();
}

/// The position of the first line feed, found by a scan.
proof fn lemma_newline_index(b: Seq<u8>, n: int)
    requires
        0 <= n <= b.len(),
        forall|j: int| 0 <= j < n ==> b[j] != NEWLINE,
        n == b.len() || b[n] == NEWLINE,
    ensures
        newline_index(b) == n,
    decreases n,
{
    if n > 0 {
        lemma_newline_index(b.drop_first(), n - 1);
    }
}

/// A line without line feeds followed by a line feed is read back whole.
proof fn lemma_line_split(p: Seq<u8>, rest: Seq<u8>)
    requires
        forall|j: int| 0 <= j < p.len() ==> p[j] != NEWLINE,
        p.len() > 0 ==> p.last() != CARRIAGE_RETURN,
    ensures
        line_of(p + seq![NEWLINE] + rest) == p,
        rest_after_line(p + seq![NEWLINE] + rest) == rest,
{
    let b = p + seq![NEWLINE] + rest;
    lemma_newline_index(b, p.len() as int);
    assert(b.take(p.len() as int) =~= p);
    assert(b.skip(p.len() + 1int) =~= rest);
}

/// Hexadecimal text survives trimming and UTF-8 decoding unchanged.
proof fn lemma_hex_field(label: Seq<char>, bytes: Seq<u8>)
    requires
        is_ascii_chars(label),
    ensures
        field_value(ascii_bytes(label) + ascii_bytes(hex_lower(bytes)), ascii_bytes(label))
            == Some(bytes),
{
    let h = hex_lower(bytes);
    lemma_hex_lower_digits(bytes);
    assert(is_ascii_chars(h));
    let line = ascii_bytes(label) + ascii_bytes(h);
    let lb = ascii_bytes(label);
    assert(line.take(lb.len() as int) =~= lb);
    assert(line.skip(lb.len() as int) =~= ascii_bytes(h));
    lemma_ascii_bytes_encode(h);
    vstd::utf8::encode_utf8_valid_utf8(h);
    vstd::utf8::encode_utf8_decode_utf8(h);
    if h.len() > 0 {
        assert(!is_white_space(h[0]));
        assert(!is_white_space(h.last()));
    }
    crate::text::lemma_trim_no_white_space_ends(h);
    lemma_hex_roundtrip(bytes);
}

/// A labelled hexadecimal line holds no line feed and does not end in a
/// carriage return.
proof fn lemma_labelled_line(label: Seq<char>, bytes: Seq<u8>)
    requires
        is_ascii_chars(label),
        label.len() > 0,
        label.last() == ':',
        forall|i: int| 0 <= i < label.len() ==> #[trigger] label[i] != '\n',
    ensures
        forall|j: int|
            0 <= j < (ascii_bytes(label) + ascii_bytes(hex_lower(bytes))).len() ==> (ascii_bytes(
                label,
            ) + ascii_bytes(hex_lower(bytes)))[j] != NEWLINE,
        (ascii_bytes(label) + ascii_bytes(hex_lower(bytes))).last() != CARRIAGE_RETURN,
        is_ascii_chars(label + hex_lower(bytes)),
{
    let h = hex_lower(bytes);
    lemma_hex_lower_digits(bytes);
    let l = ascii_bytes(label) + ascii_bytes(h);
    assert forall|j: int| 0 <= j < l.len() implies l[j] != NEWLINE by {
        if j < label.len() {
            assert(l[j] == label[j] as u8);
            assert(label[j] != '\n');
        } else {
            assert(l[j] == h[j - label.len()] as u8);
        }
    }
    if h.len() > 0 {
        assert(l.last() == h.last() as u8);
    } else {
        assert(l.last() == label.last() as u8);
    }
    let t = label + h;
    assert forall|i: int| 0 <= i < t.len() implies '\0' <= #[trigger] t[i] <= '\u{7f}' by {
        if i < label.len() {
            assert(t[i] == label[i]);
        } else {
            assert(t[i] == h[i - label.len()]);
        }
    }
}

proof fn lemma_ascii_concat(a: Seq<char>, b: Seq<char>)
    requires
        is_ascii_chars(a),
        is_ascii_chars(b),
    ensures
        is_ascii_chars(a + b),
{
    assert forall|i: int| 0 <= i < (a + b).len() implies '\0' <= #[trigger] (a + b)[i] <= '\u{7f}' by {
        if i < a.len() {
            assert((a + b)[i] == a[i]);
        } else {
            assert((a + b)[i] == b[i - a.len()]);
        }
    }
}

/// The bytes of a wrapped key file are valid UTF-8.
proof fn lemma_wrapped_key_utf8(salt: Seq<u8>, nonce: Seq<u8>, ciphertext: Seq<u8>)
    ensures
        valid_utf8(wrapped_key_format(salt, nonce, ciphertext)),
{
    lemma_labels_plain();
    lemma_labels();
    let nl = seq!['\n'];
    let a = SALT_LABEL@ + hex_lower(salt);
    let b = NONCE_LABEL@ + hex_lower(nonce);
    let c = CIPHERTEXT_LABEL@ + hex_lower(ciphertext);
    lemma_labelled_line(SALT_LABEL@, salt);
    lemma_labelled_line(NONCE_LABEL@, nonce);
    lemma_labelled_line(CIPHERTEXT_LABEL@, ciphertext);
    let t = wrapped_key_text(salt, nonce, ciphertext);
    assert(is_ascii_chars(nl));
    lemma_ascii_concat(HEADER@, nl);
    lemma_ascii_concat(HEADER@ + nl, a);
    lemma_ascii_concat(HEADER@ + nl + a, nl);
    lemma_ascii_concat(HEADER@ + nl + a + nl, b);
    lemma_ascii_concat(HEADER@ + nl + a + nl + b, nl);
    lemma_ascii_concat(HEADER@ + nl + a + nl + b + nl, c);
    lemma_ascii_concat(HEADER@ + nl + a + nl + b + nl + c, nl);
    assert(t =~= HEADER@ + nl + a + nl + b + nl + c + nl);
    lemma_ascii_bytes_encode(t);
    vstd::utf8::encode_utf8_valid_utf8(t);
}

/// The bytes of a wrapped key file, line by line.
proof fn lemma_wrapped_key_lines(salt: Seq<u8>, nonce: Seq<u8>, ciphertext: Seq<u8>)
    ensures
        wrapped_key_format(salt, nonce, ciphertext) == ascii_bytes(HEADER@) + seq![NEWLINE] + (
        ascii_bytes(SALT_LABEL@) + ascii_bytes(hex_lower(salt)) + seq![NEWLINE] + (ascii_bytes(
            NONCE_LABEL@,
        ) + ascii_bytes(hex_lower(nonce)) + seq![NEWLINE] + (ascii_bytes(CIPHERTEXT_LABEL@)
            + ascii_bytes(hex_lower(ciphertext)) + seq![NEWLINE] + Seq::<u8>::empty()))),
{
    let t = wrapped_key_text(salt, nonce, ciphertext);
    let rhs = ascii_bytes(HEADER@) + seq![NEWLINE] + (ascii_bytes(SALT_LABEL@) + ascii_bytes(
        hex_lower(salt),
    ) + seq![NEWLINE] + (ascii_bytes(NONCE_LABEL@) + ascii_bytes(hex_lower(nonce)) + seq![NEWLINE]
        + (ascii_bytes(CIPHERTEXT_LABEL@) + ascii_bytes(hex_lower(ciphertext)) + seq![NEWLINE]
        + Seq::<u8>::empty())));
    assert(ascii_bytes(seq!['\n']) =~= seq![NEWLINE]);
    let nl = seq!['\n'];
    lemma_ascii_bytes_concat(HEADER@, nl);
    let p1 = HEADER@ + nl;
    lemma_ascii_bytes_concat(p1, SALT_LABEL@);
    let p2 = p1 + SALT_LABEL@;
    lemma_ascii_bytes_concat(p2, hex_lower(salt));
    let p3 = p2 + hex_lower(salt);
    lemma_ascii_bytes_concat(p3, nl);
    let p4 = p3 + nl;
    lemma_ascii_bytes_concat(p4, NONCE_LABEL@);
    let p5 = p4 + NONCE_LABEL@;
    lemma_ascii_bytes_concat(p5, hex_lower(nonce));
    let p6 = p5 + hex_lower(nonce);
    lemma_ascii_bytes_concat(p6, nl);
    let p7 = p6 + nl;
    lemma_ascii_bytes_concat(p7, CIPHERTEXT_LABEL@);
    let p8 = p7 + CIPHERTEXT_LABEL@;
    lemma_ascii_bytes_concat(p8, hex_lower(ciphertext));
    let p9 = p8 + hex_lower(ciphertext);
    lemma_ascii_bytes_concat(p9, nl);
    assert(ascii_bytes(t) =~= rhs);
}

/// Reading a wrapped key file gives back the salt, nonce and sealed key written
/// into it.
pub proof fn lemma_wrapped_key_roundtrip(salt: Seq<u8>, nonce: Seq<u8>, ciphertext: Seq<u8>)
    requires
        salt.len() == SALT_LEN,
        nonce.len() == NONCE_LEN,
    ensures
        parse_wrapped_spec(wrapped_key_format(salt, nonce, ciphertext)) == Some(
            (salt, nonce, ciphertext),
        ),
{
    lemma_labels_plain();
    lemma_labels();
    lemma_wrapped_key_utf8(salt, nonce, ciphertext);
    lemma_wrapped_key_lines(salt, nonce, ciphertext);
    let l0 = ascii_bytes(HEADER@);
    let l1 = ascii_bytes(SALT_LABEL@) + ascii_bytes(hex_lower(salt));
    let l2 = ascii_bytes(NONCE_LABEL@) + ascii_bytes(hex_lower(nonce));
    let l3 = ascii_bytes(CIPHERTEXT_LABEL@) + ascii_bytes(hex_lower(ciphertext));
    let r3 = l3 + seq![NEWLINE] + Seq::<u8>::empty();
    let r2 = l2 + seq![NEWLINE] + r3;
    let r1 = l1 + seq![NEWLINE] + r2;
    assert forall|j: int| 0 <= j < l0.len() implies l0[j] != NEWLINE by {
        assert(HEADER@[j] != '\n');
    }
    assert(l0.last() == (HEADER@.last() as u8));
    lemma_line_split(l0, r1);
    lemma_labelled_line(SALT_LABEL@, salt);
    lemma_line_split(l1, r2);
    lemma_labelled_line(NONCE_LABEL@, nonce);
    lemma_line_split(l2, r3);
    lemma_labelled_line(CIPHERTEXT_LABEL@, ciphertext);
    lemma_line_split(l3, Seq::<u8>::empty());
    lemma_hex_field(SALT_LABEL@, salt);
    lemma_hex_field(NONCE_LABEL@, nonce);
    lemma_hex_field(CIPHERTEXT_LABEL@, ciphertext);
}

/// Whether `data` starts with the wrapped-key header line.
pub open spec fn is_wrapped_key_spec(data: Seq<u8>) -> bool {
    &&& data.len() > HEADER@.len()
    &&& data.take(HEADER@.len() as int) == ascii_bytes(HEADER@)
    &&& data[HEADER@.len() as int] == NEWLINE
}

/// Every wrapped key file is recognised as one.
pub proof fn lemma_wrapped_key_detected(salt: Seq<u8>, nonce: Seq<u8>, ciphertext: Seq<u8>)
    ensures
        is_wrapped_key_spec(wrapped_key_format(salt, nonce, ciphertext)),
{
    lemma_labels_plain();
    lemma_wrapped_key_lines(salt, nonce, ciphertext);
    let b = wrapped_key_format(salt, nonce, ciphertext);
    let h = ascii_bytes(HEADER@);
    assert(b.take(h.len() as int) =~= h);
    assert(b[h.len() as int] == NEWLINE);
}

/// The bytes of the header and labels, as `str::as_bytes` gives them.
proof fn lemma_label_bytes()
    ensures
        HEADER.spec_bytes() == ascii_bytes(HEADER@),
        SALT_LABEL.spec_bytes() == ascii_bytes(SALT_LABEL@),
        NONCE_LABEL.spec_bytes() == ascii_bytes(NONCE_LABEL@),
        CIPHERTEXT_LABEL.spec_bytes() == ascii_bytes(CIPHERTEXT_LABEL@),
        HEADER@.len() == 22,
{
    lemma_labels_plain();
    lemma_labels();
    lemma_ascii_bytes_encode(HEADER@);
    lemma_ascii_bytes_encode(SALT_LABEL@);
    lemma_ascii_bytes_encode(NONCE_LABEL@);
    lemma_ascii_bytes_encode(CIPHERTEXT_LABEL@);
}

/// The bytes of lowercase hexadecimal text are its characters.
proof fn lemma_hex_bytes(bytes: Seq<u8>)
    ensures
        encode_utf8(hex_lower(bytes)) == ascii_bytes(hex_lower(bytes)),
{
    lemma_hex_lower_digits(bytes);
    lemma_ascii_bytes_encode(hex_lower(bytes));
}

/// Whether two byte slices hold the same bytes.
fn bytes_eq(a: &[u8], b: &[u8]) -> (r: bool)
    ensures
        r == (a@ == b@),
{
    if a.len() != b.len() {
        return false;
    }
    let mut i: usize = 0;
    while i < a.len()
        invariant
            a@.len() == b@.len(),
            i <= a@.len(),
            forall|j: int| 0 <= j < i ==> a@[j] == b@[j],
        decreases a@.len() - i,
    {
        if a[i] != b[i] {
            return false;
        }
        i = i + 1;
    }
    assert(a@ =~= b@);
    true
}

/// Appends the bytes of `src` to `out`.
fn push_bytes(out: &mut Vec<u8>, src: &[u8])
    ensures
        final(out)@ == old(out)@ + src@,
{
    let mut i: usize = 0;
    while i < src.len()
        invariant
            i <= src@.len(),
            out@ =~= old(out)@ + src@.take(i as int),
        decreases src@.len() - i,
    {
        out.push(src[i]);
        i = i + 1;
    }
    assert(src@.take(src@.len() as int) =~= src@);
}

/// Whether `data` begins with the header line of a wrapped key file.
pub fn is_wrapped_key(data: &[u8]) -> (r: bool)
    ensures
        r == is_wrapped_key_spec(data@),
{
    proof {
        lemma_label_bytes();
    }
    let header = HEADER.as_bytes();
    if data.len() <= header.len() {
        return false;
    }
    let head = &data[0..header.len()];
    assert(head@ == data@.take(HEADER@.len() as int));
    bytes_eq(head, header) && data[header.len()] == NEWLINE
}

/// The text of a wrapped key file holding the given fields.
pub fn format_wrapped_key(salt: &[u8], nonce: &[u8], ciphertext: &[u8]) -> (out: Vec<u8>)
    requires
        salt@.len() <= usize::MAX / 4,
        nonce@.len() <= usize::MAX / 4,
        ciphertext@.len() <= usize::MAX / 4,
    ensures
        out@ == wrapped_key_format(salt@, nonce@, ciphertext@),
{
    proof {
        lemma_label_bytes();
        lemma_hex_bytes(salt@);
        lemma_hex_bytes(nonce@);
        lemma_hex_bytes(ciphertext@);
        lemma_wrapped_key_lines(salt@, nonce@, ciphertext@);
    }
    let salt_hex = hex_encode(salt);
    let nonce_hex = hex_encode(nonce);
    let ciphertext_hex = hex_encode(ciphertext);
    let mut out: Vec<u8> = Vec::new();
    push_bytes(&mut out, HEADER.as_bytes());
    out.push(NEWLINE);
    push_bytes(&mut out, SALT_LABEL.as_bytes());
    push_bytes(&mut out, salt_hex.as_str().as_bytes());
    out.push(NEWLINE);
    push_bytes(&mut out, NONCE_LABEL.as_bytes());
    push_bytes(&mut out, nonce_hex.as_str().as_bytes());
    out.push(NEWLINE);
    push_bytes(&mut out, CIPHERTEXT_LABEL.as_bytes());
    push_bytes(&mut out, ciphertext_hex.as_str().as_bytes());
    out.push(NEWLINE);
    assert(out@ =~= wrapped_key_format(salt@, nonce@, ciphertext@));
    out
}

/// Finds the line that starts at `pos`: returns where it ends (without its
/// line break) and where the next line starts.
fn take_line(b: &[u8], pos: usize) -> (r: (usize, usize))
    requires
        pos <= b@.len(),
    ensures
        pos <= r.0 <= b@.len(),
        r.1 <= b@.len(),
        b@.subrange(pos as int, r.0 as int) == line_of(b@.skip(pos as int)),
        b@.skip(r.1 as int) == rest_after_line(b@.skip(pos as int)),
{
    let mut i: usize = pos;
    while i < b.len() && b[i] != NEWLINE
        invariant
            pos <= i <= b@.len(),
            forall|j: int| pos <= j < i ==> b@[j] != NEWLINE,
        decreases b@.len() - i,
    {
        i = i + 1;
    }
    let ghost rest = b@.skip(pos as int);
    proof {
        lemma_newline_index(rest, (i - pos) as int);
        assert(rest.take((i - pos) as int) =~= b@.subrange(pos as int, i as int));
    }
    if i < b.len() {
        proof {
            assert(rest.skip((i - pos) + 1) =~= b@.skip(i + 1));
        }
        if i > pos && b[i - 1] == CARRIAGE_RETURN {
            proof {
                assert(b@.subrange(pos as int, i as int).drop_last() =~= b@.subrange(
                    pos as int,
                    (i - 1) as int,
                ));
            }
            (i - 1, i + 1)
        } else {
            (i, i + 1)
        }
    } else {
        proof {
            assert(b@.skip(b@.len() as int) =~= Seq::<u8>::empty());
        }
        (i, b.len())
    }
}

/// Trusted: `std::str::from_utf8`; `Ok` becomes `Some`. It accepts exactly the
/// well-formed UTF-8 byte sequences and decodes them.
#[verifier::external_body]
pub(crate) fn str_from_utf8(bytes: &[u8]) -> (r: Option<&str>)
    ensures
        r is Some <==> valid_utf8(bytes@),
        r matches Some(s) ==> s@ == decode_utf8(bytes@),
{
    std::str::from_utf8(bytes).ok()
}

/// Reads the hexadecimal value of a line that starts with `label`.
fn parse_prefixed_hex(line: &[u8], label: &str) -> (r: Result<Vec<u8>, WrapError>)
    ensures
        match field_value(line@, label.spec_bytes()) {
            Some(v) => r matches Ok(got) && got@ == v,
            None => r == Err::<Vec<u8>, WrapError>(WrapError::InvalidFormat),
        },
{
    let lb = label.as_bytes();
    if line.len() < lb.len() {
        return Err(WrapError::InvalidFormat);
    }
    let head = &line[0..lb.len()];
    if !bytes_eq(head, lb) {
        return Err(WrapError::InvalidFormat);
    }
    let value = &line[lb.len()..line.len()];
    assert(value@ == line@.skip(lb@.len() as int));
    match str_from_utf8(value) {
        None => Err(WrapError::InvalidFormat),
        Some(text) => {
            let trimmed = str_trim(text);
            match hex_decode(trimmed) {
                Ok(v) => Ok(v),
                Err(_) => Err(WrapError::InvalidFormat),
            }
        },
    }
}

/// Splits a wrapped key file into its salt, nonce and sealed key.
pub fn parse_wrapped_key(wrapped: &[u8]) -> (r: Result<WrappedKeyFields, WrapError>)
    ensures
        match parse_wrapped_spec(wrapped@) {
            Some(fields) => r matches Ok(f) && f.salt@ == fields.0 && f.nonce@ == fields.1
                && f.ciphertext@ == fields.2,
            None => r is Err && r->Err_0 == WrapError::InvalidFormat,
        },
{
    proof {
        lemma_label_bytes();
    }
    let len = wrapped.len();
    if str_from_utf8(wrapped).is_none() || len == 0 {
        return Err(WrapError::InvalidFormat);
    }
    assert(wrapped@.skip(0) =~= wrapped@);
    let (e0, n1) = take_line(wrapped, 0);
    let header_line = &wrapped[0..e0];
    if !bytes_eq(header_line, HEADER.as_bytes()) || n1 == len {
        return Err(WrapError::InvalidFormat);
    }
    let (e1, n2) = take_line(wrapped, n1);
    if n2 == len {
        return Err(WrapError::InvalidFormat);
    }
    let (e2, n3) = take_line(wrapped, n2);
    if n3 == len {
        return Err(WrapError::InvalidFormat);
    }
    let (e3, _n4) = take_line(wrapped, n3);
    let salt = match parse_prefixed_hex(&wrapped[n1..e1], SALT_LABEL) {
        Ok(v) => v,
        Err(e) => {
            return Err(e);
        },
    };
    let nonce = match parse_prefixed_hex(&wrapped[n2..e2], NONCE_LABEL) {
        Ok(v) => v,
        Err(e) => {
            return Err(e);
        },
    };
    let ciphertext = match parse_prefixed_hex(&wrapped[n3..e3], CIPHERTEXT_LABEL) {
        Ok(v) => v,
        Err(e) => {
            return Err(e);
        },
    };
    if salt.len() != SALT_LEN || nonce.len() != NONCE_LEN {
        return Err(WrapError::InvalidFormat);
    }
    Ok(WrappedKeyFields { salt, nonce, ciphertext })
}

/// The output of Argon2id, version 0x13, with the given costs and output
/// length, for `password` and `salt`.
pub uninterp spec fn argon2id_v13(
    m_cost: u32,
    t_cost: u32,
    p_cost: u32,
    output_len: usize,
    password: Seq<u8>,
    salt: Seq<u8>,
) -> Seq<u8>;

/// What AES-256-GCM with `key` and `nonce`, without associated data, makes of
/// `plaintext`: the ciphertext followed by the 16-byte tag.
pub uninterp spec fn aes256gcm_sealed(key: Seq<u8>, nonce: Seq<u8>, plaintext: Seq<u8>) -> Seq<u8>;

/// What AES-256-GCM with `key` and `nonce`, without associated data, recovers
/// from `ciphertext`, or `None` where the tag does not match.
pub uninterp spec fn aes256gcm_opened(key: Seq<u8>, nonce: Seq<u8>, ciphertext: Seq<u8>) -> Option<
    Seq<u8>,
>;

/// Whether Argon2 accepts these costs, output length and input lengths.
pub open spec fn argon2_accepts(
    m_cost: u32,
    t_cost: u32,
    p_cost: u32,
    output_len: usize,
    password_len: nat,
    salt_len: nat,
) -> bool {
    &&& 8 <= m_cost
    &&& 8 * p_cost <= m_cost
    &&& 1 <= t_cost
    &&& 1 <= p_cost <= 0xff_ffff
    &&& 4 <= output_len <= 0xffff_ffff
    &&& password_len <= 0xffff_ffff
    &&& 8 <= salt_len <= 0xffff_ffff
}

#[verifier::external_type_specification]
#[verifier::external_body]
pub struct ExArgon2Error(argon2::Error);

#[verifier::external_type_specification]
#[verifier::external_body]
pub struct ExAeadError(aes_gcm::Error);

/// Trusted: `argon2::Params::new` with the given costs and output length, then
/// `Argon2::new(Algorithm::Argon2id, Version::V0x13, params)` and its
/// `hash_password_into` into a buffer of `output_len` bytes. The crate's source
/// returns an error exactly when a cost, the output length, the password length
/// or the salt length is out of the ranges that `argon2_accepts` lists; the
/// output is a function of the inputs alone.
#[verifier::external_body]
fn argon2id_hash(
    m_cost: u32,
    t_cost: u32,
    p_cost: u32,
    output_len: usize,
    password: &[u8],
    salt: &[u8],
) -> (r: Result<Vec<u8>, argon2::Error>)
    requires
        p_cost <= 0xff_ffff,
    ensures
        r is Ok <==> argon2_accepts(m_cost, t_cost, p_cost, output_len, password@.len(), salt@.len()),
        r matches Ok(k) ==> k@ == argon2id_v13(m_cost, t_cost, p_cost, output_len, password@, salt@)
            && k@.len() == output_len,
{
    let params = argon2::Params::new(m_cost, t_cost, p_cost, Some(output_len))?;
    let argon = argon2::Argon2::new(argon2::Algorithm::Argon2id, argon2::Version::V0x13, params);
    let mut out = vec![0u8; output_len];
    argon.hash_password_into(password, salt, &mut out)?;
    Ok(out)
}

/// Trusted: `Aes256Gcm::new` from a 32-byte key, then `Aead::encrypt` with a
/// 12-byte nonce and no associated data. It fails only for a plaintext longer
/// than 2^36 bytes, and appends a 16-byte tag to the ciphertext.
#[verifier::external_body]
fn aes256gcm_encrypt(key: &[u8], nonce: &[u8], plaintext: &[u8]) -> (r: Result<Vec<u8>, aes_gcm::Error>)
    requires
        key@.len() == KEY_LEN,
        nonce@.len() == NONCE_LEN,
    ensures
        r is Ok <==> plaintext@.len() <= AES_GCM_P_MAX,
        r matches Ok(c) ==> c@ == aes256gcm_sealed(key@, nonce@, plaintext@) && c@.len()
            == plaintext@.len() + 16,
{
    let cipher = aes_gcm::Aes256Gcm::new(aes_gcm::Key::<aes_gcm::Aes256Gcm>::from_slice(key));
    cipher.encrypt(aes_gcm::Nonce::from_slice(nonce), plaintext)
}

/// Trusted: `Aes256Gcm::new` from a 32-byte key, then `Aead::decrypt` with a
/// 12-byte nonce and no associated data. It succeeds exactly when the tag
/// matches; what `Aead::encrypt` sealed under the same key and nonce it opens
/// to the original plaintext.
#[verifier::external_body]
fn aes256gcm_decrypt(key: &[u8], nonce: &[u8], ciphertext: &[u8]) -> (r: Result<Vec<u8>, aes_gcm::Error>)
    requires
        key@.len() == KEY_LEN,
        nonce@.len() == NONCE_LEN,
    ensures
        r matches Ok(p) ==> aes256gcm_opened(key@, nonce@, ciphertext@) == Some(p@),
        r is Err ==> aes256gcm_opened(key@, nonce@, ciphertext@) is None,
        forall|p: Seq<u8>|
            p.len() <= AES_GCM_P_MAX && #[trigger] aes256gcm_sealed(key@, nonce@, p) == ciphertext@
                ==> r is Ok && r->Ok_0@ == p,
{
    let cipher = aes_gcm::Aes256Gcm::new(aes_gcm::Key::<aes_gcm::Aes256Gcm>::from_slice(key));
    cipher.decrypt(aes_gcm::Nonce::from_slice(nonce), ciphertext)
}

/// The AES key that the password and salt give.
pub open spec fn derived_key(password: Seq<u8>, salt: Seq<u8>) -> Seq<u8> {
    argon2id_v13(ARGON2_M_KIB, ARGON2_T, ARGON2_P, KEY_LEN, password, salt)
}

/// Whether Argon2 accepts a password and salt of these lengths with the
/// tool's costs.
pub open spec fn derive_accepts(password_len: nat, salt_len: nat) -> bool {
    argon2_accepts(ARGON2_M_KIB, ARGON2_T, ARGON2_P, KEY_LEN, password_len, salt_len)
}

fn derive_key(password: &str, salt: &[u8]) -> (r: Result<Vec<u8>, WrapError>)
    ensures
        r is Ok <==> derive_accepts(password.spec_bytes().len(), salt@.len()),
        r matches Ok(k) ==> k@ == derived_key(password.spec_bytes(), salt@) && k@.len() == KEY_LEN,
        r is Err ==> r->Err_0 == WrapError::InvalidFormat,
{
    match argon2id_hash(ARGON2_M_KIB, ARGON2_T, ARGON2_P, KEY_LEN, password.as_bytes(), salt) {
        Ok(k) => Ok(k),
        Err(_) => Err(WrapError::InvalidFormat),
    }
}

/// The wrapped key file for `key` under `password`, with the given salt and
/// nonce.
pub open spec fn wrap_key_output(key: Seq<u8>, password: Seq<u8>, salt: Seq<u8>, nonce: Seq<u8>) -> Seq<
    u8,
> {
    wrapped_key_format(salt, nonce, aes256gcm_sealed(derived_key(password, salt), nonce, key))
}

/// What unwrapping `wrapped` with `password` yields.
pub open spec fn unwrap_spec(wrapped: Seq<u8>, password: Seq<u8>) -> Result<Seq<u8>, WrapError> {
    match parse_wrapped_spec(wrapped) {
        None => Err(WrapError::InvalidFormat),
        Some(fields) => {
            if !derive_accepts(password.len(), fields.0.len()) {
                Err(WrapError::InvalidFormat)
            } else {
                match aes256gcm_opened(derived_key(password, fields.0), fields.1, fields.2) {
                    Some(p) => Ok(p),
                    None => Err(WrapError::AuthenticationFailed),
                }
            }
        },
    }
}

/// The view of a key result.
pub open spec fn key_result_view(r: Result<Vec<u8>, WrapError>) -> Result<Seq<u8>, WrapError> {
    match r {
        Ok(v) => Ok(v@),
        Err(e) => Err(e),
    }
}

/// Seals `key` under `password` with a fresh random salt and nonce, and
/// returns the text of a wrapped key file.
pub fn wrap_key(key: &[u8], password: &str) -> (out: Vec<u8>)
    requires
        key@.len() <= AES_GCM_P_MAX,
        key@.len() <= usize::MAX / 8,
        password.spec_bytes().len() <= 0xffff_ffff,
    ensures
        exists|salt: Seq<u8>, nonce: Seq<u8>|
            salt.len() == SALT_LEN && nonce.len() == NONCE_LEN && out@ == wrap_key_output(
                key@,
                password.spec_bytes(),
                salt,
                nonce,
            ),
        is_wrapped_key_spec(out@),
{
    let mut salt: Vec<u8> = vec![0u8; SALT_LEN];
    let mut nonce: Vec<u8> = vec![0u8; NONCE_LEN];
    fill_random(&mut salt);
    fill_random(&mut nonce);
    let derived = match derive_key(password, &salt) {
        Ok(k) => k,
        Err(_) => {
            proof {
                assert(false);
            }
            Vec::new()
        },
    };
    let ciphertext = match aes256gcm_encrypt(&derived, &nonce, key) {
        Ok(c) => c,
        Err(_) => {
            proof {
                assert(false);
            }
            Vec::new()
        },
    };
    let out = format_wrapped_key(&salt, &nonce, &ciphertext);
    assert(out@ == wrap_key_output(key@, password.spec_bytes(), salt@, nonce@));
    proof {
        lemma_wrapped_key_detected(salt@, nonce@, ciphertext@);
    }
    out
}

/// Opens a wrapped key file with `password`.
pub fn unwrap_key(wrapped: &[u8], password: &str) -> (r: Result<Vec<u8>, WrapError>)
    ensures
        key_result_view(r) == unwrap_spec(wrapped@, password.spec_bytes()),
        forall|key: Seq<u8>, salt: Seq<u8>, nonce: Seq<u8>|
            salt.len() == SALT_LEN && nonce.len() == NONCE_LEN && key.len() <= AES_GCM_P_MAX
                && password.spec_bytes().len() <= 0xffff_ffff && wrapped@ == #[trigger] wrap_key_output(
                key,
                password.spec_bytes(),
                salt,
                nonce,
            ) ==> (r matches Ok(v) && v@ == key),
{
    let ghost pw = password.spec_bytes();
    let fields = match parse_wrapped_key(wrapped) {
        Ok(f) => f,
        Err(e) => {
            proof {
                assert forall|key: Seq<u8>, salt: Seq<u8>, nonce: Seq<u8>|
                    salt.len() == SALT_LEN && nonce.len() == NONCE_LEN && key.len() <= AES_GCM_P_MAX
                        && pw.len() <= 0xffff_ffff && wrapped@ == #[trigger] wrap_key_output(
                        key,
                        pw,
                        salt,
                        nonce,
                    ) implies false by {
                    lemma_wrapped_key_roundtrip(
                        salt,
                        nonce,
                        aes256gcm_sealed(derived_key(pw, salt), nonce, key),
                    );
                }
            }
            return Err(e);
        },
    };
    let derived = match derive_key(password, &fields.salt) {
        Ok(k) => k,
        Err(e) => {
            proof {
                assert forall|key: Seq<u8>, salt: Seq<u8>, nonce: Seq<u8>|
                    salt.len() == SALT_LEN && nonce.len() == NONCE_LEN && key.len() <= AES_GCM_P_MAX
                        && pw.len() <= 0xffff_ffff && wrapped@ == #[trigger] wrap_key_output(
                        key,
                        pw,
                        salt,
                        nonce,
                    ) implies false by {
                    lemma_wrapped_key_roundtrip(
                        salt,
                        nonce,
                        aes256gcm_sealed(derived_key(pw, salt), nonce, key),
                    );
                }
            }
            return Err(e);
        },
    };
    let r = match aes256gcm_decrypt(&derived, &fields.nonce, &fields.ciphertext) {
        Ok(p) => Ok(p),
        Err(_) => Err(WrapError::AuthenticationFailed),
    };
    proof {
        assert forall|key: Seq<u8>, salt: Seq<u8>, nonce: Seq<u8>|
            salt.len() == SALT_LEN && nonce.len() == NONCE_LEN && key.len() <= AES_GCM_P_MAX
                && pw.len() <= 0xffff_ffff && wrapped@ == #[trigger] wrap_key_output(
                key,
                pw,
                salt,
                nonce,
            ) implies (r matches Ok(v) && v@ == key) by {
            lemma_wrapped_key_roundtrip(
                salt,
                nonce,
                aes256gcm_sealed(derived_key(pw, salt), nonce, key),
            );
            assert(aes256gcm_sealed(derived@, fields.nonce@, key) == fields.ciphertext@);
        }
    }
    r
}

/// Bytes that are not a wrapped key file of this format, among them any whose
/// first line is not the header, are refused as an invalid format whatever
/// the password.
pub proof fn lemma_unwrap_rejects_other_formats(wrapped: Seq<u8>, password: Seq<u8>)
    requires
        line_of(wrapped) != ascii_bytes(HEADER@) || parse_wrapped_spec(wrapped) is None,
    ensures
        unwrap_spec(wrapped, password) == Err::<Seq<u8>, WrapError>(WrapError::InvalidFormat),
{
}

} // verus!
