//! The one-time pad itself: random keys and byte-wise XOR.

use vstd::prelude::*;

verus! {

/// The byte-wise exclusive or of two sequences of equal length.
pub open spec fn xor_seq(data: Seq<u8>, key: Seq<u8>) -> Seq<u8>
    recommends
        data.len() == key.len(),
{
    Seq::new(data.len(), |i: int| data[i] ^ key[i])
}

/// Fills `buf` with bytes from the operating system's random number generator.
///
/// Trusted: calls `rand::rngs::OsRng.fill_bytes` (rand_core 0.6). The contract
/// states only that the length is kept; the bytes are whatever the OS returned.
/// `fill_bytes` panics when the OS source of randomness reports an error, which
/// depends on the machine and not on the argument.
#[verifier::external_body]
pub(crate) fn fill_random(buf: &mut Vec<u8>)
    ensures
        final(buf)@.len() == old(buf)@.len(),
{
    rand::RngCore::fill_bytes(&mut rand::rngs::OsRng, buf.as_mut_slice());
}

/// Generates a fresh random key of `length` bytes from the OS random source.
pub fn generate_key(length: usize) -> (key: Vec<u8>)
    ensures
        key@.len() == length,
{
    let mut key: Vec<u8> = Vec::new();
    let mut i: usize = 0;
    while i < length
        invariant
            i <= length,
            key@.len() == i,
        decreases length - i,
    {
        key.push(0u8);
        i = i + 1;
    }
    fill_random(&mut key);
    key
}

fn xor(data: &[u8], key: &[u8]) -> (out: Vec<u8>)
    requires
        data@.len() == key@.len(),
    ensures
        out@ == xor_seq(data@, key@),
{
    let mut out: Vec<u8> = Vec::new();
    let mut i: usize = 0;
    while i < data.len()
        invariant
            data@.len() == key@.len(),
            i <= data@.len(),
            out@ =~= xor_seq(data@, key@).take(i as int),
        decreases data@.len() - i,
    {
        out.push(data[i] ^ key[i]);
        i = i + 1;
    }
    assert(xor_seq(data@, key@).take(data@.len() as int) =~= xor_seq(data@, key@));
    out
}

/// Encrypts `plaintext` by XOR with `key`; the key must be exactly as long.
pub fn encrypt(plaintext: &[u8], key: &[u8]) -> (ciphertext: Vec<u8>)
    requires
        plaintext@.len() == key@.len(),
    ensures
        ciphertext@ == xor_seq(plaintext@, key@),
{
    xor(plaintext, key)
}

/// Decrypts `ciphertext` by XOR with `key`; the key must be exactly as long.
pub fn decrypt(ciphertext: &[u8], key: &[u8]) -> (plaintext: Vec<u8>)
    requires
        ciphertext@.len() == key@.len(),
    ensures
        plaintext@ == xor_seq(ciphertext@, key@),
{
    xor(ciphertext, key)
}

/// Decrypting with the key that encrypted gives the plaintext back.
pub proof fn lemma_decrypt_encrypt(plaintext: Seq<u8>, key: Seq<u8>)
    requires
        plaintext.len() == key.len(),
    ensures
        xor_seq(xor_seq(plaintext, key), key) == plaintext,
{
    assert forall|i: int| 0 <= i < plaintext.len() implies
        #[trigger] xor_seq(xor_seq(plaintext, key), key)[i] == plaintext[i] by {
        let p = plaintext[i];
        let k = key[i];
        assert((p ^ k) ^ k == p) by (bit_vector);
    }
    assert(xor_seq(xor_seq(plaintext, key), key) =~= plaintext);
}

/// The ciphertext has the plaintext's length.
pub proof fn lemma_ciphertext_length(plaintext: Seq<u8>, key: Seq<u8>)
    requires
        plaintext.len() == key.len(),
    ensures
        xor_seq(plaintext, key).len() == plaintext.len(),
{
}

/// Under one key, distinct plaintexts of one length give distinct ciphertexts.
pub proof fn lemma_encrypt_injective(p1: Seq<u8>, p2: Seq<u8>, key: Seq<u8>)
    requires
        p1.len() == key.len(),
        p2.len() == key.len(),
        xor_seq(p1, key) == xor_seq(p2, key),
    ensures
        p1 == p2,
{
    lemma_decrypt_encrypt(p1, key);
    lemma_decrypt_encrypt(p2, key);
}

/// One plaintext under distinct keys of its length gives distinct ciphertexts.
pub proof fn lemma_distinct_keys_distinct_ciphertexts(plaintext: Seq<u8>, k1: Seq<u8>, k2: Seq<u8>)
    requires
        plaintext.len() == k1.len(),
        plaintext.len() == k2.len(),
        k1 != k2,
    ensures
        xor_seq(plaintext, k1) != xor_seq(plaintext, k2),
{
    if xor_seq(plaintext, k1) == xor_seq(plaintext, k2) {
        lemma_decrypt_encrypt(k1, plaintext);
        lemma_decrypt_encrypt(k2, plaintext);
        assert(xor_seq(k1, plaintext) =~= xor_seq(plaintext, k1)) by {
            assert forall|i: int| 0 <= i < k1.len() implies
                #[trigger] xor_seq(k1, plaintext)[i] == xor_seq(plaintext, k1)[i] by {
                let a = k1[i];
                let b = plaintext[i];
                assert(a ^ b == b ^ a) by (bit_vector);
            }
        }
        assert(xor_seq(k2, plaintext) =~= xor_seq(plaintext, k2)) by {
            assert forall|i: int| 0 <= i < k2.len() implies
                #[trigger] xor_seq(k2, plaintext)[i] == xor_seq(plaintext, k2)[i] by {
                let a = k2[i];
                let b = plaintext[i];
                assert(a ^ b == b ^ a) by (bit_vector);
            }
        }
    }
}

} // verus!
