//! The computations behind the `encrypt`, `decrypt` and `info` commands: what
//! files an encryption writes, and what those files decrypt to.

use vstd::prelude::*;
use vstd::string::StringSliceAdditionalSpecFns;
use vstd::utf8::encode_utf8;
use crate::cli::Encoding;
use crate::encoding::{
    armor_error, armored, dearmored, lemma_base64_text_plain, decode_if_armored, encode_armored, is_base64_char,
    base64_standard,
};
use crate::hash::{compute, hash_text, verify};
use crate::hexcode::{hex_lower, lemma_hex_lower_digits};
use crate::key::{
    decode_key_file, key_file_contents, key_file_spec, password_view, size_mismatch,
    size_mismatch_message, tampered_message, unwrap_failure_message, verify_decryption,
    IntegrityCheck,
};
use crate::otp::{decrypt, encrypt, generate_key, lemma_decrypt_encrypt, xor_seq};
use crate::text::string_of;
use crate::wrap::{
    aes256gcm_sealed, ascii_bytes, derived_key, is_wrapped_key, is_wrapped_key_spec,
    lemma_ascii_bytes_encode, lemma_labels, lemma_wrapped_key_detected, unwrap_key, unwrap_spec,
    wrap_key, wrap_key_output, AES_GCM_P_MAX, HEADER, NEWLINE, NONCE_LEN, SALT_LEN,
};

verus! {

/// The files an encryption writes, and the sizes it reports.
pub struct EncryptFiles {
    pub ciphertext_file: Vec<u8>,
    pub key_file: Vec<u8>,
    pub hash_file: Option<Vec<u8>>,
    pub key_bytes: usize,
    pub ciphertext_bytes: usize,
}

/// What an encryption wrote, for the report.
pub struct EncryptResult {
    pub key_bytes: usize,
    pub ciphertext_bytes: usize,
    pub cipher_path: String,
    pub key_path: String,
    pub hash_path: Option<String>,
    pub key_wrapped: bool,
}

/// The password bytes of an optional password.
pub open spec fn password_str_view(password: Option<&str>) -> Option<Seq<u8>> {
    match password {
        None => None,
        Some(p) => Some(p.spec_bytes()),
    }
}

/// Whether `files` are what encrypting `plaintext` with the pad `key` writes,
/// the key sealed with `salt` and `nonce` where a password is given.
pub open spec fn encrypt_files_spec(
    files: EncryptFiles,
    plaintext: Seq<u8>,
    encoding: Encoding,
    password: Option<Seq<u8>>,
    hash: bool,
    key: Seq<u8>,
    salt: Seq<u8>,
    nonce: Seq<u8>,
) -> bool {
    &&& key.len() == plaintext.len()
    &&& salt.len() == SALT_LEN
    &&& nonce.len() == NONCE_LEN
    &&& files.ciphertext_file@ == armored(xor_seq(plaintext, key), encoding)
    &&& files.key_file@ == key_file_contents(key, encoding, password, salt, nonce)
    &&& (files.hash_file is Some <==> hash)
    &&& (files.hash_file matches Some(h) ==> h@ == encode_utf8(hash_text(plaintext)))
    &&& files.key_bytes == plaintext.len()
    &&& files.ciphertext_bytes == plaintext.len()
}

/// Encrypts `plaintext` with a fresh random pad and returns the ciphertext
/// file, the key file (wrapped if a password is given) and, if asked, the
/// integrity file.
pub fn encrypt_contents(plaintext: &[u8], encoding: Encoding, password: Option<&str>, hash: bool) -> (files:
    EncryptFiles)
    requires
        plaintext@.len() <= usize::MAX / 8,
        password matches Some(p) ==> plaintext@.len() <= AES_GCM_P_MAX && p.spec_bytes().len()
            <= 0xffff_ffff,
    ensures
        exists|key: Seq<u8>, salt: Seq<u8>, nonce: Seq<u8>|
            encrypt_files_spec(files, plaintext@, encoding, password_str_view(password), hash, key, salt, nonce),
{
    let key = generate_key(plaintext.len());
    let ciphertext = encrypt(plaintext, key.as_slice());
    let ciphertext_file = encode_armored(ciphertext.as_slice(), encoding);
    let key_file = match password {
        Some(p) => wrap_key(key.as_slice(), p),
        None => encode_armored(key.as_slice(), encoding),
    };
    let hash_file = if hash {
        let h = compute(plaintext);
        Some(vstd::slice::slice_to_vec(h.as_str().as_bytes()))
    } else {
        None
    };
    let files = EncryptFiles {
        ciphertext_file,
        key_file,
        hash_file,
        key_bytes: key.len(),
        ciphertext_bytes: ciphertext.len(),
    };
    proof {
        match password {
            Some(p) => {
                let (salt, nonce) = choose|salt: Seq<u8>, nonce: Seq<u8>|
                    salt.len() == SALT_LEN && nonce.len() == NONCE_LEN && files.key_file@
                        == crate::wrap::wrap_key_output(key@, p.spec_bytes(), salt, nonce);
                assert(encrypt_files_spec(
                    files,
                    plaintext@,
                    encoding,
                    password_str_view(password),
                    hash,
                    key@,
                    salt,
                    nonce,
                ));
            },
            None => {
                let salt = Seq::new(SALT_LEN as nat, |i: int| 0u8);
                let nonce = Seq::new(NONCE_LEN as nat, |i: int| 0u8);
                assert(encrypt_files_spec(
                    files,
                    plaintext@,
                    encoding,
                    password_str_view(password),
                    hash,
                    key@,
                    salt,
                    nonce,
                ));
            },
        }
    }
    files
}

/// Text in the file encodings never passes for a wrapped key file, whose
/// header holds a `-`.
pub proof fn lemma_armored_not_wrapped(key: Seq<u8>, encoding: Encoding)
    requires
        encoding != Encoding::Raw,
    ensures
        !is_wrapped_key_spec(armored(key, encoding)),
{
    lemma_labels();
    let t = if encoding == Encoding::Hex {
        hex_lower(key)
    } else {
        base64_standard(key)
    };
    assert(vstd::utf8::is_ascii_chars(t)) by {
        if encoding == Encoding::Hex {
            lemma_hex_lower_digits(key);
        } else {
            lemma_base64_text_plain(key);
            assert forall|i: int| 0 <= i < t.len() implies '\0' <= #[trigger] t[i] <= '\u{7f}' by {
                assert(is_base64_char(t[i]));
            }
        }
    }
    lemma_ascii_bytes_encode(t);
    let b = armored(key, encoding);
    assert(b == ascii_bytes(t));
    if is_wrapped_key_spec(b) {
        assert(b.take(22)[7] == ascii_bytes(HEADER@)[7]);
        assert(t[7] == '-');
        if encoding == Encoding::Hex {
            lemma_hex_lower_digits(key);
        } else {
            assert(is_base64_char(t[7]));
        }
    }
}

/// A decryption's inputs and result.
pub struct Decrypted {
    pub ciphertext: Vec<u8>,
    pub key: Vec<u8>,
    pub plaintext: Vec<u8>,
}

/// Whether the key file for a pad would be taken for a wrapped one when no
/// password is involved. Only raw keys that start with the header line are.
pub open spec fn raw_key_looks_wrapped(key: Seq<u8>, encoding: Encoding, password: Option<Seq<u8>>) -> bool {
    password is None && encoding == Encoding::Raw && is_wrapped_key_spec(key)
}

/// Whether the ciphertext and key files are what encrypting `plaintext` with
/// the pad `key` writes (the key sealed with `salt` and `nonce` where a
/// password is given), within the limits the writer keeps to.
pub open spec fn written_by_encryption(
    raw_ciphertext: Seq<u8>,
    raw_key: Seq<u8>,
    encoding: Encoding,
    password: Option<Seq<u8>>,
    plaintext: Seq<u8>,
    key: Seq<u8>,
    salt: Seq<u8>,
    nonce: Seq<u8>,
) -> bool {
    &&& key.len() == plaintext.len()
    &&& plaintext.len() <= usize::MAX / 8
    &&& salt.len() == SALT_LEN
    &&& nonce.len() == NONCE_LEN
    &&& (password matches Some(pw) ==> plaintext.len() <= AES_GCM_P_MAX && pw.len() <= 0xffff_ffff)
    &&& !raw_key_looks_wrapped(key, encoding, password)
    &&& raw_ciphertext == armored(xor_seq(plaintext, key), encoding)
    &&& raw_key == key_file_contents(key, encoding, password, salt, nonce)
}

proof fn lemma_written_key_file(
    raw_ciphertext: Seq<u8>,
    raw_key: Seq<u8>,
    encoding: Encoding,
    password: Option<Seq<u8>>,
    plaintext: Seq<u8>,
    key: Seq<u8>,
    salt: Seq<u8>,
    nonce: Seq<u8>,
)
    requires
        written_by_encryption(raw_ciphertext, raw_key, encoding, password, plaintext, key, salt, nonce),
    ensures
        password is None ==> !is_wrapped_key_spec(armored(key, encoding)),
{
    if password is None && encoding != Encoding::Raw {
        lemma_armored_not_wrapped(key, encoding);
    }
}

/// The ciphertext and key that the files hold, where they can be read and
/// the key is exactly as long as the ciphertext.
pub open spec fn decryptable(raw_ciphertext: Seq<u8>, raw_key: Seq<u8>, encoding: Encoding, password: Option<
    Seq<u8>,
>) -> Option<(Seq<u8>, Seq<u8>)> {
    match dearmored(raw_ciphertext, encoding) {
        None => None,
        Some(ct) => match key_file_spec(raw_key, encoding, password) {
            Some(Ok(k)) => if k.len() == ct.len() {
                Some((ct, k))
            } else {
                None
            },
            _ => None,
        },
    }
}

/// Whether `e` is the message a decryption of the files stops with: the
/// ciphertext's decoding error, else the key file's error, else the size
/// mismatch.
pub open spec fn decryption_error(
    raw_ciphertext: Seq<u8>,
    raw_key: Seq<u8>,
    encoding: Encoding,
    password: Option<Seq<u8>>,
    e: Seq<char>,
) -> bool {
    match dearmored(raw_ciphertext, encoding) {
        None => armor_error(raw_ciphertext, encoding, "ciphertext"@, e),
        Some(ct) => match key_file_spec(raw_key, encoding, password) {
            None => armor_error(raw_key, encoding, "key"@, e),
            Some(Err(m)) => e == m,
            Some(Ok(k)) => k.len() != ct.len() && e == size_mismatch_message(k.len(), ct.len()),
        },
    }
}

/// Reads the ciphertext and key files and decrypts. The key must be exactly
/// as long as the ciphertext.
#[verifier::rlimit(60)]
pub fn decrypt_contents(
    raw_ciphertext: Vec<u8>,
    raw_key: Vec<u8>,
    encoding: Encoding,
    password: Option<String>,
) -> (r: Result<Decrypted, String>)
    ensures
        match decryptable(raw_ciphertext@, raw_key@, encoding, password_view(password)) {
            Some((ct, k)) => r matches Ok(d) && d.ciphertext@ == ct && d.key@ == k && d.plaintext@
                == xor_seq(ct, k),
            None => r matches Err(e) && decryption_error(
                raw_ciphertext@,
                raw_key@,
                encoding,
                password_view(password),
                e@,
            ),
        },
        forall|plaintext: Seq<u8>, key: Seq<u8>, salt: Seq<u8>, nonce: Seq<u8>|
            #[trigger] written_by_encryption(
                raw_ciphertext@,
                raw_key@,
                encoding,
                password_view(password),
                plaintext,
                key,
                salt,
                nonce,
            ) ==> r is Ok && r->Ok_0.plaintext@ == plaintext,
{
    let ghost raw_ct = raw_ciphertext@;
    let ghost raw_k = raw_key@;
    let ghost pw = password_view(password);
    proof {
        reveal_strlit("ciphertext");
    }
    let ciphertext = match decode_if_armored(raw_ciphertext, encoding, "ciphertext") {
        Ok(c) => c,
        Err(e) => {
            proof {
                assert forall|p: Seq<u8>, k: Seq<u8>, salt: Seq<u8>, nonce: Seq<u8>|
                    #[trigger] written_by_encryption(raw_ct, raw_k, encoding, pw, p, k, salt, nonce)
                    implies false by {
                    assert(raw_ct == armored(xor_seq(p, k), encoding));
                }
            }
            return Err(e);
        },
    };
    let key = match decode_key_file(raw_key, encoding, password) {
        Ok(k) => k,
        Err(e) => {
            proof {
                assert forall|p: Seq<u8>, k: Seq<u8>, salt: Seq<u8>, nonce: Seq<u8>|
                    #[trigger] written_by_encryption(raw_ct, raw_k, encoding, pw, p, k, salt, nonce)
                    implies false by {
                    lemma_written_key_file(raw_ct, raw_k, encoding, pw, p, k, salt, nonce);
                    assert(raw_k == key_file_contents(k, encoding, pw, salt, nonce));
                }
            }
            return Err(e);
        },
    };
    if key.len() != ciphertext.len() {
        proof {
            assert forall|p: Seq<u8>, k: Seq<u8>, salt: Seq<u8>, nonce: Seq<u8>|
                #[trigger] written_by_encryption(raw_ct, raw_k, encoding, pw, p, k, salt, nonce)
                implies false by {
                lemma_written_key_file(raw_ct, raw_k, encoding, pw, p, k, salt, nonce);
                assert(raw_k == key_file_contents(k, encoding, pw, salt, nonce));
                assert(raw_ct == armored(xor_seq(p, k), encoding));
            }
        }
        return Err(size_mismatch(key.len(), ciphertext.len()));
    }
    let plaintext = decrypt(ciphertext.as_slice(), key.as_slice());
    proof {
        assert forall|p: Seq<u8>, k: Seq<u8>, salt: Seq<u8>, nonce: Seq<u8>|
            #[trigger] written_by_encryption(raw_ct, raw_k, encoding, pw, p, k, salt, nonce)
            implies plaintext@ == p by {
            lemma_written_key_file(raw_ct, raw_k, encoding, pw, p, k, salt, nonce);
            assert(raw_k == key_file_contents(k, encoding, pw, salt, nonce));
            assert(raw_ct == armored(xor_seq(p, k), encoding));
            lemma_decrypt_encrypt(p, k);
        }
    }
    Ok(Decrypted { ciphertext, key, plaintext })
}

/// A decryption that passed its integrity check.
pub struct Verified {
    pub decrypted: Decrypted,
    pub check: IntegrityCheck,
}

/// Why a checked decryption gave no plaintext: the message, and the size of
/// the plaintext where the files were decrypted but failed the check.
pub struct Refused {
    pub message: String,
    pub decrypted_len: Option<usize>,
}

/// Decrypts the files and checks the plaintext against the integrity text
/// where one is given, else the key length against the ciphertext's. A
/// plaintext is handed back only once it has passed that check, so nothing is
/// written from a decryption whose integrity text does not match.
pub fn decrypt_verified(
    raw_ciphertext: Vec<u8>,
    raw_key: Vec<u8>,
    encoding: Encoding,
    password: Option<String>,
    expected_hash: Option<&str>,
) -> (r: Result<Verified, Refused>)
    ensures
        match decryptable(raw_ciphertext@, raw_key@, encoding, password_view(password)) {
            Some((ct, k)) => match expected_hash {
                None => r matches Ok(v) && v.decrypted.ciphertext@ == ct && v.decrypted.key@ == k
                    && v.decrypted.plaintext@ == xor_seq(ct, k) && v.check
                    == IntegrityCheck::KeyLengthMatches,
                Some(h) => if h@ == hash_text(xor_seq(ct, k)) {
                    r matches Ok(v) && v.decrypted.ciphertext@ == ct && v.decrypted.key@ == k
                        && v.decrypted.plaintext@ == xor_seq(ct, k) && v.check
                        == IntegrityCheck::HashVerified
                } else {
                    r matches Err(e) && e.message@ == tampered_message() && e.decrypted_len
                        == Some(ct.len() as usize)
                },
            },
            None => r matches Err(e) && e.decrypted_len is None && decryption_error(
                raw_ciphertext@,
                raw_key@,
                encoding,
                password_view(password),
                e.message@,
            ),
        },
        r matches Ok(v) ==> (expected_hash matches Some(h) ==> h@ == hash_text(
            v.decrypted.plaintext@,
        )),
        forall|plaintext: Seq<u8>, key: Seq<u8>, salt: Seq<u8>, nonce: Seq<u8>|
            #[trigger] written_by_encryption(
                raw_ciphertext@,
                raw_key@,
                encoding,
                password_view(password),
                plaintext,
                key,
                salt,
                nonce,
            ) && (expected_hash matches Some(h) ==> h@ == hash_text(plaintext)) ==> (r matches Ok(v)
                && v.decrypted.plaintext@ == plaintext),
{
    let decrypted = match decrypt_contents(raw_ciphertext, raw_key, encoding, password) {
        Ok(d) => d,
        Err(message) => {
            return Err(Refused { message, decrypted_len: None });
        },
    };
    match verify_decryption(
        decrypted.ciphertext.as_slice(),
        decrypted.key.as_slice(),
        decrypted.plaintext.as_slice(),
        expected_hash,
    ) {
        Ok(check) => Ok(Verified { decrypted, check }),
        Err(message) => Err(Refused { message, decrypted_len: Some(decrypted.plaintext.len()) }),
    }
}

/// The message for a key whose length differs from the ciphertext's, as the
/// `info` command words it.
pub open spec fn info_size_message() -> Seq<char> {
    "key size does not match ciphertext"@
}

/// The checks of the `info` command: the key must be as long as the
/// ciphertext, and the plaintext must match the integrity text if there is
/// one. Returns whether an integrity text was checked.
pub fn info_check(ciphertext: &[u8], key: &[u8], expected_hash: Option<&str>) -> (r: Result<bool, String>)
    ensures
        key@.len() != ciphertext@.len() ==> (r matches Err(m) && m@ == info_size_message()),
        key@.len() == ciphertext@.len() ==> match expected_hash {
            None => r == Ok::<bool, String>(false),
            Some(expected) => if expected@ == hash_text(xor_seq(ciphertext@, key@)) {
                r == Ok::<bool, String>(true)
            } else {
                r matches Err(m) && m@ == tampered_message()
            },
        },
{
    if key.len() != ciphertext.len() {
        proof {
            reveal_strlit("key size does not match ciphertext");
        }
        return Err(string_of("key size does not match ciphertext"));
    }
    match expected_hash {
        None => Ok(false),
        Some(expected) => {
            let plaintext = decrypt(ciphertext, key);
            if verify(plaintext.as_slice(), expected) {
                Ok(true)
            } else {
                proof {
                    reveal_strlit("ciphertext has been tampered with or wrong key");
                }
                Err(string_of("ciphertext has been tampered with or wrong key"))
            }
        },
    }
}

/// The message for an output that would be overwritten without `--force`.
pub open spec fn already_exists_message(path: Seq<char>) -> Seq<char> {
    "'"@ + path + "' already exists (use --force to overwrite)"@
}

/// Refuses to plan over existing files unless `force` is set: the error names
/// the first existing path.
pub fn preflight_output_paths(paths: &[String], exists: &[bool], force: bool) -> (r: Result<(), String>)
    requires
        paths@.len() == exists@.len(),
    ensures
        force ==> r is Ok,
        !force ==> match r {
            Ok(_) => forall|i: int| 0 <= i < exists@.len() ==> !exists@[i],
            Err(m) => exists|i: int|
                0 <= i < exists@.len() && exists@[i] && (forall|j: int| 0 <= j < i ==> !exists@[j])
                    && m@ == already_exists_message(paths@[i]@),
        },
{
    if !force {
        let mut i: usize = 0;
        while i < paths.len()
            invariant
                !force,
                paths@.len() == exists@.len(),
                i <= paths@.len(),
                forall|j: int| 0 <= j < i ==> !exists@[j],
            decreases paths@.len() - i,
        {
            if exists[i] {
                let mut m = string_of("'");
                m.append(paths[i].as_str());
                m.append("' already exists (use --force to overwrite)");
                return Err(m);
            }
            i = i + 1;
        }
    }
    Ok(())
}

/// What an encryption writes, a decryption reads back: files that meet the
/// encryption's contract are files written by encryption in the sense of the
/// decryption's contract, so they decrypt to the plaintext. The one exception
/// is a raw key that happens to begin with the wrapped-key header line.
pub proof fn lemma_encrypted_files_decrypt(
    files: EncryptFiles,
    plaintext: Seq<u8>,
    encoding: Encoding,
    password: Option<Seq<u8>>,
    hash: bool,
    key: Seq<u8>,
    salt: Seq<u8>,
    nonce: Seq<u8>,
)
    requires
        encrypt_files_spec(files, plaintext, encoding, password, hash, key, salt, nonce),
        plaintext.len() <= usize::MAX / 8,
        password matches Some(pw) ==> plaintext.len() <= AES_GCM_P_MAX && pw.len() <= 0xffff_ffff,
        !raw_key_looks_wrapped(key, encoding, password),
    ensures
        written_by_encryption(
            files.ciphertext_file@,
            files.key_file@,
            encoding,
            password,
            plaintext,
            key,
            salt,
            nonce,
        ),
{
}

/// The message for a key file that `key unwrap` is given but that is not a
/// wrapped one.
pub open spec fn not_wrapped_message() -> Seq<char> {
    "key file is not password-protected"@
}

/// What `key unwrap` makes of a key file and a password: the key, or the
/// message it stops with.
pub open spec fn unwrap_key_file_spec(raw: Seq<u8>, password: Seq<u8>) -> Result<Seq<u8>, Seq<char>> {
    if !is_wrapped_key_spec(raw) {
        Err(not_wrapped_message())
    } else {
        match unwrap_spec(raw, password) {
            Ok(k) => Ok(k),
            Err(e) => Err(unwrap_failure_message(e)),
        }
    }
}

/// Opens a wrapped key file for `key unwrap`, which refuses a file that is
/// not wrapped.
pub fn unwrap_key_file(raw_key: &[u8], password: &str) -> (r: Result<Vec<u8>, String>)
    ensures
        match unwrap_key_file_spec(raw_key@, password.spec_bytes()) {
            Ok(k) => r matches Ok(v) && v@ == k,
            Err(m) => r matches Err(e) && e@ == m,
        },
        forall|key: Seq<u8>, salt: Seq<u8>, nonce: Seq<u8>|
            salt.len() == SALT_LEN && nonce.len() == NONCE_LEN && key.len() <= AES_GCM_P_MAX
                && password.spec_bytes().len() <= 0xffff_ffff && raw_key@ == #[trigger] wrap_key_output(
                key,
                password.spec_bytes(),
                salt,
                nonce,
            ) ==> (r matches Ok(v) && v@ == key),
{
    proof {
        assert forall|key: Seq<u8>, salt: Seq<u8>, nonce: Seq<u8>|
            raw_key@ == #[trigger] wrap_key_output(key, password.spec_bytes(), salt, nonce)
            implies is_wrapped_key_spec(raw_key@) by {
            lemma_wrapped_key_detected(
                salt,
                nonce,
                aes256gcm_sealed(derived_key(password.spec_bytes(), salt), nonce, key),
            );
        }
    }
    if !is_wrapped_key(raw_key) {
        proof {
            reveal_strlit("key file is not password-protected");
        }
        return Err(string_of("key file is not password-protected"));
    }
    match unwrap_key(raw_key, password) {
        Ok(k) => Ok(k),
        Err(e) => {
            let mut m = string_of("failed to unwrap key: ");
            m.append(e.message());
            proof {
                reveal_strlit("failed to unwrap key: ");
            }
            Err(m)
        },
    }
}

/// Whether decrypted bytes look like binary data: they hold a zero byte.
pub fn looks_binary(data: &[u8]) -> (r: bool)
    ensures
        r == data@.contains(0u8),
{
    let mut i: usize = 0;
    while i < data.len()
        invariant
            i <= data@.len(),
            forall|j: int| 0 <= j < i ==> data@[j] != 0u8,
        decreases data@.len() - i,
    {
        if data[i] == 0u8 {
            return true;
        }
        i = i + 1;
    }
    false
}

/// Whether printed bytes need a line feed after them to end the line: they do
/// not already end with one.
pub fn needs_trailing_newline(data: &[u8]) -> (r: bool)
    ensures
        r == !(data@.len() > 0 && data@.last() == NEWLINE),
{
    data.len() == 0 || data[data.len() - 1] != NEWLINE
}

/// A value a command cannot go without: the value, or `message` where it
/// is missing.
pub fn required<T>(value: Option<T>, message: &str) -> (r: Result<T, String>)
    ensures
        match value {
            Some(v) => r == Ok::<T, String>(v),
            None => r matches Err(m) && m@ == message@,
        },
{
    match value {
        Some(v) => Ok(v),
        None => Err(string_of(message)),
    }
}

} // verus!
