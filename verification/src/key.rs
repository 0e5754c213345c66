//! Key files and the names of the files an encryption writes.

use vstd::prelude::*;
use vstd::string::StringSliceAdditionalSpecFns;
use vstd::utf8::encode_utf8;
use crate::cli::Encoding;
use crate::encoding::{armor_error, armored, decode_if_armored, dearmored};
use crate::ansi;
use crate::hash::{hash_text, verify};
use crate::terminal::{color, styled};
use crate::text::{decimal_spec, string_of, u128_to_string, usize_to_string};
use crate::wrap::{
    aes256gcm_sealed, derived_key, is_wrapped_key, is_wrapped_key_spec, lemma_wrapped_key_detected,
    unwrap_key, unwrap_spec, wrap_key_output, WrapError,
    AES_GCM_P_MAX, NONCE_LEN, SALT_LEN,
};

verus! {

/// The stem used when neither an output name nor an input file is given.
pub const DEFAULT_STEM: &'static str = "output";

/// The message when a wrapped key needs a password that nobody gave.
pub open spec fn password_required_message() -> Seq<char> {
    "password required for wrapped key"@
}

/// The message for a wrapped key that could not be opened.
pub open spec fn unwrap_failure_message(e: WrapError) -> Seq<char> {
    "failed to unwrap key: "@ + match e {
        WrapError::InvalidFormat => "invalid wrapped key format"@,
        WrapError::AuthenticationFailed => "wrong password or tampered wrapped key"@,
    }
}

/// What a key file yields: the key, or the message of why it cannot be read.
/// `password` is the password that was supplied for a wrapped key, if any.
pub open spec fn key_file_spec(raw: Seq<u8>, encoding: Encoding, password: Option<Seq<u8>>) -> Option<
    Result<Seq<u8>, Seq<char>>,
> {
    if is_wrapped_key_spec(raw) {
        match password {
            None => Some(Err(password_required_message())),
            Some(pw) => match unwrap_spec(raw, pw) {
                Ok(k) => Some(Ok(k)),
                Err(e) => Some(Err(unwrap_failure_message(e))),
            },
        }
    } else {
        match dearmored(raw, encoding) {
            Some(k) => Some(Ok(k)),
            None => None,
        }
    }
}

/// The contents of the key file that an encryption writes for `key`: wrapped
/// under the password if one is given, else in the file encoding.
pub open spec fn key_file_contents(
    key: Seq<u8>,
    encoding: Encoding,
    password: Option<Seq<u8>>,
    salt: Seq<u8>,
    nonce: Seq<u8>,
) -> Seq<u8> {
    match password {
        None => armored(key, encoding),
        Some(pw) => wrap_key_output(key, pw, salt, nonce),
    }
}

/// The password bytes of an optional password.
pub open spec fn password_view(password: Option<String>) -> Option<Seq<u8>> {
    match password {
        None => None,
        Some(p) => Some(encode_utf8(p@)),
    }
}

/// Reads a key file: a wrapped key is opened with the password, any other key
/// is read in the file encoding.
pub fn decode_key_file(raw_key: Vec<u8>, encoding: Encoding, password: Option<String>) -> (r: Result<
    Vec<u8>,
    String,
>)
    ensures
        match key_file_spec(raw_key@, encoding, password_view(password)) {
            Some(Ok(k)) => r matches Ok(v) && v@ == k,
            Some(Err(m)) => r matches Err(e) && e@ == m,
            None => r matches Err(e) && armor_error(raw_key@, encoding, "key"@, e@),
        },
        forall|key: Seq<u8>, salt: Seq<u8>, nonce: Seq<u8>|
            key.len() <= usize::MAX / 4 && salt.len() == SALT_LEN && nonce.len() == NONCE_LEN
                && (password_view(password) is Some
                ==> key.len() <= AES_GCM_P_MAX && password_view(password)->Some_0.len() <= 0xffff_ffff)
                && (password_view(password) is None ==> !is_wrapped_key_spec(armored(key, encoding)))
                && raw_key@ == #[trigger] key_file_contents(key, encoding, password_view(password), salt, nonce)
                ==> r is Ok && r->Ok_0@ == key,
{
    proof {
        assert forall|key: Seq<u8>, salt: Seq<u8>, nonce: Seq<u8>|
            password_view(password) is Some && raw_key@ == #[trigger] key_file_contents(
                key,
                encoding,
                password_view(password),
                salt,
                nonce,
            ) implies is_wrapped_key_spec(raw_key@) by {
            lemma_wrapped_key_detected(
                salt,
                nonce,
                aes256gcm_sealed(derived_key(password_view(password)->Some_0, salt), nonce, key),
            );
        }
    }
    if is_wrapped_key(raw_key.as_slice()) {
        match password {
            None => {
                proof {
                    reveal_strlit("password required for wrapped key");
                }
                let m = string_of("password required for wrapped key");
                Err(m)
            },
            Some(pw) => {
                match unwrap_key(raw_key.as_slice(), pw.as_str()) {
                    Ok(k) => Ok(k),
                    Err(e) => {
                        let mut m = string_of("failed to unwrap key: ");
                        m.append(e.message());
                        proof {
                            reveal_strlit("failed to unwrap key: ");
                        }
                        Err(m)
                    },
                }
            },
        }
    } else {
        proof {
            reveal_strlit("key");
        }
        decode_if_armored(raw_key, encoding, "key")
    }
}

/// The file name stem of an encryption: the output name if given, else the
/// input file's name if it has one in UTF-8, else `output`.
pub open spec fn encrypt_stem_spec(file_name: Option<Seq<char>>, output: Option<Seq<char>>) -> Seq<char> {
    match output {
        Some(o) => o,
        None => match file_name {
            Some(n) => n,
            None => DEFAULT_STEM@,
        },
    }
}

/// The UTF-8 name of the last component of an optional input path.
pub open spec fn input_file_name(file: Option<Seq<char>>) -> Option<Seq<char>> {
    match file {
        Some(f) => path_file_name_spec(f),
        None => None,
    }
}

/// Where the password for a wrapped key comes from.
#[derive(Clone, Copy, Debug, PartialEq, Eq, Structural)]
pub enum PasswordSource {
    /// The password given on the command line.
    Given,
    /// The `COLDPAD_PASSWORD` environment variable.
    Environment,
    /// The first line of a password file.
    File,
    /// A prompt on the terminal.
    Prompt,
    /// None: there is no terminal to ask on.
    Missing,
}

/// The first source of a password that is there: the command line, then the
/// environment, then a password file, then a prompt where stderr is a
/// terminal, else none.
pub open spec fn password_source_spec(given: bool, in_environment: bool, file: bool, terminal: bool) -> PasswordSource {
    if given {
        PasswordSource::Given
    } else if in_environment {
        PasswordSource::Environment
    } else if file {
        PasswordSource::File
    } else if terminal {
        PasswordSource::Prompt
    } else {
        PasswordSource::Missing
    }
}

/// The first source of a password that is there: the command line, then the
/// environment, then a password file, then a prompt where stderr is a
/// terminal.
pub fn password_source(given: bool, in_environment: bool, file: bool, terminal: bool) -> (s:
    PasswordSource)
    ensures
        s == password_source_spec(given, in_environment, file, terminal),
{
    if given {
        PasswordSource::Given
    } else if in_environment {
        PasswordSource::Environment
    } else if file {
        PasswordSource::File
    } else if terminal {
        PasswordSource::Prompt
    } else {
        PasswordSource::Missing
    }
}

/// A password on the command line always wins; the environment comes before
/// a password file; the terminal is asked only when none of those is there,
/// and the password is missing only when the terminal cannot be asked either.
pub proof fn lemma_password_priority(given: bool, in_environment: bool, file: bool, terminal: bool)
    ensures
        given ==> password_source_spec(given, in_environment, file, terminal)
            == PasswordSource::Given,
        password_source_spec(given, in_environment, file, terminal) == PasswordSource::Environment
            <==> !given && in_environment,
        password_source_spec(given, in_environment, file, terminal) == PasswordSource::File
            <==> !given && !in_environment && file,
        password_source_spec(given, in_environment, file, terminal) == PasswordSource::Prompt
            <==> !given && !in_environment && !file && terminal,
        password_source_spec(given, in_environment, file, terminal) == PasswordSource::Missing
            <==> !given && !in_environment && !file && !terminal,
{
}

/// The stem of the files an encryption writes: the output name if given,
/// else the name of the input file, else the default.
pub fn encrypt_stem(file: Option<&str>, output: Option<&str>) -> (stem: String)
    ensures
        stem@ == encrypt_stem_spec(
            input_file_name(
                match file {
                    Some(f) => Some(f@),
                    None => None,
                },
            ),
            match output {
                Some(o) => Some(o@),
                None => None,
            },
        ),
{
    match output {
        Some(o) => string_of(o),
        None => {
            let name = match file {
                Some(f) => path_file_name(f),
                None => None,
            };
            match name {
                Some(n) => string_of(n.as_str()),
                None => string_of(DEFAULT_STEM),
            }
        },
    }
}

pub uninterp spec fn path_with_extension_spec(path: Seq<char>, extension: Seq<char>) -> Seq<char>;

/// Trusted: `Path::new(path).with_extension(extension)`, read back as text.
/// For UTF-8 arguments the result is UTF-8, so the lossy conversion keeps it.
/// `with_extension` panics on an extension that holds a path separator, which
/// the `requires` shuts out.
#[verifier::external_body]
pub(crate) fn path_with_extension(path: &str, extension: &str) -> (r: String)
    requires
        forall|i: int| 0 <= i < extension@.len() ==> #[trigger] extension@[i] != '/',
    ensures
        r@ == path_with_extension_spec(path@, extension@),
{
    std::path::Path::new(path).with_extension(extension).to_string_lossy().into_owned()
}

/// What `Path::file_name` gives for `path`, as UTF-8 text.
pub uninterp spec fn path_file_name_spec(path: Seq<char>) -> Option<Seq<char>>;

/// Trusted: `Path::new(path).file_name()`, converted with `OsStr::to_str`.
/// The name of a UTF-8 path is UTF-8, so the conversion keeps every name.
#[verifier::external_body]
pub(crate) fn path_file_name(path: &str) -> (r: Option<String>)
    ensures
        r matches Some(n) ==> path_file_name_spec(path@) == Some(n@),
        r is None ==> path_file_name_spec(path@) is None,
{
    let name = std::path::Path::new(path).file_name()?;
    Some(name.to_str()?.to_string())
}

/// What `Path::extension` gives for `path`, as UTF-8 text.
pub uninterp spec fn path_extension_spec(path: Seq<char>) -> Option<Seq<char>>;

/// Trusted: `Path::new(path).extension()`, converted with `OsStr::to_str`.
#[verifier::external_body]
pub(crate) fn path_extension(path: &str) -> (r: Option<String>)
    ensures
        r matches Some(e) ==> path_extension_spec(path@) == Some(e@),
        r is None ==> path_extension_spec(path@) is None,
{
    let extension = std::path::Path::new(path).extension()?;
    Some(extension.to_str()?.to_string())
}

/// The paths an encryption writes: the ciphertext, the key and, if asked, the
/// integrity file.
pub open spec fn planned_paths_spec(stem: Seq<char>, hash: bool) -> Seq<Seq<char>> {
    let cipher = stem + ".otp"@;
    let key = stem + ".otp.key"@;
    if hash {
        seq![cipher, key, path_with_extension_spec(cipher, "otp.sha256"@)]
    } else {
        seq![cipher, key]
    }
}

/// The paths an encryption with the given stem writes.
pub fn planned_encrypt_paths(stem: &str, hash: bool) -> (paths: Vec<String>)
    ensures
        paths@.len() == (if hash { 3int } else { 2int }),
        forall|i: int| 0 <= i < paths@.len() ==> #[trigger] paths@[i]@ == planned_paths_spec(stem@, hash)[i],
{
    let mut cipher = string_of(stem);
    cipher.append(".otp");
    let mut key = string_of(stem);
    key.append(".otp.key");
    let mut paths: Vec<String> = Vec::new();
    if hash {
        proof {
            reveal_strlit("otp.sha256");
        }
        let h = path_with_extension(cipher.as_str(), "otp.sha256");
        paths.push(cipher);
        paths.push(key);
        paths.push(h);
    } else {
        paths.push(cipher);
        paths.push(key);
    }
    paths
}

/// The planned files: the ciphertext is the stem with `.otp`, the key file
/// is the ciphertext's name followed by `.key`, so the two never coincide,
/// and the integrity file is planned only where it is asked for.
pub proof fn lemma_planned_paths(stem: Seq<char>, hash: bool)
    ensures
        planned_paths_spec(stem, hash)[0] == stem + ".otp"@,
        planned_paths_spec(stem, hash)[1] == planned_paths_spec(stem, hash)[0] + ".key"@,
        planned_paths_spec(stem, hash)[0] != planned_paths_spec(stem, hash)[1],
        planned_paths_spec(stem, hash).len() == (if hash {
            3int
        } else {
            2int
        }),
{
    reveal_strlit(".otp");
    reveal_strlit(".key");
    reveal_strlit(".otp.key");
    assert(".otp.key"@ =~= ".otp"@ + ".key"@);
    assert(stem + ".otp.key"@ =~= (stem + ".otp"@) + ".key"@);
    assert((stem + ".otp"@).len() < (stem + ".otp.key"@).len());
}

/// Trusted: `SystemTime::now().duration_since(UNIX_EPOCH)` in nanoseconds;
/// the error of a clock that stands before the epoch becomes `None`. Nothing
/// is stated of the value: it is the clock's.
#[verifier::external_body]
fn unix_time_nanos() -> (n: Option<u128>) {
    match std::time::SystemTime::now().duration_since(std::time::UNIX_EPOCH) {
        Ok(elapsed) => Some(elapsed.as_nanos()),
        Err(_) => None,
    }
}

/// The stamp of a generated key name: the clock reading, or `0` where the
/// clock stands before the Unix epoch.
pub open spec fn stamp_of(reading: Option<u128>) -> nat {
    match reading {
        Some(n) => n as nat,
        None => 0,
    }
}

/// The name of a generated key file stamped with `nanos`.
pub open spec fn keygen_name_spec(nanos: nat) -> Seq<char> {
    "key_"@ + decimal_spec(nanos) + ".key"@
}

/// The name of a generated key file stamped with `nanos`.
pub fn keygen_name(nanos: u128) -> (name: String)
    ensures
        name@ == keygen_name_spec(nanos as nat),
{
    let mut name = string_of("key_");
    let digits = u128_to_string(nanos);
    name.append(digits.as_str());
    name.append(".key");
    name
}

/// The default name of a generated key file, stamped with the current time
/// in nanoseconds since the Unix epoch, or with `0` where the clock stands
/// before it.
pub fn default_keygen_name() -> (name: String)
    ensures
        exists|reading: Option<u128>| name@ == keygen_name_spec(#[trigger] stamp_of(reading)),
{
    let reading = unix_time_nanos();
    let nanos: u128 = match reading {
        Some(n) => n,
        None => 0,
    };
    let name = keygen_name(nanos);
    assert(name@ == keygen_name_spec(stamp_of(reading)));
    name
}

/// How a decryption was checked.
#[derive(Clone, Copy, Debug, PartialEq, Eq, Structural)]
pub enum IntegrityCheck {
    /// The plaintext matched the integrity file.
    HashVerified,
    /// There was no integrity file; the key and ciphertext lengths agree.
    KeyLengthMatches,
}

/// The message for a plaintext that does not match its integrity file.
pub open spec fn tampered_message() -> Seq<char> {
    "ciphertext has been tampered with or wrong key"@
}

/// The message for a key whose length differs from the ciphertext's.
pub open spec fn size_mismatch_message(key_len: nat, ciphertext_len: nat) -> Seq<char> {
    "key size mismatch: "@ + decimal_spec(key_len) + " bytes for "@ + decimal_spec(ciphertext_len)
        + " bytes of ciphertext"@
}

/// The message for a key whose length differs from the ciphertext's.
pub fn size_mismatch(key_len: usize, ciphertext_len: usize) -> (m: String)
    ensures
        m@ == size_mismatch_message(key_len as nat, ciphertext_len as nat),
{
    let mut m = string_of("key size mismatch: ");
    let k = usize_to_string(key_len);
    m.append(k.as_str());
    m.append(" bytes for ");
    let c = usize_to_string(ciphertext_len);
    m.append(c.as_str());
    m.append(" bytes of ciphertext");
    m
}

/// Checks a decryption: against the integrity text where there is one, else
/// by comparing the key and ciphertext lengths.
pub fn verify_decryption(
    ciphertext: &[u8],
    key: &[u8],
    plaintext: &[u8],
    expected_hash: Option<&str>,
) -> (r: Result<IntegrityCheck, String>)
    ensures
        match expected_hash {
            Some(expected) => if expected@ == hash_text(plaintext@) {
                r == Ok::<IntegrityCheck, String>(IntegrityCheck::HashVerified)
            } else {
                r matches Err(m) && m@ == tampered_message()
            },
            None => if key@.len() == ciphertext@.len() {
                r == Ok::<IntegrityCheck, String>(IntegrityCheck::KeyLengthMatches)
            } else {
                r matches Err(m) && m@ == size_mismatch_message(key@.len(), ciphertext@.len())
            },
        },
{
    match expected_hash {
        Some(expected) => {
            if verify(plaintext, expected) {
                Ok(IntegrityCheck::HashVerified)
            } else {
                proof {
                    reveal_strlit("ciphertext has been tampered with or wrong key");
                }
                Err(string_of("ciphertext has been tampered with or wrong key"))
            }
        },
        None => {
            if key.len() != ciphertext.len() {
                Err(size_mismatch(key.len(), ciphertext.len()))
            } else {
                Ok(IntegrityCheck::KeyLengthMatches)
            }
        },
    }
}

/// The status line of an integrity file that is missing while the key fits.
pub open spec fn key_matches_status_spec(hash_path: Seq<char>, plain: bool) -> Seq<char> {
    hash_path + "  (missing)  "@ + styled(ansi::GREEN@, "key matches"@, plain)
}

/// The status line of an integrity file that is missing while the key fits.
pub fn key_matches_status(hash_path: &str, plain: bool) -> (r: String)
    ensures
        r@ == key_matches_status_spec(hash_path@, plain),
{
    let status = color(ansi::GREEN, "key matches", plain);
    let mut r = string_of(hash_path);
    r.append("  (missing)  ");
    r.append(status.as_str());
    r
}

} // verus!
