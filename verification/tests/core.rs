use coldpad::hash::{compute, verify};
use coldpad::wrap::{is_wrapped_key, unwrap_key, wrap_key, WrapError};
use coldpad::{decrypt, encrypt, generate_key};

#[test]
fn compute_produces_hex() {
    let hash = compute(b"hello");
    assert_eq!(hash.len(), 64);
    assert!(hash.chars().all(|c| c.is_ascii_hexdigit()));
}

#[test]
fn verify_correct_hash() {
    let hash = compute(b"hello");
    assert!(verify(b"hello", &hash));
}

#[test]
fn verify_incorrect_hash() {
    let hash = compute(b"hello");
    assert!(!verify(b"world", &hash));
}

#[test]
fn verify_empty_input() {
    let hash = compute(b"");
    assert!(verify(b"", &hash));
    assert!(!verify(b"x", &hash));
}

#[test]
fn generate_key_length() {
    assert_eq!(generate_key(32).len(), 32);
}

#[test]
fn generate_key_unique() {
    let a = generate_key(32);
    let b = generate_key(32);
    assert_ne!(a, b);
}

#[test]
fn encrypt_decrypt_roundtrip() {
    let plaintext = b"hello world";
    let key = generate_key(plaintext.len());
    let ciphertext = encrypt(plaintext, &key);
    let decrypted = decrypt(&ciphertext, &key);
    assert_eq!(decrypted, plaintext);
}

#[test]
fn empty_input() {
    let key = generate_key(0);
    let ciphertext = encrypt(&[], &key);
    assert!(ciphertext.is_empty());
    let decrypted = decrypt(&ciphertext, &key);
    assert!(decrypted.is_empty());
}

#[test]
fn different_keys_produce_different_ciphertext() {
    let plaintext = b"hello world";
    let key_a = generate_key(plaintext.len());
    let key_b = generate_key(plaintext.len());
    let ct_a = encrypt(plaintext, &key_a);
    let ct_b = encrypt(plaintext, &key_b);
    assert_ne!(ct_a, ct_b);
}

#[test]
fn wrap_unwrap_roundtrip() {
    let key = b"hello world key";
    let wrapped = wrap_key(key, "password");
    let unwrapped = unwrap_key(&wrapped, "password").unwrap();
    assert_eq!(unwrapped, key);
}

#[test]
fn wrong_password_fails() {
    let key = b"secret key";
    let wrapped = wrap_key(key, "right");
    let result = unwrap_key(&wrapped, "wrong");
    assert_eq!(result, Err(WrapError::AuthenticationFailed));
}

#[test]
fn tampered_ciphertext_fails() {
    let key = b"secret key";
    let wrapped = wrap_key(key, "password");
    let text = String::from_utf8(wrapped).unwrap();
    let lines: Vec<&str> = text.lines().collect();
    let ct_line = lines.last().unwrap();
    let mut ct_bytes = hex::decode(ct_line.strip_prefix("ciphertext:").unwrap().trim()).unwrap();
    ct_bytes[0] ^= 0xff;
    let mut tampered = lines[..lines.len() - 1].join("\n");
    tampered.push('\n');
    tampered.push_str(&format!("ciphertext:{}\n", hex::encode(ct_bytes)));
    let result = unwrap_key(tampered.as_bytes(), "password");
    assert_eq!(result, Err(WrapError::AuthenticationFailed));
}

#[test]
fn tampered_header_fails() {
    let key = b"secret key";
    let wrapped = wrap_key(key, "password");
    let mut text = String::from_utf8(wrapped).unwrap();
    text = text.replace("v1", "v2");
    let result = unwrap_key(text.as_bytes(), "password");
    assert_eq!(result, Err(WrapError::InvalidFormat));
}

#[test]
fn detects_wrapped_key() {
    let wrapped = wrap_key(b"key", "pw");
    assert!(is_wrapped_key(&wrapped));
    assert!(!is_wrapped_key(b"plain key bytes"));
}
