use fydia::crypto::decrypt::{aes, private, public};
use fydia::crypto::encrypt::{aes_encrypt, aes_encrypt_with, encrypt, private_encrypt};
use fydia::crypto::keys::{
    generate, get_key_from_string, key_to_string, private_to_public, PrivateKey, PublicKey, LENGHT,
};
use fydia::crypto::password::{hash, verify};
use fydia::crypto::random::generate_string;
use fydia::crypto::structs::{AesKey, AesKeyEncrypt, Body, EncryptedBody, Iv};

fn small_key() -> PrivateKey {
    let rsa = openssl::rsa::Rsa::generate(2048).unwrap();
    PrivateKey::from_pem(rsa.private_key_to_pem().unwrap()).unwrap()
}

fn public_of(key: &PrivateKey) -> PublicKey {
    let pem = key.public_key_to_pem().unwrap();
    get_key_from_string(String::from_utf8(pem).unwrap()).unwrap()
}

#[test]
fn encrypt_decrypt_aes() {
    let message = generate_string(4000).unwrap();
    let key = generate().unwrap();
    let public = key.public_key_to_pem().unwrap();
    let public_key = get_key_from_string(String::from_utf8(public).unwrap()).unwrap();
    let encrypt = aes_encrypt(&public_key, message.clone()).unwrap();
    let decrypt = aes(&key, &encrypt).unwrap();

    assert_eq!(message, decrypt)
}

#[test]
fn generated_keys_have_the_configured_length() {
    let key = generate().unwrap();
    let rsa = openssl::rsa::Rsa::private_key_from_pem(key.pem()).unwrap();
    assert_eq!(rsa.size() * 8, LENGHT);
}

#[test]
fn rsa_public_encrypt_private_decrypt_round_trip() {
    let key = small_key();
    let public_key = public_of(&key);
    let sealed = encrypt(&public_key, String::from("hello fydia")).unwrap();
    assert_eq!(sealed.len(), 256);
    let opened = private(&key, &sealed).unwrap();
    assert_eq!(opened.len(), 256);
    assert!(opened.starts_with("hello fydia"));
    assert!(opened["hello fydia".len()..].chars().all(|c| c == '\0'));
}

#[test]
fn rsa_private_encrypt_public_decrypt_round_trip() {
    let key = small_key();
    let public_key = public_of(&key);
    let signed = private_encrypt(&key, "abcd").unwrap();
    let opened = public(&public_key, &signed).unwrap();
    assert_eq!(opened.len(), 256);
    assert_eq!(&opened[..4], "abcd");
    assert!(opened[4..].chars().all(|c| c == '\0'));
}

#[test]
fn rsa_decrypt_of_garbage_fails() {
    let key = small_key();
    assert!(private(&key, &[1u8; 256]).is_err());
}

#[test]
fn aes_envelope_with_fixed_key_and_iv_opens() {
    let key = small_key();
    let public_key = public_of(&key);
    let aes_key = String::from("0123456789abcdef0123456789abcdef");
    let iv = String::from("fedcba9876543210");
    let sealed = aes_encrypt_with(&public_key, String::from("a message"), aes_key, iv.clone()).unwrap();
    assert_eq!(sealed.0 .0, iv);
    assert_eq!(sealed.1 .0.len(), 256);
    assert_ne!(sealed.2 .0, b"a message".to_vec());
    assert_eq!(aes(&key, &sealed).unwrap(), "a message");
}

#[test]
fn a_short_iv_is_refused_on_both_sides() {
    let key = small_key();
    let public_key = public_of(&key);
    let aes_key = String::from("0123456789abcdef0123456789abcdef");
    assert!(aes_encrypt_with(&public_key, String::from("m"), aes_key.clone(), String::from("short")).is_err());
    let sealed = aes_encrypt_with(&public_key, String::from("m"), aes_key, String::from("fedcba9876543210")).unwrap();
    let cut = (Iv(String::from("fedcba98")), sealed.1, sealed.2);
    assert!(aes(&key, &cut).is_err());
}

#[test]
fn aes_envelope_iv_is_sixteen_alphanumerics() {
    let key = small_key();
    let public_key = public_of(&key);
    let sealed = aes_encrypt(&public_key, String::from("x")).unwrap();
    assert_eq!(sealed.0 .0.len(), 16);
    assert!(sealed.0 .0.chars().all(|c| c.is_ascii_alphanumeric()));
}

#[test]
fn aes_with_a_short_key_is_refused() {
    let key = small_key();
    let public_key = public_of(&key);
    let short = encrypt(&public_key, String::from("short")).unwrap();
    let body = (Iv::new(String::from("fedcba9876543210")), AesKeyEncrypt::new(short), EncryptedBody::new(vec![1, 2, 3]));
    assert!(aes(&key, &body).is_err());
}

#[test]
fn public_key_text_round_trip() {
    let key = small_key();
    let public_key = private_to_public(key).unwrap();
    let text = key_to_string(&public_key).unwrap();
    assert!(text.starts_with("-----BEGIN PUBLIC KEY-----"));
    let again = get_key_from_string(text.clone()).unwrap();
    assert_eq!(key_to_string(&again).unwrap(), text);
}

#[test]
fn bad_pem_is_no_key() {
    assert!(get_key_from_string(String::from("not a key")).is_none());
    assert!(PrivateKey::from_pem(b"not a key".to_vec()).is_none());
}

#[test]
fn password_hash_then_verify() {
    let hashed = hash(String::from("secret password")).unwrap();
    assert!(hashed.starts_with("$argon2"));
    assert!(verify("secret password", &hashed));
    assert!(!verify("another password", &hashed));
    assert!(!verify("secret password", "not a hash"));
}

#[test]
fn two_hashes_of_one_password_differ() {
    let a = hash(String::from("pw")).unwrap();
    let b = hash(String::from("pw")).unwrap();
    assert_ne!(a, b);
    assert!(verify("pw", &a) && verify("pw", &b));
}

#[test]
fn random_strings_are_alphanumeric_of_the_length_asked() {
    let s = generate_string(64).unwrap();
    assert_eq!(s.chars().count(), 64);
    assert!(s.chars().all(|c| c.is_ascii_alphanumeric()));
    assert_eq!(generate_string(0).unwrap(), "");
}

#[test]
fn structs_hold_what_they_are_given() {
    assert_eq!(Iv::new(String::from("iv")).0, "iv");
    assert_eq!(AesKeyEncrypt::new(vec![1, 2]).0, vec![1, 2]);
    assert_eq!(AesKey::new(String::from("k")).0, "k");
    assert_eq!(EncryptedBody::new(vec![3]).0, vec![3]);
    assert_eq!(Body::new(String::from("b")).0, "b");
}
