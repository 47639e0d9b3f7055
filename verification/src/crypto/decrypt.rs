//! Decryption with RSA keys and opening of the RSA + AES envelope.
use vstd::prelude::*;
use vstd::utf8::*;
use crate::text::{string_from_utf8, zero_bytes};
use crate::crypto::keys::{PrivateKey, PublicKey};
use crate::crypto::structs::{AesKeyEncrypt, EncryptedBody, Iv};
use crate::crypto::openssl_calls::{
    rsa_private_size, rsa_public_size, rsa_private_decrypted, rsa_public_decrypted,
    aes256ctr_decrypted, rsa_private_key_size, rsa_public_key_size, rsa_private_decrypt_into,
    rsa_public_decrypt_into, aes256ctr_decrypt,
};

verus! {

/// The text of a decryption buffer of `size` zero bytes into which `plain`
/// was written: the whole buffer, trailing zeros included, when it is UTF-8.
pub open spec fn buffer_text(plain: Seq<u8>, size: nat) -> Option<Seq<char>> {
    if plain.len() <= size && valid_utf8(plain + zero_bytes((size - plain.len()) as nat)) {
        Some(decode_utf8(plain + zero_bytes((size - plain.len()) as nat)))
    } else {
        None
    }
}

/// What [`private`] returns for the private key `key` and the ciphertext `data`.
pub open spec fn private_text(key: Seq<u8>, data: Seq<u8>) -> Option<Seq<char>> {
    match (rsa_private_size(key), rsa_private_decrypted(key, data)) {
        (Some(n), Some(p)) => buffer_text(p, n),
        _ => None,
    }
}

/// What [`public`] returns for the public key `key` and the ciphertext `data`.
pub open spec fn public_text(key: Seq<u8>, data: Seq<u8>) -> Option<Seq<char>> {
    match (rsa_public_size(key), rsa_public_decrypted(key, data)) {
        (Some(n), Some(p)) => buffer_text(p, n),
        _ => None,
    }
}

/// What [`aes`] returns: the RSA-decrypted key text is cut to its first 32
/// bytes, which decrypt the body with AES-256-CTR under the IV's bytes.
pub open spec fn aes_open(key: Seq<u8>, iv: Seq<char>, encrypted_key: Seq<u8>, body: Seq<u8>) -> Option<Seq<char>> {
    match private_text(key, encrypted_key) {
        Some(t) => {
            if is_char_boundary(encode_utf8(t), 32) && encode_utf8(iv).len() >= 16 {
                match aes256ctr_decrypted(encode_utf8(t).take(32), encode_utf8(iv), body) {
                    Some(plain) => if valid_utf8(plain) {
                        Some(decode_utf8(plain))
                    } else {
                        None
                    },
                    None => None,
                }
            } else {
                None
            }
        },
        None => None,
    }
}

/// Set every byte of `buf` from position `n` on to zero.
fn zero_tail(buf: &mut Vec<u8>, n: usize)
    requires
        n <= old(buf)@.len(),
    ensures
        final(buf)@ == old(buf)@.take(n as int) + zero_bytes((old(buf)@.len() - n) as nat),
{
    let mut k: usize = n;
    while k < buf.len()
        invariant
            n <= k <= buf@.len(),
            buf@.len() == old(buf)@.len(),
            buf@ == old(buf)@.take(n as int) + zero_bytes((k - n) as nat) + old(buf)@.skip(k as int),
        decreases buf@.len() - k,
    {
        buf.set(k, 0);
        assert(buf@ =~= old(buf)@.take(n as int) + zero_bytes((k + 1 - n) as nat) + old(buf)@.skip(k + 1));
        k = k + 1;
    }
    assert(buf@ =~= old(buf)@.take(n as int) + zero_bytes((old(buf)@.len() - n) as nat));
}

/// Decrypt `string` with the RSA private key `rsa` (PKCS#1). The whole
/// decryption buffer, of the key's size, is returned as text: the plaintext
/// followed by zero bytes.
///
/// # Errors
/// When the key cannot be read, the data does not decrypt, or the buffer is
/// not UTF-8.
pub fn private(rsa: &PrivateKey, string: &[u8]) -> (res: Result<String, String>)
    requires
        string@.len() <= i32::MAX,
    ensures
        res is Ok <==> private_text(rsa@, string@) is Some,
        res matches Ok(s) ==> Some(s@) == private_text(rsa@, string@),
{
    broadcast use vstd::utf8::group_utf8_lib;
    let pem = rsa.pem();
    let size = rsa_private_key_size(pem)?;
    let mut buf: Vec<u8> = vec![0u8; size as usize];
    let n = rsa_private_decrypt_into(pem, string, &mut buf)?;
    zero_tail(&mut buf, n);
    string_from_utf8(buf)
}

/// Decrypt `string` with the RSA public key `rsa` (PKCS#1), returning the
/// whole decryption buffer as text, as [`private`] does.
///
/// # Errors
/// When the key cannot be read, the data does not decrypt, or the buffer is
/// not UTF-8.
pub fn public(rsa: &PublicKey, string: &[u8]) -> (res: Result<String, String>)
    requires
        string@.len() <= i32::MAX,
    ensures
        res is Ok <==> public_text(rsa@, string@) is Some,
        res matches Ok(s) ==> Some(s@) == public_text(rsa@, string@),
{
    broadcast use vstd::utf8::group_utf8_lib;
    let pem = rsa.pem();
    let size = rsa_public_key_size(pem)?;
    let mut buf: Vec<u8> = vec![0u8; size as usize];
    let n = rsa_public_decrypt_into(pem, string, &mut buf)?;
    zero_tail(&mut buf, n);
    string_from_utf8(buf)
}

/// Open an envelope: decrypt the AES key with the RSA private key, keep its
/// first 32 bytes, and decrypt the body with AES-256-CTR under the IV.
///
/// # Errors
/// When a decryption fails, a result is not UTF-8, the decrypted key text
/// has no character boundary at byte 32, or the IV is shorter than 16 bytes.
/// The last two, on which slicing the key or openssl's cipher setup would
/// panic, are answered with an error instead.
pub fn aes(rsa: &PrivateKey, body: &(Iv, AesKeyEncrypt, EncryptedBody)) -> (res: Result<String, String>)
    requires
        body.1.0@.len() <= i32::MAX,
        body.2.0@.len() <= i32::MAX,
    ensures
        res is Ok <==> aes_open(rsa@, body.0.0@, body.1.0@, body.2.0@) is Some,
        res matches Ok(s) ==> Some(s@) == aes_open(rsa@, body.0.0@, body.1.0@, body.2.0@),
{
    broadcast use {vstd::utf8::group_utf8_lib, vstd::string::group_string_axioms};
    let decrypted = private(rsa, body.1.0.as_slice())?;
    if !decrypted.as_str().is_char_boundary(32) {
        return Err(String::new());
    }
    let (first, _) = decrypted.as_str().split_at(32);
    let aes_key = first.to_string();
    assert(encode_utf8(aes_key@) == encode_utf8(decrypted@).take(32));
    if body.0.0.as_str().as_bytes().len() < 16 {
        return Err(String::new());
    }
    let plain = aes256ctr_decrypt(aes_key.as_str().as_bytes(), body.0.0.as_str().as_bytes(), body.2.0.as_slice())?;
    string_from_utf8(plain)
}

} // verus!
