//! Encryption with RSA keys and sealing of the RSA + AES envelope.
use vstd::prelude::*;
use vstd::utf8::*;
use crate::text::{zero_bytes, ascii_bytes, ascii_chars_of, lemma_ascii_bytes};
use crate::crypto::keys::{PrivateKey, PublicKey};
use crate::crypto::structs::{AesKeyEncrypt, EncryptedBody, Iv};
use crate::crypto::random::{generate_string, alphanumeric_text};
use crate::crypto::decrypt::{aes_open, private_text, buffer_text};
use crate::crypto::openssl_calls::{
    rsa_private_size, rsa_public_size, rsa_private_decrypted, rsa_public_decrypted,
    rsa_private_encrypted, rsa_public_pem_of_private, rsa_private_consistent, aes256ctr_encrypted, aes256ctr_decrypted,
    rsa_private_key_size, rsa_public_key_size, rsa_public_encrypt_into, rsa_private_encrypt_into,
    aes256ctr_encrypt,
};

verus! {

/// Every consistent private key whose public half is `public`, and whose size leaves
/// room for the 32-byte AES key, opens the envelope to `message`.
pub open spec fn envelope_opens(
    public: Seq<u8>,
    message: Seq<char>,
    iv: Seq<char>,
    encrypted_key: Seq<u8>,
    body: Seq<u8>,
) -> bool {
    forall|key: Seq<u8>|
        rsa_public_pem_of_private(key) == Some(public) && rsa_private_consistent(key)
            && (rsa_private_size(key) matches Some(n) && n >= 32)
            ==> #[trigger] aes_open(key, iv, encrypted_key, body) == Some(message)
}

/// What [`aes_encrypt_with`] guarantees of an envelope it made: the body is the
/// AES-256-CTR encryption of the message under the key and IV, and every
/// consistent private key matching `public` decrypts the encrypted key to the AES key.
pub open spec fn envelope_sealed(
    public: Seq<u8>,
    message: Seq<char>,
    aes_key: Seq<char>,
    iv: Seq<char>,
    encrypted_key: Seq<u8>,
    body: Seq<u8>,
) -> bool {
    &&& encode_utf8(iv).len() >= 16
    &&& aes256ctr_encrypted(encode_utf8(aes_key), encode_utf8(iv), encode_utf8(message)) == Some(body)
    &&& aes256ctr_decrypted(encode_utf8(aes_key), encode_utf8(iv), body) == Some(encode_utf8(message))
    &&& rsa_public_size(public) == Some(encrypted_key.len())
    &&& forall|key: Seq<u8>| #[trigger] rsa_public_pem_of_private(key) == Some(public) && rsa_private_consistent(key)
        ==> rsa_private_decrypted(key, encrypted_key) == Some(encode_utf8(aes_key))
}

/// Encrypt `string` with the RSA public key `rsa` (PKCS#1, random padding).
/// The ciphertext fills the key's size, and every consistent private key whose
/// public half is `rsa` decrypts it back to the string's bytes.
///
/// # Errors
/// When the key cannot be read or encryption fails.
pub fn encrypt(rsa: &PublicKey, string: String) -> (res: Result<Vec<u8>, String>)
    requires
        encode_utf8(string@).len() <= i32::MAX,
    ensures
        res matches Ok(c) ==> {
            &&& rsa_public_size(rsa@) == Some(c@.len())
            &&& forall|key: Seq<u8>| #[trigger] rsa_public_pem_of_private(key) == Some(rsa@) && rsa_private_consistent(key)
                ==> rsa_private_decrypted(key, c@) == Some(encode_utf8(string@))
        },
{
    let pem = rsa.pem();
    let size = rsa_public_key_size(pem)?;
    let mut buf: Vec<u8> = vec![0u8; size as usize];
    let n = rsa_public_encrypt_into(pem, string.as_str().as_bytes(), &mut buf)?;
    assert(buf@.take(n as int) =~= buf@);
    Ok(buf)
}

/// Encrypt `string` with the RSA private key `rsa` (PKCS#1 signature padding,
/// deterministic). When the key is consistent, its public half decrypts the
/// result back to the string's bytes.
///
/// # Errors
/// When the key cannot be read or encryption fails.
pub fn private_encrypt(rsa: &PrivateKey, string: &str) -> (res: Result<Vec<u8>, String>)
    requires
        encode_utf8(string@).len() <= i32::MAX,
    ensures
        res is Ok <==> (rsa_private_size(rsa@) is Some && rsa_private_encrypted(rsa@, encode_utf8(string@)) is Some),
        res matches Ok(c) ==> {
            &&& rsa_private_encrypted(rsa@, encode_utf8(string@)) == Some(c@)
            &&& rsa_private_size(rsa@) == Some(c@.len())
            &&& rsa_private_consistent(rsa@) ==> (rsa_public_pem_of_private(rsa@) matches Some(p)
                ==> rsa_public_decrypted(p, c@) == Some(encode_utf8(string@)))
        },
{
    let pem = rsa.pem();
    let size = rsa_private_key_size(pem)?;
    let mut buf: Vec<u8> = vec![0u8; size as usize];
    let n = rsa_private_encrypt_into(pem, string.as_bytes(), &mut buf)?;
    assert(buf@.take(n as int) =~= buf@);
    Ok(buf)
}

/// Seal `string` in an envelope with the given AES key and IV: the body is
/// encrypted with AES-256-CTR, the AES key with the RSA public key `rsa`.
///
/// # Errors
/// When the IV is shorter than the cipher's 16 bytes (on which openssl's
/// cipher setup would panic), or when either encryption fails; the RSA error
/// is reported before the AES one.
pub fn aes_encrypt_with(rsa: &PublicKey, string: String, key: String, iv: String) -> (res: Result<(Iv, AesKeyEncrypt, EncryptedBody), String>)
    requires
        encode_utf8(key@).len() <= i32::MAX,
        encode_utf8(string@).len() <= i32::MAX,
    ensures
        res matches Ok(t) ==> t.0.0@ == iv@ && envelope_sealed(rsa@, string@, key@, iv@, t.1.0@, t.2.0@)
            && t.2.0@.len() == encode_utf8(string@).len(),
        encode_utf8(iv@).len() < 16 ==> res is Err,
{
    broadcast use vstd::string::group_string_axioms;
    if iv.as_str().as_bytes().len() < 16 {
        return Err(String::new());
    }
    let encrypted = aes256ctr_encrypt(key.as_str().as_bytes(), iv.as_str().as_bytes(), string.as_str().as_bytes());
    match encrypt(rsa, key) {
        Ok(aes_key_encrypted) => match encrypted {
            Ok(data) => Ok((Iv(iv), AesKeyEncrypt(aes_key_encrypted), EncryptedBody(data))),
            Err(e) => Err(e),
        },
        Err(e) => Err(e),
    }
}

/// Sealing then opening an envelope gives the message back: with an ASCII
/// AES key of 32 characters, every consistent private key matching the public key used
/// for sealing, and big enough for that key, opens the envelope to the message.
pub proof fn lemma_envelope_round_trip(
    public: Seq<u8>,
    message: Seq<char>,
    aes_key: Seq<char>,
    iv: Seq<char>,
    encrypted_key: Seq<u8>,
    body: Seq<u8>,
)
    requires
        envelope_sealed(public, message, aes_key, iv, encrypted_key, body),
        aes_key.len() == 32,
        is_ascii_chars(aes_key),
    ensures
        envelope_opens(public, message, iv, encrypted_key, body),
{
    broadcast use vstd::utf8::group_utf8_lib;
    let kb = encode_utf8(aes_key);
    assert(kb.len() == 32);
    assert forall|key: Seq<u8>|
        rsa_public_pem_of_private(key) == Some(public) && rsa_private_consistent(key)
            && (rsa_private_size(key) matches Some(n) && n >= 32)
        implies #[trigger] aes_open(key, iv, encrypted_key, body) == Some(message) by {
        let n = rsa_private_size(key)->0;
        assert(rsa_private_decrypted(key, encrypted_key) == Some(kb));
        let buf = kb + zero_bytes((n - 32) as nat);
        assert forall|i: int| 0 <= i < buf.len() implies #[trigger] buf[i] < 128 by {
            if i < 32 {
                assert(aes_key[i] as u8 == kb[i]);
            }
        }
        lemma_ascii_bytes(buf);
        assert(private_text(key, encrypted_key) == Some(ascii_chars_of(buf)));
        assert(buf.take(32) =~= kb);
    }
}

/// Seal `string` in an envelope under a fresh random AES key (32 letters and
/// digits) and IV (16 letters and digits).
///
/// # Errors
/// When the random generator or an encryption fails.
pub fn aes_encrypt(rsa: &PublicKey, string: String) -> (res: Result<(Iv, AesKeyEncrypt, EncryptedBody), String>)
    requires
        encode_utf8(string@).len() <= i32::MAX,
    ensures
        res matches Ok(t) ==> {
            &&& t.0.0@.len() == 16
            &&& alphanumeric_text(t.0.0@)
            &&& rsa_public_size(rsa@) == Some(t.1.0@.len())
            &&& t.2.0@.len() == encode_utf8(string@).len()
            &&& exists|aes_key: Seq<char>| aes_key.len() == 32 && alphanumeric_text(aes_key)
                && #[trigger] envelope_sealed(rsa@, string@, aes_key, t.0.0@, t.1.0@, t.2.0@)
            &&& envelope_opens(rsa@, string@, t.0.0@, t.1.0@, t.2.0@)
        },
{
    broadcast use vstd::utf8::group_utf8_lib;
    let key = generate_string(32)?;
    let iv = generate_string(16)?;
    let ghost key_view = key@;
    assert(is_ascii_chars(key_view)) by {
        assert forall|i: int| 0 <= i < key_view.len() implies '\0' <= #[trigger] key_view[i] <= '\u{7f}' by {
            assert(alphanumeric_text(key_view));
        }
    }
    let res = aes_encrypt_with(rsa, string, key, iv);
    proof {
        if let Ok(t) = &res {
            lemma_envelope_round_trip(rsa@, string@, key_view, t.0.0@, t.1.0@, t.2.0@);
            assert(envelope_sealed(rsa@, string@, key_view, t.0.0@, t.1.0@, t.2.0@));
        }
    }
    res
}

} // verus!
