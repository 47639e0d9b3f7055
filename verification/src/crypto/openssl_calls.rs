//! The calls into openssl. Keys cross this boundary as PEM bytes, so that
//! what openssl computes from them can be named over plain values. A private
//! PEM is always read with the empty passphrase, so that an encrypted PEM is
//! refused rather than asked about on the terminal: what is read is then a
//! function of the bytes alone.
use vstd::prelude::*;
use openssl::rsa::{Padding, Rsa};
use openssl::symm::Cipher;

verus! {

/// The modulus size in bytes of the RSA private key written in `pem`
/// (`Rsa::size` after `Rsa::private_key_from_pem_passphrase` with the empty passphrase); `None` when `pem` holds no such key.
pub uninterp spec fn rsa_private_size(pem: Seq<u8>) -> Option<nat>;

/// The modulus size in bytes of the RSA public key written in `pem`
/// (`Rsa::size` after `Rsa::public_key_from_pem`); `None` when `pem` holds no such key.
pub uninterp spec fn rsa_public_size(pem: Seq<u8>) -> Option<nat>;

/// The plaintext that `RsaRef::private_decrypt` with PKCS#1 padding recovers from `data`
/// with the private key in `pem`; `None` when the key does not parse or decryption fails.
pub uninterp spec fn rsa_private_decrypted(pem: Seq<u8>, data: Seq<u8>) -> Option<Seq<u8>>;

/// The plaintext that `RsaRef::public_decrypt` with PKCS#1 padding recovers from `data`
/// with the public key in `pem`; `None` when the key does not parse or decryption fails.
pub uninterp spec fn rsa_public_decrypted(pem: Seq<u8>, data: Seq<u8>) -> Option<Seq<u8>>;

/// The output of `RsaRef::private_encrypt` with PKCS#1 padding (a deterministic
/// padding) on `data` with the private key in `pem`; `None` when it fails.
pub uninterp spec fn rsa_private_encrypted(pem: Seq<u8>, data: Seq<u8>) -> Option<Seq<u8>>;

/// What `RsaRef::public_key_to_pem` writes for the private key in `pem`.
pub uninterp spec fn rsa_public_pem_of_private(pem: Seq<u8>) -> Option<Seq<u8>>;

/// What `RsaRef::public_key_to_pem` writes for the public key in `pem`.
pub uninterp spec fn rsa_public_pem_reencoded(pem: Seq<u8>) -> Option<Seq<u8>>;

/// Whether `Rsa::public_key_from_pem` accepts `pem`.
pub uninterp spec fn rsa_public_pem_parses(pem: Seq<u8>) -> bool;

/// Whether `Rsa::private_key_from_pem_passphrase` with the empty passphrase accepts `pem`.
pub uninterp spec fn rsa_private_pem_parses(pem: Seq<u8>) -> bool;

/// Whether the private key in `pem` is consistent: its parts agree, as
/// `RsaRef::check_key` checks. Reading a PEM does not check this.
pub uninterp spec fn rsa_private_consistent(pem: Seq<u8>) -> bool;

/// The output of `openssl::symm::encrypt` with AES-256-CTR.
pub uninterp spec fn aes256ctr_encrypted(key: Seq<u8>, iv: Seq<u8>, data: Seq<u8>) -> Option<Seq<u8>>;

/// The output of `openssl::symm::decrypt` with AES-256-CTR.
pub uninterp spec fn aes256ctr_decrypted(key: Seq<u8>, iv: Seq<u8>, data: Seq<u8>) -> Option<Seq<u8>>;

/// `Rsa::private_key_from_pem_passphrase` (empty passphrase) then `Rsa::size`: the key's size, or the parse error.
#[verifier::external_body]
pub(crate) fn rsa_private_key_size(pem: &[u8]) -> (res: Result<u32, String>)
    requires
        pem@.len() <= i32::MAX,
    ensures
        res matches Ok(n) ==> rsa_private_size(pem@) == Some(n as nat),
        res is Err ==> rsa_private_size(pem@) is None,
{
    match Rsa::private_key_from_pem_passphrase(pem, b"") {
        Ok(rsa) => Ok(rsa.size()),
        Err(e) => Err(e.to_string()),
    }
}

/// `Rsa::public_key_from_pem` then `Rsa::size`: the key's size, or the parse error.
#[verifier::external_body]
pub(crate) fn rsa_public_key_size(pem: &[u8]) -> (res: Result<u32, String>)
    requires
        pem@.len() <= i32::MAX,
    ensures
        res matches Ok(n) ==> rsa_public_size(pem@) == Some(n as nat),
        res is Err ==> rsa_public_size(pem@) is None,
{
    match Rsa::public_key_from_pem(pem) {
        Ok(rsa) => Ok(rsa.size()),
        Err(e) => Err(e.to_string()),
    }
}

/// `RsaRef::private_decrypt` (PKCS#1) into `buf`, which must hold the key's size.
/// On success it returns the plaintext's length, and the plaintext stands at
/// the start of `buf`; nothing is stated of the bytes past it.
#[verifier::external_body]
pub(crate) fn rsa_private_decrypt_into(pem: &[u8], data: &[u8], buf: &mut Vec<u8>) -> (res: Result<usize, String>)
    requires
        pem@.len() <= i32::MAX,
        data@.len() <= i32::MAX,
        rsa_private_size(pem@) matches Some(n) ==> n <= old(buf)@.len(),
    ensures
        res matches Ok(n) ==> {
            &&& n <= old(buf)@.len()
            &&& final(buf)@.len() == old(buf)@.len()
            &&& rsa_private_decrypted(pem@, data@) == Some(final(buf)@.take(n as int))
        },
        res is Err ==> rsa_private_decrypted(pem@, data@) is None,
{
    match Rsa::private_key_from_pem_passphrase(pem, b"") {
        Ok(rsa) => match rsa.private_decrypt(data, buf, Padding::PKCS1) {
            Ok(n) => Ok(n),
            Err(e) => Err(e.to_string()),
        },
        Err(e) => Err(e.to_string()),
    }
}

/// `RsaRef::public_decrypt` (PKCS#1) into `buf`, which must hold the key's size.
/// On success it returns the plaintext's length, and the plaintext stands at
/// the start of `buf`; nothing is stated of the bytes past it.
#[verifier::external_body]
pub(crate) fn rsa_public_decrypt_into(pem: &[u8], data: &[u8], buf: &mut Vec<u8>) -> (res: Result<usize, String>)
    requires
        pem@.len() <= i32::MAX,
        data@.len() <= i32::MAX,
        rsa_public_size(pem@) matches Some(n) ==> n <= old(buf)@.len(),
    ensures
        res matches Ok(n) ==> {
            &&& n <= old(buf)@.len()
            &&& final(buf)@.len() == old(buf)@.len()
            &&& rsa_public_decrypted(pem@, data@) == Some(final(buf)@.take(n as int))
        },
        res is Err ==> rsa_public_decrypted(pem@, data@) is None,
{
    match Rsa::public_key_from_pem(pem) {
        Ok(rsa) => match rsa.public_decrypt(data, buf, Padding::PKCS1) {
            Ok(n) => Ok(n),
            Err(e) => Err(e.to_string()),
        },
        Err(e) => Err(e.to_string()),
    }
}

/// `RsaRef::public_encrypt` (PKCS#1) into `buf`. The padding is random, so
/// the ciphertext is not named; what holds of every outcome: it fills exactly
/// the key's size, and every consistent private key whose public half is this
/// key decrypts it back to `data`.
#[verifier::external_body]
pub(crate) fn rsa_public_encrypt_into(pem: &[u8], data: &[u8], buf: &mut Vec<u8>) -> (res: Result<usize, String>)
    requires
        pem@.len() <= i32::MAX,
        data@.len() <= i32::MAX,
        rsa_public_size(pem@) matches Some(n) ==> n <= old(buf)@.len(),
    ensures
        res matches Ok(n) ==> {
            &&& rsa_public_size(pem@) == Some(n as nat)
            &&& n <= old(buf)@.len()
            &&& final(buf)@.len() == old(buf)@.len()
            &&& final(buf)@.skip(n as int) == old(buf)@.skip(n as int)
            &&& forall|key: Seq<u8>| #[trigger] rsa_public_pem_of_private(key) == Some(pem@) && rsa_private_consistent(key)
                ==> rsa_private_decrypted(key, final(buf)@.take(n as int)) == Some(data@)
        },
{
    match Rsa::public_key_from_pem(pem) {
        Ok(rsa) => match rsa.public_encrypt(data, buf, Padding::PKCS1) {
            Ok(n) => Ok(n),
            Err(e) => Err(e.to_string()),
        },
        Err(e) => Err(e.to_string()),
    }
}

/// `RsaRef::private_encrypt` (PKCS#1, deterministic) into `buf`. It fills exactly
/// the key's size, and, when the key is consistent, its public half decrypts
/// it back to `data`.
#[verifier::external_body]
pub(crate) fn rsa_private_encrypt_into(pem: &[u8], data: &[u8], buf: &mut Vec<u8>) -> (res: Result<usize, String>)
    requires
        pem@.len() <= i32::MAX,
        data@.len() <= i32::MAX,
        rsa_private_size(pem@) matches Some(n) ==> n <= old(buf)@.len(),
    ensures
        res matches Ok(n) ==> {
            &&& rsa_private_size(pem@) == Some(n as nat)
            &&& n <= old(buf)@.len()
            &&& final(buf)@.len() == old(buf)@.len()
            &&& final(buf)@.skip(n as int) == old(buf)@.skip(n as int)
            &&& rsa_private_encrypted(pem@, data@) == Some(final(buf)@.take(n as int))
            &&& rsa_private_consistent(pem@) ==> (rsa_public_pem_of_private(pem@) matches Some(p)
                ==> rsa_public_decrypted(p, final(buf)@.take(n as int)) == Some(data@))
        },
        res is Err ==> rsa_private_encrypted(pem@, data@) is None,
{
    match Rsa::private_key_from_pem_passphrase(pem, b"") {
        Ok(rsa) => match rsa.private_encrypt(data, buf, Padding::PKCS1) {
            Ok(n) => Ok(n),
            Err(e) => Err(e.to_string()),
        },
        Err(e) => Err(e.to_string()),
    }
}

/// `RsaRef::public_key_to_pem` on the private key in `pem`.
#[verifier::external_body]
pub(crate) fn rsa_private_to_public_pem(pem: &[u8]) -> (res: Result<Vec<u8>, String>)
    requires
        pem@.len() <= i32::MAX,
    ensures
        res matches Ok(p) ==> rsa_public_pem_of_private(pem@) == Some(p@),
        res is Err ==> rsa_public_pem_of_private(pem@) is None,
{
    match Rsa::private_key_from_pem_passphrase(pem, b"") {
        Ok(rsa) => match rsa.public_key_to_pem() {
            Ok(p) => Ok(p),
            Err(e) => Err(e.to_string()),
        },
        Err(e) => Err(e.to_string()),
    }
}

/// `RsaRef::public_key_to_pem` on the public key in `pem`.
#[verifier::external_body]
pub(crate) fn rsa_public_to_pem(pem: &[u8]) -> (res: Result<Vec<u8>, String>)
    requires
        pem@.len() <= i32::MAX,
    ensures
        res matches Ok(p) ==> rsa_public_pem_reencoded(pem@) == Some(p@),
        res is Err ==> rsa_public_pem_reencoded(pem@) is None,
{
    match Rsa::public_key_from_pem(pem) {
        Ok(rsa) => match rsa.public_key_to_pem() {
            Ok(p) => Ok(p),
            Err(e) => Err(e.to_string()),
        },
        Err(e) => Err(e.to_string()),
    }
}

/// Whether `Rsa::public_key_from_pem` accepts `pem`.
#[verifier::external_body]
pub(crate) fn rsa_public_pem_check(pem: &[u8]) -> (res: bool)
    requires
        pem@.len() <= i32::MAX,
    ensures
        res == rsa_public_pem_parses(pem@),
{
    Rsa::public_key_from_pem(pem).is_ok()
}

/// Whether `Rsa::private_key_from_pem_passphrase` (empty passphrase) accepts `pem`.
#[verifier::external_body]
pub(crate) fn rsa_private_pem_check(pem: &[u8]) -> (res: bool)
    requires
        pem@.len() <= i32::MAX,
    ensures
        res == rsa_private_pem_parses(pem@),
{
    Rsa::private_key_from_pem_passphrase(pem, b"").is_ok()
}

/// `Rsa::generate(bits)` written out with `private_key_to_pem`. The key is
/// random; what is stated is what openssl documents of every outcome: the
/// PEM reads back as a consistent private key, whose modulus has the size asked for.
#[verifier::external_body]
pub(crate) fn rsa_generate_private_pem(bits: u32) -> (res: Result<Vec<u8>, String>)
    ensures
        res matches Ok(p) ==> rsa_private_pem_parses(p@) && rsa_private_consistent(p@)
            && rsa_private_size(p@) == Some(((bits + 7) / 8) as nat),
{
    match Rsa::generate(bits) {
        Ok(rsa) => match rsa.private_key_to_pem() {
            Ok(p) => Ok(p),
            Err(e) => Err(e.to_string()),
        },
        Err(e) => Err(e.to_string()),
    }
}

/// `openssl::symm::encrypt` with AES-256-CTR, a stream mode: the output has
/// the length of `data`, and decrypting it with the same key and IV gives
/// `data` back. More than `i32::MAX` bytes of data, or an IV shorter than the
/// cipher's 16 bytes (`cipher_init` asserts on it), make openssl panic.
#[verifier::external_body]
pub(crate) fn aes256ctr_encrypt(key: &[u8], iv: &[u8], data: &[u8]) -> (res: Result<Vec<u8>, String>)
    requires
        iv@.len() >= 16,
        data@.len() <= i32::MAX,
    ensures
        res matches Ok(c) ==> c@.len() == data@.len(),
        res matches Ok(c) ==> aes256ctr_encrypted(key@, iv@, data@) == Some(c@)
            && aes256ctr_decrypted(key@, iv@, c@) == Some(data@),
        res is Err ==> aes256ctr_encrypted(key@, iv@, data@) is None,
{
    match openssl::symm::encrypt(Cipher::aes_256_ctr(), key, Some(iv), data) {
        Ok(c) => Ok(c),
        Err(e) => Err(e.to_string()),
    }
}

/// `openssl::symm::decrypt` with AES-256-CTR. More than `i32::MAX` bytes of
/// data, or an IV shorter than 16 bytes, make openssl panic.
#[verifier::external_body]
pub(crate) fn aes256ctr_decrypt(key: &[u8], iv: &[u8], data: &[u8]) -> (res: Result<Vec<u8>, String>)
    requires
        iv@.len() >= 16,
        data@.len() <= i32::MAX,
    ensures
        res matches Ok(p) ==> aes256ctr_decrypted(key@, iv@, data@) == Some(p@),
        res is Err ==> aes256ctr_decrypted(key@, iv@, data@) is None,
{
    match openssl::symm::decrypt(Cipher::aes_256_ctr(), key, Some(iv), data) {
        Ok(p) => Ok(p),
        Err(e) => Err(e.to_string()),
    }
}

/// `openssl::rand::rand_bytes` into a fresh buffer of `len` bytes. The bytes
/// are random: only their number is stated.
#[verifier::external_body]
pub(crate) fn random_bytes(len: usize) -> (res: Result<Vec<u8>, String>)
    requires
        len <= i32::MAX,
    ensures
        res matches Ok(v) ==> v@.len() == len,
{
    let mut buf = vec![0u8; len];
    match openssl::rand::rand_bytes(&mut buf) {
        Ok(()) => Ok(buf),
        Err(e) => Err(e.to_string()),
    }
}

} // verus!
