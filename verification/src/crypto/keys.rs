//! RSA keys, held as the PEM text that openssl reads and writes.
use vstd::prelude::*;
use vstd::utf8::*;
use vstd::slice::slice_to_vec;
use crate::text::string_from_utf8;
use crate::crypto::openssl_calls::{
    rsa_private_pem_parses, rsa_public_pem_parses, rsa_public_pem_of_private, rsa_public_pem_reencoded,
    rsa_private_pem_check, rsa_public_pem_check, rsa_private_to_public_pem, rsa_public_to_pem,
    rsa_generate_private_pem, rsa_private_size, rsa_private_consistent,
};

verus! {

/// An RSA private key, as PKCS#1 PEM bytes.
pub struct PrivateKey {
    pem: Vec<u8>,
}

/// An RSA public key, as PEM bytes.
pub struct PublicKey {
    pem: Vec<u8>,
}

/// The key pair of an instance: its private key and the public key it hands out.
pub struct RsaData(pub PrivateKey, pub PublicKey);

impl View for PrivateKey {
    type V = Seq<u8>;

    closed spec fn view(&self) -> Seq<u8> {
        self.pem@
    }
}

impl View for PublicKey {
    type V = Seq<u8>;

    closed spec fn view(&self) -> Seq<u8> {
        self.pem@
    }
}

/// The bit length of generated keys.
pub const LENGHT: u32 = 4096;

impl PrivateKey {
    /// Openssl reads PEM through a buffer whose length fits in an `i32`.
    #[verifier::type_invariant]
    spec fn fits(self) -> bool {
        self.pem@.len() <= i32::MAX
    }

    /// The key held in `pem`, when openssl reads it as an RSA private key.
    pub fn from_pem(pem: Vec<u8>) -> (res: Option<PrivateKey>)
        ensures
            res is Some <==> (pem@.len() <= i32::MAX && rsa_private_pem_parses(pem@)),
            res matches Some(k) ==> k@ == pem@,
    {
        if pem.len() > 2147483647 {
            return None;
        }
        if rsa_private_pem_check(pem.as_slice()) {
            Some(PrivateKey { pem })
        } else {
            None
        }
    }

    /// The PEM bytes of the key.
    pub fn pem(&self) -> (res: &[u8])
        ensures
            res@ == self@,
            res@.len() <= i32::MAX,
    {
        proof { use_type_invariant(self); }
        self.pem.as_slice()
    }

    /// The PEM of the public half of the key.
    pub fn public_key_to_pem(&self) -> (res: Result<Vec<u8>, String>)
        ensures
            res matches Ok(p) ==> rsa_public_pem_of_private(self@) == Some(p@),
            res is Err ==> rsa_public_pem_of_private(self@) is None,
    {
        rsa_private_to_public_pem(self.pem())
    }
}

impl PublicKey {
    #[verifier::type_invariant]
    spec fn fits(self) -> bool {
        self.pem@.len() <= i32::MAX
    }

    /// The PEM bytes of the key.
    pub fn pem(&self) -> (res: &[u8])
        ensures
            res@ == self@,
            res@.len() <= i32::MAX,
    {
        proof { use_type_invariant(self); }
        self.pem.as_slice()
    }
}

/// A fresh private key of `LENGHT` bits, whose private and public halves match.
pub fn generate() -> (res: Result<PrivateKey, String>)
    ensures
        res matches Ok(k) ==> rsa_private_pem_parses(k@) && rsa_private_consistent(k@)
            && rsa_private_size(k@) == Some((LENGHT / 8) as nat),
{
    match rsa_generate_private_pem(LENGHT) {
        Ok(pem) => {
            if pem.len() > 2147483647 {
                Err(String::new())
            } else {
                Ok(PrivateKey { pem })
            }
        },
        Err(e) => Err(e),
    }
}

/// The public key of a PEM text, when openssl reads it as an RSA public key.
pub fn get_key_from_string(pem: String) -> (res: Option<PublicKey>)
    requires
        encode_utf8(pem@).len() <= i32::MAX,
    ensures
        res is Some <==> rsa_public_pem_parses(encode_utf8(pem@)),
        res matches Some(k) ==> k@ == encode_utf8(pem@),
{
    let bytes = pem.as_str().as_bytes();
    if rsa_public_pem_check(bytes) {
        Some(PublicKey { pem: slice_to_vec(bytes) })
    } else {
        None
    }
}

/// The PEM text that openssl writes for a public key.
pub fn key_to_string(key: &PublicKey) -> (res: Option<String>)
    ensures
        res is Some <==> (rsa_public_pem_reencoded(key@) matches Some(p) && valid_utf8(p)),
        res matches Some(s) ==> rsa_public_pem_reencoded(key@) == Some(encode_utf8(s@)),
{
    match rsa_public_to_pem(key.pem()) {
        Ok(pem) => match string_from_utf8(pem) {
            Ok(s) => Some(s),
            Err(_) => None,
        },
        Err(_) => None,
    }
}

/// The public half of a private key, as openssl writes and reads it back.
pub fn private_to_public(rsa: PrivateKey) -> (res: Option<PublicKey>)
    ensures
        res is Some <==> (rsa_public_pem_of_private(rsa@) matches Some(p) && valid_utf8(p)
            && p.len() <= i32::MAX && rsa_public_pem_parses(p)),
        res matches Some(k) ==> rsa_public_pem_of_private(rsa@) == Some(k@),
{
    let pem_vector = match rsa.public_key_to_pem() {
        Ok(p) => p,
        Err(_) => return None,
    };
    let ghost bytes = pem_vector@;
    if pem_vector.len() > 2147483647 {
        return None;
    }
    let pem_string = match string_from_utf8(pem_vector) {
        Ok(s) => s,
        Err(_) => return None,
    };
    get_key_from_string(pem_string)
}

} // verus!
