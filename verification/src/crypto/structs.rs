//! The pieces of the RSA + AES envelope.
use vstd::prelude::*;

verus! {

/// The AES initialisation vector, as text.
#[derive(Clone)]
pub struct Iv(pub String);

impl Iv {
    pub fn new(new: String) -> (res: Self)
        ensures
            res.0@ == new@,
    {
        Iv(new)
    }
}

/// The AES key, encrypted with RSA.
#[derive(Clone)]
pub struct AesKeyEncrypt(pub Vec<u8>);

impl AesKeyEncrypt {
    pub fn new(new: Vec<u8>) -> (res: Self)
        ensures
            res.0@ == new@,
    {
        AesKeyEncrypt(new)
    }
}

/// An AES key, as text.
pub struct AesKey(pub String);

impl AesKey {
    pub fn new(new: String) -> (res: Self)
        ensures
            res.0@ == new@,
    {
        AesKey(new)
    }
}

/// A body encrypted with AES.
#[derive(Clone)]
pub struct EncryptedBody(pub Vec<u8>);

impl EncryptedBody {
    pub fn new(new: Vec<u8>) -> (res: Self)
        ensures
            res.0@ == new@,
    {
        EncryptedBody(new)
    }
}

/// A body in clear text.
pub struct Body(pub String);

impl Body {
    pub fn new(new: String) -> (res: Self)
        ensures
            res.0@ == new@,
    {
        Body(new)
    }
}

} // verus!
