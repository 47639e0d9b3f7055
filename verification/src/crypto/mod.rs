//! RSA keys, the RSA + AES-256-CTR envelope, random strings and password hashes.
pub mod openssl_calls;
pub mod keys;
pub mod structs;
pub mod decrypt;
pub mod random;
pub mod encrypt;
pub mod password;
