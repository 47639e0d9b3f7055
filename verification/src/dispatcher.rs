//! The federation frame between instances: a verification token encrypted
//! with the sender's private key, then the envelope of the event.
//!
//! ```text
//! | verification (256) | IV (16) | encrypted AES key (256) | body |
//! ```
use vstd::prelude::*;
use vstd::utf8::*;
use vstd::slice::{slice_to_vec, slice_subrange};
use crate::text::{zero_bytes, ascii_chars_of, lemma_ascii_bytes, string_from_utf8};
use crate::crypto::keys::{PublicKey, RsaData};
use crate::crypto::structs::{AesKeyEncrypt, EncryptedBody, Iv};
use crate::crypto::random::{generate_string, alphanumeric_text};
use crate::crypto::decrypt::{aes, aes_open, public, public_text};
use crate::crypto::encrypt::{aes_encrypt, private_encrypt, envelope_opens};
use crate::crypto::openssl_calls::{
    rsa_private_size, rsa_public_size, rsa_public_decrypted, rsa_public_pem_of_private,
    rsa_private_consistent,
};

verus! {

/// The bytes of a frame.
pub open spec fn frame_of(verification: Seq<u8>, iv: Seq<char>, encrypted_key: Seq<u8>, body: Seq<u8>) -> Seq<u8> {
    verification + encode_utf8(iv) + encrypted_key + body
}

/// What [`open_frame`] returns: the first 256 bytes, decrypted with the
/// sender's public key, must begin with the 4 bytes of `authenticity`; then the
/// IV (bytes 256..272), encrypted key (272..528) and body (528..) are opened
/// with the receiver's private key.
pub open spec fn open_frame_result(
    origin_public: Seq<u8>,
    key: Seq<u8>,
    authenticity: Seq<char>,
    frame: Seq<u8>,
) -> Option<Seq<char>> {
    match public_text(origin_public, frame.take(256)) {
        Some(t) => {
            if !is_char_boundary(encode_utf8(t), 4) {
                None
            } else if decode_utf8(encode_utf8(t).take(4)) != authenticity {
                None
            } else if frame.len() < 528 || !valid_utf8(frame.subrange(256, 272)) {
                None
            } else {
                aes_open(key, decode_utf8(frame.subrange(256, 272)), frame.subrange(272, 528), frame.skip(528))
            }
        },
        None => None,
    }
}

/// Whenever both instances hold consistent 2048-bit keys, the receiver (any consistent private key
/// whose public half is `receiver`) opens `frame`, received with
/// `authenticity`, to `message`, using the public half of the sender's key
/// `origin`.
pub open spec fn frame_opens(
    origin: Seq<u8>,
    receiver: Seq<u8>,
    authenticity: Seq<char>,
    frame: Seq<u8>,
    message: Seq<char>,
) -> bool {
    forall|origin_public: Seq<u8>, key: Seq<u8>|
        rsa_private_size(origin) == Some(256nat) && rsa_public_size(receiver) == Some(256nat)
            && rsa_public_pem_of_private(origin) == Some(origin_public) && rsa_private_consistent(origin)
            && (rsa_public_size(origin_public) matches Some(m) && m >= 4)
            && rsa_public_pem_of_private(key) == Some(receiver) && rsa_private_consistent(key)
            && (rsa_private_size(key) matches Some(n) && n >= 32)
            ==> #[trigger] open_frame_result(origin_public, key, authenticity, frame) == Some(message)
}

/// Some token opens the frame, as [`frame_opens`] says.
pub open spec fn frame_opens_with_some_token(origin: Seq<u8>, receiver: Seq<u8>, frame: Seq<u8>, message: Seq<char>) -> bool {
    exists|a: Seq<char>| #[trigger] frame_opens(origin, receiver, a, frame, message)
}

fn frame_bytes(verification: &[u8], iv: &Iv, aeskey: &AesKeyEncrypt, body: &EncryptedBody) -> (res: Vec<u8>)
    ensures
        res@ == frame_of(verification@, iv.0@, aeskey.0@, body.0@),
{
    let mut vec: Vec<u8> = Vec::new();
    vec.extend_from_slice(verification);
    vec.extend_from_slice(iv.0.as_str().as_bytes());
    vec.extend_from_slice(aeskey.0.as_slice());
    vec.extend_from_slice(body.0.as_slice());
    assert(vec@ =~= frame_of(verification@, iv.0@, aeskey.0@, body.0@));
    vec
}

/// A frame sealed by [`seal_message`] opens to the sealed message: with
/// 2048-bit keys on both sides, an ASCII verification token of 4 characters
/// and an ASCII IV of 16 characters, the layout of the frame puts each part
/// where [`open_frame`] reads it.
pub proof fn lemma_frame_round_trip(
    origin: Seq<u8>,
    receiver: Seq<u8>,
    authenticity: Seq<char>,
    verification: Seq<u8>,
    iv: Seq<char>,
    encrypted_key: Seq<u8>,
    body: Seq<u8>,
    message: Seq<char>,
)
    requires
        authenticity.len() == 4,
        alphanumeric_text(authenticity),
        iv.len() == 16,
        alphanumeric_text(iv),
        rsa_private_size(origin) == Some(verification.len()),
        rsa_private_consistent(origin) ==> (rsa_public_pem_of_private(origin) matches Some(p)
            ==> rsa_public_decrypted(p, verification) == Some(encode_utf8(authenticity))),
        rsa_public_size(receiver) == Some(encrypted_key.len()),
        envelope_opens(receiver, message, iv, encrypted_key, body),
    ensures
        frame_opens(origin, receiver, authenticity, frame_of(verification, iv, encrypted_key, body), message),
{
    broadcast use vstd::utf8::group_utf8_lib;
    let frame = frame_of(verification, iv, encrypted_key, body);
    let ivb = encode_utf8(iv);
    let ab = encode_utf8(authenticity);
    assert(is_ascii_chars(iv)) by {
        assert forall|i: int| 0 <= i < iv.len() implies '\0' <= #[trigger] iv[i] <= '\u{7f}' by {
            assert(crate::crypto::random::is_alphanumeric(iv[i]));
        }
    }
    assert(is_ascii_chars(authenticity)) by {
        assert forall|i: int| 0 <= i < authenticity.len() implies '\0' <= #[trigger] authenticity[i] <= '\u{7f}' by {
            assert(crate::crypto::random::is_alphanumeric(authenticity[i]));
        }
    }
    assert(ivb.len() == 16);
    assert(ab.len() == 4);
    assert forall|origin_public: Seq<u8>, key: Seq<u8>|
        rsa_private_size(origin) == Some(256nat) && rsa_public_size(receiver) == Some(256nat)
            && rsa_public_pem_of_private(origin) == Some(origin_public) && rsa_private_consistent(origin)
            && (rsa_public_size(origin_public) matches Some(m) && m >= 4)
            && rsa_public_pem_of_private(key) == Some(receiver) && rsa_private_consistent(key)
            && (rsa_private_size(key) matches Some(n) && n >= 32)
        implies #[trigger] open_frame_result(origin_public, key, authenticity, frame) == Some(message) by {
        let m = rsa_public_size(origin_public)->0;
        assert(frame.take(256) =~= verification);
        assert(rsa_public_decrypted(origin_public, verification) == Some(ab));
        let buf = ab + zero_bytes((m - 4) as nat);
        assert forall|i: int| 0 <= i < buf.len() implies #[trigger] buf[i] < 128 by {
            if i < 4 {
                assert(authenticity[i] as u8 == ab[i]);
            }
        }
        lemma_ascii_bytes(buf);
        let t = ascii_chars_of(buf);
        assert(public_text(origin_public, verification) == Some(t));
        assert(buf.take(4) =~= ab);
        assert(frame.subrange(256, 272) =~= ivb);
        assert(frame.subrange(272, 528) =~= encrypted_key);
        assert(frame.skip(528) =~= body);
    }
}

/// Seal an event (its JSON text) for another instance: the envelope of the
/// event under the receiver's public key `key`, preceded by a random
/// 4-character token encrypted with the sender's private key. Returns the
/// frame and the token, which travels beside it as the `Authenticity` header.
///
/// # Errors
/// When the random generator or an encryption fails.
pub fn seal_message(rsa_origin: &RsaData, key: &PublicKey, json: String) -> (res: Result<(Vec<u8>, String), String>)
    requires
        encode_utf8(json@).len() <= i32::MAX,
    ensures
        res matches Ok(r) ==> {
            &&& frame_opens(rsa_origin.0@, key@, r.1@, r.0@, json@)
            &&& r.1@.len() == 4 && alphanumeric_text(r.1@)
            &&& exists|verification: Seq<u8>, iv: Seq<char>, encrypted_key: Seq<u8>, body: Seq<u8>|
                #[trigger] frame_of(verification, iv, encrypted_key, body) == r.0@
                && rsa_private_size(rsa_origin.0@) == Some(verification.len())
                && iv.len() == 16 && alphanumeric_text(iv)
                && rsa_public_size(key@) == Some(encrypted_key.len())
                && body.len() == encode_utf8(json@).len()
        },
{
    broadcast use vstd::utf8::group_utf8_lib;
    let (iv, aeskey, body) = aes_encrypt(key, json)?;
    let string = generate_string(4)?;
    assert(encode_utf8(string@).len() == 4) by {
        assert(is_ascii_chars(string@)) by {
            assert forall|i: int| 0 <= i < string@.len() implies '\0' <= #[trigger] string@[i] <= '\u{7f}' by {
                assert(crate::crypto::random::is_alphanumeric(string@[i]));
            }
        }
    }
    let verification = private_encrypt(&rsa_origin.0, string.as_str())?;
    let frame = frame_bytes(verification.as_slice(), &iv, &aeskey, &body);
    proof {
        lemma_frame_round_trip(rsa_origin.0@, key@, string@, verification@, iv.0@, aeskey.0@, body.0@, json@);
        assert(frame_of(verification@, iv.0@, aeskey.0@, body.0@) == frame@);
    }
    Ok((frame, string))
}

/// The frame of an event for another instance, as [`seal_message`] builds it,
/// without the token.
///
/// # Errors
/// When the random generator or an encryption fails: the failure is handed
/// back to the caller rather than aborting the process.
pub fn encrypt_message(rsa_origin: &RsaData, key: &PublicKey, json: String) -> (res: Result<Vec<u8>, String>)
    requires
        encode_utf8(json@).len() <= i32::MAX,
    ensures
        res matches Ok(f) ==> {
            &&& frame_opens_with_some_token(rsa_origin.0@, key@, f@, json@)
            &&& exists|verification: Seq<u8>, iv: Seq<char>, encrypted_key: Seq<u8>, body: Seq<u8>|
                #[trigger] frame_of(verification, iv, encrypted_key, body) == f@
                && rsa_private_size(rsa_origin.0@) == Some(verification.len())
                && iv.len() == 16 && alphanumeric_text(iv)
                && rsa_public_size(key@) == Some(encrypted_key.len())
                && body.len() == encode_utf8(json@).len()
        },
{
    let ghost message = json@;
    match seal_message(rsa_origin, key, json) {
        Ok((frame, token)) => {
            assert(frame_opens(rsa_origin.0@, key@, token@, frame@, message));
            assert(frame_opens_with_some_token(rsa_origin.0@, key@, frame@, message));
            Ok(frame)
        },
        Err(e) => Err(e),
    }
}

/// Open a frame received from another instance, whose public key is
/// `origin_key`, with the `Authenticity` header `authenticity`: the
/// verification part must decrypt, under the origin's key, to text that
/// begins with `authenticity`; then the envelope is opened with our private key.
/// Where the frame is too short for its envelope (fewer than 528 bytes), or
/// the decrypted verification has no character boundary at byte 4, there is
/// nothing to open and the result is `None`: slicing the frame or the text
/// there would panic, and such a frame is refused instead.
pub fn open_frame(origin_key: &PublicKey, rsa: &RsaData, authenticity: &str, body: &[u8]) -> (res: Option<String>)
    requires
        256 <= body@.len() <= i32::MAX,
    ensures
        res is Some <==> open_frame_result(origin_key@, rsa.0@, authenticity@, body@) is Some,
        res matches Some(s) ==> open_frame_result(origin_key@, rsa.0@, authenticity@, body@) == Some(s@),
{
    broadcast use {vstd::utf8::group_utf8_lib, vstd::string::group_string_axioms};
    let verification = slice_subrange(body, 0, 256);
    assert(verification@ == body@.take(256));
    let text = match public(origin_key, verification) {
        Ok(t) => t,
        Err(_) => return None,
    };
    if !text.as_str().is_char_boundary(4) {
        return None;
    }
    let (first, _) = text.as_str().split_at(4);
    let first_string = first.to_string();
    let authenticity_string = authenticity.to_string();
    assert(first_string@ == decode_utf8(encode_utf8(text@).take(4)));
    if first_string == authenticity_string {
        if body.len() < 528 {
            return None;
        }
        let iv = slice_to_vec(slice_subrange(body, 256, 272));
        let iv_string = match string_from_utf8(iv) {
            Ok(s) => s,
            Err(_) => return None,
        };
        let aeskey = slice_to_vec(slice_subrange(body, 272, 528));
        let rest = slice_to_vec(slice_subrange(body, 528, body.len()));
        assert(rest@ =~= body@.skip(528));
        match aes(&rsa.0, &(Iv(iv_string), AesKeyEncrypt(aeskey), EncryptedBody(rest))) {
            Ok(s) => Some(s),
            Err(_) => None,
        }
    } else {
        None
    }
}

} // verus!
