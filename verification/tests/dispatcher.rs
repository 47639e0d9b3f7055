use fydia::crypto::keys::{get_key_from_string, PrivateKey, PublicKey, RsaData};
use fydia::dispatcher::{encrypt_message, open_frame, seal_message};

fn key_pair() -> RsaData {
    let rsa = openssl::rsa::Rsa::generate(2048).unwrap();
    let private = PrivateKey::from_pem(rsa.private_key_to_pem().unwrap()).unwrap();
    let public = public_of(&private);
    RsaData(private, public)
}

fn public_of(key: &PrivateKey) -> PublicKey {
    let pem = key.public_key_to_pem().unwrap();
    get_key_from_string(String::from_utf8(pem).unwrap()).unwrap()
}

#[test]
fn sealed_frame_opens_at_the_receiver() {
    let origin = key_pair();
    let receiver = key_pair();
    let json = String::from("{\"content\":\"This is a message\"}");
    let (frame, token) = seal_message(&origin, &receiver.1, json.clone()).unwrap();
    assert_eq!(token.len(), 4);
    assert!(frame.len() > 528);
    let opened = open_frame(&origin.1, &receiver, &token, &frame);
    assert_eq!(opened, Some(json));
}

#[test]
fn frame_with_a_wrong_token_does_not_open() {
    let origin = key_pair();
    let receiver = key_pair();
    let (frame, token) = seal_message(&origin, &receiver.1, String::from("{}")).unwrap();
    let wrong = if token == "AAAA" { "BBBB" } else { "AAAA" };
    assert_eq!(open_frame(&origin.1, &receiver, wrong, &frame), None);
}

#[test]
fn frame_from_another_origin_does_not_open() {
    let origin = key_pair();
    let other = key_pair();
    let receiver = key_pair();
    let (frame, token) = seal_message(&origin, &receiver.1, String::from("{}")).unwrap();
    assert_eq!(open_frame(&other.1, &receiver, &token, &frame), None);
}

#[test]
fn encrypted_message_has_the_frame_layout() {
    let origin = key_pair();
    let receiver = key_pair();
    let frame = encrypt_message(&origin, &receiver.1, String::from("This is a message")).unwrap();
    assert_eq!(frame.len(), 256 + 16 + 256 + "This is a message".len());
    assert!(frame[256..272].iter().all(|b| b.is_ascii_alphanumeric()));
}

#[test]
fn short_frame_does_not_open() {
    let origin = key_pair();
    let receiver = key_pair();
    assert_eq!(open_frame(&origin.1, &receiver, "abcd", &[0u8; 300]), None);
}
