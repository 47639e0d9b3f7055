use fydia::libtest::json::JsonValue;
use fydia::router::checks::{post_message_step, PostCheck, PostStep, Reply};
use fydia::router::content::{
    post_body_kind, PostBodyError, content_type, get_boundary, header_text, message_body_kind, messages_dispatcher, ContentTypeError,
    DispatchedBody, MessageBody, MessageBodyError,
};
use fydia::router::files::{check_new_picture, get_mime_of_file, picture_media_type, PictureError, MAX_CONTENT_LENGHT};
use fydia::router::messages::{json_message_body, json_message_fields};
use fydia::router::socket::{incoming_frame_action, queued_action, FrameAction, FrameKind, QueuedAction, QueuedKind};
use fydia::router::url_params::{ChannelFromId, MessageId, RoleFromId, ServerFromId, UrlGetter};

const PNG: [u8; 16] = [0x89, 0x50, 0x4E, 0x47, 0x0D, 0x0A, 0x1A, 0x0A, 0, 0, 0, 0x0D, 0x49, 0x48, 0x44, 0x52];
const GIF: &[u8] = b"GIF89a\x01\x00\x01\x00\x00\x00\x00\x00";
const PDF: &[u8] = b"%PDF-1.4\n%\xe2\xe3\xcf\xd3\n";

#[test]
fn url_keys() {
    assert_eq!(UrlGetter::<RoleFromId>::get_key(), "roleid");
    assert_eq!(UrlGetter::<MessageId>::get_key(), "messageid");
    assert_eq!(UrlGetter::<ChannelFromId>::get_key(), "channelid");
    assert_eq!(UrlGetter::<ServerFromId>::get_key(), "serverid");
}

#[test]
fn path_parameter_lookup_takes_the_first_of_its_name() {
    let params = vec![
        (String::from("serverid"), String::from("s1")),
        (String::from("channelid"), String::from("c1")),
        (String::from("channelid"), String::from("c2")),
    ];
    assert_eq!(UrlGetter::<ChannelFromId>::from_params(&params).ok().unwrap().0, "c1");
    assert_eq!(UrlGetter::<ServerFromId>::from_params(&params).ok().unwrap().0, "s1");
    assert_eq!(UrlGetter::<MessageId>::from_params(&params).err().unwrap(), "No message id");
}

#[test]
fn header_text_is_visible_ascii() {
    assert_eq!(header_text(&b"text/plain".to_vec()), Some(String::from("text/plain")));
    assert_eq!(header_text(&b"a\tb".to_vec()), Some(String::from("a\tb")));
    assert_eq!(header_text(&vec![b'a', 0x7f]), None);
    assert_eq!(header_text(&vec![0xc3, 0xa9]), None);
}

#[test]
fn content_type_extractor() {
    assert_eq!(content_type(None).err(), Some(ContentTypeError::Missing));
    assert_eq!(content_type(Some(&vec![0x01])).err(), Some(ContentTypeError::NotText));
    assert_eq!(content_type(Some(&b"not a mime".to_vec())).err(), Some(ContentTypeError::BadMediaType));
    assert_eq!(content_type(Some(&b"application/json".to_vec())).unwrap(), "application/json");
    assert_eq!(ContentTypeError::Missing.message(), "No Content-Type header found");
}

#[test]
fn boundary_follows_the_first_boundary_word() {
    assert_eq!(get_boundary(Some("multipart/form-data; boundary=abc")), Some(String::from("abc")));
    assert_eq!(get_boundary(Some("boundary=x; boundary=y")), Some(String::from("x; boundary=y")));
    assert_eq!(get_boundary(Some("boundary=")), Some(String::new()));
    assert_eq!(get_boundary(Some("multipart/form-data")), None);
    assert_eq!(get_boundary(None), None);
}

#[test]
fn message_bodies_by_media_type() {
    assert!(matches!(message_body_kind("application/json"), Ok(MessageBody::Json)));
    assert!(matches!(message_body_kind("text/plain"), Ok(MessageBody::Json)));
    assert!(matches!(message_body_kind("text/plain; charset=utf-8"), Ok(MessageBody::Json)));
    assert!(matches!(message_body_kind("application/json; charset=utf-8"), Ok(MessageBody::Json)));
    // `mime` finds a type with a boundary parameter unequal to the bare
    // `multipart/form-data`, so such a post is refused.
    assert_eq!(message_body_kind("multipart/form-data; boundary=xyz").err(), Some(MessageBodyError::ContentType));
    assert_eq!(message_body_kind("multipart/form-data").err(), Some(MessageBodyError::NoBoundary));
    assert_eq!(message_body_kind("image/png").err(), Some(MessageBodyError::ContentType));
    assert_eq!(MessageBodyError::NoBoundary.message(), "No boundary found");
}

#[test]
fn post_body_kind_reads_the_header_first() {
    assert_eq!(post_body_kind(None).err(), Some(PostBodyError::ContentType(ContentTypeError::Missing)));
    assert_eq!(post_body_kind(Some(&b"nope".to_vec())).err(), Some(PostBodyError::ContentType(ContentTypeError::BadMediaType)));
    assert!(matches!(post_body_kind(Some(&b"text/plain".to_vec())), Ok(MessageBody::Json)));
    assert_eq!(post_body_kind(Some(&b"multipart/form-data".to_vec())).err(), Some(PostBodyError::Body(MessageBodyError::NoBoundary)));
}

#[test]
fn first_api_dispatch_by_exact_content_type() {
    assert!(matches!(messages_dispatcher("application/json"), Ok(DispatchedBody::Json)));
    assert!(matches!(messages_dispatcher("application/json; charset=utf-8"), Ok(DispatchedBody::Json)));
    assert!(matches!(messages_dispatcher("multipart/form-data;"), Ok(DispatchedBody::Multipart)));
    assert_eq!(messages_dispatcher("text/plain").err().unwrap(), "Bad Content-Type");
}

#[test]
fn pictures_must_be_small_images() {
    assert_eq!(check_new_picture(&PNG), Ok(()));
    assert_eq!(check_new_picture(GIF), Ok(()));
    assert_eq!(check_new_picture(&[0xFF, 0xD8, 0xFF, 0xE0, 0, 0x10]), Ok(()));
    assert_eq!(check_new_picture(PDF), Err(PictureError::BadImageType));
    assert_eq!(check_new_picture(&[]), Err(PictureError::NoBody));
    let mut big = vec![0u8; MAX_CONTENT_LENGHT + 1];
    big[..16].copy_from_slice(&PNG);
    assert_eq!(check_new_picture(&big), Err(PictureError::TooLarge));
    assert!(PictureError::TooLarge.is_payload_too_large());
    assert_eq!(PictureError::BadImageType.message(), "Bad Image type retry with png / jpg / gif");
}

#[test]
fn stored_picture_media_type() {
    assert_eq!(picture_media_type(&PNG).unwrap(), "image/png");
    assert_eq!(picture_media_type(&[1, 2, 3]).err(), Some(PictureError::NoMediaType));
}

#[test]
fn file_media_type() {
    assert_eq!(get_mime_of_file(&PNG, Some("photo.jpg")), "image/png");
    assert_eq!(get_mime_of_file(&[0u8; 16], Some("notes.txt")), "text/plain");
    assert_eq!(get_mime_of_file(&[0u8; 16], Some("no_extension")), "application/octet-stream");
    assert_eq!(get_mime_of_file(&[0u8; 16], None), "application/octet-stream");
}

#[test]
fn post_checks_go_in_order() {
    assert!(matches!(post_message_step(PostCheck::Token, Ok(())), PostStep::Check(PostCheck::User)));
    assert!(matches!(post_message_step(PostCheck::ContentTypeText, Ok(())), PostStep::Check(PostCheck::Body)));
    assert!(matches!(post_message_step(PostCheck::Body, Ok(())), PostStep::Check(PostCheck::Members)));
    match post_message_step(PostCheck::Token, Err(String::new())) {
        PostStep::Answer(v, false) => assert!(matches!(&v[..], [Reply::Error(m)] if m == "Bad Token")),
        _ => panic!("no answer"),
    }
    match post_message_step(PostCheck::Channel, Err(String::new())) {
        PostStep::Answer(v, false) => assert!(matches!(&v[..], [Reply::Error(m)] if m == "Unvalid channel")),
        _ => panic!("no answer"),
    }
    match post_message_step(PostCheck::Body, Err(String::from("Json error"))) {
        PostStep::Answer(v, false) => assert!(matches!(&v[..], [Reply::Error(m)] if m == "Json error")),
        _ => panic!("no answer"),
    }
}

#[test]
fn post_ends() {
    match post_message_step(PostCheck::Stored, Ok(())) {
        PostStep::Answer(v, true) => assert!(matches!(&v[..], [Reply::Success(m)] if m == "Message send")),
        _ => panic!("no answer"),
    }
    match post_message_step(PostCheck::Stored, Err(String::new())) {
        PostStep::Answer(v, false) => assert!(matches!(&v[..], [Reply::ServerError(a), Reply::Success(b)] if a == "Cannot send message" && b == "Message send")),
        _ => panic!("no answer"),
    }
    match post_message_step(PostCheck::Members, Err(String::new())) {
        PostStep::Answer(v, false) => assert!(matches!(&v[..], [Reply::ServerError(m)] if m == "Cannot get users of the server")),
        _ => panic!("no answer"),
    }
}

#[test]
fn socket_frames_and_queue() {
    assert_eq!(incoming_frame_action(FrameKind::Close), FrameAction::Kill);
    assert_eq!(incoming_frame_action(FrameKind::Ping), FrameAction::Forward);
    assert_eq!(queued_action(QueuedKind::Message, true), QueuedAction::SendJson);
    assert_eq!(queued_action(QueuedKind::WebsocketMessage, true), QueuedAction::SendFrame);
    assert_eq!(queued_action(QueuedKind::Kill, true), QueuedAction::RemoveAndStop);
    assert_eq!(queued_action(QueuedKind::Kill, false), QueuedAction::Remove);
}

#[test]
fn json_message_fields_need_two_strings() {
    let ok = JsonValue::Object(vec![
        (String::from("type"), JsonValue::Str(String::from("TEXT"))),
        (String::from("content"), JsonValue::Str(String::from("hi"))),
    ]);
    assert_eq!(json_message_fields(Some(&ok)).unwrap(), (String::from("TEXT"), String::from("hi")));
    let bad = JsonValue::Object(vec![(String::from("type"), JsonValue::Other), (String::from("content"), JsonValue::Str(String::new()))]);
    assert_eq!(json_message_fields(Some(&bad)).err().unwrap(), "Json error");
    assert_eq!(json_message_fields(None).err().unwrap(), "Json error");
}

#[test]
fn json_message_body_parses_then_reads_fields() {
    assert_eq!(json_message_body("{\"type\":\"TEXT\",\"content\":\"hi\"}").unwrap(), (String::from("TEXT"), String::from("hi")));
    assert_eq!(json_message_body("{\"type\":1,\"content\":\"hi\"}").err().unwrap(), "Json error");
    assert_eq!(json_message_body("not json").err().unwrap(), "Json error");
}
