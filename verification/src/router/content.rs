//! The Content-Type of a request, and what it says about the body.
use vstd::prelude::*;
use vstd::utf8::is_ascii_chars;
use vstd::string::StringExecFns;
use crate::text::{ascii_chars_of, string_from_chars, str_chars};
use crate::libtest::textops::{occurs_at, occurs_at_chars};
use crate::router::media::{
    MediaConstant, mime_parses, constant_equals_parsed, parsed_equals_constant, media_type_parses,
    constant_is, is_constant,
};

verus! {

/// Whether a header value is text: every byte visible ASCII or a tab.
pub open spec fn visible_ascii(b: Seq<u8>) -> bool {
    forall|i: int| 0 <= i < b.len() ==> (32 <= #[trigger] b[i] < 127 || b[i] == 9)
}

/// A header value as text, when it is visible ASCII (as `HeaderValue::to_str` reads it).
pub fn header_text(value: &Vec<u8>) -> (res: Option<String>)
    ensures
        res is Some <==> visible_ascii(value@),
        res matches Some(s) ==> s@ == ascii_chars_of(value@),
{
    let mut chars: Vec<char> = Vec::new();
    let mut i: usize = 0;
    while i < value.len()
        invariant
            i <= value@.len(),
            forall|j: int| 0 <= j < i ==> (32 <= #[trigger] value@[j] < 127 || value@[j] == 9),
            chars@ == ascii_chars_of(value@.take(i as int)),
        decreases value@.len() - i,
    {
        let b = value[i];
        if !((32 <= b && b < 127) || b == 9) {
            return None;
        }
        chars.push(b as char);
        assert(chars@ =~= ascii_chars_of(value@.take(i + 1)));
        i = i + 1;
    }
    assert(value@.take(value@.len() as int) =~= value@);
    Some(string_from_chars(chars.as_slice()))
}

/// Why the Content-Type of a request cannot be read.
#[derive(Clone, Copy, Debug, PartialEq, Eq, Structural)]
pub enum ContentTypeError {
    /// No Content-Type header.
    Missing,
    /// The header is not visible ASCII.
    NotText,
    /// The header is no media type.
    BadMediaType,
}

/// The message the server answers a Content-Type it cannot read with.
pub open spec fn content_type_error_text(e: ContentTypeError) -> Seq<char> {
    match e {
        ContentTypeError::Missing => "No Content-Type header found"@,
        ContentTypeError::NotText => "Content-Type error"@,
        ContentTypeError::BadMediaType => "Bad Content-Type"@,
    }
}

impl ContentTypeError {
    /// The message the server answers with.
    pub fn message(&self) -> (res: &'static str)
        ensures
            res@ == content_type_error_text(*self),
    {
        match self {
            ContentTypeError::Missing => "No Content-Type header found",
            ContentTypeError::NotText => "Content-Type error",
            ContentTypeError::BadMediaType => "Bad Content-Type",
        }
    }
}

/// The Content-Type of a request, from the value of its first Content-Type
/// header: the header's text, once it is known to be a media type.
///
/// # Errors
/// No header, a header that is not visible ASCII, or one that is no media type.
pub fn content_type(header: Option<&Vec<u8>>) -> (res: Result<String, ContentTypeError>)
    ensures
        match header {
            None => res == Err::<String, ContentTypeError>(ContentTypeError::Missing),
            Some(b) => if !visible_ascii(b@) {
                res == Err::<String, ContentTypeError>(ContentTypeError::NotText)
            } else if !mime_parses(ascii_chars_of(b@)) {
                res == Err::<String, ContentTypeError>(ContentTypeError::BadMediaType)
            } else {
                (res matches Ok(s) && s@ == ascii_chars_of(b@))
            },
        },
{
    let bytes = match header {
        None => return Err(ContentTypeError::Missing),
        Some(b) => b,
    };
    let text = match header_text(bytes) {
        None => return Err(ContentTypeError::NotText),
        Some(t) => t,
    };
    if !media_type_parses(text.as_str()) {
        return Err(ContentTypeError::BadMediaType);
    }
    Ok(text)
}

/// The first position at or after `i` where `p` occurs in `s`.
pub open spec fn occurrence_from(s: Seq<char>, p: Seq<char>, i: nat) -> Option<int>
    decreases s.len() + 1 - i,
{
    if i > s.len() {
        None
    } else if occurs_at(s, p, i as int) {
        Some(i as int)
    } else {
        occurrence_from(s, p, i + 1)
    }
}

/// The multipart boundary of a Content-Type: what follows its first `boundary=`.
pub open spec fn boundary_of(content_type: Seq<char>) -> Option<Seq<char>> {
    match occurrence_from(content_type, "boundary="@, 0) {
        Some(i) => Some(content_type.skip(i + "boundary="@.len())),
        None => None,
    }
}

/// The multipart boundary of a request, from its Content-Type header as
/// text: what follows the first `boundary=`.
pub fn get_boundary(content_type: Option<&str>) -> (res: Option<String>)
    ensures
        match content_type {
            None => res is None,
            Some(ct) => match boundary_of(ct@) {
                None => res is None,
                Some(b) => (res matches Some(s) && s@ == b),
            },
        },
{
    let ct = match content_type {
        None => return None,
        Some(ct) => ct,
    };
    let chars = str_chars(ct);
    let word = str_chars("boundary=");
    let mut i: usize = 0;
    while i <= chars.len()
        invariant
            i <= chars@.len() + 1,
            content_type == Some(ct),
            chars@ == ct@,
            word@ == "boundary="@,
            occurrence_from(ct@, word@, 0) == occurrence_from(ct@, word@, i as nat),
        decreases chars@.len() + 1 - i,
    {
        if occurs_at_chars(&chars, &word, i) {
            assert(occurrence_from(ct@, word@, i as nat) == Some(i as int));
            let start = i + word.len();
            let mut rest: Vec<char> = Vec::new();
            let mut k: usize = start;
            while k < chars.len()
                invariant
                    start <= k <= chars@.len(),
                    rest@ == chars@.subrange(start as int, k as int),
                decreases chars@.len() - k,
            {
                rest.push(chars[k]);
                assert(rest@ =~= chars@.subrange(start as int, k + 1));
                k = k + 1;
            }
            assert(rest@ =~= ct@.skip(start as int));
            return Some(string_from_chars(rest.as_slice()));
        }
        if i == chars.len() {
            assert(occurrence_from(ct@, word@, (i + 1) as nat) is None);
            return None;
        }
        i = i + 1;
    }
    None
}

/// How a message's body is to be read.
pub enum MessageBody {
    /// As JSON.
    Json,
    /// As a multipart form, with this boundary.
    Multipart(String),
}

/// Why a message's body cannot be read.
#[derive(Clone, Copy, Debug, PartialEq, Eq, Structural)]
pub enum MessageBodyError {
    /// A multipart Content-Type without a boundary.
    NoBoundary,
    /// A Content-Type that is neither JSON nor text nor a multipart form.
    ContentType,
}

/// The message the server answers a body it cannot read with.
pub open spec fn message_body_error_text(e: MessageBodyError) -> Seq<char> {
    match e {
        MessageBodyError::NoBoundary => "No boundary found"@,
        MessageBodyError::ContentType => "Content-Type error"@,
    }
}

impl MessageBodyError {
    /// The message the server answers with.
    pub fn message(&self) -> (res: &'static str)
        ensures
            res@ == message_body_error_text(*self),
    {
        match self {
            MessageBodyError::NoBoundary => "No boundary found",
            MessageBodyError::ContentType => "Content-Type error",
        }
    }
}

/// Whether the body of a request with this Content-Type is read as JSON:
/// JSON or plain text (as `mime` compares them), or exactly
/// `application/json; charset=utf-8`.
pub open spec fn json_content_type(ct: Seq<char>) -> bool {
    ||| constant_equals_parsed(MediaConstant::ApplicationJson, ct)
    ||| constant_equals_parsed(MediaConstant::TextPlain, ct)
    ||| constant_equals_parsed(MediaConstant::TextPlainUtf8, ct)
    ||| ct == "application/json; charset=utf-8"@
}

/// How the body of a message with this Content-Type (an ASCII media type, as
/// a header's text is) is read:
/// as JSON when the type is JSON or text, as a multipart form when it is
/// `multipart/form-data` and carries a boundary.
///
/// # Errors
/// A multipart type without a boundary, or any other type.
pub fn message_body_kind(content_type: &str) -> (res: Result<MessageBody, MessageBodyError>)
    requires
        mime_parses(content_type@),
        is_ascii_chars(content_type@),
    ensures
        json_content_type(content_type@) ==> res matches Ok(MessageBody::Json),
        !json_content_type(content_type@) && parsed_equals_constant(content_type@, MediaConstant::MultipartFormData) ==>
            match boundary_of(content_type@) {
                Some(b) => (res matches Ok(MessageBody::Multipart(s)) && s@ == b),
                None => res == Err::<MessageBody, MessageBodyError>(MessageBodyError::NoBoundary),
            },
        !json_content_type(content_type@) && !parsed_equals_constant(content_type@, MediaConstant::MultipartFormData) ==>
            res == Err::<MessageBody, MessageBodyError>(MessageBodyError::ContentType),
{
    let raw = String::from_str(content_type);
    if constant_is(MediaConstant::ApplicationJson, content_type)
        || constant_is(MediaConstant::TextPlain, content_type)
        || constant_is(MediaConstant::TextPlainUtf8, content_type)
        || raw == String::from_str("application/json; charset=utf-8")
    {
        return Ok(MessageBody::Json);
    }
    if is_constant(content_type, MediaConstant::MultipartFormData) {
        return match get_boundary(Some(content_type)) {
            Some(b) => Ok(MessageBody::Multipart(b)),
            None => Err(MessageBodyError::NoBoundary),
        };
    }
    Err(MessageBodyError::ContentType)
}

/// Why a message post's body cannot be read: its Content-Type, or what the
/// Content-Type says of the body.
#[derive(Clone, Copy, Debug, PartialEq, Eq, Structural)]
pub enum PostBodyError {
    ContentType(ContentTypeError),
    Body(MessageBodyError),
}

/// How the body of a message post is read, from the value of its first
/// Content-Type header: the Content-Type is read first, then what it says
/// of the body.
///
/// # Errors
/// The errors of [`content_type`], then those of [`message_body_kind`].
pub fn post_body_kind(header: Option<&Vec<u8>>) -> (res: Result<MessageBody, PostBodyError>)
    ensures
        match header {
            None => res == Err::<MessageBody, PostBodyError>(PostBodyError::ContentType(ContentTypeError::Missing)),
            Some(b) => if !visible_ascii(b@) {
                res == Err::<MessageBody, PostBodyError>(PostBodyError::ContentType(ContentTypeError::NotText))
            } else if !mime_parses(ascii_chars_of(b@)) {
                res == Err::<MessageBody, PostBodyError>(PostBodyError::ContentType(ContentTypeError::BadMediaType))
            } else {
                let ct = ascii_chars_of(b@);
                &&& json_content_type(ct) ==> (res matches Ok(MessageBody::Json))
                &&& !json_content_type(ct) && parsed_equals_constant(ct, MediaConstant::MultipartFormData) ==>
                    match boundary_of(ct) {
                        Some(bd) => (res matches Ok(MessageBody::Multipart(s)) && s@ == bd),
                        None => res == Err::<MessageBody, PostBodyError>(PostBodyError::Body(MessageBodyError::NoBoundary)),
                    }
                &&& !json_content_type(ct) && !parsed_equals_constant(ct, MediaConstant::MultipartFormData) ==>
                    res == Err::<MessageBody, PostBodyError>(PostBodyError::Body(MessageBodyError::ContentType))
            },
        },
{
    let ct = match content_type(header) {
        Ok(ct) => ct,
        Err(e) => return Err(PostBodyError::ContentType(e)),
    };
    proof {
        let b = header->0@;
        assert forall|i: int| 0 <= i < ct@.len() implies '\0' <= #[trigger] ct@[i] <= '\u{7f}' by {
            assert(32 <= b[i] < 127 || b[i] == 9);
        }
    }
    match message_body_kind(ct.as_str()) {
        Ok(kind) => Ok(kind),
        Err(e) => Err(PostBodyError::Body(e)),
    }
}

/// How the first message API reads a body: by the exact Content-Type.
pub enum DispatchedBody {
    Json,
    Multipart,
}

/// How the first message API reads a body with this Content-Type:
/// `application/json` (with or without `; charset=utf-8`) as JSON,
/// `multipart/form-data` (with or without a `;`) as a multipart form.
///
/// # Errors
/// `Bad Content-Type` for any other Content-Type.
pub fn messages_dispatcher(content_type: &str) -> (res: Result<DispatchedBody, String>)
    ensures
        (content_type@ == "application/json"@ || content_type@ == "application/json; charset=utf-8"@)
            ==> res matches Ok(DispatchedBody::Json),
        (content_type@ == "multipart/form-data"@ || content_type@ == "multipart/form-data;"@)
            && !(content_type@ == "application/json"@ || content_type@ == "application/json; charset=utf-8"@)
            ==> res matches Ok(DispatchedBody::Multipart),
        !(content_type@ == "application/json"@ || content_type@ == "application/json; charset=utf-8"@
            || content_type@ == "multipart/form-data"@ || content_type@ == "multipart/form-data;"@)
            ==> (res matches Err(e) && e@ == "Bad Content-Type"@),
{
    let ct = String::from_str(content_type);
    if ct == String::from_str("application/json") || ct == String::from_str("application/json; charset=utf-8") {
        Ok(DispatchedBody::Json)
    } else if ct == String::from_str("multipart/form-data") || ct == String::from_str("multipart/form-data;") {
        Ok(DispatchedBody::Multipart)
    } else {
        Err(String::from_str("Bad Content-Type"))
    }
}

} // verus!
