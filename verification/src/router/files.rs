//! What the server accepts as a server's picture, and the media type it
//! gives a stored file.
use vstd::prelude::*;
use vstd::string::StringExecFns;
use crate::router::media::{inferred_type, guessed_type, mime_parses, infer_type, guess_type, media_type_parses};

verus! {

/// The largest picture the server takes, in bytes.
pub const MAX_CONTENT_LENGHT: usize = 8000000;

/// Why a picture is refused or cannot be served.
#[derive(Clone, Copy, Debug, PartialEq, Eq, Structural)]
pub enum PictureError {
    /// More bytes than `MAX_CONTENT_LENGHT`.
    TooLarge,
    /// No known file type in the bytes.
    NoBody,
    /// Neither PNG, JPEG nor GIF.
    BadImageType,
    /// No known media type for a stored picture.
    NoMediaType,
    /// The media type found cannot be read back.
    BadMediaType,
}

/// The message the server answers a refused or unservable picture with.
pub open spec fn picture_error_text(e: PictureError) -> Seq<char> {
    match e {
        PictureError::TooLarge => ""@,
        PictureError::NoBody => "No body"@,
        PictureError::BadImageType => "Bad Image type retry with png / jpg / gif"@,
        PictureError::NoMediaType => "Cannot get the mimetype"@,
        PictureError::BadMediaType => "Cannot convert mime"@,
    }
}

impl PictureError {
    /// The message the server answers with.
    pub fn message(&self) -> (res: &'static str)
        ensures
            res@ == picture_error_text(*self),
    {
        match self {
            PictureError::TooLarge => "",
            PictureError::NoBody => "No body",
            PictureError::BadImageType => "Bad Image type retry with png / jpg / gif",
            PictureError::NoMediaType => "Cannot get the mimetype",
            PictureError::BadMediaType => "Cannot convert mime",
        }
    }

    /// Whether the server answers with 413 (Payload Too Large) rather than
    /// an ordinary error.
    pub fn is_payload_too_large(&self) -> (res: bool)
        ensures
            res == (*self == PictureError::TooLarge),
    {
        match self {
            PictureError::TooLarge => true,
            _ => false,
        }
    }
}

/// Whether a new picture is taken: at most `MAX_CONTENT_LENGHT` bytes, of
/// a type that `infer` knows, with the extension `png`, `jpg` or `gif`.
pub open spec fn picture_check(body: Seq<u8>) -> Result<(), PictureError> {
    if body.len() > MAX_CONTENT_LENGHT {
        Err(PictureError::TooLarge)
    } else {
        match inferred_type(body) {
            None => Err(PictureError::NoBody),
            Some((_, ext)) => if ext == "png"@ || ext == "jpg"@ || ext == "gif"@ {
                Ok(())
            } else {
                Err(PictureError::BadImageType)
            },
        }
    }
}

/// A new picture is taken exactly when it is small enough and `infer`
/// reads it as PNG, JPEG or GIF: any other extension that `infer` finds
/// (WebP, BMP, ...) is refused with `BadImageType`.
pub proof fn lemma_picture_types(body: Seq<u8>)
    ensures
        picture_check(body) is Ok <==> body.len() <= MAX_CONTENT_LENGHT
            && (inferred_type(body) matches Some(t) && (t.1 == "png"@ || t.1 == "jpg"@ || t.1 == "gif"@)),
        body.len() <= MAX_CONTENT_LENGHT
            && (inferred_type(body) matches Some(t) && !(t.1 == "png"@ || t.1 == "jpg"@ || t.1 == "gif"@))
            ==> picture_check(body) == Err::<(), PictureError>(PictureError::BadImageType),
        body.len() > MAX_CONTENT_LENGHT ==> picture_check(body) == Err::<(), PictureError>(PictureError::TooLarge),
        body.len() <= MAX_CONTENT_LENGHT && inferred_type(body) is None
            ==> picture_check(body) == Err::<(), PictureError>(PictureError::NoBody),
{
}

/// Whether a new picture for a server is taken.
///
/// # Errors
/// Too many bytes, no known type, or a type other than PNG, JPEG and GIF.
pub fn check_new_picture(body: &[u8]) -> (res: Result<(), PictureError>)
    ensures
        res == picture_check(body@),
{
    if body.len() > MAX_CONTENT_LENGHT {
        return Err(PictureError::TooLarge);
    }
    match infer_type(body) {
        None => Err(PictureError::NoBody),
        Some((_, ext)) => {
            if ext == String::from_str("png") || ext == String::from_str("jpg") || ext == String::from_str("gif") {
                Ok(())
            } else {
                Err(PictureError::BadImageType)
            }
        },
    }
}

/// The media type a stored picture is served with: the one `infer` finds,
/// when `mime` reads it.
pub open spec fn picture_media_type_spec(value: Seq<u8>) -> Result<Seq<char>, PictureError> {
    match inferred_type(value) {
        None => Err(PictureError::NoMediaType),
        Some((m, _)) => if mime_parses(m) {
            Ok(m)
        } else {
            Err(PictureError::BadMediaType)
        },
    }
}

/// The media type a stored picture is served with.
///
/// # Errors
/// No known type, or a type that `mime` does not read.
pub fn picture_media_type(value: &[u8]) -> (res: Result<String, PictureError>)
    ensures
        match res {
            Ok(s) => picture_media_type_spec(value@) == Ok::<Seq<char>, PictureError>(s@),
            Err(e) => picture_media_type_spec(value@) == Err::<Seq<char>, PictureError>(e),
        },
{
    match infer_type(value) {
        None => Err(PictureError::NoMediaType),
        Some((m, _)) => {
            if media_type_parses(m.as_str()) {
                Ok(m)
            } else {
                Err(PictureError::BadMediaType)
            }
        },
    }
}

/// The media type of a stored file: the one `infer` finds from its first
/// bytes (when `mime` reads it, else `application/octet-stream`); failing
/// that, the one `mime_guess` guesses from the name the file was uploaded under; failing
/// that, `application/octet-stream`.
pub open spec fn file_media_type(head: Seq<u8>, name: Option<Seq<char>>) -> Seq<char> {
    match inferred_type(head) {
        Some((m, _)) => if mime_parses(m) { m } else { "application/octet-stream"@ },
        None => match name {
            Some(n) => match guessed_type(n) {
                Some(g) => g,
                None => "application/octet-stream"@,
            },
            None => "application/octet-stream"@,
        },
    }
}

/// The media type of a stored file, from its first bytes and, when it is
/// known, the name the file was uploaded under.
pub fn get_mime_of_file(head: &[u8], name: Option<&str>) -> (res: String)
    ensures
        res@ == file_media_type(head@, match name { Some(n) => Some(n@), None => None }),
{
    match infer_type(head) {
        Some((m, _)) => {
            if media_type_parses(m.as_str()) {
                m
            } else {
                String::from_str("application/octet-stream")
            }
        },
        None => match name {
            Some(n) => match guess_type(n) {
                Some(g) => g,
                None => String::from_str("application/octet-stream"),
            },
            None => String::from_str("application/octet-stream"),
        },
    }
}

} // verus!
