//! Media types, as the `mime`, `mime_guess` and `infer` crates read them.
use vstd::prelude::*;
use vstd::utf8::is_ascii_chars;

verus! {

/// The media types that the server compares a request's type with.
#[derive(Clone, Copy, Debug, PartialEq, Eq, Structural)]
pub enum MediaConstant {
    /// `application/json`
    ApplicationJson,
    /// `text/plain`
    TextPlain,
    /// `text/plain; charset=utf-8`
    TextPlainUtf8,
    /// `multipart/form-data`
    MultipartFormData,
}

/// Whether `mime` parses `text` as a media type.
pub uninterp spec fn mime_parses(text: Seq<char>) -> bool;

/// Whether `mime` finds the constant media type `c` equal to the one it
/// parses from `text` (the constant on the left of `==`).
pub uninterp spec fn constant_equals_parsed(c: MediaConstant, text: Seq<char>) -> bool;

/// Whether `mime` finds the media type it parses from `text` equal to the
/// constant `c` (the parsed type on the left of `==`).
pub uninterp spec fn parsed_equals_constant(text: Seq<char>, c: MediaConstant) -> bool;

/// The media type and the file extension that `infer` finds from the first
/// bytes of a file, when it knows them.
pub uninterp spec fn inferred_type(bytes: Seq<u8>) -> Option<(Seq<char>, Seq<char>)>;

/// The first media type that `mime_guess` guesses from a path's extension,
/// when it has one.
pub uninterp spec fn guessed_type(path: Seq<char>) -> Option<Seq<char>>;

/// `mime::Mime::from_str`: whether the text parses as a media type; which
/// texts do is named, not spelled out.
#[verifier::external_body]
pub(crate) fn media_type_parses(text: &str) -> (res: bool)
    ensures
        res == mime_parses(text@),
{
    text.parse::<mime::Mime>().is_ok()
}

/// `mime`'s `Mime == Mime` with the constant `c` on the left and the type
/// parsed from `text` on the right; the answer is named, not spelled out.
/// The comparison cuts the parsed text at byte positions of the constant,
/// so the text must be ASCII: elsewhere a cut could fall inside a character.
#[verifier::external_body]
pub(crate) fn constant_is(c: MediaConstant, text: &str) -> (res: bool)
    requires
        mime_parses(text@),
        is_ascii_chars(text@),
    ensures
        res == constant_equals_parsed(c, text@),
{
    let constant = match c {
        MediaConstant::ApplicationJson => mime::APPLICATION_JSON,
        MediaConstant::TextPlain => mime::TEXT_PLAIN,
        MediaConstant::TextPlainUtf8 => mime::TEXT_PLAIN_UTF_8,
        MediaConstant::MultipartFormData => mime::MULTIPART_FORM_DATA,
    };
    match text.parse::<mime::Mime>() {
        Ok(parsed) => constant == parsed,
        Err(_) => false,
    }
}

/// `mime`'s `Mime == Mime` with the type parsed from `text` on the left and
/// the constant `c` on the right; the answer is named, not spelled out.
#[verifier::external_body]
pub(crate) fn is_constant(text: &str, c: MediaConstant) -> (res: bool)
    requires
        mime_parses(text@),
    ensures
        res == parsed_equals_constant(text@, c),
{
    let constant = match c {
        MediaConstant::ApplicationJson => mime::APPLICATION_JSON,
        MediaConstant::TextPlain => mime::TEXT_PLAIN,
        MediaConstant::TextPlainUtf8 => mime::TEXT_PLAIN_UTF_8,
        MediaConstant::MultipartFormData => mime::MULTIPART_FORM_DATA,
    };
    match text.parse::<mime::Mime>() {
        Ok(parsed) => parsed == constant,
        Err(_) => false,
    }
}

/// `infer::get`: the media type and extension of the file that starts with
/// these bytes, when `infer` knows it; which those are is named, not spelled out.
#[verifier::external_body]
pub(crate) fn infer_type(bytes: &[u8]) -> (res: Option<(String, String)>)
    ensures
        match res {
            Some(p) => inferred_type(bytes@) == Some((p.0@, p.1@)),
            None => inferred_type(bytes@) is None,
        },
{
    match infer::get(bytes) {
        Some(t) => Some((t.mime_type().to_string(), t.extension().to_string())),
        None => None,
    }
}

/// `mime_guess::from_path(..).first_raw()`: the first media type guessed
/// from the path's extension; which one is named, not spelled out.
#[verifier::external_body]
pub(crate) fn guess_type(path: &str) -> (res: Option<String>)
    ensures
        match res {
            Some(s) => guessed_type(path@) == Some(s@),
            None => guessed_type(path@) is None,
        },
{
    match mime_guess::from_path(path).first_raw() {
        Some(s) => Some(s.to_string()),
        None => None,
    }
}

} // verus!
