use crate::text::{chars_of, remove_char, same_text, text_of, trim, trimmed, without};
use vstd::prelude::*;
use vstd::string::StringSliceAdditionalSpecFns;
use vstd::utf8::{decode_utf8, valid_utf8};

verus! {

/// Why the content of a file could not be read from what a host sent.
#[derive(Debug, Clone, Copy, PartialEq, Eq, Structural)]
pub enum ContentError {
    /// The host says the content is encoded otherwise than in base64.
    NotBase64,
    /// The content is too long to be decoded.
    TooLong,
    /// The content is no base64.
    Undecodable,
    /// The decoded bytes are no UTF-8 text.
    NotText,
}

/// The error of the base64 decoder; nothing is read from it.
#[verifier::external_type_specification]
#[verifier::external_body]
pub struct ExDecodeError(base64::DecodeError);

/// The error of `String::from_utf8`; nothing is read from it.
#[verifier::external_type_specification]
#[verifier::external_body]
pub struct ExFromUtf8Error(std::string::FromUtf8Error);

/// The bytes that the base64 decoder reads from `text`, or `None` where it rejects the text.
pub uninterp spec fn base64_decoded(text: Seq<char>) -> Option<Seq<u8>>;

/// The longest text, in bytes, that the base64 decoder takes.
pub open spec fn decodable_length() -> int {
    usize::MAX - 7
}

/// Decodes `text` with `base64::decode`. Nothing is claimed of the decoder
/// but that what it returns depends on the text alone. It rounds the length
/// of the text up to a multiple of eight, so a text for which that would
/// overflow is left out.
#[verifier::external_body]
pub(crate) fn decode_base64(text: &str) -> (r: Result<Vec<u8>, base64::DecodeError>)
    requires
        text.spec_bytes().len() <= decodable_length(),
    ensures
        match r {
            Ok(bytes) => base64_decoded(text@) == Some(bytes@),
            Err(_) => base64_decoded(text@) is None,
        },
{
    base64::decode(text)
}

/// Reads `bytes` as text with `String::from_utf8`, which gives the text
/// that the bytes encode where they are UTF-8 and an error where they are not.
#[verifier::external_body]
pub(crate) fn utf8_text(bytes: Vec<u8>) -> (r: Result<String, std::string::FromUtf8Error>)
    ensures
        match r {
            Ok(text) => valid_utf8(bytes@) && text@ == decode_utf8(bytes@),
            Err(_) => !valid_utf8(bytes@),
        },
{
    String::from_utf8(bytes)
}

/// The part of `content` that is handed to the decoder: the content without
/// its line breaks and without white space at either end.
pub open spec fn payload(content: Seq<char>) -> Seq<char> {
    trimmed(without(content, '\n'))
}

/// The text that `bytes` encode.
pub open spec fn bytes_text(bytes: Seq<u8>) -> Result<Seq<char>, ContentError> {
    if valid_utf8(bytes) {
        Ok(decode_utf8(bytes))
    } else {
        Err(ContentError::NotText)
    }
}

/// The text of a file that a host sent as `content`, encoded as `encoding` says.
pub open spec fn content_text(encoding: Seq<char>, content: Seq<char>) -> Result<
    Seq<char>,
    ContentError,
> {
    if encoding != "base64"@ {
        Err(ContentError::NotBase64)
    } else if vstd::utf8::encode_utf8(payload(content)).len() > decodable_length() {
        Err(ContentError::TooLong)
    } else {
        match base64_decoded(payload(content)) {
            None => Err(ContentError::Undecodable),
            Some(bytes) => bytes_text(bytes),
        }
    }
}

/// Computes `payload`.
pub fn clean_payload(content: &str) -> (r: String)
    ensures
        r@ == payload(content@),
{
    text_of(&trim(&remove_char(&chars_of(content), '\n')))
}

/// Reads decoded bytes as text.
pub fn text_from_bytes(bytes: Vec<u8>) -> (r: Result<String, ContentError>)
    ensures
        match r {
            Ok(text) => bytes_text(bytes@) == Ok::<Seq<char>, ContentError>(text@),
            Err(e) => bytes_text(bytes@) == Err::<Seq<char>, ContentError>(e),
        },
{
    match utf8_text(bytes) {
        Ok(text) => Ok(text),
        Err(_) => Err(ContentError::NotText),
    }
}

/// Reads the text of a file from what a host sent for it: `content`, and
/// the name of the encoding the content is in, which must be `base64`.
pub fn decode_content(encoding: &str, content: &str) -> (r: Result<String, ContentError>)
    ensures
        match r {
            Ok(text) => content_text(encoding@, content@) == Ok::<Seq<char>, ContentError>(text@),
            Err(e) => content_text(encoding@, content@) == Err::<Seq<char>, ContentError>(e),
        },
{
    if !same_text(encoding, "base64") {
        return Err(ContentError::NotBase64);
    }
    let cleaned = clean_payload(content);
    if cleaned.as_str().as_bytes().len() > usize::MAX - 7 {
        return Err(ContentError::TooLong);
    }
    match decode_base64(cleaned.as_str()) {
        Ok(bytes) => text_from_bytes(bytes),
        Err(_) => Err(ContentError::Undecodable),
    }
}

} // verus!
