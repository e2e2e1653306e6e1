//! Response bodies that may arrive wrapped: plain text, or one quoted
//! string holding the text in base64.
//!
//! Whether a body is wrapped is guessed from its shape alone. Whenever the
//! guess does not work out, the body is taken as the plain text it may
//! always have been; no body is ever an error.

use vstd::prelude::*;
use vstd::utf8::{decode_utf8, valid_utf8};

verus! {

/// A body is taken to be wrapped when it begins and ends with a quote
/// character, the two being different characters of the body.
pub open spec fn is_quoted(body: Seq<char>) -> bool {
    body.len() >= 2 && body[0] == '"' && body[body.len() - 1] == '"'
}

/// What stands between the two quote characters.
pub open spec fn quoted_content(body: Seq<char>) -> Seq<char> {
    body.subrange(1, body.len() - 1)
}

/// What stands between the quote characters of a body that begins and ends
/// with one; nothing for any other body.
pub fn quoted_part(body: &str) -> (r: Option<&str>)
    ensures
        match r {
            Some(inner) => is_quoted(body@) && inner@ == quoted_content(body@),
            None => !is_quoted(body@),
        },
{
    let length = body.unicode_len();
    if length >= 2 && body.get_char(0) == '"' && body.get_char(length - 1) == '"' {
        Some(body.substring_char(1, length - 1))
    } else {
        None
    }
}

/// The decoding error of the `base64` crate.
#[verifier::external_type_specification]
#[verifier::external_body]
pub struct ExDecodeError(base64::DecodeError);

/// The error of `String::from_utf8`.
#[verifier::external_type_specification]
#[verifier::external_body]
pub struct ExFromUtf8Error(std::string::FromUtf8Error);

/// The bytes that the `base64` crate decodes a text to, with the standard
/// alphabet and required padding; nothing where it refuses the text.
pub uninterp spec fn base64_decoded(text: Seq<char>) -> Option<Seq<u8>>;

/// Calls `Engine::decode` of the `base64` crate on its `STANDARD` engine.
/// The outcome depends on the text alone: the decoded bytes, or an error
/// where the text is not base64 in that engine's sense.
#[verifier::external_body]
fn decode_standard(text: &str) -> (r: Result<Vec<u8>, base64::DecodeError>)
    ensures
        match r {
            Ok(bytes) => base64_decoded(text@) == Some(bytes@),
            Err(_) => base64_decoded(text@) is None,
        },
{
    base64::Engine::decode(&base64::engine::general_purpose::STANDARD, text)
}

/// Calls `String::from_utf8`: the string that the bytes encode in UTF-8,
/// or an error where they are not well-formed UTF-8.
#[verifier::external_body]
fn string_from_utf8(bytes: Vec<u8>) -> (r: Result<String, std::string::FromUtf8Error>)
    ensures
        match r {
            Ok(text) => valid_utf8(bytes@) && text@ == decode_utf8(bytes@),
            Err(_) => !valid_utf8(bytes@),
        },
{
    String::from_utf8(bytes)
}

/// The text of a body, given what decoding its quoted content gave: the
/// decoded text where the body is wrapped, its content decodes and the
/// bytes are well-formed UTF-8; the body itself in every other case.
pub open spec fn unframed(body: Seq<char>, decoded: Option<Seq<u8>>) -> Seq<char> {
    if is_quoted(body) {
        match decoded {
            Some(bytes) => if valid_utf8(bytes) {
                decode_utf8(bytes)
            } else {
                body
            },
            None => body,
        }
    } else {
        body
    }
}

/// The text of a body.
pub open spec fn plain_text(body: Seq<char>) -> Seq<char> {
    unframed(body, base64_decoded(quoted_content(body)))
}

/// Settles the text of a body once the decoding of its quoted content is
/// known. `decoded` is nothing when the content did not decode.
pub fn unframe(body: String, decoded: Option<Vec<u8>>) -> (r: String)
    ensures
        r@ == unframed(
            body@,
            match decoded {
                Some(bytes) => Some(bytes@),
                None => None,
            },
        ),
{
    let quoted = quoted_part(body.as_str()).is_some();
    if !quoted {
        return body;
    }
    match decoded {
        Some(bytes) => match string_from_utf8(bytes) {
            Ok(text) => text,
            Err(_) => body,
        },
        None => body,
    }
}

/// Gives the text of a body that may be wrapped: a body in quote
/// characters is decoded from base64; if that fails, or the body is not in
/// quote characters, the body itself is the text.
pub fn decode_if_encoded(body: String) -> (r: String)
    ensures
        r@ == plain_text(body@),
{
    let attempt = match quoted_part(body.as_str()) {
        Some(inner) => match decode_standard(inner) {
            Ok(bytes) => Some(bytes),
            Err(_) => None,
        },
        None => None,
    };
    unframe(body, attempt)
}

/// A body that is not in quote characters is its own text.
pub proof fn lemma_unquoted_body_is_plain(body: Seq<char>)
    requires
        !is_quoted(body),
    ensures
        plain_text(body) == body,
{
}

/// Whatever decoding gives, the text is either the body itself or the
/// decoded content of a wrapped body.
pub proof fn lemma_text_is_body_or_decoded(body: Seq<char>, decoded: Option<Seq<u8>>)
    ensures
        unframed(body, decoded) == body || (is_quoted(body) && decoded is Some && valid_utf8(
            decoded->0,
        ) && unframed(body, decoded) == decode_utf8(decoded->0)),
{
}

} // verus!
