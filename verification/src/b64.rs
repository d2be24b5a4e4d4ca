//! URL-safe base64 without padding, to hand signatures and ciphertexts around
//! as text.

use vstd::prelude::*;
use vstd::string::StringSliceAdditionalSpecFns;
use crate::error::{or_fail, PassportError};

verus! {

/// `base64::DecodeError`: why a text is no base64. The library only tells it
/// from success.
#[verifier::external_type_specification]
#[verifier::external_body]
pub struct ExDecodeError(base64::DecodeError);

/// The URL-safe base64 text of `data`, without padding.
pub uninterp spec fn url_safe_encoded(data: Seq<u8>) -> Seq<char>;

/// The bytes that the URL-safe base64 text `text`, given as bytes, stands
/// for, or `None` where it is no such text.
pub uninterp spec fn url_safe_decoded(text: Seq<u8>) -> Option<Seq<u8>>;

/// The length of the base64 text of `n` bytes, without padding: four
/// characters for every three bytes, and two or three for what is left.
pub open spec fn encoded_len(n: nat) -> nat {
    (n / 3) * 4 + if n % 3 == 0 {
        0nat
    } else if n % 3 == 1 {
        2nat
    } else {
        3nat
    }
}

/// Whether `n` bytes are few enough for their base64 text to have a length.
pub open spec fn encodable(n: nat) -> bool {
    n / 3 < usize::MAX / 4
}

/// Calls `Engine::encode` of `general_purpose::URL_SAFE_NO_PAD`. The text is
/// named [`url_safe_encoded`]; the crate sizes it by `encoded_len`, which is
/// [`encoded_len`] here. It panics where that length does not fit in `usize`,
/// which `requires` leaves out.
#[verifier::external_body]
fn encode_url_safe(data: &[u8]) -> (text: String)
    requires
        encodable(data@.len()),
    ensures
        text@ == url_safe_encoded(data@),
        text@.len() == encoded_len(data@.len()),
{
    base64::Engine::encode(&base64::engine::general_purpose::URL_SAFE_NO_PAD, data)
}

/// Calls `Engine::decode` of `general_purpose::URL_SAFE_NO_PAD`. What comes
/// back is named [`url_safe_decoded`].
#[verifier::external_body]
fn decode_url_safe(text: &[u8]) -> (r: Result<Vec<u8>, base64::DecodeError>)
    ensures
        match r {
            Ok(data) => url_safe_decoded(text@) == Some(data@),
            Err(_) => url_safe_decoded(text@) is None,
        },
{
    base64::Engine::decode(&base64::engine::general_purpose::URL_SAFE_NO_PAD, text)
}

/// What [`encode`] gives for `data`.
pub open spec fn encoding(data: Seq<u8>) -> Result<Seq<char>, PassportError> {
    if encodable(data.len()) {
        Ok(url_safe_encoded(data))
    } else {
        Err(PassportError::SerializationFailed)
    }
}

/// What [`decode`] gives for `text`.
pub open spec fn decoding(text: Seq<u8>) -> Result<Seq<u8>, PassportError> {
    match url_safe_decoded(text) {
        Some(data) => Ok(data),
        None => Err(PassportError::SerializationFailed),
    }
}

/// Whether `r` holds what `expected` says: the same error, or a text with the
/// expected characters.
pub open spec fn is_text(
    r: Result<String, PassportError>,
    expected: Result<Seq<char>, PassportError>,
) -> bool {
    match (r, expected) {
        (Ok(text), Ok(chars)) => text@ == chars,
        (Err(e), Err(f)) => e == f,
        _ => false,
    }
}

/// Whether `r` holds what `expected` says: the same error, or the expected
/// bytes.
pub open spec fn is_bytes(
    r: Result<Vec<u8>, PassportError>,
    expected: Result<Seq<u8>, PassportError>,
) -> bool {
    match (r, expected) {
        (Ok(data), Ok(bytes)) => data@ == bytes,
        (Err(e), Err(f)) => e == f,
        _ => false,
    }
}

/// The URL-safe base64 text of `data`, without padding. Data too long for
/// its text to have a length is refused with `SerializationFailed`.
pub fn encode(data: &[u8]) -> (r: Result<String, PassportError>)
    ensures
        is_text(r, encoding(data@)),
        r matches Ok(text) ==> text@.len() == encoded_len(data@.len()),
{
    if data.len() / 3 >= usize::MAX / 4 {
        return Err(PassportError::SerializationFailed);
    }
    Ok(encode_url_safe(data))
}

/// The bytes that the URL-safe base64 text `data` stands for, or
/// `SerializationFailed` where it is no such text.
pub fn decode(data: &[u8]) -> (r: Result<Vec<u8>, PassportError>)
    ensures
        is_bytes(r, decoding(data@)),
{
    or_fail(decode_url_safe(data), PassportError::SerializationFailed)
}

/// What can be written as base64 text.
pub trait Base64StdEncode: Sized {
    /// The bytes of the value.
    spec fn octets(self) -> Seq<u8>;

    /// The URL-safe base64 text of the bytes of the value.
    fn base64(self) -> (r: Result<String, PassportError>)
        ensures
            is_text(r, encoding(self.octets())),
    ;
}

/// What can be read as base64 text.
pub trait Base64StdDecode: Sized {
    /// The bytes of the text.
    spec fn text_octets(self) -> Seq<u8>;

    /// The bytes that the text stands for.
    fn try_decode_base64(self) -> (r: Result<Vec<u8>, PassportError>)
        ensures
            is_bytes(r, decoding(self.text_octets())),
    ;
}

impl<'a> Base64StdEncode for &'a [u8] {
    open spec fn octets(self) -> Seq<u8> {
        self@
    }

    fn base64(self) -> (r: Result<String, PassportError>) {
        encode(self)
    }
}

impl<'a> Base64StdEncode for &'a Vec<u8> {
    open spec fn octets(self) -> Seq<u8> {
        self@
    }

    fn base64(self) -> (r: Result<String, PassportError>) {
        encode(self.as_slice())
    }
}

impl<'a> Base64StdEncode for &'a str {
    open spec fn octets(self) -> Seq<u8> {
        self.spec_bytes()
    }

    fn base64(self) -> (r: Result<String, PassportError>) {
        encode(self.as_bytes())
    }
}

impl Base64StdEncode for Vec<u8> {
    open spec fn octets(self) -> Seq<u8> {
        self@
    }

    fn base64(self) -> (r: Result<String, PassportError>) {
        encode(self.as_slice())
    }
}

impl<'a> Base64StdEncode for &'a String {
    open spec fn octets(self) -> Seq<u8> {
        vstd::utf8::encode_utf8(self@)
    }

    fn base64(self) -> (r: Result<String, PassportError>) {
        encode(self.as_str().as_bytes())
    }
}

impl Base64StdEncode for String {
    open spec fn octets(self) -> Seq<u8> {
        vstd::utf8::encode_utf8(self@)
    }

    fn base64(self) -> (r: Result<String, PassportError>) {
        encode(self.as_str().as_bytes())
    }
}

impl<'a> Base64StdDecode for &'a [u8] {
    open spec fn text_octets(self) -> Seq<u8> {
        self@
    }

    fn try_decode_base64(self) -> (r: Result<Vec<u8>, PassportError>) {
        decode(self)
    }
}

impl<'a> Base64StdDecode for &'a Vec<u8> {
    open spec fn text_octets(self) -> Seq<u8> {
        self@
    }

    fn try_decode_base64(self) -> (r: Result<Vec<u8>, PassportError>) {
        decode(self.as_slice())
    }
}

impl<'a> Base64StdDecode for &'a str {
    open spec fn text_octets(self) -> Seq<u8> {
        self.spec_bytes()
    }

    fn try_decode_base64(self) -> (r: Result<Vec<u8>, PassportError>) {
        decode(self.as_bytes())
    }
}

impl<'a> Base64StdDecode for &'a String {
    open spec fn text_octets(self) -> Seq<u8> {
        vstd::utf8::encode_utf8(self@)
    }

    fn try_decode_base64(self) -> (r: Result<Vec<u8>, PassportError>) {
        decode(self.as_str().as_bytes())
    }
}

impl Base64StdDecode for String {
    open spec fn text_octets(self) -> Seq<u8> {
        vstd::utf8::encode_utf8(self@)
    }

    fn try_decode_base64(self) -> (r: Result<Vec<u8>, PassportError>) {
        decode(self.as_str().as_bytes())
    }
}

impl Base64StdDecode for Vec<u8> {
    open spec fn text_octets(self) -> Seq<u8> {
        self@
    }

    fn try_decode_base64(self) -> (r: Result<Vec<u8>, PassportError>) {
        decode(self.as_slice())
    }
}

} // verus!
