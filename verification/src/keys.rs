//! The encoding under which access keys are kept in configuration files.

use vstd::prelude::*;
use vstd::string::*;
use vstd::utf8::{decode_utf8, encode_utf8, valid_utf8};

verus! {

/// What `base64::encode` returns for a sequence of bytes.
pub uninterp spec fn base64_of(bytes: Seq<u8>) -> Seq<char>;

/// What `base64::decode` makes of a text: the bytes it stands for, or
/// nothing where it is no base64.
pub uninterp spec fn base64_decoded(text: Seq<char>) -> Option<Seq<u8>>;

/// `base64::encode` on the bytes of a text. Assumed of it: the result is a
/// function of the bytes alone, named `base64_of`.
#[verifier::external_body]
#[allow(deprecated)]
fn base64_encode(text: &str) -> (encoded: String)
    ensures
        encoded@ == base64_of(encode_utf8(text@)),
{
    base64::encode(text)
}

/// The error of `base64::decode`, carried through and never looked into.
#[verifier::external_type_specification]
#[verifier::external_body]
pub struct ExDecodeError(base64::DecodeError);

/// The error of `String::from_utf8`, carried through and never looked into.
#[verifier::external_type_specification]
#[verifier::external_body]
pub struct ExFromUtf8Error(std::string::FromUtf8Error);

/// `base64::decode` on a text. Assumed of it: whether it succeeds, and with
/// what bytes, is a function of the text alone, named `base64_decoded`.
#[verifier::external_body]
#[allow(deprecated)]
fn base64_decode(text: &str) -> (decoded: Result<Vec<u8>, base64::DecodeError>)
    ensures
        decoded is Ok <==> base64_decoded(text@) is Some,
        decoded matches Ok(bytes) ==> base64_decoded(text@) == Some(bytes@),
{
    base64::decode(text)
}

/// `String::from_utf8` of the standard library. Assumed of it: it succeeds
/// exactly on well-formed UTF-8, with the text that the bytes encode.
pub assume_specification[ String::from_utf8 ](bytes: Vec<u8>) -> (text: Result<
    String,
    std::string::FromUtf8Error,
>)
    ensures
        text is Ok <==> valid_utf8(bytes@),
        text matches Ok(t) ==> t@ == decode_utf8(bytes@),
;

/// The key that decoded bytes hold: their text where there are bytes and they
/// are well-formed UTF-8, else the empty key.
pub open spec fn key_text(decoded: Option<Seq<u8>>) -> Seq<char> {
    match decoded {
        Some(bytes) if valid_utf8(bytes) => decode_utf8(bytes),
        _ => Seq::empty(),
    }
}

/// Encodes a key for the configuration file.
pub fn encrypt_key(key: &str) -> (stored: String)
    ensures
        stored@ == base64_of(encode_utf8(key@)),
{
    base64_encode(key)
}

/// The bytes that were decoded, where there are any.
pub open spec fn bytes_of(decoded: Option<Vec<u8>>) -> Option<Seq<u8>> {
    match decoded {
        Some(bytes) => Some(bytes@),
        None => None,
    }
}

/// Reads the key out of decoded bytes.
pub fn key_from_bytes(decoded: Option<Vec<u8>>) -> (key: String)
    ensures
        key@ == key_text(bytes_of(decoded)),
{
    match decoded {
        Some(bytes) => match String::from_utf8(bytes) {
            Ok(key) => key,
            Err(_) => String::new(),
        },
        None => String::new(),
    }
}

/// Decodes a key from the configuration file; what cannot be decoded reads
/// as the empty key.
pub fn decrypt_key(stored: &str) -> (key: String)
    ensures
        key@ == key_text(base64_decoded(stored@)),
{
    match base64_decode(stored) {
        Ok(bytes) => key_from_bytes(Some(bytes)),
        Err(_) => key_from_bytes(None),
    }
}

} // verus!
