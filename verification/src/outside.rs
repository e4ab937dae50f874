//! The calls this library makes into other crates, and into parts of std
//! for which vstd has no specification.
//!
//! Nothing in this file is proved: each contract is taken on trust from the
//! documentation or source of the function it wraps.

use vstd::prelude::*;
use vstd::utf8::*;

verus! {

/// The standard-alphabet, padded base64 text of `data`, as
/// `base64::engine::general_purpose::STANDARD.encode` produces it.
pub uninterp spec fn base64_standard(data: Seq<u8>) -> Seq<char>;

/// Calls `base64::Engine::encode` on the `STANDARD` engine.
///
/// Trusted: the result is a function of the bytes alone. The length bound
/// keeps the encoder's size computation, which panics on overflow, and the
/// allocation of its buffer within range.
#[verifier::external_body]
pub(crate) fn base64_encode(data: &Vec<u8>) -> (out: String)
    requires
        data@.len() <= usize::MAX / 8,
    ensures
        out@ == base64_standard(data@),
{
    base64::Engine::encode(&base64::engine::general_purpose::STANDARD, data)
}

/// The text that `encoding_rs::UTF_8.decode` yields for `data`: the bytes are
/// read as UTF-8, or as the encoding that a leading byte order mark names;
/// the mark itself is dropped and every malformed sequence becomes U+FFFD.
pub uninterp spec fn lossy_text(data: Seq<u8>) -> Seq<char>;

/// Calls `encoding_rs::Encoding::decode` on `UTF_8` and keeps the text.
///
/// Trusted: the result is a function of the bytes alone. The call never fails;
/// it panics only when the size of its output buffer overflows, which the
/// length bound rules out.
#[verifier::external_body]
pub(crate) fn decode_lossy(data: &Vec<u8>) -> (out: String)
    requires
        data@.len() <= usize::MAX / 8,
    ensures
        out@ == lossy_text(data@),
{
    let (text, _, _) = encoding_rs::UTF_8.decode(data);
    text.into_owned()
}

/// The message with which `String::from_utf8` rejects `data`.
pub uninterp spec fn utf8_error_text(data: Seq<u8>) -> Seq<char>;

/// Calls `String::from_utf8` on a copy of `data`.
///
/// Trusted: the call succeeds exactly on well-formed UTF-8 and then returns
/// the decoded characters; otherwise the error's message is returned.
#[verifier::external_body]
pub(crate) fn strict_text(data: &Vec<u8>) -> (r: Result<String, String>)
    ensures
        r is Ok <==> valid_utf8(data@),
        r matches Ok(text) ==> text@ == decode_utf8(data@),
        r matches Err(message) ==> message@ == utf8_error_text(data@),
{
    match String::from_utf8(data.clone()) {
        Ok(text) => Ok(text),
        Err(err) => Err(err.to_string()),
    }
}

/// The lowercase form of `text` as `str::to_lowercase` defines it (Unicode
/// lowercasing, which may change the number of characters).
pub uninterp spec fn lowercase_of(text: Seq<char>) -> Seq<char>;

/// Calls `str::to_lowercase`.
///
/// Trusted: the result is a function of the characters alone.
#[verifier::external_body]
pub(crate) fn to_lowercase(text: &str) -> (out: String)
    ensures
        out@ == lowercase_of(text@),
{
    text.to_lowercase()
}

/// The uppercase form of `text` as `str::to_uppercase` defines it (Unicode
/// uppercasing, which may change the number of characters).
pub uninterp spec fn uppercase_of(text: Seq<char>) -> Seq<char>;

/// Calls `str::to_uppercase`.
///
/// Trusted: the result is a function of the characters alone.
#[verifier::external_body]
pub(crate) fn to_uppercase(text: &str) -> (out: String)
    ensures
        out@ == uppercase_of(text@),
{
    text.to_uppercase()
}

/// The SHA-256 digest of `data` in lowercase hexadecimal, as
/// `crypto_hash::hex_digest` produces it.
pub uninterp spec fn sha256_hex(data: Seq<u8>) -> Seq<char>;

/// Calls `crypto_hash::hex_digest` with `Algorithm::SHA256`.
///
/// Trusted: the result is a function of the bytes alone, and it is the
/// hexadecimal form of a digest of 32 bytes, so 64 characters long.
#[verifier::external_body]
pub(crate) fn sha256_hex_digest(data: &Vec<u8>) -> (out: String)
    ensures
        out@ == sha256_hex(data@),
        out@.len() == 64,
{
    crypto_hash::hex_digest(crypto_hash::Algorithm::SHA256, data)
}

/// What `urlencoding::decode` returns for `text`: the percent-decoded text,
/// or the message of the error when the decoded bytes are not UTF-8.
pub uninterp spec fn percent_decoded(text: Seq<char>) -> Result<Seq<char>, Seq<char>>;

/// Calls `urlencoding::decode`.
///
/// Trusted: the outcome is a function of the characters alone.
#[verifier::external_body]
pub(crate) fn percent_decode(text: &str) -> (r: Result<String, String>)
    ensures
        match r {
            Ok(decoded) => percent_decoded(text@) == Ok::<Seq<char>, Seq<char>>(decoded@),
            Err(message) => percent_decoded(text@) == Err::<Seq<char>, Seq<char>>(message@),
        },
{
    match urlencoding::decode(text) {
        Ok(decoded) => Ok(decoded.into_owned()),
        Err(err) => Err(err.to_string()),
    }
}

} // verus!
