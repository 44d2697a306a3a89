//! Calls into outside crates and into std functions that carry no contract of
//! their own. Each contract below is believed, not proved.

use crate::text::{decimal, hex_bytes, hex_text, is_hex_text, json_quoted};
use base64::Engine;
use hmac::Mac;
use sha2::Digest;
use vstd::prelude::*;
use vstd::utf8::*;

verus! {

/// What HMAC-SHA1 yields for a key and a message.
pub uninterp spec fn hmac_sha1(key: Seq<u8>, message: Seq<u8>) -> [u8; 20];

/// `hmac::Hmac::<sha1::Sha1>`: `new_from_slice`, `update`, `finalize`. The 20
/// bytes of the tag depend on the key and the message alone. A key of any
/// length is accepted.
#[verifier::external_body]
pub(crate) fn hmac_sha1_tag(key: &[u8], message: &[u8]) -> (tag: [u8; 20])
    ensures
        tag == hmac_sha1(key@, message@),
{
    let mut mac = hmac::Hmac::<sha1::Sha1>::new_from_slice(key)
        .expect("HMAC-SHA1 accepts arbitrary key length");
    mac.update(message);
    mac.finalize().into_bytes().into()
}

/// The CRC-32 (IEEE) checksum of a byte string.
pub uninterp spec fn crc32(message: Seq<u8>) -> u32;

/// `crc32fast::hash`: the checksum depends on the bytes alone.
#[verifier::external_body]
pub(crate) fn crc32_of(message: &[u8]) -> (crc: u32)
    ensures
        crc == crc32(message@),
{
    crc32fast::hash(message)
}

/// `getrandom::fill`: on success as many bytes as were asked for, of which
/// nothing else is known; on failure the text of the error.
#[verifier::external_body]
pub(crate) fn random_bytes(len: usize) -> (r: Result<Vec<u8>, String>)
    requires
        len <= isize::MAX,
    ensures
        r matches Ok(v) ==> v@.len() == len,
{
    let mut buffer = vec![0_u8; len];
    getrandom::fill(&mut buffer).map_err(|err| err.to_string())?;
    Ok(buffer)
}

/// The byte at `i`, or zero past the end.
pub open spec fn byte_or_zero(bytes: Seq<u8>, i: int) -> int {
    if 0 <= i < bytes.len() {
        bytes[i] as int
    } else {
        0
    }
}

/// The `i`-th group of six bits of a byte string, read from the most
/// significant bit on, with zero bits past the end.
pub open spec fn sextet(bytes: Seq<u8>, i: int) -> int {
    let pair = byte_or_zero(bytes, i * 6 / 8) * 256 + byte_or_zero(bytes, i * 6 / 8 + 1);
    let skipped = i * 6 % 8;
    if skipped == 0 {
        pair / 1024
    } else if skipped == 2 {
        (pair / 256) % 64
    } else if skipped == 4 {
        (pair / 64) % 64
    } else {
        (pair / 16) % 64
    }
}

/// The URL-safe base64 character of a six-bit group.
pub open spec fn url_safe_char(v: int) -> char {
    if v < 26 {
        (65 + v) as char
    } else if v < 52 {
        (71 + v) as char
    } else if v < 62 {
        (v - 4) as char
    } else if v == 62 {
        '-'
    } else {
        '_'
    }
}

/// URL-safe base64 without padding.
pub open spec fn base64_url(bytes: Seq<u8>) -> Seq<char> {
    Seq::new((bytes.len() * 8 + 5) / 6, |i: int| url_safe_char(sextet(bytes, i)))
}

/// `base64::engine::general_purpose::URL_SAFE_NO_PAD.encode`: one character of
/// the URL-safe alphabet for each group of six bits, and no padding.
#[verifier::external_body]
pub(crate) fn base64_url_encode(bytes: &[u8]) -> (s: String)
    ensures
        s@ == base64_url(bytes@),
{
    base64::engine::general_purpose::URL_SAFE_NO_PAD.encode(bytes)
}

/// The standard base64 character of a six-bit group.
pub open spec fn standard_char(v: int) -> char {
    if v == 62 {
        '+'
    } else if v == 63 {
        '/'
    } else {
        url_safe_char(v)
    }
}

/// Standard base64, padded to a multiple of four characters.
pub open spec fn base64_standard(bytes: Seq<u8>) -> Seq<char> {
    Seq::new(
        (bytes.len() + 2) / 3 * 4,
        |i: int|
            if i * 6 < bytes.len() * 8 {
                standard_char(sextet(bytes, i))
            } else {
                '='
            },
    )
}

/// `base64::engine::general_purpose::STANDARD.encode`: one character of the
/// standard alphabet for each group of six bits, then padding.
#[verifier::external_body]
pub(crate) fn base64_encode(bytes: &[u8]) -> (s: String)
    ensures
        s@ == base64_standard(bytes@),
{
    base64::engine::general_purpose::STANDARD.encode(bytes)
}

/// `base64::engine::general_purpose::STANDARD.decode`: the bytes whose encoding
/// the text is, and an error exactly when it is no encoding. The engine asks for
/// canonical padding and for trailing bits of zero.
#[verifier::external_body]
pub(crate) fn base64_decode(text: &str) -> (r: Option<Vec<u8>>)
    ensures
        r matches Some(bytes) ==> text@ == base64_standard(bytes@),
        r is None ==> forall|bytes: Seq<u8>| #[trigger] base64_standard(bytes) != text@,
{
    base64::engine::general_purpose::STANDARD.decode(text).ok()
}

/// `String::from_utf8`: a string exactly when the bytes are valid UTF-8, and
/// then the string whose encoding they are.
#[verifier::external_body]
pub(crate) fn string_from_utf8(bytes: Vec<u8>) -> (r: Option<String>)
    ensures
        r is Some <==> valid_utf8(bytes@),
        r matches Some(s) ==> s@ == decode_utf8(bytes@),
{
    String::from_utf8(bytes).ok()
}

/// `hex::encode`: two lowercase digits for each byte.
#[verifier::external_body]
pub(crate) fn hex_encode_bytes(bytes: &[u8]) -> (s: String)
    ensures
        s@ == hex_text(bytes@),
{
    hex::encode(bytes)
}

/// What `Debug` of the standard library shows of a character.
pub uninterp spec fn char_debug(c: char) -> Seq<char>;

/// A byte that is an ASCII hexadecimal digit of either case.
pub open spec fn is_hex_byte(b: u8) -> bool {
    0x30 <= b <= 0x39 || 0x41 <= b <= 0x46 || 0x61 <= b <= 0x66
}

/// Where the first byte stands that is no hexadecimal digit; the length, if all are.
pub open spec fn first_non_hex(bytes: Seq<u8>) -> nat
    decreases bytes.len(),
{
    if bytes.len() == 0 || !is_hex_byte(bytes[0]) {
        0
    } else {
        1 + first_non_hex(bytes.drop_first())
    }
}

/// The first byte of a text that is no hexadecimal digit, as a character.
pub open spec fn non_hex_char(text: Seq<char>) -> char {
    encode_utf8(text)[first_non_hex(encode_utf8(text)) as int] as char
}

/// Why a text is no hexadecimal, given how the character at fault is shown.
pub open spec fn hex_refusal(text: Seq<char>, shown: Seq<char>) -> Seq<char> {
    if encode_utf8(text).len() % 2 != 0 {
        "Odd number of digits"@
    } else {
        "Invalid character "@ + shown + " at position "@ + decimal(
            first_non_hex(encode_utf8(text)),
        )
    }
}

/// The text of the error with which `hex::decode` refuses a string.
pub open spec fn hex_decode_error(text: Seq<char>) -> Seq<char> {
    hex_refusal(text, char_debug(non_hex_char(text)))
}

/// `hex::decode`: the bytes exactly when there is an even number of digits of
/// either case and nothing else. Else the text of the error: that the number of
/// bytes is odd, or else the first byte that is no digit, shown by `Debug` as the
/// character of that number, and its index.
#[verifier::external_body]
pub(crate) fn hex_decode_text(text: &str) -> (r: Result<Vec<u8>, String>)
    ensures
        r is Ok <==> is_hex_text(text@),
        r matches Ok(v) ==> v@ == hex_bytes(text@),
        r matches Err(e) ==> e@ == hex_refusal(text@, char_debug(non_hex_char(text@))),
{
    hex::decode(text).map_err(|err| err.to_string())
}

/// What SHA-256 yields for a message.
pub uninterp spec fn sha256(message: Seq<u8>) -> [u8; 32];

/// `sha2::Sha256::digest`: the digest depends on the bytes alone.
#[verifier::external_body]
pub(crate) fn sha256_digest(message: &[u8]) -> (digest: [u8; 32])
    ensures
        digest == sha256(message@),
{
    sha2::Sha256::digest(message).into()
}

/// `serde_json::to_string` of a string: the string in quotes, with the quote,
/// the backslash and the control characters below U+0020 escaped.
#[verifier::external_body]
pub(crate) fn json_string(text: &str) -> (s: String)
    ensures
        s@ == json_quoted(text@),
{
    serde_json::to_string(text).expect("a string always serializes")
}

/// What a URL parser makes of a text: the normalized text, the scheme and the
/// host, or the text of the error.
pub uninterp spec fn parsed_url(text: Seq<char>) -> Result<
    (Seq<char>, Seq<char>, Option<Seq<char>>),
    Seq<char>,
>;

/// `reqwest::Url::parse`, with `as_str`, `scheme` and `host_str` of what it
/// yields: all depend on the text alone.
#[verifier::external_body]
pub(crate) fn parse_url(text: &str) -> (r: Result<(String, String, Option<String>), String>)
    ensures
        match r {
            Ok(parts) => parsed_url(text@) == Ok::<
                (Seq<char>, Seq<char>, Option<Seq<char>>),
                Seq<char>,
            >((parts.0@, parts.1@, optional_text(parts.2))),
            Err(e) => parsed_url(text@) == Err::<
                (Seq<char>, Seq<char>, Option<Seq<char>>),
                Seq<char>,
            >(e@),
        },
{
    let url = reqwest::Url::parse(text).map_err(|err| err.to_string())?;
    Ok((url.as_str().to_string(), url.scheme().to_string(), url.host_str().map(str::to_string)))
}

/// The characters of an optional string.
pub open spec fn optional_text(s: Option<String>) -> Option<Seq<char>> {
    match s {
        Some(text) => Some(text@),
        None => None,
    }
}

} // verus!
