//! Named results of the outside encoding, hashing, certificate and time
//! libraries, and the thin trusted calls into them.
//!
//! Each `uninterp` spec function names what one outside computation returns on
//! given input; the wrapper below it is the only place that computation is
//! performed. Verified code reasons about the names alone.

use sha2::Digest;
use base64::Engine;
use vstd::prelude::*;
use vstd::utf8::{encode_utf8, valid_utf8};

verus! {

/// Lowercase hex rendering of the SHA-256 digest of a byte sequence.
pub uninterp spec fn sha256_hex_of(bytes: Seq<u8>) -> Seq<char>;

/// Standard-alphabet, padded base64 rendering of a byte sequence.
pub uninterp spec fn base64_encode_of(bytes: Seq<u8>) -> Seq<char>;

/// A character of the standard base64 alphabet, or its padding.
pub open spec fn is_base64_char(c: char) -> bool {
    ||| ('A' <= c && c <= 'Z')
    ||| ('a' <= c && c <= 'z')
    ||| ('0' <= c && c <= '9')
    ||| c == '+'
    ||| c == '/'
    ||| c == '='
}

/// Standard-alphabet base64 decoding; `None` on malformed input.
pub uninterp spec fn base64_decode_of(text: Seq<char>) -> Option<Seq<u8>>;

/// The `notAfter` instant (Unix seconds) of the first certificate in a PEM
/// document; `None` when the bytes do not parse as one.
pub uninterp spec fn cert_not_after_of(pem: Seq<u8>) -> Option<i64>;

/// RFC 3339 rendering (UTC, `+00:00` offset) of a Unix-seconds instant, or
/// the empty sequence for instants outside chrono's representable range.
pub uninterp spec fn rfc3339_of(ts: i64) -> Seq<char>;

/// RFC 3339 parsing to Unix seconds; `None` on malformed input.
pub uninterp spec fn parse_rfc3339_of(text: Seq<char>) -> Option<i64>;

/// Relies on `sha2::Sha256` with `format!("{:x}", …)`: the digest depends on
/// the input bytes alone, and its 32 bytes render as 64 lowercase hex digits.
#[verifier::external_body]
pub fn sha256_hex(bytes: &[u8]) -> (r: String)
    ensures
        r@ == sha256_hex_of(bytes@),
        r@.len() == 64,
{
    let mut hasher = sha2::Sha256::new();
    hasher.update(bytes);
    format!("{:x}", hasher.finalize())
}

/// Relies on `base64::engine::general_purpose::STANDARD.encode`: the rendering
/// depends on the input bytes alone, decoding it returns those bytes, and
/// every character of it comes from the standard alphabet
/// (`A–Z a–z 0–9 + /`) or is the `=` padding.
#[verifier::external_body]
pub fn base64_encode(bytes: &[u8]) -> (r: String)
    ensures
        r@ == base64_encode_of(bytes@),
        base64_decode_of(r@) == Some(bytes@),
        forall|i: int| 0 <= i < r@.len() ==> is_base64_char(#[trigger] r@[i]),
{
    base64::engine::general_purpose::STANDARD.encode(bytes)
}

/// Relies on `base64::engine::general_purpose::STANDARD.decode`: the outcome
/// depends on the input text alone.
#[verifier::external_body]
pub fn base64_decode(text: &str) -> (r: Option<Vec<u8>>)
    ensures
        match r {
            Some(b) => base64_decode_of(text@) == Some(b@),
            None => base64_decode_of(text@) is None,
        },
{
    base64::engine::general_purpose::STANDARD.decode(text).ok()
}

/// Relies on `x509_parser::pem::parse_x509_pem`, `Pem::parse_x509` and
/// `ASN1Time::timestamp`: the certificate's `notAfter` instant is a function
/// of the PEM bytes alone.
#[verifier::external_body]
pub fn cert_not_after(pem: &[u8]) -> (r: Option<i64>)
    ensures
        r == cert_not_after_of(pem@),
{
    match x509_parser::pem::parse_x509_pem(pem) {
        Ok((_, p)) => match p.parse_x509() {
            Ok(cert) => Some(cert.validity().not_after.timestamp()),
            Err(_) => None,
        },
        Err(_) => None,
    }
}

/// Relies on `chrono::DateTime::from_timestamp` and `DateTime::to_rfc3339`:
/// the rendering depends on the instant alone. Instants outside chrono's
/// representable range render as the empty string.
#[verifier::external_body]
pub fn rfc3339_utc(ts: i64) -> (r: String)
    ensures
        r@ == rfc3339_of(ts),
{
    chrono::DateTime::<chrono::Utc>::from_timestamp(ts, 0)
        .map(|d| d.to_rfc3339())
        .unwrap_or_default()
}

/// Relies on `chrono::DateTime::parse_from_rfc3339` and
/// `DateTime::timestamp`: the outcome depends on the input text alone.
#[verifier::external_body]
pub fn parse_rfc3339(text: &str) -> (r: Option<i64>)
    ensures
        r == parse_rfc3339_of(text@),
{
    chrono::DateTime::parse_from_rfc3339(text).ok().map(|d| d.timestamp())
}

/// Relies on std's `FromIterator<char> for String`: collecting characters
/// yields the string of exactly those characters.
#[verifier::external_body]
pub fn chars_to_string(v: &Vec<char>) -> (r: String)
    ensures
        r@ == v@,
{
    v.iter().collect()
}

/// Relies on std's `String::push`: appends exactly one character.
#[verifier::external_body]
pub fn push_char(s: &mut String, c: char)
    ensures
        final(s)@ == old(s)@.push(c),
{
    s.push(c)
}

/// Relies on std's `String::pop`: removes the last character when one exists.
#[verifier::external_body]
pub fn pop_char(s: &mut String) -> (r: Option<char>)
    ensures
        old(s)@.len() == 0 ==> final(s)@ == old(s)@ && r is None,
        old(s)@.len() > 0 ==> final(s)@ == old(s)@.drop_last() && r == Some(
            old(s)@[old(s)@.len() - 1],
        ),
{
    s.pop()
}

/// Relies on std's `String::from_utf8`: it succeeds exactly on valid UTF-8
/// and returns the string those bytes encode.
#[verifier::external_body]
pub fn string_from_utf8(v: Vec<u8>) -> (r: Option<String>)
    ensures
        match r {
            Some(s) => valid_utf8(v@) && encode_utf8(s@) == v@,
            None => !valid_utf8(v@),
        },
{
    String::from_utf8(v).ok()
}

} // verus!
