//! The calls that the library makes into other crates and into parts of
//! `std` that have no specification of their own. Each function here makes
//! one such call; its contract is believed, not proved.
use vstd::prelude::*;
use vstd::string::*;
use vstd::utf8::*;

verus! {

/// The 128-bit value of the UUID that `text` spells, as `uuid::Uuid::parse_str`
/// reads it (hyphenated, simple, braced or URN form), or `None` where it
/// rejects `text`.
pub uninterp spec fn uuid_value(text: Seq<char>) -> Option<u128>;

/// Calls `uuid::Uuid::parse_str` and takes the parsed UUID as a `u128`.
/// Claimed: the result is `uuid_value` of the text, and a text whose UTF-8
/// form is not 32, 36, 38 or 45 bytes long is rejected (the parser matches
/// on exactly these lengths).
#[verifier::external_body]
pub(crate) fn uuid_from_text(text: &str) -> (res: Option<u128>)
    ensures
        res == uuid_value(text@),
        text.spec_bytes().len() != 32 && text.spec_bytes().len() != 36
            && text.spec_bytes().len() != 38 && text.spec_bytes().len() != 45 ==> res is None,
{
    match uuid::Uuid::parse_str(text) {
        Ok(id) => Some(id.as_u128()),
        Err(_) => None,
    }
}

/// The instant that `text` denotes as an RFC 3339 date and time, as
/// `chrono::DateTime::parse_from_rfc3339` reads it, given as whole seconds
/// since the Unix epoch (UTC) and the nanoseconds past that second; `None`
/// where it rejects `text`.
pub uninterp spec fn rfc3339_instant(text: Seq<char>) -> Option<(i64, u32)>;

/// Calls `chrono::DateTime::parse_from_rfc3339`, moves the result to UTC
/// and takes its seconds and nanoseconds. Claimed: the result is
/// `rfc3339_instant` of the text.
#[verifier::external_body]
pub(crate) fn instant_from_rfc3339(text: &str) -> (res: Option<(i64, u32)>)
    ensures
        res == rfc3339_instant(text@),
{
    match chrono::DateTime::parse_from_rfc3339(text) {
        Ok(at) => {
            let utc = at.with_timezone(&chrono::Utc);
            Some((utc.timestamp(), utc.timestamp_subsec_nanos()))
        },
        Err(_) => None,
    }
}

/// The text that `String::from_utf8_lossy` makes of `bytes`.
pub uninterp spec fn utf8_lossy(bytes: Seq<u8>) -> Seq<char>;

/// Calls `String::from_utf8_lossy`. Claimed: the result is `utf8_lossy` of
/// the bytes, and bytes that are valid UTF-8 decode to the text they encode
/// (the documentation: invalid sequences are replaced, valid input is kept).
#[verifier::external_body]
pub(crate) fn text_from_bytes_lossy(bytes: &[u8]) -> (res: String)
    ensures
        res@ == utf8_lossy(bytes@),
        valid_utf8(bytes@) ==> res@ == decode_utf8(bytes@),
{
    String::from_utf8_lossy(bytes).into_owned()
}

/// The reason phrase that `http::StatusCode::canonical_reason` gives for
/// the status `code`.
pub uninterp spec fn reason_phrase(code: u16) -> Option<Seq<char>>;

/// Calls `http::StatusCode::from_u16` and then `canonical_reason`.
/// Claimed: the result is `reason_phrase` of the code, and there is none
/// for a code outside 100..=999 (which `from_u16` rejects).
#[verifier::external_body]
pub(crate) fn status_reason(code: u16) -> (res: Option<&'static str>)
    ensures
        match res {
            Some(r) => reason_phrase(code) == Some(r@),
            None => reason_phrase(code) is None,
        },
        !(100 <= code <= 999) ==> res is None,
{
    match axum::http::StatusCode::from_u16(code) {
        Ok(status) => status.canonical_reason(),
        Err(_) => None,
    }
}

#[verifier::external_type_specification]
#[verifier::external_body]
pub struct ExHeaderValue(axum::http::HeaderValue);

/// A byte that `http::HeaderValue` accepts: visible ASCII, space, tab, or
/// any byte of 128 and above.
pub open spec fn header_byte_ok(b: u8) -> bool {
    (b >= 32 && b != 127) || b == 9
}

/// The header value that `http::HeaderValue::from_str` makes of a text
/// with the UTF-8 bytes `bytes` (a copy of those bytes, not sensitive).
pub uninterp spec fn header_value_of(bytes: Seq<u8>) -> axum::http::HeaderValue;

/// Parses `text` as an `http::HeaderValue` (its `FromStr`, which is
/// `HeaderValue::from_str`). Claimed: it succeeds exactly when every byte
/// of the text's UTF-8 form is one that `header_byte_ok` accepts, which is
/// the check its source makes, and the value it gives is `header_value_of`
/// those bytes.
#[verifier::external_body]
pub(crate) fn header_value_from_text(text: &str) -> (res: Option<axum::http::HeaderValue>)
    ensures
        res is Some <==> (forall|i: int|
            0 <= i < text.spec_bytes().len() ==> header_byte_ok(#[trigger] text.spec_bytes()[i])),
        res matches Some(v) ==> v == header_value_of(text.spec_bytes()),
{
    match text.parse::<axum::http::HeaderValue>() {
        Ok(value) => Some(value),
        Err(_) => None,
    }
}

} // verus!
