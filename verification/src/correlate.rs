//! The time of a request, read from its URL.

use crate::errors::{failure_of, ZkErrorCode, ZktlsError};
use crate::text::{
    chars_of, chars_of_range, find_chars, first_occurrence, parse_u128, parsed_u128, Text,
};
use vstd::prelude::*;

verus! {

/// What comes before the time in the URL of a request.
pub const TIMESTAMP_MARKER: &'static str = "timestamp=";

/// The text of the `timestamp` parameter of a URL: what follows the first
/// `timestamp=`, up to the next `&` or to the end.
pub open spec fn timestamp_text(url: Text) -> Option<Text> {
    match first_occurrence(url, TIMESTAMP_MARKER@) {
        None => None,
        Some(i) => {
            let rest = url.skip(i + TIMESTAMP_MARKER@.len());
            match first_occurrence(rest, seq!['&']) {
                None => Some(rest),
                Some(j) => Some(rest.take(j)),
            }
        },
    }
}

/// The time of the request with the given URL, or why it has none: the
/// parameter is missing or empty, or it is no number of 128 bits.
pub open spec fn request_timestamp(url: Text) -> Result<u128, ZkErrorCode> {
    match timestamp_text(url) {
        None => Err(ZkErrorCode::CannotFoundTimestamp),
        Some(text) => if text.len() == 0 {
            Err(ZkErrorCode::CannotFoundTimestamp)
        } else {
            match parsed_u128(text) {
                None => Err(ZkErrorCode::ParseTimestampFailed),
                Some(value) => Ok(value),
            }
        },
    }
}

/// Reads the time of a request from its URL.
pub fn read_timestamp(url: &str) -> (r: Result<u128, ZktlsError>)
    ensures
        match request_timestamp(url@) {
            Ok(value) => r == Ok::<u128, ZktlsError>(value),
            Err(code) => r matches Err(e) && e@ == failure_of(code),
        },
{
    let chars = chars_of(url);
    let marker = chars_of(TIMESTAMP_MARKER);
    let start = match find_chars(&chars, &marker) {
        None => {
            return Err(ZktlsError::from_code(ZkErrorCode::CannotFoundTimestamp));
        },
        Some(i) => i + marker.len(),
    };
    let rest = chars_of_range(&chars, start, chars.len());
    assert(rest@ =~= url@.skip(start as int));
    let mut ampersand: Vec<char> = Vec::new();
    ampersand.push('&');
    assert(ampersand@ =~= seq!['&']);
    let end = match find_chars(&rest, &ampersand) {
        None => rest.len(),
        Some(j) => j,
    };
    let digits = chars_of_range(&rest, 0, end);
    assert(rest@.subrange(0, rest@.len() as int) =~= rest@);
    if digits.len() == 0 {
        return Err(ZktlsError::from_code(ZkErrorCode::CannotFoundTimestamp));
    }
    match parse_u128(&digits) {
        None => Err(ZktlsError::from_code(ZkErrorCode::ParseTimestampFailed)),
        Some(value) => Ok(value),
    }
}

} // verus!
