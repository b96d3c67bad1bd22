//! Syntactic validation of the externally supplied device identifier.
//!
//! A device names itself with a UUID in string form. Whether a string is an
//! acceptable UUID, and which 128-bit value it denotes, is decided by the
//! `uuid` crate; the pipeline only needs the yes/no answer and the value.

use vstd::prelude::*;
use crate::data::IngestError;

verus! {

/// The value that the `uuid` crate's parser assigns to a string: `None` where
/// the string is rejected, otherwise the 128-bit value of the UUID it
/// denotes. The parser's answer depends on the characters alone.
pub uninterp spec fn uuid_parse(s: Seq<char>) -> Option<u128>;

/// Relies on `uuid::Uuid::parse_str` (with `uuid::Uuid::as_u128` reading the
/// parsed value out): acceptance and value are a function of the input
/// characters alone.
#[verifier::external_body]
fn parse_uuid_value(s: &str) -> (r: Option<u128>)
    ensures
        r == uuid_parse(s@),
{
    match uuid::Uuid::parse_str(s) {
        Ok(u) => Some(u.as_u128()),
        Err(_) => None,
    }
}

/// Validates the device identifier of a batch: the 128-bit value of the UUID
/// it denotes, or the bad-request fault where it does not parse. Nothing else
/// is ever reported here, and nothing is persisted on rejection.
pub fn parse_device_uid(s: &str) -> (r: Result<u128, IngestError>)
    ensures
        r matches Ok(uid) ==> uuid_parse(s@) == Some(uid),
        r is Err ==> uuid_parse(s@) is None && r == Err::<u128, IngestError>(IngestError::InvalidDeviceUid),
{
    match parse_uuid_value(s) {
        Some(uid) => Ok(uid),
        None => Err(IngestError::InvalidDeviceUid),
    }
}

} // verus!
