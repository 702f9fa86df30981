//! Fresh identifiers and the current time, taken from outside the library.

use vstd::prelude::*;

verus! {

/// The digit that stands for a value below sixteen: `0` to `9`, then `a` to
/// `f`.
pub open spec fn hex_digit(nibble: u128) -> char {
    if nibble == 0 {
        '0'
    } else if nibble == 1 {
        '1'
    } else if nibble == 2 {
        '2'
    } else if nibble == 3 {
        '3'
    } else if nibble == 4 {
        '4'
    } else if nibble == 5 {
        '5'
    } else if nibble == 6 {
        '6'
    } else if nibble == 7 {
        '7'
    } else if nibble == 8 {
        '8'
    } else if nibble == 9 {
        '9'
    } else if nibble == 10 {
        'a'
    } else if nibble == 11 {
        'b'
    } else if nibble == 12 {
        'c'
    } else if nibble == 13 {
        'd'
    } else if nibble == 14 {
        'e'
    } else {
        'f'
    }
}

/// A 128-bit value written as its 32 hexadecimal digits, the most significant
/// first, in lower case.
pub open spec fn uuid_simple_text(value: u128) -> Seq<char> {
    Seq::new(32, |i: int| hex_digit((value >> ((4 * (31 - i)) as u128)) & 0xf))
}

/// Calls `uuid::Uuid::new_v4` and hands back the identifier's 128-bit value
/// (`Uuid::as_u128`). The value is random; nothing is claimed of it.
/// `new_v4` gives up on a machine that hands out no random bytes.
#[verifier::external_body]
pub(crate) fn random_uuid() -> (value: u128) {
    uuid::Uuid::new_v4().as_u128()
}

/// Writes the identifier with the given value in the `uuid` crate's simple
/// format (`Uuid::simple`). The crate writes the identifier's sixteen bytes,
/// which are the value's bytes from the most significant down, as two
/// lower-case hexadecimal digits each, without hyphens; that is claimed
/// here, not proved.
#[verifier::external_body]
pub(crate) fn uuid_simple(value: u128) -> (text: String)
    ensures
        text@ == uuid_simple_text(value),
{
    uuid::Uuid::from_u128(value).simple().to_string()
}

/// A point in time: whole seconds since the Unix epoch and the nanoseconds
/// into the second.
#[derive(Debug, Clone, Copy, PartialEq, Eq, Structural)]
pub struct Timestamp {
    pub seconds: i64,
    pub nanoseconds: u32,
}

/// Reads the clock with `chrono::Utc::now` and hands back the time's seconds
/// (`DateTime::timestamp`) and nanoseconds (`DateTime::timestamp_subsec_nanos`).
/// Nothing is claimed of the time read. `Utc::now` gives up on a machine
/// whose clock stands before the year 1970.
#[verifier::external_body]
pub(crate) fn current_time() -> (now: Timestamp) {
    let now = chrono::Utc::now();
    Timestamp { seconds: now.timestamp(), nanoseconds: now.timestamp_subsec_nanos() }
}

} // verus!
