//! Instants. Every instant in the library is a count of whole seconds since
//! the Unix epoch; the calendar library decides which counts name a date.

use vstd::prelude::*;

verus! {

/// The first second of the earliest year the calendar can name.
pub const MIN_TIMESTAMP: i64 = -8_334_601_228_800;

/// The last second of the latest year the calendar can name.
pub const MAX_TIMESTAMP: i64 = 8_210_266_876_799;

/// Whether `secs` names an instant that the calendar can represent.
pub open spec fn is_valid_timestamp(secs: i64) -> bool {
    MIN_TIMESTAMP <= secs <= MAX_TIMESTAMP
}

/// Calls `chrono::DateTime::from_timestamp` with zero nanoseconds and reports
/// whether it produced a date. chrono accepts a count of seconds exactly when
/// the day it falls on lies in the years -262143 through 262142; the two
/// constants above are the first and the last second of that span.
#[verifier::external_body]
pub(crate) fn is_representable(secs: i64) -> (r: bool)
    ensures
        r == is_valid_timestamp(secs),
{
    chrono::DateTime::from_timestamp(secs, 0).is_some()
}

/// Calls `chrono::Utc::now` and hands back its `timestamp`. Nothing is
/// promised about the value but that it is one chrono can represent, which
/// holds of every `DateTime`. chrono stops the program when the system clock
/// shows a time before 1970.
#[verifier::external_body]
pub(crate) fn current_timestamp() -> (secs: i64)
    ensures
        is_valid_timestamp(secs),
{
    chrono::Utc::now().timestamp()
}

/// `secs` if it names a representable instant, otherwise `fallback`.
pub fn timestamp_or(secs: i64, fallback: i64) -> (r: i64)
    ensures
        r == (if is_valid_timestamp(secs) {
            secs
        } else {
            fallback
        }),
{
    if is_representable(secs) {
        secs
    } else {
        fallback
    }
}

/// The current instant.
pub fn now() -> (secs: i64)
    ensures
        is_valid_timestamp(secs),
{
    current_timestamp()
}

} // verus!
