//! The two clocks of the queue, both in microseconds.
//!
//! Rows are stamped with the time since the Unix epoch. Schedules are kept
//! in civil time: the microseconds between 1970-01-01 00:00:00 and the date
//! and time that a clock on the wall shows in the system time zone.

use vstd::prelude::*;

verus! {

/// Reads the system clock with `jiff::Timestamp::now` and returns the
/// microseconds since the Unix epoch (`as_microsecond`). Nothing is claimed
/// of the value.
#[verifier::external_body]
pub(crate) fn timestamp_now() -> i64 {
    jiff::Timestamp::now().as_microsecond()
}

/// Reads the civil date and time in the system time zone with
/// `jiff::Zoned::now().datetime()` and returns the microseconds between
/// 1970-01-01 00:00:00 and it. Nothing is claimed of the value.
#[verifier::external_body]
pub(crate) fn civil_now() -> i64 {
    let epoch = jiff::civil::DateTime::constant(1970, 1, 1, 0, 0, 0, 0);
    jiff::Zoned::now().datetime().duration_since(epoch).as_micros() as i64
}

} // verus!
