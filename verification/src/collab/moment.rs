//! Moments in time.

use vstd::prelude::*;

verus! {

/// A moment: an opaque value.
#[verifier::external_type_specification]
#[verifier::external_body]
pub struct ExOffsetDateTime(time::OffsetDateTime);

/// The nanoseconds from the start of 1970 in universal time to a moment.
pub uninterp spec fn unix_nanos(moment: time::OffsetDateTime) -> int;

/// The nanoseconds in a second.
pub open spec fn nanos_per_second() -> int {
    1_000_000_000
}

/// Calls `time::OffsetDateTime::unix_timestamp`, which returns the whole seconds from the
/// start of 1970 in universal time to a moment, rounded down.
#[verifier::external_body]
pub(crate) fn unix_timestamp(moment: &time::OffsetDateTime) -> (seconds: i64)
    ensures
        seconds == unix_nanos(*moment) / nanos_per_second(),
{
    moment.unix_timestamp()
}

/// Calls the comparison of `time::OffsetDateTime`, by which a moment is greater than another
/// exactly if it comes later, whatever their offsets from universal time.
#[verifier::external_body]
pub(crate) fn is_later(moment: &time::OffsetDateTime, other: &time::OffsetDateTime) -> (later: bool)
    ensures
        later == (unix_nanos(*moment) > unix_nanos(*other)),
{
    moment > other
}

} // verus!
