use vstd::prelude::*;

use crate::model::Timestamp;

verus! {

/// Relies on chrono's `From<SystemTime> for DateTime<Utc>` to read the instant
/// that `std::time::SystemTime::now` reports, including one before the Unix
/// epoch, and on `DateTime::timestamp` and `DateTime::timestamp_subsec_nanos`
/// to split it into seconds and nanoseconds. The conversion's only failure is an
/// instant beyond chrono's range of about 262,000 years either side of the
/// epoch, which no operating system lets its clock be set to. Nothing is
/// promised of the instant itself.
#[verifier::external_body]
pub(crate) fn now() -> (r: Timestamp) {
    let t = chrono::DateTime::<chrono::Utc>::from(std::time::SystemTime::now());
    Timestamp { seconds: t.timestamp(), nanos: t.timestamp_subsec_nanos() }
}

} // verus!
