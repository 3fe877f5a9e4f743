use vstd::prelude::*;
use crate::value::Timestamp;

verus! {

/// Relies on chrono's `From<SystemTime> for DateTime<Utc>`, applied to the
/// system clock's current reading: the instant as whole seconds since the
/// epoch (`DateTime::timestamp`, negative before 1970) and the sub-second part
/// (`DateTime::timestamp_subsec_nanos`). The conversion takes the sub-second
/// part from a `Duration`, or one second minus it before the epoch, so it
/// stays below one second. It panics only for a reading beyond chrono's range
/// of about 262,000 years around the epoch.
#[verifier::external_body]
pub(crate) fn clock_now() -> (r: Timestamp)
    ensures
        r.nanos < 1_000_000_000,
{
    let now = chrono::DateTime::<chrono::Utc>::from(std::time::SystemTime::now());
    Timestamp { seconds: now.timestamp(), nanos: now.timestamp_subsec_nanos() }
}

} // verus!
