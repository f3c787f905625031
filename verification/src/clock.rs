//! The wall clock (`chrono::Utc`) and the text form of timestamps.
use vstd::prelude::*;
use crate::errors::Timestamp;

verus! {

/// The current UTC time (`chrono::Utc::now`), read from the system clock.
///
/// Nothing is promised of the value but that it is a valid timestamp at or after the Unix
/// epoch: `chrono` stops the process when the system clock reads a time before the epoch.
#[verifier::external_body]
pub(crate) fn now() -> (r: Timestamp)
    ensures
        r.wf(),
        r.secs >= 0,
{
    let t = chrono::Utc::now();
    Timestamp { secs: t.timestamp(), nanos: t.timestamp_subsec_nanos() }
}

/// The RFC 3339 text that `chrono::DateTime::<Utc>::to_rfc3339` writes for a timestamp.
pub uninterp spec fn rfc3339_of(secs: i64, nanos: u32) -> Seq<char>;

/// The RFC 3339 text of a timestamp (`chrono::DateTime::<Utc>::to_rfc3339`).
#[verifier::external_body]
pub(crate) fn rfc3339_text(t: Timestamp) -> (r: String)
    requires
        t.wf(),
    ensures
        r@ == rfc3339_of(t.secs, t.nanos),
{
    chrono::DateTime::from_timestamp(t.secs, t.nanos).unwrap().to_rfc3339()
}

} // verus!
