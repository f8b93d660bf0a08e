//! Points in time, held as plain integers.
use vstd::prelude::*;

verus! {

/// A UTC instant: whole seconds since the Unix epoch and the nanoseconds
/// past that second.
#[derive(Debug, Clone, Copy, PartialEq, Eq, PartialOrd, Ord, Hash, Structural)]
pub struct Timestamp {
    pub secs: i64,
    pub nanos: u32,
}

/// Calls `chrono::Utc::now` and reads the instant as seconds and nanoseconds.
/// Nothing is stated of the value: it is the machine's clock.
#[verifier::external_body]
fn utc_now() -> (r: Timestamp) {
    let t = chrono::Utc::now();
    Timestamp { secs: t.timestamp(), nanos: t.timestamp_subsec_nanos() }
}

impl Timestamp {
    /// The current instant.
    pub fn now() -> (r: Timestamp) {
        utc_now()
    }

    /// The Unix epoch, 1970-01-01T00:00:00Z.
    pub fn epoch() -> (r: Timestamp)
        ensures
            r.secs == 0,
            r.nanos == 0,
    {
        Timestamp { secs: 0, nanos: 0 }
    }
}

} // verus!
