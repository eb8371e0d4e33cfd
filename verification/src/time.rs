//! Instants on the UTC time line, ordered as the calendar orders them.
use vstd::prelude::*;

verus! {

/// A UTC instant: whole seconds since the Unix epoch and the nanoseconds past that second.
#[derive(Clone, Copy, Debug, PartialEq, Eq, Structural)]
pub struct Timestamp {
    pub secs: i64,
    pub nanos: u32,
}

impl Timestamp {
    /// `self` lies strictly before `other`.
    pub open spec fn before(self, other: Timestamp) -> bool {
        self.secs < other.secs || (self.secs == other.secs && self.nanos < other.nanos)
    }

    /// Whether `self` lies strictly before `other`.
    pub fn is_before(&self, other: &Timestamp) -> (r: bool)
        ensures
            r == self.before(*other),
    {
        self.secs < other.secs || (self.secs == other.secs && self.nanos < other.nanos)
    }
}

/// How the system clock reads against the Unix epoch: after or before it, by a
/// distance in whole seconds and nanoseconds past them.
#[derive(Clone, Copy, Debug, PartialEq, Eq, Structural)]
pub enum ClockReading {
    AfterEpoch { secs: u64, nanos: u32 },
    BeforeEpoch { secs: u64, nanos: u32 },
}

/// Reads the system clock.
/// Trusted: calls `std::time::SystemTime::now().duration_since(UNIX_EPOCH)`; on success
/// the duration is how far after the epoch the clock reads, on error
/// `SystemTimeError::duration()` is how far before it. Each duration is taken apart with
/// `as_secs()` and `subsec_nanos()`, which std documents as below one billion. Nothing
/// else is claimed: the reading depends on the clock.
#[verifier::external_body]
pub(crate) fn read_clock() -> (r: ClockReading)
    ensures
        r matches ClockReading::AfterEpoch { nanos, .. } ==> nanos < 1_000_000_000,
        r matches ClockReading::BeforeEpoch { nanos, .. } ==> nanos < 1_000_000_000,
{
    match std::time::SystemTime::now().duration_since(std::time::UNIX_EPOCH) {
        Ok(d) => ClockReading::AfterEpoch { secs: d.as_secs(), nanos: d.subsec_nanos() },
        Err(e) => ClockReading::BeforeEpoch {
            secs: e.duration().as_secs(),
            nanos: e.duration().subsec_nanos(),
        },
    }
}

/// The instant, in nanoseconds from the epoch, that a timestamp denotes.
pub open spec fn timestamp_nanos(t: Timestamp) -> int {
    t.secs * 1_000_000_000 + t.nanos
}

/// The instant, in nanoseconds from the epoch, that a clock reading denotes.
pub open spec fn reading_nanos(r: ClockReading) -> int {
    match r {
        ClockReading::AfterEpoch { secs, nanos } => secs * 1_000_000_000 + nanos,
        ClockReading::BeforeEpoch { secs, nanos } => -(secs * 1_000_000_000 + nanos),
    }
}

/// The distance in whole seconds of a clock reading.
pub open spec fn reading_secs(r: ClockReading) -> u64 {
    match r {
        ClockReading::AfterEpoch { secs, .. } => secs,
        ClockReading::BeforeEpoch { secs, .. } => secs,
    }
}

/// The timestamp of a clock reading: the same instant, with the nanoseconds below one
/// billion, whenever the seconds fit (below `i64::MAX`); beyond, the nearest end of the
/// `i64` range of seconds.
pub fn timestamp_of_reading(r: ClockReading) -> (t: Timestamp)
    requires
        r matches ClockReading::AfterEpoch { nanos, .. } ==> nanos < 1_000_000_000,
        r matches ClockReading::BeforeEpoch { nanos, .. } ==> nanos < 1_000_000_000,
    ensures
        t.nanos < 1_000_000_000,
        reading_secs(r) < i64::MAX ==> timestamp_nanos(t) == reading_nanos(r),
{
    match r {
        ClockReading::AfterEpoch { secs, nanos } => {
            if secs < i64::MAX as u64 {
                Timestamp { secs: secs as i64, nanos }
            } else {
                Timestamp { secs: i64::MAX, nanos }
            }
        },
        ClockReading::BeforeEpoch { secs, nanos } => {
            if secs < i64::MAX as u64 {
                if nanos == 0 {
                    Timestamp { secs: -(secs as i64), nanos: 0 }
                } else {
                    Timestamp { secs: -(secs as i64) - 1, nanos: 1_000_000_000 - nanos }
                }
            } else {
                Timestamp { secs: i64::MIN, nanos: 0 }
            }
        },
    }
}

/// The current instant, read from the system clock (before the epoch too).
pub fn now() -> (t: Timestamp)
    ensures
        t.nanos < 1_000_000_000,
{
    timestamp_of_reading(read_clock())
}

} // verus!
