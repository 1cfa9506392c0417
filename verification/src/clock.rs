//! The time of day, as the time that has passed since the Unix epoch.

use vstd::prelude::*;

verus! {

/// A point in time: whole seconds since the Unix epoch, and the nanoseconds
/// of the second that has begun.
#[derive(Debug, Clone, Copy, PartialEq, Eq, Structural)]
pub struct Timestamp {
    pub secs: u64,
    pub nanos: u32,
}

impl Timestamp {
    /// The epoch itself.
    pub open spec fn epoch() -> Timestamp {
        Timestamp { secs: 0, nanos: 0 }
    }

    /// The nanoseconds since the epoch.
    pub open spec fn nanoseconds(self) -> nat {
        (self.secs * 1_000_000_000 + self.nanos) as nat
    }

    /// The time that the system clock shows; the epoch where the clock
    /// stands before it.
    pub fn now() -> Timestamp {
        Timestamp::or_epoch(since_epoch())
    }

    /// The whole seconds since the epoch.
    pub fn as_secs(&self) -> (secs: u64)
        ensures
            secs == self.secs,
    {
        self.secs
    }

    /// The nanoseconds since the epoch.
    pub fn as_nanos(&self) -> (nanos: u128)
        ensures
            nanos == self.nanoseconds(),
    {
        let secs: u128 = self.secs as u128;
        let nanos: u128 = self.nanos as u128;
        secs * 1_000_000_000 + nanos
    }

    /// The time that a reading of the clock stands for: the reading itself,
    /// and the epoch where the clock gave none.
    pub fn or_epoch(reading: Option<Timestamp>) -> (t: Timestamp)
        ensures
            t == match reading {
                Some(at) => at,
                None => Timestamp::epoch(),
            },
    {
        match reading {
            Some(at) => at,
            None => Timestamp { secs: 0, nanos: 0 },
        }
    }
}

/// `SystemTime::now().duration_since(UNIX_EPOCH)`, as seconds and
/// nanoseconds; nothing where the clock stands before the epoch.
///
/// The result depends on the moment of the call, so nothing is claimed of
/// it.
#[verifier::external_body]
fn since_epoch() -> Option<Timestamp> {
    match std::time::SystemTime::now().duration_since(std::time::UNIX_EPOCH) {
        Ok(d) => Some(Timestamp { secs: d.as_secs(), nanos: d.subsec_nanos() }),
        Err(_) => None,
    }
}

} // verus!
