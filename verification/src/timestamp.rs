//! Points in time as the file system reports them.

use vstd::prelude::*;

verus! {

/// A point in time, held as its distance from the Unix epoch and the side of
/// the epoch it lies on. Two timestamps are equal exactly when all three
/// fields are.
#[derive(Clone, Copy, Debug, PartialEq, Eq, Structural)]
pub struct Timestamp {
    /// Whether the point lies before the epoch.
    pub before_epoch: bool,
    /// Whole seconds between the point and the epoch.
    pub secs: u64,
    /// The rest of the distance, in nanoseconds.
    pub nanos: u32,
}

impl Timestamp {
    /// The Unix epoch itself.
    pub open spec fn epoch() -> Timestamp {
        Timestamp { before_epoch: false, secs: 0, nanos: 0 }
    }

    /// The time that `known` holds, or the epoch where it holds none.
    pub open spec fn known_or_epoch(known: Option<Timestamp>) -> Timestamp {
        match known {
            Some(time) => time,
            None => Timestamp::epoch(),
        }
    }

    /// A time that the file system may not have been able to tell: the time
    /// if it was, the epoch if not.
    pub fn or_epoch(known: Option<Timestamp>) -> (time: Timestamp)
        ensures
            time == Timestamp::known_or_epoch(known),
    {
        match known {
            Some(time) => time,
            None => Timestamp { before_epoch: false, secs: 0, nanos: 0 },
        }
    }

    /// The point `secs` seconds and `nanos` nanoseconds after the epoch.
    pub fn since_epoch(secs: u64, nanos: u32) -> (t: Timestamp)
        ensures
            t == (Timestamp { before_epoch: false, secs, nanos }),
    {
        Timestamp { before_epoch: false, secs, nanos }
    }

    /// The point `secs` seconds and `nanos` nanoseconds before the epoch.
    /// A distance of zero is the epoch, which counts as not before itself.
    pub fn until_epoch(secs: u64, nanos: u32) -> (t: Timestamp)
        ensures
            t == (Timestamp { before_epoch: secs != 0 || nanos != 0, secs, nanos }),
    {
        Timestamp { before_epoch: secs != 0 || nanos != 0, secs, nanos }
    }
}

} // verus!
