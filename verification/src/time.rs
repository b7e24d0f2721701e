//! UTC time in milliseconds since the Unix epoch.

use vstd::prelude::*;
use vstd::std_specs::cmp::PartialOrdSpec;

use std::cmp::Ordering;
use std::time::{SystemTime, UNIX_EPOCH};

verus! {

/// A point in UTC time.
#[derive(Debug, Clone, Copy, PartialEq, Eq, Ord, Hash, Structural)]
pub struct UtcTimestamp {
    millis: i64,
}

impl UtcTimestamp {
    /// Milliseconds since the Unix epoch; negative before it.
    pub closed spec fn millis(self) -> i64 {
        self.millis
    }

    /// The point at `millis` milliseconds since the Unix epoch.
    pub fn from_millis_since_epoch(millis: i64) -> (r: Self)
        ensures
            r.millis() == millis,
    {
        UtcTimestamp { millis }
    }

    /// Milliseconds since the Unix epoch.
    pub fn millis_since_epoch(self) -> (r: i64)
        ensures
            r == self.millis(),
    {
        self.millis
    }

    /// The point at a distance from the epoch: `Ok` after it, `Err` before it. A
    /// distance that does not fit stands at the far end of its side.
    pub fn from_epoch_distance(distance: Result<u128, u128>) -> (r: Self)
        ensures
            distance matches Ok(d) ==> r.millis() == (if d <= i64::MAX {
                d as int
            } else {
                i64::MAX as int
            }),
            distance matches Err(d) ==> r.millis() == (if d <= i64::MAX {
                -(d as int)
            } else {
                i64::MIN as int
            }),
    {
        let millis: i64 = match distance {
            Ok(d) => if d <= 0x7fff_ffff_ffff_ffff {
                d as i64
            } else {
                i64::MAX
            },
            Err(d) => if d <= 0x7fff_ffff_ffff_ffff {
                -(d as i64)
            } else {
                i64::MIN
            },
        };
        UtcTimestamp { millis }
    }
}

impl PartialOrd for UtcTimestamp {
    fn partial_cmp(&self, other: &Self) -> (r: Option<Ordering>) {
        if self.millis < other.millis {
            Some(Ordering::Less)
        } else if self.millis == other.millis {
            Some(Ordering::Equal)
        } else {
            Some(Ordering::Greater)
        }
    }
}

impl vstd::std_specs::cmp::PartialOrdSpecImpl for UtcTimestamp {
    open spec fn obeys_partial_cmp_spec() -> bool {
        true
    }

    open spec fn partial_cmp_spec(&self, other: &Self) -> Option<Ordering> {
        if self.millis() < other.millis() {
            Some(Ordering::Less)
        } else if self.millis() == other.millis() {
            Some(Ordering::Equal)
        } else {
            Some(Ordering::Greater)
        }
    }
}

/// Points are ordered by their milliseconds: the earlier point is the lesser one.
pub proof fn law_timestamps_are_ordered_by_millis(a: UtcTimestamp, b: UtcTimestamp)
    ensures
        a.partial_cmp_spec(&b) == Some(Ordering::Less) <==> a.millis() < b.millis(),
        a.partial_cmp_spec(&b) == Some(Ordering::Equal) <==> a == b,
        a.partial_cmp_spec(&b) == Some(Ordering::Greater) <==> a.millis() > b.millis(),
{
}

/// Two points with the same milliseconds are the same point.
pub proof fn law_timestamp_is_its_millis(a: UtcTimestamp, b: UtcTimestamp)
    ensures
        a == b <==> a.millis() == b.millis(),
{
}

/// Where the present time comes from.
pub trait Clock {
    /// Whether the clock may say that it is `ts`.
    open spec fn may_say(&self, ts: UtcTimestamp) -> bool {
        true
    }

    fn now_utc(&self) -> (r: UtcTimestamp)
        ensures
            self.may_say(r),
    ;
}

/// `std::time::SystemTime`, a reading of the machine's clock.
#[verifier::external_type_specification]
#[verifier::external_body]
pub struct ExSystemTime(std::time::SystemTime);

/// `SystemTime::now`. Nothing is claimed of the reading.
#[verifier::external_body]
fn read_system_time() -> (r: SystemTime) {
    SystemTime::now()
}

/// `SystemTime::duration_since` the Unix epoch, in whole milliseconds: `Ok` for
/// a reading at or after the epoch, `Err` for one before it. The reading is
/// opaque, so nothing is claimed of the distance.
#[verifier::external_body]
fn distance_from_epoch(reading: SystemTime) -> (r: Result<u128, u128>) {
    match reading.duration_since(UNIX_EPOCH) {
        Ok(after) => Ok(after.as_millis()),
        Err(before) => Err(before.duration().as_millis()),
    }
}

/// The machine's clock.
#[derive(Debug, Clone, Copy)]
pub struct SystemClock;

impl Clock for SystemClock {
    fn now_utc(&self) -> (r: UtcTimestamp) {
        UtcTimestamp::from_epoch_distance(distance_from_epoch(read_system_time()))
    }
}

} // verus!
