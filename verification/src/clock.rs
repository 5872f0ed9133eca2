//! Wall-clock seconds and monotonic moments.
use vstd::prelude::*;

verus! {

/// The nanoseconds of a second.
pub const NANOS_PER_SECOND: u128 = 1_000_000_000;

/// The last representable moment, in nanoseconds.
pub const LAST_MOMENT_NANOS: u128 = 9_223_372_036_854_775_807_999_999_999;

/// A moment of a monotonic clock, in nanoseconds after a fixed start.
#[derive(Clone, Copy, Debug, PartialEq, Eq, Structural)]
pub struct Moment {
    pub nanos: u128,
}

/// A number of seconds in nanoseconds.
pub open spec fn seconds(count: int) -> int {
    count * NANOS_PER_SECOND
}

/// The nanoseconds from an earlier moment to a later one, or 0.
pub open spec fn elapsed(from: Moment, to: Moment) -> int {
    if to.nanos >= from.nanos {
        to.nanos - from.nanos
    } else {
        0
    }
}

/// Whether the moment some seconds later is representable.
pub open spec fn reaches(from: Moment, count: int) -> bool {
    from.nanos + seconds(count) <= LAST_MOMENT_NANOS
}

/// The moment some seconds later.
pub open spec fn later(from: Moment, count: int) -> Moment {
    Moment { nanos: (from.nanos + seconds(count)) as u128 }
}

impl Moment {
    /// The nanoseconds since an earlier moment, or 0 where that one is later.
    pub fn since(self, earlier: Moment) -> (nanos: u128)
        ensures
            nanos == elapsed(earlier, self),
    {
        self.nanos.saturating_sub(earlier.nanos)
    }

    /// The moment some seconds later, where it is representable.
    pub fn checked_add_seconds(self, count: u64) -> (moment: Option<Moment>)
        ensures
            moment == if reaches(self, count as int) {
                Some(later(self, count as int))
            } else {
                None
            },
    {
        let step = count as u128 * NANOS_PER_SECOND;
        match self.nanos.checked_add(step) {
            Some(nanos) => if nanos <= LAST_MOMENT_NANOS {
                Some(Moment { nanos })
            } else {
                None
            },
            None => None,
        }
    }

    /// The moment some seconds later.
    pub fn add_seconds(self, count: u64) -> (moment: Moment)
        requires
            reaches(self, count as int),
        ensures
            moment == later(self, count as int),
    {
        Moment { nanos: self.nanos + count as u128 * NANOS_PER_SECOND }
    }
}

/// Asks `std::time::SystemTime::now` for the time and gives its whole seconds since the Unix epoch,
/// or nothing before the epoch. Nothing is promised of the time.
#[verifier::external_body]
fn system_seconds() -> (since_epoch: Option<u64>) {
    let since_epoch = std::time::SystemTime::now().duration_since(std::time::UNIX_EPOCH);
    since_epoch.ok().map(|duration| duration.as_secs())
}

/// Unix seconds, given those since the epoch; 0 before the epoch.
pub open spec fn unix_time(since_epoch: Option<u64>) -> i64 {
    match since_epoch {
        Some(count) => count as i64,
        None => 0,
    }
}

/// Unix seconds, given those since the epoch; 0 before the epoch.
pub fn unix_seconds(since_epoch: Option<u64>) -> (now: i64)
    ensures
        now == unix_time(since_epoch),
        since_epoch is None ==> now == 0,
        since_epoch matches Some(count) ==> count <= i64::MAX ==> now == count,
{
    match since_epoch {
        Some(count) => count as i64,
        None => 0,
    }
}

/// The time of the system clock in Unix seconds.
pub fn now_unix() -> (now: i64)
    ensures
        exists|since_epoch: Option<u64>| now == #[trigger] unix_time(since_epoch),
{
    unix_seconds(system_seconds())
}

/// Moments are counted in nanoseconds, a second having a thousand million of them. What has passed
/// is never negative, and a later moment is later by what was added.
pub proof fn law_moments_are_counted_in_nanoseconds(from: Moment, to: Moment, count: int)
    requires
        count >= 0,
    ensures
        seconds(count) == count * 1_000_000_000,
        from.nanos <= to.nanos ==> elapsed(from, to) == to.nanos - from.nanos,
        from.nanos > to.nanos ==> elapsed(from, to) == 0,
        reaches(from, count) <==> from.nanos + count * 1_000_000_000
            <= 9_223_372_036_854_775_807_999_999_999,
        reaches(from, count) ==> later(from, count).nanos == from.nanos + count * 1_000_000_000,
        reaches(from, count) ==> elapsed(from, later(from, count)) == seconds(count),
{
}

} // verus!
