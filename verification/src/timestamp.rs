//! Points in time as the filesystem records and reports them.
use vstd::prelude::*;

verus! {

/// A point in time, held as its distance from the Unix epoch.
///
/// `before_epoch` tells on which side of the epoch the point lies; `secs`
/// and `nanos` give the distance, with `nanos` below one second.
#[derive(Clone, Copy, Debug, PartialEq, Eq, Structural)]
pub struct Timestamp {
    pub before_epoch: bool,
    pub secs: u64,
    pub nanos: u32,
}

/// Seconds and nanoseconds since the Unix epoch, in the signed form that
/// the kernel interface reports.
#[derive(Clone, Copy, Debug, PartialEq, Eq, Structural)]
pub struct TimeSpec {
    pub sec: i64,
    pub nsec: i32,
}

impl Timestamp {
    /// The form a system time takes: the distance's sub-second part is
    /// below one second, and a point before the epoch is some way from it.
    pub open spec fn wf(self) -> bool {
        &&& self.nanos < 1_000_000_000
        &&& self.before_epoch ==> self.secs > 0 || self.nanos > 0
    }
}

/// The signed distance of a point from the epoch, in nanoseconds.
pub open spec fn nanos_since_epoch(time: Timestamp) -> int {
    let distance = time.secs * 1_000_000_000 + time.nanos;
    if time.before_epoch {
        -distance
    } else {
        distance
    }
}

/// `a` comes no later than `b`: seconds first, then nanoseconds.
pub open spec fn timespec_le(a: TimeSpec, b: TimeSpec) -> bool {
    a.sec < b.sec || (a.sec == b.sec && a.nsec <= b.nsec)
}

/// What `convert_time` gives for a point at or after the epoch: the whole
/// seconds and the nanoseconds, each cast to the signed width of the
/// kernel interface.
pub open spec fn timespec_of(time: Timestamp) -> TimeSpec {
    TimeSpec { sec: time.secs as i64, nsec: time.nanos as i32 }
}

/// Reads the system clock.
///
/// Calls `std::time::SystemTime::elapsed` on `UNIX_EPOCH`, which measures
/// the current time against the epoch: `Ok` with the distance when the
/// clock is at or after the epoch, `Err` holding the distance when it is
/// before. The contract claims only that the sub-second part is below one
/// second, as `Duration::subsec_nanos` documents, and that an `Err` holds a
/// distance above zero, as `duration_since` gives one only where the epoch
/// is later than the clock; which time comes back is the clock's and is not
/// stated.
#[verifier::external_body]
pub(crate) fn current_time() -> (time: Timestamp)
    ensures
        time.wf(),
{
    match std::time::UNIX_EPOCH.elapsed() {
        Ok(d) => Timestamp { before_epoch: false, secs: d.as_secs(), nanos: d.subsec_nanos() },
        Err(e) => Timestamp {
            before_epoch: true,
            secs: e.duration().as_secs(),
            nanos: e.duration().subsec_nanos(),
        },
    }
}

/// The time as seconds and nanoseconds since the epoch.
///
/// A point before the epoch has no such form; it is left out, as is a
/// value that no system time takes.
pub fn convert_time(time: &Timestamp) -> (spec_time: TimeSpec)
    requires
        time.wf(),
        !time.before_epoch,
    ensures
        spec_time == timespec_of(*time),
{
    TimeSpec { sec: time.secs as i64, nsec: time.nanos as i32 }
}

/// For points at or after the epoch whose whole seconds fit the signed
/// width, `convert_time` keeps their order, and tells apart exactly the
/// points that differ.
pub proof fn convert_time_keeps_order(t1: Timestamp, t2: Timestamp)
    requires
        t1.wf(),
        t2.wf(),
        !t1.before_epoch,
        !t2.before_epoch,
        t1.secs <= i64::MAX,
        t2.secs <= i64::MAX,
    ensures
        timespec_le(timespec_of(t1), timespec_of(t2)) <==> nanos_since_epoch(t1)
            <= nanos_since_epoch(t2),
        timespec_of(t1) == timespec_of(t2) <==> t1 == t2,
{
    assert(timespec_of(t1).sec == t1.secs);
    assert(timespec_of(t2).sec == t2.secs);
    assert(timespec_of(t1).nsec == t1.nanos);
    assert(timespec_of(t2).nsec == t2.nanos);
}

} // verus!
