//! Points in time and durations, in nanoseconds
use vstd::prelude::*;

verus! {

/// The longest duration, in nanoseconds: as many seconds as a `u64` counts, and all but one nanosecond of another.
pub const MAX_NANOS: u128 = 18446744073709551615999999999;

/// A duration.
#[derive(Debug, Clone, Copy)]
pub struct Duration {
    nanos: u128,
}

impl Duration {
    #[verifier::type_invariant]
    spec fn bounded(self) -> bool {
        self.nanos <= MAX_NANOS
    }

    /// The nanoseconds of the duration.
    pub closed spec fn view(&self) -> nat {
        self.nanos as nat
    }

    /// A duration of whole seconds.
    pub fn from_secs(secs: u64) -> (r: Self)
        ensures
            r@ == secs * 1_000_000_000,
    {
        Self { nanos: secs as u128 * 1_000_000_000 }
    }

    /// A duration of whole milliseconds.
    pub fn from_millis(millis: u64) -> (r: Self)
        ensures
            r@ == millis * 1_000_000,
    {
        Self { nanos: millis as u128 * 1_000_000 }
    }

    /// A duration of whole nanoseconds.
    pub fn from_nanos(nanos: u64) -> (r: Self)
        ensures
            r@ == nanos,
    {
        Self { nanos: nanos as u128 }
    }
}

/// A point in time: how long it is after the start of the Unix epoch, or before it when that is negative.
#[derive(Debug, Clone, Copy)]
pub struct SystemTime {
    nanos: i128,
}

impl SystemTime {
    #[verifier::type_invariant]
    spec fn bounded(self) -> bool {
        -MAX_NANOS <= self.nanos <= MAX_NANOS
    }

    /// The nanoseconds since the start of the Unix epoch.
    pub closed spec fn view(&self) -> int {
        self.nanos as int
    }

    /// The point in time that long after the start of the Unix epoch.
    pub fn since_epoch(elapsed: Duration) -> (r: Self)
        ensures
            r@ == elapsed@,
    {
        proof {
            use_type_invariant(&elapsed);
        }
        Self { nanos: elapsed.nanos as i128 }
    }

    /// The point in time that long before the start of the Unix epoch.
    pub fn before_epoch(remaining: Duration) -> (r: Self)
        ensures
            r@ == -remaining@,
    {
        proof {
            use_type_invariant(&remaining);
        }
        Self { nanos: -(remaining.nanos as i128) }
    }

    /// The point in time that long after this one.
    pub fn after(self, duration: Duration) -> (r: Deadline)
        ensures
            r@ == self@ + duration@,
    {
        proof {
            use_type_invariant(&self);
            use_type_invariant(&duration);
        }
        Deadline { nanos: self.nanos + duration.nanos as i128 }
    }
}

/// [`std::time::SystemTime::now`] reads the clock of the system: the time since the start of the Unix epoch, or the time
/// that remains until then as an error. What it reads depends on the time.
#[verifier::external_body]
fn read_clock() -> (r: Result<Duration, Duration>) {
    match std::time::SystemTime::now().duration_since(std::time::UNIX_EPOCH) {
        Ok(x) => Ok(Duration { nanos: x.as_nanos() }),
        Err(x) => Err(Duration { nanos: x.duration().as_nanos() }),
    }
}

/// Whether that point in time may come of reading the clock of the system.
pub closed spec fn is_clock_reading(time: SystemTime) -> bool {
    exists|reading: Result<Duration, Duration>| #[trigger]
        call_ensures(read_clock, (), reading) && time@ == match reading {
            Ok(elapsed) => elapsed@ as int,
            Err(remaining) => -remaining@,
        }
}

/// Read a clock by the given function.
fn read_by<F: Fn() -> Result<Duration, Duration>>(f: F) -> (r: Result<Duration, Duration>)
    requires
        call_requires(f, ()),
    ensures
        call_ensures(f, (), r),
{
    f()
}

/// Read the clock of the system.
pub(crate) fn now() -> (r: SystemTime)
    ensures
        is_clock_reading(r),
{
    let reading = read_by(read_clock);
    assert(call_ensures(read_clock, (), reading));
    match reading {
        Ok(elapsed) => SystemTime::since_epoch(elapsed),
        Err(remaining) => SystemTime::before_epoch(remaining),
    }
}

/// A point in time that something is to happen at.
#[derive(Debug, Clone, Copy)]
pub struct Deadline {
    nanos: i128,
}

impl Deadline {
    /// The nanoseconds since the start of the Unix epoch.
    pub closed spec fn view(&self) -> int {
        self.nanos as int
    }

    /// Whether it is time, or later.
    pub fn is_reached(&self, now: SystemTime) -> (r: bool)
        ensures
            r == (now@ >= self@),
    {
        now.nanos >= self.nanos
    }

    /// Whether it is later.
    pub fn is_passed(&self, now: SystemTime) -> (r: bool)
        ensures
            r == (now@ > self@),
    {
        now.nanos > self.nanos
    }
}

} // verus!
