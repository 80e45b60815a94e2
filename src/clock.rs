//! The process-wide time source.
use vstd::prelude::*;

verus! {

#[verifier::external_type_specification]
#[verifier::external_body]
pub struct ExInstant(std::time::Instant);

/// Largest value a timestamp can hold.
pub const MAX_NANOS: u64 = 0xffff_ffff_ffff_ffff;

/// A point in time, in nanoseconds.
#[derive(Clone, Copy, Debug, PartialEq, Eq, Structural)]
pub struct Timestamp {
    pub nanos: u64,
}

/// `base + elapsed` in nanoseconds, held at the largest timestamp.
pub open spec fn saturated_sum(base: u64, elapsed: u128) -> u64 {
    if base as int + elapsed as int > MAX_NANOS as int {
        MAX_NANOS
    } else {
        (base as int + elapsed as int) as u64
    }
}

/// The base of a clock built from the wall-clock reading `w`.
pub open spec fn wall_base(w: Option<u128>) -> u64 {
    match w {
        Some(v) => if v > MAX_NANOS as u128 {
            MAX_NANOS
        } else {
            v as u64
        },
        None => 0,
    }
}

/// A cheaply copied time source: a wall-clock reading taken once, advanced by
/// a monotonic timer. Every copy reads the same monotonic origin.
#[derive(Clone, Copy)]
pub struct Clock {
    start: std::time::Instant,
    base_nanos: u64,
}

/// Relies on std::time::Instant::now: a reading of the monotonic timer.
#[verifier::external_body]
fn instant_now() -> (r: std::time::Instant) {
    std::time::Instant::now()
}

/// Relies on std::time::Instant::elapsed: the monotonic time since `start`,
/// in nanoseconds.
#[verifier::external_body]
fn elapsed_nanos(start: &std::time::Instant) -> (r: u128) {
    start.elapsed().as_nanos()
}

/// Relies on std::time::SystemTime::elapsed, taken from the Unix epoch: the
/// wall-clock time since the epoch in nanoseconds, or `None` when the system
/// clock reads earlier.
#[verifier::external_body]
fn wall_nanos() -> (r: Option<u128>) {
    match std::time::UNIX_EPOCH.elapsed() {
        Ok(d) => Some(d.as_nanos()),
        Err(_) => None,
    }
}

impl Clock {
    /// The wall-clock reading that this clock's monotonic origin stands for.
    pub closed spec fn base(&self) -> u64 {
        self.base_nanos
    }

    /// A clock whose monotonic origin reads as `base_nanos`.
    pub fn with_base(base_nanos: u64) -> (r: Clock)
        ensures
            r.base() == base_nanos,
    {
        Clock { start: instant_now(), base_nanos }
    }

    /// A clock whose origin reads as the wall-clock reading `wall` (in
    /// nanoseconds since the Unix epoch), held at the largest timestamp; a
    /// missing reading, from a system clock set before the epoch, reads as
    /// zero.
    pub fn from_wall(wall: Option<u128>) -> (r: Clock)
        ensures
            r.base() == wall_base(wall),
    {
        let base: u64 = match wall {
            Some(w) => if w > MAX_NANOS as u128 {
                MAX_NANOS
            } else {
                w as u64
            },
            None => 0,
        };
        Clock::with_base(base)
    }

    /// A clock whose origin reads as the wall-clock time now.
    pub fn new() -> (r: Clock) {
        Clock::from_wall(wall_nanos())
    }

    /// The timestamp for a monotonic reading `elapsed` nanoseconds after the
    /// origin.
    pub fn stamp(&self, elapsed: u128) -> (r: Timestamp)
        ensures
            r.nanos == saturated_sum(self.base(), elapsed),
    {
        let room: u64 = MAX_NANOS - self.base_nanos;
        if elapsed > room as u128 {
            Timestamp { nanos: MAX_NANOS }
        } else {
            Timestamp { nanos: self.base_nanos + elapsed as u64 }
        }
    }

    /// The current time.
    pub fn now(&self) -> (r: Timestamp)
        ensures
            r.nanos >= self.base(),
    {
        let elapsed = elapsed_nanos(&self.start);
        self.stamp(elapsed)
    }
}

impl Default for Clock {
    /// The same as `Clock::new`.
    fn default() -> (r: Clock) {
        Clock::new()
    }
}

/// Stamping is monotone: on two copies of one clock, a later monotonic
/// reading never gives an earlier timestamp.
pub proof fn lemma_stamp_monotone(a: Clock, b: Clock, first: u128, second: u128)
    requires
        a == b,
        first <= second,
    ensures
        saturated_sum(a.base(), first) <= saturated_sum(b.base(), second),
{
}

} // verus!
