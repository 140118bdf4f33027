use vstd::prelude::*;

verus! {

/// Nanoseconds in a second.
pub const NANOS_PER_SEC: i64 = 1_000_000_000;

/// The number of milliseconds to wait for a duration of `secs` seconds and
/// `subsec_nanos` nanoseconds, as a 32-bit wait takes it: whole milliseconds, and at most
/// `u32::MAX`.
pub fn timeout_millis(secs: u64, subsec_nanos: u32) -> (r: u32)
    requires
        subsec_nanos < 1_000_000_000,
    ensures
        r as int == if secs * 1000 + subsec_nanos / 1_000_000 > u32::MAX {
            u32::MAX as int
        } else {
            secs * 1000 + subsec_nanos / 1_000_000
        },
{
    let millis: u128 = (secs as u128) * 1000 + (subsec_nanos / 1_000_000) as u128;
    if millis > u32::MAX as u128 {
        u32::MAX
    } else {
        millis as u32
    }
}

/// The deadline `secs` seconds and `subsec_nanos` nanoseconds after the instant
/// `now_sec` seconds and `now_nsec` nanoseconds, with its nanoseconds below a second.
pub fn deadline(now_sec: i64, now_nsec: i64, secs: u64, subsec_nanos: u32) -> (r: (i64, i64))
    requires
        0 <= now_nsec < NANOS_PER_SEC,
        subsec_nanos < 1_000_000_000,
        0 <= now_sec,
        now_sec + secs + 1 <= i64::MAX,
    ensures
        0 <= r.1 < NANOS_PER_SEC,
        r.0 * NANOS_PER_SEC + r.1 == (now_sec + secs) * NANOS_PER_SEC + now_nsec + subsec_nanos,
{
    let mut sec: i64 = now_sec + secs as i64;
    let mut nsec: i64 = now_nsec + subsec_nanos as i64;
    assert(0 <= nsec < 2 * NANOS_PER_SEC);
    let carry: i64 = nsec / NANOS_PER_SEC;
    assert(carry == 0 || carry == 1) by (nonlinear_arith)
        requires
            0 <= nsec < 2 * 1_000_000_000,
            carry == nsec / 1_000_000_000,
    ;
    sec = sec + carry;
    let rest: i64 = nsec % NANOS_PER_SEC;
    assert(nsec == carry * NANOS_PER_SEC + rest && 0 <= rest < NANOS_PER_SEC) by (nonlinear_arith)
        requires
            0 <= nsec,
            carry == nsec / 1_000_000_000,
            rest == nsec % 1_000_000_000,
    ;
    nsec = rest;
    (sec, nsec)
}

/// A binary semaphore's count, where the platform offers no semaphore.
pub struct SemaphoreFlag {
    pub available: bool,
}

impl SemaphoreFlag {
    pub fn new(initial: bool) -> (r: Self)
        ensures
            r.available == initial,
    {
        SemaphoreFlag { available: initial }
    }

    /// Takes the semaphore when it is available; says whether it was taken.
    pub fn try_acquire(&mut self) -> (r: bool)
        ensures
            r == old(self).available,
            !final(self).available,
    {
        if self.available {
            self.available = false;
            true
        } else {
            false
        }
    }

    /// Makes the semaphore available.
    pub fn release(&mut self)
        ensures
            final(self).available,
    {
        self.available = true;
    }
}

/// What a timed acquire does next.
#[derive(Debug, Clone, Copy, PartialEq, Eq, Structural)]
pub enum WaitStep {
    /// The semaphore is available: take it.
    Acquire,
    /// The deadline has passed: give up.
    GiveUp,
    /// Wait this many nanoseconds for a release.
    Wait(u64),
}

/// One step of a timed acquire at the instant `now` (in nanoseconds), with the deadline
/// `deadline`: take the semaphore if it is available, else give up when the deadline has
/// passed or the last wait timed out with nothing released, else wait for the rest of the
/// time.
pub fn wait_step(available: bool, now: u64, deadline: u64, timed_out: bool) -> (r: WaitStep)
    ensures
        available ==> r == WaitStep::Acquire,
        !available && (now >= deadline || timed_out) ==> r == WaitStep::GiveUp,
        !available && now < deadline && !timed_out ==> r == WaitStep::Wait(
            (deadline - now) as u64,
        ),
{
    if available {
        WaitStep::Acquire
    } else if timed_out || now >= deadline {
        WaitStep::GiveUp
    } else {
        WaitStep::Wait(deadline - now)
    }
}

} // verus!
