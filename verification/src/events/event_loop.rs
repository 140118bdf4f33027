use vstd::prelude::*;

verus! {

/// Runs the program's update ticks at a fixed interval.
pub struct EventLoop {}

impl EventLoop {
    pub fn new() -> (r: Self) {
        EventLoop {}
    }

    /// How long to sleep after a tick that took `update_nanos` nanoseconds, so that
    /// ticks start `interval_nanos` apart: the rest of the interval, or nothing when the
    /// tick overran it.
    pub fn sleep_time(interval_nanos: u64, update_nanos: u64) -> (r: u64)
        ensures
            r == if update_nanos >= interval_nanos {
                0
            } else {
                interval_nanos - update_nanos
            },
    {
        interval_nanos.saturating_sub(update_nanos)
    }
}

} // verus!
