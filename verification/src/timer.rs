//! An interval gate: it says whether a period has passed since it last fired.

use vstd::prelude::*;

verus! {

/// Whether a period has passed between `last` and `now`. A clock that went
/// backwards has let no time pass.
pub open spec fn elapsed(last: u64, now: u64, period: u64) -> bool {
    now >= last && now - last >= period
}

/// Remembers when it last fired. Times are in milliseconds on any clock
/// that does not go backwards.
#[derive(Clone, Copy, Debug)]
pub struct Timer {
    pub last: u64,
}

impl Timer {
    /// A timer that counts from `now`.
    pub fn new(now: u64) -> (t: Timer)
        ensures
            t.last == now,
    {
        Timer { last: now }
    }

    /// Whether `period` has passed since the timer last fired, without firing.
    pub fn update(&self, now: u64, period: u64) -> (due: bool)
        ensures
            due == elapsed(self.last, now, period),
    {
        now >= self.last && now - self.last >= period
    }

    /// Fires if `period` has passed since the timer last fired: it then
    /// counts from `now`. Otherwise nothing changes.
    pub fn go(&mut self, now: u64, period: u64) -> (fired: bool)
        ensures
            fired == elapsed(old(self).last, now, period),
            final(self).last == if fired {
                now
            } else {
                old(self).last
            },
    {
        if self.update(now, period) {
            self.last = now;
            true
        } else {
            false
        }
    }
}

} // verus!
