//! Frequency clock: fires a boolean "due" signal once per elapsed period.
//!
//! The clock works on plain monotonic nanosecond counts supplied by the
//! caller, so its behaviour is a function of its inputs. When a tick is due
//! the reference point advances by exactly one period (not to "now"), which
//! avoids drift accumulation.

use vstd::prelude::*;

verus! {

pub const NANOS_PER_SEC: u64 = 1_000_000_000;

pub struct Clock {
    pub period_ns: u64,
    pub offset_ns: u64,
}

impl Clock {
    /// A clock with the given frequency in Hz, referenced to `now_ns`.
    pub fn new(freq: u16, now_ns: u64) -> (c: Self)
        requires
            freq > 0,
        ensures
            c.period_ns == NANOS_PER_SEC as int / freq as int,
            c.offset_ns == now_ns,
    {
        Self { period_ns: NANOS_PER_SEC / (freq as u64), offset_ns: now_ns }
    }

    /// True at most once per elapsed period since the last true return:
    /// due exactly when a whole period has passed since the reference point,
    /// and on a due tick the reference point advances by one period.
    pub fn tick(&mut self, now_ns: u64) -> (due: bool)
        ensures
            due == (now_ns >= old(self).offset_ns + old(self).period_ns),
            final(self).period_ns == old(self).period_ns,
            final(self).offset_ns == if due {
                (old(self).offset_ns + old(self).period_ns) as u64
            } else {
                old(self).offset_ns
            },
    {
        if now_ns >= self.offset_ns && now_ns - self.offset_ns >= self.period_ns {
            self.offset_ns = self.offset_ns + self.period_ns;
            true
        } else {
            false
        }
    }
}

} // verus!
