use vstd::prelude::*;
use std::time::SystemTime;
use std::time::UNIX_EPOCH;

verus! {

/// Relies on std::time::SystemTime::now and SystemTime::duration_since:
/// reads the wall clock as whole milliseconds since the Unix epoch (zero
/// when the clock reads earlier than the epoch). Nothing is promised of
/// the value — wall time depends on the machine and may step backwards.
#[verifier::external_body]
pub(crate) fn now_millis() -> u64 {
    match SystemTime::now().duration_since(UNIX_EPOCH) {
        Ok(d) => d.as_millis() as u64,
        Err(_) => 0,
    }
}

/// The milliseconds that passed from one clock reading to a later one;
/// zero when the clock stepped backwards.
pub open spec fn millis_between(last: u64, now: u64) -> int {
    if now >= last {
        now - last
    } else {
        0
    }
}

/// Measures the time between consecutive queries, in milliseconds.
pub struct Elapsed {
    pub last: u64,
}

impl Elapsed {
    /// A clock whose reference point is the wall time now.
    pub fn new() -> (e: Elapsed) {
        Elapsed { last: now_millis() }
    }

    /// A clock with an explicit reference point.
    pub fn new_at(now: u64) -> (e: Elapsed)
        ensures
            e.last == now,
    {
        Elapsed { last: now }
    }

    /// Core of `elapsed`, over an explicit clock reading: returns the time
    /// since the reference point — never negative — and moves the
    /// reference point to `now`.
    pub fn elapsed_at(&mut self, now: u64) -> (d: u64)
        ensures
            final(self).last == now,
            d == millis_between(old(self).last, now),
    {
        let d = if now >= self.last {
            now - self.last
        } else {
            0
        };
        self.last = now;
        d
    }

    /// The wall-clock time since the previous query (or construction):
    /// exactly the progression between the old and the new reference
    /// point, and never negative.
    pub fn elapsed(&mut self) -> (d: u64)
        ensures
            d == millis_between(old(self).last, final(self).last),
    {
        let now = now_millis();
        self.elapsed_at(now)
    }
}

impl Default for Elapsed {
    /// As `new`: a clock whose reference point is the wall time now.
    fn default() -> Self {
        Self::new()
    }
}

/// The tick count after one more tick inside the window; pinned to the
/// top of its range rather than wrapping.
pub open spec fn inc_count(c: usize) -> usize {
    if c == usize::MAX {
        c
    } else {
        (c + 1) as usize
    }
}

/// A rolling one-second tick counter: counts ticks silently inside the
/// current one-second window and reports the completed count once a tick
/// falls on or past the window's end.
pub struct Fps {
    pub count: usize,
    pub last: u64,
}

impl Fps {
    /// A counter whose window starts at the wall time now.
    pub fn new() -> (f: Fps)
        ensures
            f.count == 0,
    {
        Fps { count: 0, last: now_millis() }
    }

    /// A counter whose window starts at an explicit clock reading.
    pub fn new_at(now: u64) -> (f: Fps)
        ensures
            f.count == 0,
            f.last == now,
    {
        Fps { count: 0, last: now }
    }

    /// Core of `tick`, over an explicit clock reading. Inside the current
    /// one-second window it counts the tick and returns nothing; on the
    /// first tick at or past the window's end it returns the count of the
    /// ticks inside the window and resets both count and window start.
    pub fn tick_at(&mut self, now: u64) -> (r: Option<usize>)
        ensures
            millis_between(old(self).last, now) < 1000 ==> r is None && final(self).count
                == inc_count(old(self).count) && final(self).last == old(self).last,
            millis_between(old(self).last, now) >= 1000 ==> r == Some(old(self).count)
                && final(self).count == 0 && final(self).last == now,
    {
        let d = if now >= self.last {
            now - self.last
        } else {
            0
        };
        if d < 1000 {
            if self.count < usize::MAX {
                self.count = self.count + 1;
            }
            None
        } else {
            let c = self.count;
            self.last = now;
            self.count = 0;
            Some(c)
        }
    }

    /// One display-refresh tick against the wall clock: whichever reading
    /// the clock gave, either the tick was counted inside the window and
    /// nothing is returned, or the completed window's count is returned
    /// and the counter reset.
    pub fn tick(&mut self) -> (r: Option<usize>)
        ensures
            r is None ==> final(self).count == inc_count(old(self).count) && final(self).last
                == old(self).last,
            r is Some ==> r == Some(old(self).count) && final(self).count == 0,
    {
        let now = now_millis();
        self.tick_at(now)
    }
}

impl Default for Fps {
    /// As `new`: no ticks counted, window starting at the wall time now.
    fn default() -> (f: Self)
        ensures
            f.count == 0,
    {
        Self::new()
    }
}

} // verus!
