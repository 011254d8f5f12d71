//! Spans of time.

use vstd::prelude::*;

verus! {

/// A span of time in whole seconds and nanoseconds.
#[derive(Clone, Copy, Debug, PartialEq, Eq, Structural)]
pub struct Duration {
    pub secs: u64,
    pub nanos: u32,
}

impl Duration {
    /// Less than a second of nanoseconds stands beside the seconds.
    pub open spec fn wf(self) -> bool {
        self.nanos < 1_000_000_000
    }

    /// The length of the span in nanoseconds.
    pub open spec fn length(self) -> int {
        self.secs * 1_000_000_000 + self.nanos
    }

    pub fn from_secs(secs: u64) -> (r: Duration)
        ensures
            r.wf(),
            r.secs == secs,
            r.nanos == 0,
    {
        Duration { secs, nanos: 0 }
    }

    /// Whether this span is at least as long as `other`.
    pub fn reaches(&self, other: &Duration) -> (r: bool)
        requires
            self.wf(),
            other.wf(),
        ensures
            r == (self.length() >= other.length()),
    {
        self.secs > other.secs || (self.secs == other.secs && self.nanos >= other.nanos)
    }

    /// The time from `earlier` to this one; none at all if `earlier` comes later.
    pub fn since(&self, earlier: &Duration) -> (r: Duration)
        requires
            self.wf(),
            earlier.wf(),
        ensures
            r.wf(),
            r.length() == if self.length() >= earlier.length() {
                self.length() - earlier.length()
            } else {
                0
            },
    {
        if !self.reaches(earlier) {
            Duration { secs: 0, nanos: 0 }
        } else if self.nanos >= earlier.nanos {
            Duration { secs: self.secs - earlier.secs, nanos: self.nanos - earlier.nanos }
        } else {
            Duration {
                secs: self.secs - earlier.secs - 1,
                nanos: 1_000_000_000 - (earlier.nanos - self.nanos),
            }
        }
    }
}

/// A span of whole seconds has no nanoseconds beside them.
pub proof fn law_from_secs(secs: u64, r: Duration)
    requires
        call_ensures(Duration::from_secs, (secs,), r),
    ensures
        r.secs == secs,
        r.nanos == 0,
{
}

/// Spans are compared by their seconds, and by their nanoseconds if those are the same.
pub proof fn law_reaches(a: Duration, b: Duration, r: bool)
    requires
        a.nanos < 1_000_000_000,
        b.nanos < 1_000_000_000,
        call_ensures(Duration::reaches, (&a, &b), r),
    ensures
        r <==> a.secs > b.secs || (a.secs == b.secs && a.nanos >= b.nanos),
{
}

/// The time since an earlier moment, added to that moment, gives the later one; there is none
/// since a later moment.
pub proof fn law_since(later: Duration, earlier: Duration, r: Duration)
    requires
        later.nanos < 1_000_000_000,
        earlier.nanos < 1_000_000_000,
        call_ensures(Duration::since, (&later, &earlier), r),
    ensures
        r.nanos < 1_000_000_000,
        ({
            let a = later.secs * 1_000_000_000 + later.nanos;
            let b = earlier.secs * 1_000_000_000 + earlier.nanos;
            let c = r.secs * 1_000_000_000 + r.nanos;
            &&& a >= b ==> b + c == a
            &&& a < b ==> c == 0
        }),
{
}

} // verus!
