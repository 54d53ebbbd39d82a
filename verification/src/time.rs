//! Spans of time.

use vstd::prelude::*;

verus! {

/// A span of time in whole milliseconds.
#[derive(Clone, Copy, Debug, PartialEq, Eq, Structural)]
pub struct Duration {
    secs: u64,
    subsec_millis: u16,
}

impl Duration {
    /// The whole seconds of the span.
    pub closed spec fn secs(self) -> u64 {
        self.secs
    }

    /// The milliseconds of the span beyond its whole seconds.
    pub closed spec fn subsec_millis(self) -> u16 {
        self.subsec_millis
    }

    /// The whole span in milliseconds.
    pub open spec fn millis(self) -> int {
        self.secs() * 1000 + self.subsec_millis()
    }

    /// The span of so many seconds.
    pub closed spec fn of_secs(secs: u64) -> Duration {
        Duration { secs, subsec_millis: 0 }
    }

    /// The span of so many milliseconds.
    pub closed spec fn of_millis(millis: u64) -> Duration {
        Duration { secs: millis / 1000, subsec_millis: (millis % 1000) as u16 }
    }

    /// A span of seconds has no milliseconds beyond them, and one of milliseconds has as many as
    /// were given.
    pub proof fn lemma_spans(n: u64)
        ensures
            Duration::of_secs(n).secs() == n,
            Duration::of_secs(n).subsec_millis() == 0,
            Duration::of_millis(n).secs() == n / 1000,
            Duration::of_millis(n).subsec_millis() == n % 1000,
            Duration::of_millis(n).millis() == n,
            Duration::of_secs(n).millis() == 1000 * n,
    {
    }

    /// A span is its whole seconds and the milliseconds beyond them: no two spans agree in both.
    pub proof fn law_span(a: Duration, b: Duration)
        ensures
            a.millis() == 1000 * a.secs() + a.subsec_millis(),
            a.secs() == b.secs() && a.subsec_millis() == b.subsec_millis() ==> a == b,
    {
    }

    /// A span of so many seconds.
    pub fn from_secs(secs: u64) -> (r: Duration)
        ensures
            r == Duration::of_secs(secs),
            r.secs() == secs,
            r.subsec_millis() == 0,
    {
        Duration { secs, subsec_millis: 0 }
    }

    /// A span of so many milliseconds.
    pub fn from_millis(millis: u64) -> (r: Duration)
        ensures
            r == Duration::of_millis(millis),
            r.secs() == millis / 1000,
            r.subsec_millis() == millis % 1000,
            r.millis() == millis,
    {
        Duration { secs: millis / 1000, subsec_millis: (millis % 1000) as u16 }
    }

    /// The whole seconds of the span.
    pub fn as_secs(&self) -> (r: u64)
        ensures
            r == self.secs(),
    {
        self.secs
    }

    /// The whole span in milliseconds.
    pub fn as_millis(&self) -> (r: u128)
        ensures
            r == self.millis(),
    {
        self.secs as u128 * 1000 + self.subsec_millis as u128
    }
}

} // verus!
