//! Lengths of time.
use vstd::prelude::*;

verus! {

/// Nanoseconds in a second.
pub const NANOS: u32 = 1_000_000_000;

/// A length of time in seconds and nanoseconds.
#[derive(Clone, Copy, Debug, PartialEq, Eq, Structural)]
pub struct Elapsed {
    pub secs: u64,
    pub nanos: u32,
}

/// A length of time in seconds, rounded to a number of decimal places, as the
/// standard library prints the floating-point number of seconds.
pub uninterp spec fn seconds_text(secs: u64, nanos: u32, places: nat) -> Seq<char>;

/// `Duration::as_secs_f64`, printed with a fixed number of decimal places;
/// [`seconds_text`] names the text.
#[verifier::external_body]
pub(crate) fn fixed_seconds(secs: u64, nanos: u32, places: usize) -> (r: String)
    requires
        nanos < NANOS,
        places <= 9,
    ensures
        r@ == seconds_text(secs, nanos, places as nat),
{
    format!("{:.*}", places, std::time::Duration::new(secs, nanos).as_secs_f64())
}

impl Elapsed {
    /// The nanoseconds make less than a second.
    pub open spec fn wf(self) -> bool {
        self.nanos < NANOS
    }

    /// The length in nanoseconds.
    pub open spec fn total_nanos(self) -> int {
        self.secs * 1_000_000_000 + self.nanos
    }

    /// The whole milliseconds, in sixty-four bits.
    pub open spec fn millis(self) -> u64 {
        ((self.secs * 1000 + self.nanos / 1_000_000) % 0x1_0000_0000_0000_0000) as u64
    }

    /// The whole milliseconds, in sixty-four bits.
    pub fn as_millis(self) -> (r: u64)
        ensures
            r == self.millis(),
    {
        let all: u128 = self.secs as u128 * 1000 + (self.nanos / 1_000_000) as u128;
        (all % 0x1_0000_0000_0000_0000) as u64
    }

    /// No time at all.
    pub fn zero() -> (r: Elapsed)
        ensures
            r.secs == 0 && r.nanos == 0,
    {
        Elapsed { secs: 0, nanos: 0 }
    }

    /// The length of time from `start` to `now`, none where `start` is later.
    pub open spec fn between(start: Elapsed, now: Elapsed) -> Elapsed {
        let nanos = now.total_nanos() - start.total_nanos();
        if nanos <= 0 {
            Elapsed { secs: 0, nanos: 0 }
        } else {
            Elapsed {
                secs: (nanos / 1_000_000_000) as u64,
                nanos: (nanos % 1_000_000_000) as u32,
            }
        }
    }

    /// The length of time from `start` to `self`, none where `start` is later.
    pub fn since(self, start: Elapsed) -> (r: Elapsed)
        requires
            self.wf(),
            start.wf(),
        ensures
            r.wf(),
            r == Elapsed::between(start, self),
            r.total_nanos() == if self.total_nanos() >= start.total_nanos() {
                self.total_nanos() - start.total_nanos()
            } else {
                0
            },
    {
        if self.secs < start.secs || (self.secs == start.secs && self.nanos < start.nanos) {
            return Elapsed { secs: 0, nanos: 0 };
        }
        if self.nanos >= start.nanos {
            Elapsed { secs: self.secs - start.secs, nanos: self.nanos - start.nanos }
        } else {
            Elapsed {
                secs: self.secs - start.secs - 1,
                nanos: NANOS - start.nanos + self.nanos,
            }
        }
    }

    /// The length in seconds, with a fixed number of decimal places.
    pub fn in_seconds(self, places: usize) -> (r: String)
        requires
            self.wf(),
            places <= 9,
        ensures
            r@ == seconds_text(self.secs, self.nanos, places as nat),
    {
        fixed_seconds(self.secs, self.nanos, places)
    }
}

} // verus!
