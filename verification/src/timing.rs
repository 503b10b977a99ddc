//! The time model: segments map a buffer's presentation timestamp onto the
//! pipeline's shared running-time clock, and a wait is due whenever that
//! mapped target still lies in the future.

use vstd::prelude::*;

verus! {

/// A positive rational, used for a segment's playback rate.
#[derive(Clone, Copy, Debug, PartialEq, Eq)]
pub struct Fraction {
    pub num: u32,
    pub den: u32,
}

impl Fraction {
    /// Both parts are at least one: the fraction is positive and finite.
    pub open spec fn wf(self) -> bool {
        self.num >= 1 && self.den >= 1
    }

    /// The identity rate.
    pub fn one() -> (r: Fraction)
        ensures
            r == (Fraction { num: 1, den: 1 }),
            r.wf(),
    {
        Fraction { num: 1, den: 1 }
    }
}

/// The most recent time-base mapping announced on an input: buffers with
/// presentation timestamp `pts >= start` map to running time
/// `base + (pts - start) / rate` (division truncating), and earlier
/// timestamps lie outside the segment.  `applied_rate` is announced along
/// with the rest but takes no part in the running-time mapping.
#[derive(Clone, Copy, Debug, PartialEq, Eq)]
pub struct TimeSegment {
    pub base: u64,
    pub start: u64,
    pub rate: Fraction,
    pub applied_rate: Fraction,
}

impl TimeSegment {
    pub open spec fn wf(self) -> bool {
        self.rate.wf() && self.applied_rate.wf()
    }

    /// The running time a presentation timestamp maps to: none when the
    /// timestamp is unknown, precedes the segment, or the mapping would
    /// exceed the clock's range.
    pub open spec fn spec_running_time(self, pts: Option<u64>) -> Option<u64> {
        match pts {
            Option::None => Option::None,
            Option::Some(p) => if p < self.start {
                Option::None
            } else {
                let scaled = ((p - self.start) * self.rate.den) / (self.rate.num as int);
                if self.base + scaled > u64::MAX {
                    Option::None
                } else {
                    Option::Some((self.base + scaled) as u64)
                }
            },
        }
    }

    /// A segment that maps presentation time straight onto running time.
    pub fn identity() -> (r: TimeSegment)
        ensures
            r == (TimeSegment { base: 0, start: 0, rate: Fraction { num: 1, den: 1 }, applied_rate: Fraction { num: 1, den: 1 } }),
            r.wf(),
    {
        TimeSegment { base: 0, start: 0, rate: Fraction::one(), applied_rate: Fraction::one() }
    }

    /// Maps a presentation timestamp through this segment.
    pub fn to_running_time(&self, pts: Option<u64>) -> (r: Option<u64>)
        requires
            self.wf(),
        ensures
            r == self.spec_running_time(pts),
    {
        match pts {
            Option::None => Option::None,
            Option::Some(p) => {
                if p < self.start {
                    Option::None
                } else {
                    let d: u64 = p - self.start;
                    assert((d as u128) * (self.rate.den as u128) <= (u64::MAX as u128) * (u32::MAX as u128))
                        by (nonlinear_arith)
                        requires
                            d <= u64::MAX,
                            self.rate.den <= u32::MAX,
                    ;
                    let wide: u128 = (d as u128) * (self.rate.den as u128);
                    let scaled: u128 = wide / (self.rate.num as u128);
                    if scaled > (u64::MAX - self.base) as u128 {
                        Option::None
                    } else {
                        Option::Some(self.base + (scaled as u64))
                    }
                }
            },
        }
    }
}

/// The deadline of the wait a buffer owes: its mapped target running time,
/// provided the clock gave a current reading and the target still lies
/// strictly in the future.  No reading, no target, or a target already due
/// means no wait.
pub open spec fn spec_wait_deadline(now: Option<u64>, target: Option<u64>) -> Option<u64> {
    match (now, target) {
        (Option::Some(n), Option::Some(t)) => if n < t {
            Option::Some(t)
        } else {
            Option::None
        },
        _ => Option::None,
    }
}

/// Decides whether a task must suspend before forwarding: the verified half
/// of the clock adapter.  Reading the clock itself is the collaborator's
/// part; this takes the reading.
pub fn wait_deadline(now: Option<u64>, target: Option<u64>) -> (r: Option<u64>)
    ensures
        r == spec_wait_deadline(now, target),
{
    match (now, target) {
        (Option::Some(n), Option::Some(t)) => if n < t {
            Option::Some(t)
        } else {
            Option::None
        },
        _ => Option::None,
    }
}

} // verus!
