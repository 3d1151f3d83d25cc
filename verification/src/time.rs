//! Spans of time, held as a count of nanoseconds.
use vstd::prelude::*;

verus! {

pub const NANOS_PER_SEC: u128 = 1_000_000_000;

pub const NANOS_PER_MILLI: u128 = 1_000_000;

/// The longest span a duration holds: `u64::MAX` seconds and 999_999_999 nanoseconds.
pub const MAX_NANOS: u128 = 18_446_744_073_709_551_615_999_999_999;

/// A span of time with nanosecond precision, as long as `u64::MAX` seconds at most.
#[derive(Clone, Copy, Debug, PartialEq, Eq, Structural, PartialOrd, Ord, Hash)]
pub struct Duration {
    nanos: u128,
}

impl Duration {
    #[verifier::type_invariant]
    spec fn bounded(self) -> bool {
        self.nanos <= MAX_NANOS
    }
}

impl View for Duration {
    type V = nat;

    /// The span in nanoseconds.
    closed spec fn view(&self) -> nat {
        self.nanos as nat
    }
}

impl Duration {
    /// The empty span.
    pub fn zero() -> (d: Duration)
        ensures
            d@ == 0,
    {
        Duration { nanos: 0 }
    }

    /// `secs` whole seconds.
    pub fn from_secs(secs: u64) -> (d: Duration)
        ensures
            d@ == secs * NANOS_PER_SEC,
    {
        Duration { nanos: (secs as u128) * NANOS_PER_SEC }
    }

    /// `millis` whole milliseconds.
    pub fn from_millis(millis: u64) -> (d: Duration)
        ensures
            d@ == millis * NANOS_PER_MILLI,
    {
        Duration { nanos: (millis as u128) * NANOS_PER_MILLI }
    }

    /// `secs` seconds and `nanos` nanoseconds; the nanoseconds may exceed a second.
    pub fn new(secs: u64, nanos: u32) -> (d: Duration)
        requires
            secs + (nanos as nat) / (NANOS_PER_SEC as nat) <= u64::MAX,
        ensures
            d@ == secs * NANOS_PER_SEC + nanos,
    {
        Duration { nanos: (secs as u128) * NANOS_PER_SEC + (nanos as u128) }
    }

    /// The span in nanoseconds.
    pub fn as_nanos(&self) -> (n: u128)
        ensures
            n == self@,
    {
        self.nanos
    }

    /// The whole milliseconds of the span.
    pub fn as_millis(&self) -> (n: u128)
        ensures
            n == self@ / NANOS_PER_MILLI as nat,
    {
        self.nanos / NANOS_PER_MILLI
    }

    /// The whole seconds of the span.
    pub fn as_secs(&self) -> (n: u64)
        ensures
            n == self@ / NANOS_PER_SEC as nat,
    {
        proof {
            use_type_invariant(self);
        }
        (self.nanos / NANOS_PER_SEC) as u64
    }

    /// The nanoseconds past the last whole second.
    pub fn subsec_nanos(&self) -> (n: u32)
        ensures
            n == self@ % NANOS_PER_SEC as nat,
    {
        (self.nanos % NANOS_PER_SEC) as u32
    }

    /// The sum of two spans, or `None` where it is longer than `MAX_NANOS`.
    pub fn checked_add(self, rhs: Duration) -> (r: Option<Duration>)
        ensures
            match r {
                Some(d) => d@ == self@ + rhs@ && d@ <= MAX_NANOS,
                None => self@ + rhs@ > MAX_NANOS,
            },
    {
        proof {
            use_type_invariant(self);
            use_type_invariant(rhs);
        }
        let sum: u128 = self.nanos + rhs.nanos;
        if sum <= MAX_NANOS {
            Some(Duration { nanos: sum })
        } else {
            None
        }
    }

    /// The sum of two spans whose sum fits.
    pub fn plus(self, rhs: Duration) -> (d: Duration)
        requires
            self@ + rhs@ <= MAX_NANOS,
        ensures
            d@ == self@ + rhs@,
    {
        proof {
            use_type_invariant(self);
            use_type_invariant(rhs);
        }
        Duration { nanos: self.nanos + rhs.nanos }
    }

    /// The span `factor` times over, or `None` where it is longer than `MAX_NANOS`.
    pub fn checked_mul(self, factor: u32) -> (r: Option<Duration>)
        ensures
            match r {
                Some(d) => d@ == self@ * factor && d@ <= MAX_NANOS,
                None => self@ * factor > MAX_NANOS,
            },
    {
        proof {
            use_type_invariant(self);
        }
        if factor == 0 {
            return Some(Duration { nanos: 0 });
        }
        let bound: u128 = MAX_NANOS / (factor as u128);
        if self.nanos <= bound {
            proof {
                assert(self.nanos * factor <= bound * factor) by (nonlinear_arith)
                    requires self.nanos <= bound, factor >= 1;
                assert(bound * factor <= MAX_NANOS) by (nonlinear_arith)
                    requires bound == MAX_NANOS / (factor as u128), factor >= 1;
            }
            Some(Duration { nanos: self.nanos * (factor as u128) })
        } else {
            proof {
                assert(self.nanos * factor > MAX_NANOS) by (nonlinear_arith)
                    requires self.nanos > bound, bound == MAX_NANOS / (factor as u128), factor >= 1;
            }
            None
        }
    }

    /// The shorter of two spans.
    pub fn min(self, other: Duration) -> (d: Duration)
        ensures
            d@ == if self@ <= other@ { self@ } else { other@ },
    {
        if self.nanos <= other.nanos {
            self
        } else {
            other
        }
    }

    /// Whether this span is no longer than `other`.
    pub fn is_at_most(&self, other: &Duration) -> (b: bool)
        ensures
            b == (self@ <= other@),
    {
        self.nanos <= other.nanos
    }
}

} // verus!
