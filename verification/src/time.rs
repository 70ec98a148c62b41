//! Timestamps that carry their own time base.
//!
//! Moving a timestamp from one time base to another is the codec library's
//! work. The functions here take the moved value from the caller and keep the
//! bookkeeping straight: which base a value is in, and that an absent value
//! stays absent.

use vstd::prelude::*;
use crate::video::Rational;

verus! {

/// The clock in which positions are accumulated: ninety thousand ticks per
/// second.
pub open spec fn position_base() -> Rational {
    Rational(1, 90000)
}

/// The clock of durations: one million ticks per second.
pub open spec fn duration_base() -> Rational {
    Rational(1, 1_000_000)
}

/// A point in time, or a span, in ticks of `time_base`; `None` when unknown.
#[derive(Debug, Clone, PartialEq, Eq, Structural)]
pub struct Time {
    pub time_base: Rational,
    pub time: Option<i64>,
}

/// Two timestamps brought to one time base, ready to be combined.
#[derive(Debug, Clone, PartialEq, Eq, Structural)]
pub struct Aligned {
    pub lhs: Option<i64>,
    pub rhs: Option<i64>,
    pub time_base: Rational,
}

/// Nanoseconds rounded to the nearest microsecond, halves going up.
pub open spec fn nanos_to_micros(nanos: u64) -> int {
    (nanos + 500) / 1000
}

impl Time {
    /// Time zero on the position clock.
    pub fn zero() -> (t: Time)
        ensures
            t == (Time { time: Some(0i64), time_base: position_base() }),
    {
        Time { time: Some(0), time_base: Rational(1, 90000) }
    }

    /// A span of `nanos` nanoseconds on the duration clock, rounded to the
    /// nearest tick.
    pub fn from_nanos(nanos: u64) -> (t: Time)
        ensures
            t == (Time { time: Some(nanos_to_micros(nanos) as i64), time_base: duration_base() }),
    {
        let micros: u64 = nanos / 1000 + (if nanos % 1000 >= 500 {
            1u64
        } else {
            0u64
        });
        Time { time: Some(micros as i64), time_base: Rational(1, 1_000_000) }
    }

    /// Pairs this timestamp with another one. `rhs_rescaled` is the other
    /// timestamp's value already moved into this timestamp's time base.
    pub fn aligned_with(&self, rhs_rescaled: Option<i64>) -> (a: Aligned)
        ensures
            a == (Aligned { lhs: self.time, rhs: rhs_rescaled, time_base: self.time_base }),
    {
        Aligned { lhs: self.time, rhs: rhs_rescaled, time_base: self.time_base }
    }

    /// The number of ticks, if known.
    pub fn into_value(self) -> (v: Option<i64>)
        ensures
            v == self.time,
    {
        self.time
    }

    /// This timestamp in another time base. `rescaled` is its value already
    /// moved into `time_base`; it is used only where this timestamp is known.
    pub fn aligned_with_rational(&self, time_base: Rational, rescaled: i64) -> (t: Time)
        ensures
            t.time_base == time_base,
            t.time == match self.time {
                Some(_) => Some(rescaled),
                None => None::<i64>,
            },
    {
        match self.time {
            Some(_) => Time { time: Some(rescaled), time_base },
            None => Time { time: None, time_base },
        }
    }
}

impl Aligned {
    /// The sum fits in a timestamp.
    pub open spec fn addable(self) -> bool {
        match (self.lhs, self.rhs) {
            (Some(l), Some(r)) => i64::MIN <= l + r <= i64::MAX,
            _ => true,
        }
    }

    /// Add two timestamps together. The sum is unknown as soon as either
    /// side is.
    pub fn add(self) -> (t: Time)
        requires
            self.addable(),
        ensures
            t.time_base == self.time_base,
            t.time == match (self.lhs, self.rhs) {
                (Some(l), Some(r)) => Some((l + r) as i64),
                _ => None::<i64>,
            },
    {
        match (self.lhs, self.rhs) {
            (Some(lhs_time), Some(rhs_time)) => Time {
                time: Some(lhs_time + rhs_time),
                time_base: self.time_base,
            },
            _ => Time { time: None, time_base: self.time_base },
        }
    }

    /// Add two timestamps together if the sum fits.
    pub fn checked_add(self) -> (t: Option<Time>)
        ensures
            t == if self.addable() {
                Some(
                    Time {
                        time: match (self.lhs, self.rhs) {
                            (Some(l), Some(r)) => Some((l + r) as i64),
                            _ => None::<i64>,
                        },
                        time_base: self.time_base,
                    },
                )
            } else {
                None::<Time>
            },
    {
        let fits = match (self.lhs, self.rhs) {
            (Some(l), Some(r)) => {
                let sum: i128 = l as i128 + r as i128;
                sum >= i64::MIN as i128 && sum <= i64::MAX as i128
            },
            _ => true,
        };
        if fits {
            Some(self.add())
        } else {
            None
        }
    }
}

} // verus!
