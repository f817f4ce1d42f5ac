//! Spans of time and points in time.
//!
//! A [`Duration`] counts milliseconds, a [`Timestamp`] counts microseconds on
//! a monotonic clock.  No operation wraps: each states in its precondition
//! the operands on which its result fits.

use vstd::prelude::*;
use vstd::std_specs::ops::{AddSpecImpl, DivSpecImpl, MulSpecImpl, SubSpecImpl};

verus! {

/// The number of microseconds in one millisecond.
pub const MICROS_PER_MILLI: u64 = 1000;

/// A span of time in whole milliseconds.
#[derive(Debug, Clone, Copy, PartialEq, Eq, Structural, PartialOrd)]
pub struct Duration(u64);

impl View for Duration {
    type V = u64;

    /// The span in milliseconds.
    closed spec fn view(&self) -> u64 {
        self.0
    }
}

impl Duration {
    /// The span of `ms` milliseconds, for use in contracts.
    pub closed spec fn of_millis(ms: u64) -> Duration {
        Duration(ms)
    }

    /// The span of `ms` milliseconds.
    pub fn from_millis(ms: u64) -> (span: Self)
        ensures
            span@ == ms,
            span == Duration::of_millis(ms),
    {
        Duration(ms)
    }

    /// The span in milliseconds.
    pub fn as_millis(&self) -> (ms: u64)
        ensures
            ms == self@,
    {
        self.0
    }

    /// A span is what its number of milliseconds says.
    pub proof fn lemma_of_millis(ms: u64)
        ensures
            Duration::of_millis(ms)@ == ms,
    {
    }

    /// Two spans of the same length are the same span.
    pub proof fn lemma_view_injective(a: Duration, b: Duration)
        requires
            a@ == b@,
        ensures
            a == b,
    {
    }
}

impl core::ops::Sub for Duration {
    type Output = Duration;

    /// The difference of two spans; the first must be the longer one.
    fn sub(self, other: Duration) -> (span: Duration)
        ensures
            span@ == self@ - other@,
    {
        Duration(self.0 - other.0)
    }
}

impl SubSpecImpl for Duration {
    open spec fn obeys_sub_spec() -> bool {
        true
    }

    open spec fn sub_req(self, other: Duration) -> bool {
        self@ >= other@
    }

    open spec fn sub_spec(self, other: Duration) -> Duration {
        Duration::of_millis((self@ - other@) as u64)
    }
}

impl core::ops::Mul<u64> for Duration {
    type Output = Duration;

    /// The span taken `rhs` times.
    fn mul(self, rhs: u64) -> (span: Duration)
        ensures
            span@ == self@ * rhs,
    {
        Duration(self.0 * rhs)
    }
}

impl MulSpecImpl<u64> for Duration {
    open spec fn obeys_mul_spec() -> bool {
        true
    }

    open spec fn mul_req(self, rhs: u64) -> bool {
        self@ * rhs <= u64::MAX
    }

    open spec fn mul_spec(self, rhs: u64) -> Duration {
        Duration::of_millis((self@ * rhs) as u64)
    }
}

impl core::ops::Div<u64> for Duration {
    type Output = Duration;

    /// The span divided in `rhs` parts, rounded down to whole milliseconds.
    fn div(self, rhs: u64) -> (span: Duration)
        ensures
            span@ == self@ / rhs,
    {
        Duration(self.0 / rhs)
    }
}

impl DivSpecImpl<u64> for Duration {
    open spec fn obeys_div_spec() -> bool {
        true
    }

    open spec fn div_req(self, rhs: u64) -> bool {
        rhs != 0
    }

    open spec fn div_spec(self, rhs: u64) -> Duration {
        Duration::of_millis(self@ / rhs)
    }
}

impl core::ops::Add<u64> for Duration {
    type Output = Duration;

    /// The span made `rhs` milliseconds longer.
    fn add(self, rhs: u64) -> (span: Duration)
        ensures
            span@ == self@ + rhs,
    {
        Duration(self.0 + rhs)
    }
}

impl AddSpecImpl<u64> for Duration {
    open spec fn obeys_add_spec() -> bool {
        true
    }

    open spec fn add_req(self, rhs: u64) -> bool {
        self@ + rhs <= u64::MAX
    }

    open spec fn add_spec(self, rhs: u64) -> Duration {
        Duration::of_millis((self@ + rhs) as u64)
    }
}

/// A point in time, in microseconds on a clock that never runs backwards.
#[derive(Debug, Clone, Copy, PartialEq, Eq, Structural, PartialOrd)]
pub struct Timestamp(u64);

impl View for Timestamp {
    type V = u64;

    /// The point in time in microseconds.
    closed spec fn view(&self) -> u64 {
        self.0
    }
}

impl Timestamp {
    /// The point in time `us` microseconds after the clock started, for use
    /// in contracts.
    pub closed spec fn of_micros(us: u64) -> Timestamp {
        Timestamp(us)
    }

    /// The point in time `us` microseconds after the clock started.
    pub fn from_micros(us: u64) -> (stamp: Self)
        ensures
            stamp@ == us,
            stamp == Timestamp::of_micros(us),
    {
        Timestamp(us)
    }

    /// The point in time in microseconds.
    pub fn as_micros(&self) -> (us: u64)
        ensures
            us == self@,
    {
        self.0
    }

    /// A point in time is what its number of microseconds says.
    pub proof fn lemma_of_micros(us: u64)
        ensures
            Timestamp::of_micros(us)@ == us,
    {
    }

    /// Two points in time at the same microsecond are the same point.
    pub proof fn lemma_view_injective(a: Timestamp, b: Timestamp)
        requires
            a@ == b@,
        ensures
            a == b,
    {
    }
}

impl core::ops::Sub for Timestamp {
    type Output = Duration;

    /// The time elapsed since the earlier point `other`, in whole
    /// milliseconds.  The clock never runs backwards, so `other` must not lie
    /// after `self`.
    fn sub(self, other: Timestamp) -> (elapsed: Duration)
        ensures
            elapsed@ == (self@ - other@) / 1000,
    {
        Duration::from_millis((self.0 - other.0) / MICROS_PER_MILLI)
    }
}

impl SubSpecImpl for Timestamp {
    open spec fn obeys_sub_spec() -> bool {
        true
    }

    open spec fn sub_req(self, other: Timestamp) -> bool {
        self@ >= other@
    }

    open spec fn sub_spec(self, other: Timestamp) -> Duration {
        Duration::of_millis(((self@ - other@) / 1000) as u64)
    }
}

impl core::ops::Mul<u64> for Timestamp {
    type Output = Timestamp;

    /// The point in time at `rhs` times the distance from the clock's start.
    fn mul(self, rhs: u64) -> (stamp: Timestamp)
        ensures
            stamp@ == self@ * rhs,
    {
        Timestamp(self.0 * rhs)
    }
}

impl MulSpecImpl<u64> for Timestamp {
    open spec fn obeys_mul_spec() -> bool {
        true
    }

    open spec fn mul_req(self, rhs: u64) -> bool {
        self@ * rhs <= u64::MAX
    }

    open spec fn mul_spec(self, rhs: u64) -> Timestamp {
        Timestamp::of_micros((self@ * rhs) as u64)
    }
}

impl core::ops::Div<u64> for Timestamp {
    type Output = Timestamp;

    /// The point in time at one `rhs`-th of the distance from the clock's
    /// start, rounded down to whole microseconds.
    fn div(self, rhs: u64) -> (stamp: Timestamp)
        ensures
            stamp@ == self@ / rhs,
    {
        Timestamp(self.0 / rhs)
    }
}

impl DivSpecImpl<u64> for Timestamp {
    open spec fn obeys_div_spec() -> bool {
        true
    }

    open spec fn div_req(self, rhs: u64) -> bool {
        rhs != 0
    }

    open spec fn div_spec(self, rhs: u64) -> Timestamp {
        Timestamp::of_micros(self@ / rhs)
    }
}

impl core::ops::Add<u64> for Timestamp {
    type Output = Timestamp;

    /// The point in time `rhs` microseconds later.
    fn add(self, rhs: u64) -> (stamp: Timestamp)
        ensures
            stamp@ == self@ + rhs,
    {
        Timestamp(self.0 + rhs)
    }
}

impl AddSpecImpl<u64> for Timestamp {
    open spec fn obeys_add_spec() -> bool {
        true
    }

    open spec fn add_req(self, rhs: u64) -> bool {
        self@ + rhs <= u64::MAX
    }

    open spec fn add_spec(self, rhs: u64) -> Timestamp {
        Timestamp::of_micros((self@ + rhs) as u64)
    }
}

} // verus!
