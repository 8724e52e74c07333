//! Points and lengths on a monotonic clock, as plain nanosecond counts.

use vstd::prelude::*;

verus! {

/// Nanoseconds in one second.
pub const NANOS_PER_SEC: u128 = 1_000_000_000;

/// The longest representable length of time: `u64::MAX` whole seconds plus
/// 999_999_999 nanoseconds.
pub const MAX_DURATION_NANOS: u128 = 18_446_744_073_709_551_615_999_999_999;

/// A length of time with nanosecond resolution.
#[derive(Clone, Copy, PartialEq, Eq, Debug, Structural)]
pub struct Duration {
    nanos: u128,
}

impl View for Duration {
    type V = nat;

    closed spec fn view(&self) -> nat {
        self.nanos as nat
    }
}

impl Duration {
    #[verifier::type_invariant]
    spec fn bounded(self) -> bool {
        self.nanos <= MAX_DURATION_NANOS
    }

    /// The empty length of time.
    pub fn zero() -> (d: Duration)
        ensures
            d@ == 0,
    {
        Duration { nanos: 0 }
    }

    pub fn from_secs(secs: u64) -> (d: Duration)
        ensures
            d@ == secs * NANOS_PER_SEC,
    {
        Duration { nanos: secs as u128 * NANOS_PER_SEC }
    }

    pub fn from_nanos(nanos: u128) -> (d: Duration)
        requires
            nanos <= MAX_DURATION_NANOS,
        ensures
            d@ == nanos,
    {
        Duration { nanos }
    }

    pub fn as_nanos(&self) -> (n: u128)
        ensures
            n == self@,
            n <= MAX_DURATION_NANOS,
    {
        proof {
            use_type_invariant(self);
        }
        self.nanos
    }

    /// Whole seconds, the fraction dropped.
    pub fn as_secs(&self) -> (s: u64)
        ensures
            s == self@ / (NANOS_PER_SEC as nat),
    {
        proof {
            use_type_invariant(self);
        }
        (self.nanos / NANOS_PER_SEC) as u64
    }
}

/// A point on a monotonic clock: nanoseconds since an origin of the caller's
/// choosing.
#[derive(Clone, Copy, PartialEq, Eq, Debug, Structural)]
pub struct Instant {
    nanos: u64,
}

impl View for Instant {
    type V = nat;

    closed spec fn view(&self) -> nat {
        self.nanos as nat
    }
}

impl Instant {
    pub fn from_nanos(nanos: u64) -> (i: Instant)
        ensures
            i@ == nanos,
    {
        Instant { nanos }
    }

    pub fn as_nanos(&self) -> (n: u64)
        ensures
            n == self@,
    {
        self.nanos
    }
}

impl core::ops::Add<Duration> for Instant {
    type Output = Instant;

    fn add(self, rhs: Duration) -> (r: Instant)
        ensures
            r@ == self@ + rhs@,
    {
        Instant { nanos: (self.nanos as u128 + rhs.nanos) as u64 }
    }
}

impl vstd::std_specs::ops::AddSpecImpl<Duration> for Instant {
    open spec fn obeys_add_spec() -> bool {
        true
    }

    open spec fn add_req(self, rhs: Duration) -> bool {
        self@ + rhs@ <= u64::MAX
    }

    closed spec fn add_spec(self, rhs: Duration) -> Instant {
        Instant { nanos: (self@ + rhs@) as u64 }
    }
}

} // verus!
