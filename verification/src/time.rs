//! Spans of time.
use vstd::prelude::*;

verus! {

/// A span of time: whole seconds and the nanoseconds beyond them.
#[derive(Debug, Clone, Copy, PartialEq, Eq, PartialOrd, Ord, Structural)]
pub struct Duration {
    secs: u64,
    nanos: u32,
}

/// The low 64 bits of a number.
pub open spec fn low64(n: nat) -> u64 {
    (n % 0x1_0000_0000_0000_0000) as u64
}

impl Duration {
    /// The whole milliseconds of the span.
    pub closed spec fn millis(self) -> nat {
        (self.secs * 1000 + self.nanos / 1_000_000) as nat
    }

    /// The whole seconds of the span.
    pub closed spec fn seconds(self) -> u64 {
        self.secs
    }

    /// The nanoseconds beyond the whole seconds.
    pub closed spec fn nanos_beyond(self) -> u32 {
        self.nanos
    }

    /// The span of `n` milliseconds.
    pub closed spec fn of_millis(n: u64) -> Duration {
        Duration { secs: n / 1000, nanos: ((n % 1000) * 1_000_000) as u32 }
    }

    /// The span of `n` seconds.
    pub closed spec fn of_secs(n: u64) -> Duration {
        Duration { secs: n, nanos: 0 }
    }

    /// The span of `n` milliseconds counts `n` of them.
    pub proof fn law_span_of_millis(n: u64)
        ensures
            Duration::of_millis(n).millis() == n,
    {
    }

    /// The span of `n` seconds counts `n` of them, of a thousand milliseconds each.
    pub proof fn law_span_of_secs(n: u64)
        ensures
            Duration::of_secs(n).millis() == n * 1000,
            Duration::of_secs(n).seconds() == n,
    {
    }

    /// A span of milliseconds is its whole seconds and a million nanoseconds for each
    /// millisecond beyond them; a span of seconds has nothing beyond.
    pub proof fn law_span_is_seconds_and_nanoseconds(n: u64)
        ensures
            Duration::of_millis(n).seconds() == n / 1000,
            Duration::of_millis(n).nanos_beyond() == (n % 1000) * 1_000_000,
            Duration::of_secs(n).nanos_beyond() == 0,
    {
    }

    pub fn from_secs(secs: u64) -> (r: Duration)
        ensures
            r == Duration::of_secs(secs),
            r.seconds() == secs,
            r.millis() == secs * 1000,
    {
        Duration { secs, nanos: 0 }
    }

    pub fn from_millis(millis: u64) -> (r: Duration)
        ensures
            r == Duration::of_millis(millis),
            r.millis() == millis,
    {
        Duration { secs: millis / 1000, nanos: ((millis % 1000) * 1_000_000) as u32 }
    }

    /// The whole seconds of the span.
    pub fn as_secs(&self) -> (r: u64)
        ensures
            r == self.seconds(),
    {
        self.secs
    }

    /// The nanoseconds beyond the whole seconds.
    pub fn subsec_nanos(&self) -> (r: u32)
        ensures
            self.millis() == self.seconds() * 1000 + r / 1_000_000,
            r == self.nanos_beyond(),
    {
        self.nanos
    }

    /// The whole milliseconds of the span.
    pub fn as_millis(&self) -> (r: u128)
        ensures
            r == self.millis(),
            r < 0x400_0000_0000_0000_0000,
    {
        self.secs as u128 * 1000 + (self.nanos / 1_000_000) as u128
    }

    /// The low 64 bits of the number of whole milliseconds.
    pub fn millis_low64(&self) -> (r: u64)
        ensures
            r == low64(self.millis()),
    {
        let m: u128 = self.as_millis();
        (m % 0x1_0000_0000_0000_0000) as u64
    }
}

/// The low 64 bits of a number that fits are the number; of a larger one, what is left
/// of it behind the multiples of 2 to the power of 64.
pub proof fn law_low_bits_of_a_number(n: u64, k: nat)
    ensures
        low64(n as nat) == n,
        low64((n + k * 0x1_0000_0000_0000_0000) as nat) == n,
{
    assert((n + k * 0x1_0000_0000_0000_0000) % 0x1_0000_0000_0000_0000 == n) by (nonlinear_arith)
        requires
            0 <= n < 0x1_0000_0000_0000_0000,
            0 <= k,
    ;
}

} // verus!
