//! Media time: a span of time counted in nanoseconds, with the range and
//! the saturating arithmetic of a standard duration.

use vstd::prelude::*;

verus! {

/// Nanoseconds in a second.
pub const NANOS_PER_SEC: u128 = 1_000_000_000;

/// The longest representable span: `u64::MAX` seconds and 999 999 999 ns.
pub open spec fn max_nanos() -> nat {
    (u64::MAX as nat) * 1_000_000_000 + 999_999_999
}

/// The sum of two spans, saturated at the longest span.
pub open spec fn saturated_sum(a: nat, b: nat) -> nat {
    if a + b <= max_nanos() { a + b } else { max_nanos() }
}

/// A span of time (a position in a track, a track length, an instant
/// measured from a fixed origin).
#[derive(Clone, Copy, Debug, PartialEq, Eq, PartialOrd, Ord, Hash, Structural)]
pub struct MediaTime {
    nanos: u128,
}

impl View for MediaTime {
    type V = nat;

    closed spec fn view(&self) -> nat {
        self.nanos as nat
    }
}

impl MediaTime {
    pub open spec fn spec_secs(self) -> nat {
        self@ / 1_000_000_000
    }

    /// The empty span, as a value.
    pub closed spec fn spec_zero() -> MediaTime {
        MediaTime { nanos: 0 }
    }

    /// The empty span.
    pub fn zero() -> (r: MediaTime)
        ensures
            r@ == 0,
            r == Self::spec_zero(),
    {
        MediaTime { nanos: 0 }
    }

    /// A span of whole seconds.
    pub fn from_secs(secs: u64) -> (r: MediaTime)
        ensures
            r@ == secs as nat * 1_000_000_000,
    {
        MediaTime { nanos: secs as u128 * NANOS_PER_SEC }
    }

    /// A span of whole milliseconds.
    pub fn from_millis(millis: u64) -> (r: MediaTime)
        ensures
            r@ == millis as nat * 1_000_000,
    {
        MediaTime { nanos: millis as u128 * 1_000_000 }
    }

    /// A span of nanoseconds, when representable.
    pub fn from_nanos(nanos: u128) -> (r: Option<MediaTime>)
        ensures
            r is Some <==> nanos <= max_nanos(),
            r matches Some(t) ==> t@ == nanos,
    {
        if nanos <= u64::MAX as u128 * NANOS_PER_SEC + 999_999_999 {
            Some(MediaTime { nanos })
        } else {
            None
        }
    }

    /// The span in nanoseconds.
    pub fn as_nanos(&self) -> (r: u128)
        ensures
            r == self@,
            r <= max_nanos(),
    {
        proof { use_type_invariant(self); }
        self.nanos
    }

    /// The whole seconds of the span.
    pub fn as_secs(&self) -> (r: u64)
        ensures
            r == self.spec_secs(),
    {
        proof { use_type_invariant(self); }
        (self.nanos / NANOS_PER_SEC) as u64
    }

    /// The whole milliseconds of the span.
    pub fn as_millis(&self) -> (r: u128)
        ensures
            r == self@ / 1_000_000,
    {
        self.nanos / 1_000_000
    }

    /// Whether the span is empty.
    pub fn is_zero(&self) -> (r: bool)
        ensures
            r == (self@ == 0),
    {
        self.nanos == 0
    }

    /// The sum, or the longest span when the sum is not representable.
    pub fn saturating_add(self, other: MediaTime) -> (r: MediaTime)
        ensures
            r@ == saturated_sum(self@, other@),
    {
        proof { use_type_invariant(self); use_type_invariant(other); }
        let max = u64::MAX as u128 * NANOS_PER_SEC + 999_999_999;
        let sum = self.nanos + other.nanos;
        if sum <= max { MediaTime { nanos: sum } } else { MediaTime { nanos: max } }
    }

    /// The difference, or the empty span when `other` is the longer.
    pub fn saturating_sub(self, other: MediaTime) -> (r: MediaTime)
        ensures
            r@ == if self@ >= other@ { self@ - other@ } else { 0 },
    {
        proof { use_type_invariant(self); }
        if self.nanos >= other.nanos { MediaTime { nanos: self.nanos - other.nanos } } else { MediaTime { nanos: 0 } }
    }

    /// The longer of two spans.
    pub fn max_of(self, other: MediaTime) -> (r: MediaTime)
        ensures
            r@ == if self@ >= other@ { self@ } else { other@ },
    {
        if self.nanos >= other.nanos { self } else { other }
    }

    /// Whether this span is at least as long as `other`.
    pub fn at_least(&self, other: &MediaTime) -> (r: bool)
        ensures
            r == (self@ >= other@),
    {
        self.nanos >= other.nanos
    }
}

impl MediaTime {
    #[verifier::type_invariant]
    spec fn in_range(self) -> bool {
        self.nanos <= max_nanos()
    }
}

} // verus!
