//! Spans of time and points in time, held as whole seconds plus nanoseconds.

use vstd::prelude::*;

verus! {

/// Nanoseconds in one second.
pub const NANOS_PER_SEC: u32 = 1_000_000_000;

/// A length of time with nanosecond resolution.
///
/// Its view is the total number of nanoseconds.
#[derive(Clone, Copy, Debug, PartialEq, Eq)]
pub struct Span {
    secs: u64,
    nanos: u32,
}

impl View for Span {
    type V = nat;

    closed spec fn view(&self) -> nat {
        (self.secs as nat) * 1_000_000_000 + (self.nanos as nat)
    }
}

/// The largest number of nanoseconds a `Span` can hold.
pub open spec fn span_limit() -> nat {
    (u64::MAX as nat) * 1_000_000_000 + 999_999_999
}

/// `n` nanoseconds, cut down to the limit where they exceed it.
pub open spec fn clipped(n: nat) -> nat {
    if n <= span_limit() {
        n
    } else {
        span_limit()
    }
}

impl Span {
    #[verifier::type_invariant]
    spec fn well_formed(self) -> bool {
        self.nanos < 1_000_000_000
    }

    /// The span of no time at all.
    pub fn zero() -> (span: Span)
        ensures
            span@ == 0,
    {
        Span { secs: 0, nanos: 0 }
    }

    /// A span of `secs` seconds and `nanos` nanoseconds, provided `nanos` is
    /// a proper sub-second remainder.
    pub fn new(secs: u64, nanos: u32) -> (span: Option<Span>)
        ensures
            nanos < 1_000_000_000 ==> span is Some && span->0@ == secs * 1_000_000_000 + nanos,
            nanos >= 1_000_000_000 ==> span is None,
    {
        if nanos < NANOS_PER_SEC {
            Some(Span { secs, nanos })
        } else {
            None
        }
    }

    /// A span of whole seconds.
    pub fn from_secs(secs: u64) -> (span: Span)
        ensures
            span@ == secs * 1_000_000_000,
    {
        Span { secs, nanos: 0 }
    }

    /// A span of `nanos` nanoseconds.
    pub fn from_nanos(nanos: u64) -> (span: Span)
        ensures
            span@ == nanos,
    {
        let span = Span { secs: nanos / 1_000_000_000, nanos: (nanos % 1_000_000_000) as u32 };
        span
    }

    /// The whole seconds in the span.
    pub fn as_secs(&self) -> (secs: u64)
        ensures
            secs == self@ / 1_000_000_000,
    {
        proof {
            use_type_invariant(self);
        }
        self.secs
    }

    /// What is left of the span beyond its whole seconds, in nanoseconds.
    pub fn subsec_nanos(&self) -> (nanos: u32)
        ensures
            nanos == self@ % 1_000_000_000,
    {
        proof {
            use_type_invariant(self);
        }
        self.nanos
    }

    /// Whether the span is empty.
    pub fn is_zero(&self) -> (zero: bool)
        ensures
            zero == (self@ == 0),
    {
        proof {
            use_type_invariant(self);
        }
        self.secs == 0 && self.nanos == 0
    }

    fn total(&self) -> (n: u128)
        ensures
            n == self@,
            n <= span_limit(),
    {
        proof {
            use_type_invariant(self);
        }
        (self.secs as u128) * 1_000_000_000 + (self.nanos as u128)
    }

    fn from_total(n: u128) -> (span: Span)
        requires
            n <= span_limit(),
        ensures
            span@ == n,
    {
        Span { secs: (n / 1_000_000_000) as u64, nanos: (n % 1_000_000_000) as u32 }
    }

    /// The sum of two spans, or `None` where it exceeds the limit.
    pub fn checked_add(&self, other: &Span) -> (sum: Option<Span>)
        ensures
            self@ + other@ <= span_limit() ==> sum is Some && sum->0@ == self@ + other@,
            self@ + other@ > span_limit() ==> sum is None,
    {
        let n = self.total() + other.total();
        if n <= (u64::MAX as u128) * 1_000_000_000 + 999_999_999 {
            Some(Span::from_total(n))
        } else {
            None
        }
    }

    /// The sum of two spans, or the longest span there is where the sum
    /// exceeds the limit.
    pub fn saturating_add(&self, other: &Span) -> (sum: Span)
        ensures
            sum@ == clipped(self@ + other@),
    {
        let n = self.total() + other.total();
        if n <= (u64::MAX as u128) * 1_000_000_000 + 999_999_999 {
            Span::from_total(n)
        } else {
            Span { secs: u64::MAX, nanos: 999_999_999 }
        }
    }

    /// The difference of two spans, or the empty span where `other` is the longer.
    pub fn saturating_sub(&self, other: &Span) -> (diff: Span)
        ensures
            diff@ == if self@ >= other@ { self@ - other@ } else { 0 },
    {
        let a = self.total();
        let b = other.total();
        if a >= b {
            Span::from_total(a - b)
        } else {
            Span::zero()
        }
    }

    /// What is left of the span after taking out as many whole `interval`s as fit.
    pub fn rem(&self, interval: &Span) -> (left: Span)
        requires
            interval@ > 0,
        ensures
            left@ == self@ % interval@,
    {
        let a = self.total();
        let b = interval.total();
        Span::from_total(a % b)
    }

    /// Whether this span is no longer than `other`.
    pub fn le(&self, other: &Span) -> (b: bool)
        ensures
            b == (self@ <= other@),
    {
        self.total() <= other.total()
    }
}

/// A point in time, as the time elapsed since an origin that the caller
/// has chosen once and for all.
///
/// Its view is that time in nanoseconds.
#[derive(Clone, Copy, Debug, PartialEq, Eq)]
pub struct Moment {
    since_origin: Span,
}

impl View for Moment {
    type V = nat;

    closed spec fn view(&self) -> nat {
        self.since_origin@
    }
}

impl Moment {
    /// The moment that lies `since_origin` after the origin.
    pub fn new(since_origin: Span) -> (moment: Moment)
        ensures
            moment@ == since_origin@,
    {
        Moment { since_origin }
    }

    /// The time from the origin to this moment.
    pub fn since_origin(&self) -> (span: Span)
        ensures
            span@ == self@,
            span@ <= span_limit(),
    {
        proof {
            use_type_invariant(self.since_origin);
        }
        self.since_origin
    }

    /// The moment `span` later, or the last moment there is where that lies
    /// beyond it.
    pub fn plus(&self, span: &Span) -> (later: Moment)
        ensures
            later@ == clipped(self@ + span@),
    {
        Moment { since_origin: self.since_origin.saturating_add(span) }
    }

    /// The moment `span` earlier, or the origin where that lies before it.
    pub fn minus(&self, span: &Span) -> (earlier: Moment)
        ensures
            earlier@ == if self@ >= span@ {
                self@ - span@
            } else {
                0
            },
    {
        Moment { since_origin: self.since_origin.saturating_sub(span) }
    }

    /// The time from `earlier` to this moment, or no time where `earlier`
    /// is in fact the later of the two.
    pub fn since(&self, earlier: &Moment) -> (span: Span)
        ensures
            span@ == if self@ >= earlier@ {
                self@ - earlier@
            } else {
                0
            },
    {
        self.since_origin.saturating_sub(&earlier.since_origin)
    }

    /// Whether this moment is no later than `other`.
    pub fn le(&self, other: &Moment) -> (b: bool)
        ensures
            b == (self@ <= other@),
    {
        self.since_origin.le(&other.since_origin)
    }
}

} // verus!
