//! Spans of time as whole seconds and nanoseconds.
use vstd::prelude::*;

verus! {

/// A span of time. `nanos` counts what is left over of a second.
#[derive(Debug, Clone, Copy, PartialEq, Eq, Structural)]
pub struct Span {
    secs: u64,
    nanos: u32,
}

impl Span {
    /// The span in nanoseconds.
    pub closed spec fn total_nanos(self) -> nat {
        (self.secs * 1_000_000_000 + self.nanos) as nat
    }

    /// Fewer than a second of nanoseconds is left over.
    pub closed spec fn wf(self) -> bool {
        self.nanos < 1_000_000_000
    }

    /// The span in whole milliseconds.
    pub open spec fn millis(self) -> nat {
        self.total_nanos() / 1_000_000
    }

    /// The span in whole seconds.
    pub open spec fn seconds(self) -> nat {
        self.total_nanos() / 1_000_000_000
    }

    /// A span of `secs` seconds and `nanos` nanoseconds, carrying whole
    /// seconds over and stopping at the longest span there is.
    pub fn new(secs: u64, nanos: u32) -> (span: Self)
        ensures
            span.wf(),
            span.total_nanos() == if secs * 1_000_000_000 + nanos < 0x1_0000_0000_0000_0000
                * 1_000_000_000 {
                secs * 1_000_000_000 + nanos
            } else {
                0xffff_ffff_ffff_ffffint * 1_000_000_000 + 999_999_999
            },
    {
        let carry: u64 = (nanos / 1_000_000_000) as u64;
        if secs > u64::MAX - carry {
            return Span { secs: u64::MAX, nanos: 999_999_999 };
        }
        Span { secs: secs + carry, nanos: nanos % 1_000_000_000 }
    }

    pub fn from_millis(millis: u64) -> (span: Self)
        ensures
            span.wf(),
            span.total_nanos() == millis * 1_000_000,
            span.millis() == millis,
    {
        Span { secs: millis / 1_000, nanos: (millis % 1_000) as u32 * 1_000_000 }
    }

    pub fn from_secs(secs: u64) -> (span: Self)
        ensures
            span.wf(),
            span.total_nanos() == secs * 1_000_000_000,
            span.seconds() == secs,
    {
        Span { secs, nanos: 0 }
    }

    pub fn is_zero(&self) -> (zero: bool)
        requires
            self.wf(),
        ensures
            zero == (self.total_nanos() == 0),
    {
        self.secs == 0 && self.nanos == 0
    }

    pub fn as_millis(&self) -> (millis: u128)
        requires
            self.wf(),
        ensures
            millis == self.millis(),
    {
        self.secs as u128 * 1_000 + (self.nanos / 1_000_000) as u128
    }

    pub fn as_nanos(&self) -> (nanos: u128)
        requires
            self.wf(),
        ensures
            nanos == self.total_nanos(),
    {
        self.secs as u128 * 1_000_000_000 + self.nanos as u128
    }

    pub fn as_secs(&self) -> (secs: u64)
        requires
            self.wf(),
        ensures
            secs == self.seconds(),
    {
        self.secs
    }

    /// The nanoseconds left over of the last whole second.
    pub fn subsec_nanos(&self) -> (nanos: u32)
        requires
            self.wf(),
        ensures
            nanos == self.total_nanos() % 1_000_000_000,
    {
        self.nanos
    }
}

/// Milliseconds and seconds are whole: what is left over of the last one does not
/// count.
pub proof fn law_spans_are_rounded_down(span: Span)
    ensures
        span.millis() * 1_000_000 <= span.total_nanos() < (span.millis() + 1) * 1_000_000,
        span.seconds() * 1_000_000_000 <= span.total_nanos() < (span.seconds() + 1) * 1_000_000_000,
{
}

} // verus!
