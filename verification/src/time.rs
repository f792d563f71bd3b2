//! Wall-clock instants and spans as plain integers.

use vstd::prelude::*;

verus! {

/// Nanoseconds in one second.
pub const NANOS_PER_SEC: u32 = 1_000_000_000;

/// A length of time: whole seconds plus a sub-second part below one second.
#[derive(Clone, Copy, Debug, PartialEq, Eq, Structural)]
pub struct Span {
    secs: u64,
    nanos: u32,
}

/// A wall-clock instant, counted from the Unix epoch.
#[derive(Clone, Copy, Debug, PartialEq, Eq, Structural)]
pub struct Timestamp {
    secs: u64,
    nanos: u32,
}

impl View for Span {
    type V = int;

    /// The span in nanoseconds.
    closed spec fn view(&self) -> int {
        self.secs as int * 1_000_000_000 + self.nanos as int
    }
}

impl View for Timestamp {
    type V = int;

    /// Nanoseconds since the Unix epoch.
    closed spec fn view(&self) -> int {
        self.secs as int * 1_000_000_000 + self.nanos as int
    }
}

impl Span {
    /// Whether the sub-second part is below one second, as it is for every
    /// value that executable code can hold.
    #[verifier::type_invariant]
    pub closed spec fn wf(self) -> bool {
        self.nanos < NANOS_PER_SEC
    }

    /// The span of zero length.
    pub fn zero() -> (s: Span)
        ensures
            s@ == 0,
            s.wf(),
    {
        Span { secs: 0, nanos: 0 }
    }

    /// A span of `secs` seconds and `nanos` nanoseconds; `None` when `nanos`
    /// is a second or more.
    pub fn new(secs: u64, nanos: u32) -> (r: Option<Span>)
        ensures
            r.is_some() <==> nanos < NANOS_PER_SEC,
            r matches Some(s) ==> s@ == secs as int * 1_000_000_000 + nanos as int && s.wf(),
    {
        if nanos < NANOS_PER_SEC {
            Some(Span { secs, nanos })
        } else {
            None
        }
    }

    /// A span of whole seconds.
    pub fn from_secs(secs: u64) -> (s: Span)
        ensures
            s@ == secs as int * 1_000_000_000,
            s.wf(),
    {
        Span { secs, nanos: 0 }
    }

    /// The whole seconds of the span.
    pub fn as_secs(&self) -> (secs: u64)
        ensures
            secs as int == self@ / 1_000_000_000,
    {
        proof {
            use_type_invariant(self);
        }
        self.secs
    }

    /// The part of the span below one second, in nanoseconds.
    pub fn subsec_nanos(&self) -> (nanos: u32)
        ensures
            nanos as int == self@ % 1_000_000_000,
            nanos < NANOS_PER_SEC,
    {
        proof {
            use_type_invariant(self);
        }
        self.nanos
    }

    /// Whether this span is at least as long as `other`.
    pub fn at_least(&self, other: &Span) -> (b: bool)
        ensures
            b == (self@ >= other@),
    {
        proof {
            use_type_invariant(self);
            use_type_invariant(other);
        }
        self.secs > other.secs || (self.secs == other.secs && self.nanos >= other.nanos)
    }

    /// Every well-formed span is non-negative, and equal nanosecond counts
    /// mean equal spans.
    pub proof fn lemma_view(a: Span, b: Span)
        requires
            a.wf(),
            b.wf(),
        ensures
            a@ >= 0,
            a@ == b@ <==> a == b,
    {
    }
}

impl Timestamp {
    /// Whether the sub-second part is below one second, as it is for every
    /// value that executable code can hold.
    #[verifier::type_invariant]
    pub closed spec fn wf(self) -> bool {
        self.nanos < NANOS_PER_SEC
    }

    /// The instant `secs` seconds and `nanos` nanoseconds after the epoch;
    /// `None` when `nanos` is a second or more.
    pub fn new(secs: u64, nanos: u32) -> (r: Option<Timestamp>)
        ensures
            r.is_some() <==> nanos < NANOS_PER_SEC,
            r matches Some(t) ==> t@ == secs as int * 1_000_000_000 + nanos as int && t.wf(),
    {
        if nanos < NANOS_PER_SEC {
            Some(Timestamp { secs, nanos })
        } else {
            None
        }
    }

    /// The instant a whole number of seconds after the epoch.
    pub fn from_secs(secs: u64) -> (t: Timestamp)
        ensures
            t@ == secs as int * 1_000_000_000,
            t.wf(),
    {
        Timestamp { secs, nanos: 0 }
    }

    /// Whole seconds since the epoch.
    pub fn secs_since_epoch(&self) -> (secs: u64)
        ensures
            secs as int == self@ / 1_000_000_000,
    {
        proof {
            use_type_invariant(self);
        }
        self.secs
    }

    /// The part below one second, in nanoseconds.
    pub fn subsec_nanos(&self) -> (nanos: u32)
        ensures
            nanos as int == self@ % 1_000_000_000,
            nanos < NANOS_PER_SEC,
    {
        proof {
            use_type_invariant(self);
        }
        self.nanos
    }

    /// The time that passed from `earlier` to `self`; `None` when `earlier`
    /// is in fact the later of the two.
    pub fn duration_since(&self, earlier: &Timestamp) -> (r: Option<Span>)
        ensures
            r.is_some() <==> self@ >= earlier@,
            r matches Some(d) ==> d@ == self@ - earlier@ && d.wf(),
    {
        proof {
            use_type_invariant(self);
            use_type_invariant(earlier);
        }
        if self.secs > earlier.secs {
            if self.nanos >= earlier.nanos {
                Some(Span { secs: self.secs - earlier.secs, nanos: self.nanos - earlier.nanos })
            } else {
                Some(
                    Span {
                        secs: self.secs - earlier.secs - 1,
                        nanos: self.nanos + (NANOS_PER_SEC - earlier.nanos),
                    },
                )
            }
        } else if self.secs == earlier.secs && self.nanos >= earlier.nanos {
            Some(Span { secs: 0, nanos: self.nanos - earlier.nanos })
        } else {
            None
        }
    }

    /// The span from `earlier` to `self`, or the zero span when `earlier` is
    /// the later of the two.
    pub closed spec fn span_since(self, earlier: Timestamp) -> Span {
        if self.secs > earlier.secs && self.nanos >= earlier.nanos {
            Span {
                secs: (self.secs - earlier.secs) as u64,
                nanos: (self.nanos - earlier.nanos) as u32,
            }
        } else if self.secs > earlier.secs {
            Span {
                secs: (self.secs - earlier.secs - 1) as u64,
                nanos: (self.nanos + (NANOS_PER_SEC - earlier.nanos)) as u32,
            }
        } else if self.secs == earlier.secs && self.nanos >= earlier.nanos {
            Span { secs: 0, nanos: (self.nanos - earlier.nanos) as u32 }
        } else {
            Span { secs: 0, nanos: 0 }
        }
    }

    /// `span_since` measures the distance between two instants and never
    /// goes below zero.
    pub proof fn lemma_span_since(self, earlier: Timestamp)
        requires
            self.wf(),
            earlier.wf(),
        ensures
            self.span_since(earlier).wf(),
            self@ >= earlier@ ==> self.span_since(earlier)@ == self@ - earlier@,
            self@ < earlier@ ==> self.span_since(earlier)@ == 0,
    {
    }

    /// The time that passed from `earlier` to `self`, or nothing at all when
    /// the clock went backwards in between.
    pub fn saturating_duration_since(&self, earlier: &Timestamp) -> (d: Span)
        ensures
            d == self.span_since(*earlier),
            d.wf(),
            self@ >= earlier@ ==> d@ == self@ - earlier@,
            self@ < earlier@ ==> d@ == 0,
    {
        proof {
            use_type_invariant(self);
            use_type_invariant(earlier);
            self.lemma_span_since(*earlier);
        }
        match self.duration_since(earlier) {
            Some(d) => {
                proof {
                    use_type_invariant(d);
                    Span::lemma_view(d, self.span_since(*earlier));
                }
                d
            },
            None => Span::zero(),
        }
    }

    /// The present reading of the system clock.
    pub fn now() -> (t: Timestamp)
        ensures
            t.wf(),
    {
        let (secs, nanos) = clock_reading();
        Timestamp { secs, nanos }
    }

    /// Every well-formed instant is at or after the epoch, and equal
    /// nanosecond counts mean equal instants.
    pub proof fn lemma_view(a: Timestamp, b: Timestamp)
        requires
            a.wf(),
            b.wf(),
        ensures
            a@ >= 0,
            a@ == b@ <==> a == b,
    {
    }
}

/// Reads the system clock with `std::time::SystemTime::now` and hands back
/// the whole seconds and the nanoseconds since the Unix epoch. The contract
/// claims only what the standard library documents of every reading: the
/// nanosecond part is below one second. A clock set before the epoch reads
/// as the epoch itself.
#[verifier::external_body]
fn clock_reading() -> (r: (u64, u32))
    ensures
        r.1 < NANOS_PER_SEC,
{
    let since = std::time::SystemTime::now().duration_since(
        std::time::UNIX_EPOCH,
    ).unwrap_or_default();
    (since.as_secs(), since.subsec_nanos())
}

} // verus!
