//! Spans of time, to the nanosecond.
use vstd::prelude::*;

verus! {

/// The number of nanoseconds in a second.
pub const NANOS_PER_SEC: u32 = 1_000_000_000;

/// A span of time: whole seconds, and nanoseconds that are less than a second.
/// Its view is the span in nanoseconds.
#[derive(Debug, Clone, Copy)]
pub struct Duration {
    secs: u64,
    nanos: u32,
}

impl View for Duration {
    type V = nat;

    closed spec fn view(&self) -> nat {
        self.secs as nat * NANOS_PER_SEC as nat + self.nanos as nat
    }
}

/// The text that the `Debug` implementation of `std::time::Duration` writes for
/// a span of so many seconds and so many nanoseconds.
pub uninterp spec fn duration_debug(secs: u64, nanos: u32) -> Seq<char>;

/// Writes a `std::time::Duration` with its `Debug` implementation.
///
/// What is trusted: the text is a function of the span. How the text is made
/// is left unsaid, since the documentation of `Duration` does not lay it down.
#[verifier::external_body]
fn debug_text(secs: u64, nanos: u32) -> (text: String)
    requires
        nanos < NANOS_PER_SEC,
    ensures
        text@ == duration_debug(secs, nanos),
{
    format!("{:?}", std::time::Duration::new(secs, nanos))
}

impl Duration {
    #[verifier::type_invariant]
    spec fn has_proper_nanos(self) -> bool {
        self.nanos < NANOS_PER_SEC
    }

    /// The whole seconds of a span.
    pub closed spec fn whole_secs(self) -> u64 {
        self.secs
    }

    /// The nanoseconds of a span that exceed its whole seconds.
    pub closed spec fn subsec_nanos(self) -> u32 {
        self.nanos
    }

    /// How a span reads in a message.
    pub open spec fn text(self) -> Seq<char> {
        duration_debug(self.whole_secs(), self.subsec_nanos())
    }

    /// A span of `secs` seconds and `nanos` nanoseconds.
    pub fn new(secs: u64, nanos: u32) -> (span: Duration)
        requires
            nanos < NANOS_PER_SEC,
        ensures
            span@ == secs as nat * NANOS_PER_SEC as nat + nanos as nat,
            span.whole_secs() == secs,
            span.subsec_nanos() == nanos,
    {
        Duration { secs, nanos }
    }

    /// A span of so many milliseconds.
    pub fn from_millis(millis: u64) -> (span: Duration)
        ensures
            span@ == millis as nat * 1_000_000,
            span.whole_secs() == millis / 1000,
            span.subsec_nanos() == (millis % 1000) * 1_000_000,
    {
        Duration { secs: millis / 1000, nanos: (millis % 1000) as u32 * 1_000_000 }
    }

    /// The span as whole seconds and the nanoseconds that exceed them.
    pub fn parts(&self) -> (parts: (u64, u32))
        ensures
            parts == (self.whole_secs(), self.subsec_nanos()),
            parts.1 < NANOS_PER_SEC,
            self@ == parts.0 as nat * NANOS_PER_SEC as nat + parts.1 as nat,
    {
        proof {
            use_type_invariant(self);
        }
        (self.secs, self.nanos)
    }

    /// Whether the span is longer than `other`.
    pub fn exceeds(&self, other: &Duration) -> (longer: bool)
        ensures
            longer == (self@ > other@),
    {
        proof {
            use_type_invariant(self);
            use_type_invariant(other);
        }
        self.secs > other.secs || (self.secs == other.secs && self.nanos > other.nanos)
    }

    /// The span as it reads in a message, such as `1s` or `10ms`.
    pub fn to_text(&self) -> (text: String)
        ensures
            text@ == self.text(),
    {
        proof {
            use_type_invariant(self);
        }
        debug_text(self.secs, self.nanos)
    }
}

/// A span that was made of seconds and nanoseconds is that long, has just these
/// parts, and reads as the standard library's span of just as many.
pub proof fn law_span_is_as_made(
    secs: u64,
    nanos: u32,
    span: Duration,
    parts: (u64, u32),
    text: String,
)
    requires
        nanos < 1_000_000_000,
        call_ensures(Duration::new, (secs, nanos), span),
        call_ensures(Duration::parts, (&span,), parts),
        call_ensures(Duration::to_text, (&span,), text),
    ensures
        span@ == secs * 1_000_000_000 + nanos,
        parts.0 == secs,
        parts.1 == nanos,
        text@ == duration_debug(secs, nanos),
{
}

/// A span of milliseconds is that long, and reads as the standard library's span
/// of as many whole seconds and the rest in nanoseconds.
pub proof fn law_millis_are_as_made(millis: u64, span: Duration, parts: (u64, u32), text: String)
    requires
        call_ensures(Duration::from_millis, (millis,), span),
        call_ensures(Duration::parts, (&span,), parts),
        call_ensures(Duration::to_text, (&span,), text),
    ensures
        span@ == millis * 1_000_000,
        parts.0 * 1000 + parts.1 / 1_000_000 == millis,
        parts.1 % 1_000_000 == 0,
        text@ == duration_debug(millis / 1000, ((millis % 1000) * 1_000_000) as u32),
{
}

/// Spans compare as the numbers they were made of: by their seconds, and by
/// their nanoseconds where those are the same.
pub proof fn law_spans_compare_as_made(
    secs: u64,
    nanos: u32,
    other_secs: u64,
    other_nanos: u32,
    span: Duration,
    other: Duration,
    longer: bool,
)
    requires
        nanos < 1_000_000_000,
        other_nanos < 1_000_000_000,
        call_ensures(Duration::new, (secs, nanos), span),
        call_ensures(Duration::new, (other_secs, other_nanos), other),
        call_ensures(Duration::exceeds, (&span, &other), longer),
    ensures
        longer <==> secs > other_secs || secs == other_secs && nanos > other_nanos,
{
}

} // verus!
