use vstd::prelude::*;

verus! {

/// The location of a token in the source text, as a half-open range
/// `[start, end)` of character offsets.
#[derive(Debug, Clone, Copy, PartialEq, Eq, Structural)]
pub struct Span {
    /// Offset of the first character covered by the span.
    pub start: usize,
    /// Offset one past the last character covered by the span.
    pub end: usize,
}

/// A span as it appears in specifications: the same half-open range with
/// mathematical integer endpoints, so that spans over arbitrary character
/// sequences can be spoken of.
pub struct SpanV {
    pub start: int,
    pub end: int,
}

impl Span {
    /// A span is well formed when it is a genuine half-open range.
    pub open spec fn wf(self) -> bool {
        self.start <= self.end
    }
}

impl View for Span {
    type V = SpanV;

    open spec fn view(&self) -> SpanV {
        SpanV { start: self.start as int, end: self.end as int }
    }
}

/// The spec-level span `[start, end)`.
pub open spec fn span_v(start: int, end: int) -> SpanV {
    SpanV { start, end }
}

} // verus!
