//! Half-open ranges of source positions.
use std::ops::Range;
use vstd::prelude::*;
use vstd::std_specs::convert::FromSpecImpl;

verus! {

/// The half-open range `from..to` of character positions in a source text.
///
/// Spans are carried for diagnostics only; nothing in the language's meaning
/// depends on them.
#[derive(Clone, Copy, Debug, PartialEq, Eq, Structural)]
pub struct Span {
    pub from: usize,
    pub to: usize,
}

impl Span {
    /// The empty span at the start of the text.
    pub fn zero() -> (s: Span)
        ensures
            s == (Span { from: 0, to: 0 }),
    {
        Span { from: 0, to: 0 }
    }

    /// The span of the single character at `offset`.
    pub fn char(offset: usize) -> (s: Span)
        requires
            offset < usize::MAX,
        ensures
            s == (Span { from: offset, to: (offset + 1) as usize }),
    {
        Span { from: offset, to: offset + 1 }
    }
}

/// Conversion of a value that carries a range of positions into one that
/// carries a span.
pub trait IntoSpan<V> {
    fn into_span(self) -> V;
}

impl From<Range<usize>> for Span {
    fn from(value: Range<usize>) -> (r: Self) {
        Self { from: value.start, to: value.end }
    }
}

impl FromSpecImpl<Range<usize>> for Span {
    open spec fn obeys_from_spec() -> bool {
        true
    }

    open spec fn from_spec(value: Range<usize>) -> Self {
        Span { from: value.start, to: value.end }
    }
}

impl<T> IntoSpan<(T, Span)> for (T, Range<usize>) {
    fn into_span(self) -> (r: (T, Span))
        ensures
            r.0 == self.0,
            r.1 == (Span { from: self.1.start, to: self.1.end }),
    {
        (self.0, Span::from(self.1))
    }
}

} // verus!
