//! Spans: ranges of source positions that can be merged.

use core::cmp::Ordering;
use core::ops::Range;
use vstd::prelude::*;
use vstd::std_specs::cmp::OrdSpec;

verus! {

/// A region of the source that can grow to cover another one.
pub trait Span: Sized {
    /// Whether `merge` and `merge_right` compute what `spec_merge` and
    /// `spec_merge_right` say.
    spec fn obeys_span_spec() -> bool;

    /// The span that covers both `self` and `other`.
    spec fn spec_merge(self, other: Self) -> Self;

    /// The span that starts where `self` starts and ends where the later of
    /// the two ends.
    spec fn spec_merge_right(self, other: Self) -> Self;

    /// Grow the span to cover `other` too.
    fn merge(self, other: Self) -> (merged: Self)
        ensures
            Self::obeys_span_spec() ==> merged == self.spec_merge(other),
    ;

    /// Grow the span to the right, up to the end of `other` if that lies
    /// further on.
    fn merge_right(self, other: Self) -> (merged: Self)
        ensures
            Self::obeys_span_spec() ==> merged == self.spec_merge_right(other),
    ;
}

/// The later of two ends, as `Ord::max` picks it.
pub open spec fn later<T: Ord>(end: T, other: T) -> T {
    match other.cmp_spec(&end) {
        Ordering::Less => end,
        Ordering::Equal => other,
        Ordering::Greater => other,
    }
}

/// The earlier of two starts, as `Ord::min` picks it.
pub open spec fn earlier<T: Ord>(start: T, other: T) -> T {
    match other.cmp_spec(&start) {
        Ordering::Less => other,
        Ordering::Equal => start,
        Ordering::Greater => start,
    }
}

impl<T: Ord> Span for Range<T> {
    open spec fn obeys_span_spec() -> bool {
        T::obeys_cmp_spec()
    }

    open spec fn spec_merge(self, other: Self) -> Self {
        Range { start: earlier(self.start, other.start), end: later(self.end, other.end) }
    }

    open spec fn spec_merge_right(self, other: Self) -> Self {
        Range { start: self.start, end: later(self.end, other.end) }
    }

    fn merge(self, other: Self) -> (merged: Self) {
        Range { start: self.start.min(other.start), end: self.end.max(other.end) }
    }

    fn merge_right(self, other: Self) -> (merged: Self)
        ensures
            merged.start == self.start,
    {
        Range { start: self.start, end: self.end.max(other.end) }
    }
}

/// Merging to the right keeps the start and never moves the end back.
pub proof fn lemma_merge_right_monotone(start_span: Range<usize>, end_span: Range<usize>)
    ensures
        start_span.spec_merge_right(end_span).start == start_span.start,
        start_span.spec_merge_right(end_span).end >= start_span.end,
        start_span.spec_merge_right(end_span).end >= end_span.end,
        start_span.spec_merge_right(end_span).end == start_span.end
            || start_span.spec_merge_right(end_span).end == end_span.end,
{
}

/// Merging covers both spans and nothing beyond them.
pub proof fn lemma_merge_covers(span: Range<usize>, other: Range<usize>)
    ensures
        span.spec_merge(other).start <= span.start,
        span.spec_merge(other).start <= other.start,
        span.spec_merge(other).end >= span.end,
        span.spec_merge(other).end >= other.end,
        span.spec_merge(other).start == span.start || span.spec_merge(other).start == other.start,
        span.spec_merge(other).end == span.end || span.spec_merge(other).end == other.end,
{
}

} // verus!
