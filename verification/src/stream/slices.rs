//! A stream over the elements of a slice.

use core::ops::Range;
use vstd::prelude::*;
use vstd::slice::{axiom_spec_len, slice_subrange};
use vstd::std_specs::cmp::PartialEqSpec;

use crate::combinator::alt::clone_is_exact;
use crate::span::Span;
use crate::stream::Stream;

verus! {

/// `Clone::clone` of a `Range`: a range from a clone of the start to a clone
/// of the end.
pub assume_specification<Idx: Clone>[ <Range<Idx> as Clone>::clone ](
    range: &Range<Idx>,
) -> (copy: Range<Idx>)
    ensures
        cloned(range.start, copy.start),
        cloned(range.end, copy.end),
;

/// A clone of a range of positions is the same range, so that such ranges
/// can be the spans of a [`SliceStream`].
pub proof fn lemma_range_clone_is_exact()
    ensures
        clone_is_exact::<Range<usize>>(),
{
}

/// An element of a slice that stands for a token and knows its span.
pub trait AsToken: 'static {
    type Token: PartialEq;

    type Span: Span + Clone;

    /// The token that the element stands for.
    spec fn token(&self) -> Self::Token;

    /// The span of the source that the element came from.
    spec fn span(&self) -> Self::Span;

    fn as_token(&self) -> (token: Self::Token)
        ensures
            token == self.token(),
    ;

    fn as_span(&self) -> (span: Self::Span)
        ensures
            span == self.span(),
    ;
}

/// Whether two slices hold equal items, compared pairwise by `==`.
pub open spec fn items_equal<T: PartialEq>(left: Seq<T>, right: Seq<T>) -> bool {
    &&& left.len() == right.len()
    &&& forall|i: int| 0 <= i < left.len() ==> (#[trigger] left[i]).eq_spec(&right[i])
}

/// Whether comparing two slices item by item with `==`, first to last, can
/// give `same`: every pair compared equal, or the lengths differ or some pair
/// compared unequal.
pub open spec fn compares<T: PartialEq>(left: Seq<T>, right: Seq<T>, same: bool) -> bool {
    if same {
        &&& left.len() == right.len()
        &&& forall|i: int|
            0 <= i < left.len() ==> #[trigger] call_ensures(
                <T as PartialEq>::eq,
                (&left[i], &right[i]),
                true,
            )
    } else {
        ||| left.len() != right.len()
        ||| exists|i: int|
            0 <= i < left.len() && #[trigger] call_ensures(
                <T as PartialEq>::eq,
                (&left[i], &right[i]),
                false,
            )
    }
}

/// Compare two slices item by item.
pub fn same_items<T: PartialEq>(left: &[T], right: &[T]) -> (same: bool)
    ensures
        compares(left@, right@, same),
        T::obeys_eq_spec() ==> same == items_equal(left@, right@),
{
    if left.len() != right.len() {
        return false;
    }
    let mut i: usize = 0;
    while i < left.len()
        invariant
            left.len() == right.len(),
            i <= left.len(),
            forall|j: int|
                0 <= j < i ==> #[trigger] call_ensures(
                    <T as PartialEq>::eq,
                    (&left@[j], &right@[j]),
                    true,
                ),
            T::obeys_eq_spec() ==> forall|j: int|
                0 <= j < i ==> (#[trigger] left@[j]).eq_spec(&right@[j]),
        decreases left.len() - i,
    {
        if !left[i].eq(&right[i]) {
            return false;
        }
        i = i + 1;
    }
    true
}

/// A stream of the elements of a slice.
///
/// Its tokens are those that the elements stand for; its positions are
/// indices into the slice, and its slices are parts of the slice.  Past the
/// last element it reports the span that it was made with.
#[derive(Debug, PartialEq, Eq, Hash)]
pub struct SliceStream<'a, T: AsToken> {
    all: &'a [T],
    pos: usize,
    end: T::Span,
}

impl<'a, T: AsToken + PartialEq> Clone for SliceStream<'a, T> {
    fn clone(&self) -> (copy: Self)
        ensures
            copy.items() == self.items(),
            copy.position() == self.position(),
            cloned(self.end_span(), copy.end_span()),
    {
        Self { all: self.all, pos: self.pos, end: self.end.clone() }
    }
}

impl<'a, T: AsToken + PartialEq> SliceStream<'a, T> {
    /// A stream at the start of `slice`, with `end` as the span of its end.
    ///
    /// The stream compares items by `==` and clones its end span: both have
    /// to behave as values do.
    pub fn new(slice: &'a [T], end: T::Span) -> (stream: Self)
        requires
            T::obeys_eq_spec(),
            clone_is_exact::<T::Span>(),
        ensures
            stream.wf(),
            stream.items() == slice@,
            stream.end_span() == end,
            stream.cursor() == 0,
            stream.position() == 0,
    {
        proof {
            axiom_spec_len(slice);
        }
        Self { all: slice, pos: 0, end }
    }

    /// The elements that the stream reads.
    pub closed spec fn items(&self) -> Seq<T> {
        self.all@
    }

    /// The span that the stream reports at its end.
    pub closed spec fn end_span(&self) -> T::Span {
        self.end
    }

    /// How the model of a stream hangs together: the tokens are those of
    /// the elements, the position is the cursor, and the spans are those of
    /// the elements on either side of it.
    pub proof fn lemma_model(&self)
        requires
            self.wf(),
        ensures
            self.cursor() <= self.items().len(),
            self.tokens().len() == self.items().len(),
            forall|i: int|
                0 <= i < self.items().len() ==> (#[trigger] self.tokens()[i])
                    == self.items()[i].token(),
            self.position() == self.cursor(),
            self.next_span() == if self.cursor() < self.items().len() {
                self.items()[self.cursor() as int].span()
            } else {
                self.end_span()
            },
            self.prev_span() == if self.cursor() > 0 {
                self.items()[self.cursor() - 1].span()
            } else {
                self.next_span()
            },
            forall|n: nat|
                self.cursor() + n <= self.items().len() ==> {
                    &&& (#[trigger] self.advanced(n)).items() == self.items()
                    &&& self.advanced(n).end_span() == self.end_span()
                    &&& self.advanced(n).position() == self.cursor() + n
                },
    {
    }
}

impl<'a, T: AsToken + PartialEq> Stream for SliceStream<'a, T> {
    type Token = T::Token;

    type Slice = [T];

    type SliceRef = &'a [T];

    type Span = T::Span;

    closed spec fn wf(&self) -> bool {
        &&& self.pos <= self.all@.len() <= usize::MAX
        &&& T::obeys_eq_spec()
        &&& clone_is_exact::<T::Span>()
    }

    closed spec fn tokens(&self) -> Seq<T::Token> {
        Seq::new(self.all@.len(), |i: int| self.all@[i].token())
    }

    closed spec fn cursor(&self) -> nat {
        self.pos as nat
    }

    closed spec fn position(&self) -> usize {
        self.pos
    }

    closed spec fn advanced(&self, n: nat) -> Self {
        SliceStream { all: self.all, pos: (self.pos + n) as usize, end: self.end }
    }

    closed spec fn reaches(&self, later: &Self) -> bool {
        &&& later.all == self.all
        &&& later.end == self.end
        &&& self.pos <= later.pos
    }

    closed spec fn next_span(&self) -> T::Span {
        if self.pos < self.all@.len() {
            self.all@[self.pos as int].span()
        } else {
            self.end
        }
    }

    closed spec fn prev_span(&self) -> T::Span {
        if self.pos > 0 {
            self.all@[self.pos - 1].span()
        } else {
            self.next_span()
        }
    }

    open spec fn matches(&self, slice: &[T]) -> Option<nat> {
        if self.cursor() + slice@.len() <= self.items().len() && items_equal(
            self.items().subrange(self.cursor() as int, (self.cursor() + slice@.len()) as int),
            slice@,
        ) {
            Some(slice@.len())
        } else {
            None
        }
    }

    open spec fn can_slice(&self, start: usize, end: usize) -> bool {
        start <= end <= self.items().len()
    }

    open spec fn is_slice(&self, start: usize, end: usize, slice: &'a [T]) -> bool {
        slice@ == self.items().subrange(start as int, end as int)
    }

    proof fn lemma_cursor_in_bounds(&self) {
    }

    proof fn lemma_advanced(&self, n: nat) {
    }

    proof fn lemma_advanced_twice(&self, n: nat, m: nat) {
    }

    proof fn lemma_matches(&self, slice: &[T]) {
    }

    proof fn lemma_reaches_refl(&self) {
    }

    proof fn lemma_reaches_trans(&self, mid: &Self, later: &Self) {
    }

    proof fn lemma_reaches(&self, later: &Self) {
        assert(later.tokens() =~= self.tokens());
    }

    fn peek_token(&self) -> (token: Option<T::Token>) {
        if self.pos < self.all.len() {
            Some(self.all[self.pos].as_token())
        } else {
            None
        }
    }

    fn next_token(&mut self) -> (token: Option<T::Token>) {
        if self.pos < self.all.len() {
            let token = self.all[self.pos].as_token();
            self.pos = self.pos + 1;
            Some(token)
        } else {
            None
        }
    }

    fn peek_slice(&self, slice: &[T]) -> (found: Option<&'a [T]>) {
        let n = slice.len();
        if n <= self.all.len() - self.pos {
            let prefix = slice_subrange(self.all, self.pos, self.pos + n);
            if same_items(prefix, slice) {
                return Some(prefix);
            }
        }
        None
    }

    fn eat_slice(&mut self, slice: &[T]) -> (found: Option<&'a [T]>) {
        let found = self.peek_slice(slice);
        if found.is_some() {
            self.pos = self.pos + slice.len();
        }
        found
    }

    fn try_slice(&self, start: usize, end: usize) -> (slice: Option<&'a [T]>) {
        if start <= end && end <= self.all.len() {
            Some(slice_subrange(self.all, start, end))
        } else {
            None
        }
    }

    fn peek_token_span(&self) -> (span: T::Span) {
        if self.pos < self.all.len() {
            self.all[self.pos].as_span()
        } else {
            let span = self.end.clone();
            assert(cloned(self.end, span));
            span
        }
    }

    fn prev_token_span(&self) -> (span: T::Span) {
        if self.pos > 0 {
            self.all[self.pos - 1].as_span()
        } else {
            self.peek_token_span()
        }
    }

    fn stream_position(&self) -> (position: usize) {
        self.pos
    }
}

} // verus!
