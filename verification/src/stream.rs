//! Streams: read cursors over a sequence of tokens.

use vstd::prelude::*;

use crate::span::Span;

mod chars;
mod slices;
mod state;
pub mod utf8;

pub use chars::{len_utf8, same_bytes, CharStream};
pub use slices::{
    compares, items_equal, lemma_range_clone_is_exact, same_items, AsToken, SliceStream,
};
pub use state::StreamWithState;

verus! {

/// The unconsumed tokens of a stream.
pub open spec fn remaining<S: Stream>(stream: S) -> Seq<S::Token> {
    stream.tokens().skip(stream.cursor() as int)
}

/// The token that a stream would yield next.
pub open spec fn first<S: Stream>(stream: S) -> Option<S::Token> {
    if stream.cursor() < stream.tokens().len() {
        Some(stream.tokens()[stream.cursor() as int])
    } else {
        None
    }
}

/// A cursor over an immutable sequence of tokens.
///
/// A stream is modelled by the tokens of its whole input and by the number of
/// tokens consumed so far.  Reading moves the cursor forward only; a stream
/// `a` [`reaches`](Stream::reaches) a stream `b` when `b` is `a` after some
/// more reading.
pub trait Stream: Sized {
    type Token: PartialEq;

    type Slice: ?Sized + 'static;

    type SliceRef: core::ops::Deref<Target = Self::Slice> + Copy;

    type Span: Span;

    /// The stream's internal invariant.
    spec fn wf(&self) -> bool;

    /// Every token of the input, consumed or not.
    spec fn tokens(&self) -> Seq<Self::Token>;

    /// The number of tokens consumed so far.
    spec fn cursor(&self) -> nat;

    /// The position that `stream_position` reports.
    spec fn position(&self) -> usize;

    /// The stream after `n` more tokens were consumed.
    spec fn advanced(&self, n: nat) -> Self;

    /// Whether `later` is this stream after some more reading.
    spec fn reaches(&self, later: &Self) -> bool;

    /// The span of the next token, or of the end of the input.
    spec fn next_span(&self) -> Self::Span;

    /// The span of the token consumed last.
    spec fn prev_span(&self) -> Self::Span;

    /// The number of tokens that `slice` covers, if the unconsumed input
    /// starts with it.
    spec fn matches(&self, slice: &Self::Slice) -> Option<nat>;

    /// Whether the positions `start` and `end` delimit a slice of the input.
    spec fn can_slice(&self, start: usize, end: usize) -> bool;

    /// Whether `slice` is the part of the input between `start` and `end`.
    spec fn is_slice(&self, start: usize, end: usize, slice: Self::SliceRef) -> bool;

    /// The cursor never passes the end of the input.
    proof fn lemma_cursor_in_bounds(&self)
        requires
            self.wf(),
        ensures
            self.cursor() <= self.tokens().len(),
    ;

    /// Advancing within the input moves the cursor and nothing else.
    proof fn lemma_advanced(&self, n: nat)
        requires
            self.wf(),
            self.cursor() + n <= self.tokens().len(),
        ensures
            self.advanced(n).wf(),
            self.advanced(n).tokens() == self.tokens(),
            self.advanced(n).cursor() == self.cursor() + n,
            self.reaches(&self.advanced(n)),
            n == 0 ==> self.advanced(n) == *self,
    ;

    /// Advancing twice is advancing once by the sum.
    proof fn lemma_advanced_twice(&self, n: nat, m: nat)
        requires
            self.wf(),
            self.cursor() + n + m <= self.tokens().len(),
        ensures
            self.advanced(n).advanced(m) == self.advanced(n + m),
    ;

    /// A slice that matches lies within the unconsumed input.
    proof fn lemma_matches(&self, slice: &Self::Slice)
        requires
            self.wf(),
        ensures
            self.matches(slice) matches Some(n) ==> self.cursor() + n <= self.tokens().len(),
    ;

    /// A stream reaches itself.
    proof fn lemma_reaches_refl(&self)
        requires
            self.wf(),
        ensures
            self.reaches(self),
    ;

    /// Reading on from a stream that was reached is reading on from the
    /// first one.
    proof fn lemma_reaches_trans(&self, mid: &Self, later: &Self)
        requires
            self.reaches(mid),
            mid.reaches(later),
        ensures
            self.reaches(later),
    ;

    /// What reading leaves as it was, and how the position follows the
    /// cursor.
    proof fn lemma_reaches(&self, later: &Self)
        requires
            self.wf(),
            later.wf(),
            self.reaches(later),
        ensures
            later.tokens() == self.tokens(),
            self.cursor() <= later.cursor(),
            self.position() <= later.position(),
            self.position() == later.position() <==> self.cursor() == later.cursor(),
            later.can_slice(self.position(), later.position()),
    ;

    /// Look at the next token without consuming it.
    fn peek_token(&self) -> (token: Option<Self::Token>)
        requires
            self.wf(),
        ensures
            token == (if self.cursor() < self.tokens().len() {
                Some(self.tokens()[self.cursor() as int])
            } else {
                None
            }),
    ;

    /// Consume the next token.
    fn next_token(&mut self) -> (token: Option<Self::Token>)
        requires
            old(self).wf(),
        ensures
            final(self).wf(),
            old(self).reaches(final(self)),
            token == (if old(self).cursor() < old(self).tokens().len() {
                Some(old(self).tokens()[old(self).cursor() as int])
            } else {
                None
            }),
            *final(self) == if token is Some {
                old(self).advanced(1)
            } else {
                *old(self)
            },
    ;

    /// The part of the input that equals `slice`, if the unconsumed input
    /// starts with it.
    fn peek_slice(&self, slice: &Self::Slice) -> (found: Option<Self::SliceRef>)
        requires
            self.wf(),
        ensures
            found is Some <==> self.matches(slice) is Some,
            found matches Some(s) ==> self.is_slice(
                self.position(),
                self.advanced(self.matches(slice).unwrap()).position(),
                s,
            ),
    ;

    /// Consume `slice`, if the unconsumed input starts with it.
    fn eat_slice(&mut self, slice: &Self::Slice) -> (found: Option<Self::SliceRef>)
        requires
            old(self).wf(),
        ensures
            final(self).wf(),
            old(self).reaches(final(self)),
            found is Some <==> old(self).matches(slice) is Some,
            found matches Some(s) ==> final(self).is_slice(
                old(self).position(),
                final(self).position(),
                s,
            ),
            *final(self) == if let Some(n) = old(self).matches(slice) {
                old(self).advanced(n)
            } else {
                *old(self)
            },
    ;

    /// The part of the input between two positions, consumed or not; or
    /// nothing, if the positions do not delimit a part of this input.
    fn try_slice(&self, start: usize, end: usize) -> (slice: Option<Self::SliceRef>)
        requires
            self.wf(),
        ensures
            slice is Some <==> self.can_slice(start, end),
            slice matches Some(s) ==> self.is_slice(start, end, s),
    ;

    /// The span of the next token.
    fn peek_token_span(&self) -> (span: Self::Span)
        requires
            self.wf(),
        ensures
            span == self.next_span(),
    ;

    /// The span of the token that was consumed last.
    fn prev_token_span(&self) -> (span: Self::Span)
        requires
            self.wf(),
        ensures
            span == self.prev_span(),
    ;

    /// Where the cursor stands.  Positions grow with reading, and delimit
    /// slices.
    fn stream_position(&self) -> (position: usize)
        requires
            self.wf(),
        ensures
            position == self.position(),
    ;

    /// Whether every token was consumed.
    fn at_end(&self) -> (ended: bool)
        requires
            self.wf(),
        ensures
            ended == (self.cursor() >= self.tokens().len()),
    {
        self.peek_token().is_none()
    }

    /// The part of the input between two positions that delimit one.
    fn slice(&self, start: usize, end: usize) -> (slice: Self::SliceRef)
        requires
            self.wf(),
            self.can_slice(start, end),
        ensures
            self.is_slice(start, end, slice),
    {
        self.try_slice(start, end).expect("slice out of bounds")
    }
}

/// A stream that carries a state of the caller's beside its cursor.
pub trait BorrowState: Stream + crate::sealed::Sealed {
    type State;

    /// The state that the stream carries.
    spec fn state(&self) -> Self::State;

    /// The stream with its state replaced, and its cursor where it was.
    spec fn with_state(&self, state: Self::State) -> Self;

    /// Replacing the state leaves the input and the cursor as they were.
    proof fn lemma_with_state(&self)
        requires
            self.wf(),
        ensures
            self.with_state(self.state()) == *self,
            forall|state: Self::State|
                {
                    &&& (#[trigger] self.with_state(state)).wf()
                    &&& self.reaches(&self.with_state(state))
                    &&& self.with_state(state).state() == state
                },
    ;

    /// Borrow the state, to read or to change it.
    fn borrow_state(&mut self) -> (state: &mut Self::State)
        ensures
            *state == old(self).state(),
            *final(self) == old(self).with_state(*final(state)),
    ;
}

} // verus!
