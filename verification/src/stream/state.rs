//! A stream that carries a state of the caller's.

use vstd::prelude::*;

use crate::sealed::Sealed;
use crate::stream::{BorrowState, Stream};

verus! {

/// A stream with a state beside it, such as a list of the errors that were
/// recovered from.  Reading moves the stream and leaves the state alone.
#[derive(Debug, PartialEq, Eq, PartialOrd, Ord, Hash)]
pub struct StreamWithState<S: Stream, State> {
    pub stream: S,
    pub state: State,
}

impl<S: Stream + Clone, State: Clone> Clone for StreamWithState<S, State> {
    fn clone(&self) -> (copy: Self)
        ensures
            cloned(self.stream, copy.stream),
            cloned(self.state, copy.state),
    {
        StreamWithState { stream: self.stream.clone(), state: self.state.clone() }
    }
}

impl<S: Stream + Copy, State: Copy> Copy for StreamWithState<S, State> {

}

impl<S: Stream, State> StreamWithState<S, State> {
    /// Pair a stream with a state.
    pub fn new(stream: S, state: State) -> (with_state: Self)
        ensures
            with_state.stream == stream,
            with_state.state == state,
    {
        Self { stream, state }
    }
}

impl<S: Stream, State> Stream for StreamWithState<S, State> {
    type Token = S::Token;

    type Slice = S::Slice;

    type SliceRef = S::SliceRef;

    type Span = S::Span;

    open spec fn wf(&self) -> bool {
        self.stream.wf()
    }

    open spec fn tokens(&self) -> Seq<S::Token> {
        self.stream.tokens()
    }

    open spec fn cursor(&self) -> nat {
        self.stream.cursor()
    }

    open spec fn position(&self) -> usize {
        self.stream.position()
    }

    open spec fn advanced(&self, n: nat) -> Self {
        StreamWithState { stream: self.stream.advanced(n), state: self.state }
    }

    open spec fn reaches(&self, later: &Self) -> bool {
        self.stream.reaches(&later.stream)
    }

    open spec fn next_span(&self) -> S::Span {
        self.stream.next_span()
    }

    open spec fn prev_span(&self) -> S::Span {
        self.stream.prev_span()
    }

    open spec fn matches(&self, slice: &S::Slice) -> Option<nat> {
        self.stream.matches(slice)
    }

    open spec fn can_slice(&self, start: usize, end: usize) -> bool {
        self.stream.can_slice(start, end)
    }

    open spec fn is_slice(&self, start: usize, end: usize, slice: S::SliceRef) -> bool {
        self.stream.is_slice(start, end, slice)
    }

    proof fn lemma_cursor_in_bounds(&self) {
        self.stream.lemma_cursor_in_bounds();
    }

    proof fn lemma_advanced(&self, n: nat) {
        self.stream.lemma_advanced(n);
    }

    proof fn lemma_advanced_twice(&self, n: nat, m: nat) {
        self.stream.lemma_advanced_twice(n, m);
    }

    proof fn lemma_matches(&self, slice: &S::Slice) {
        self.stream.lemma_matches(slice);
    }

    proof fn lemma_reaches_refl(&self) {
        self.stream.lemma_reaches_refl();
    }

    proof fn lemma_reaches_trans(&self, mid: &Self, later: &Self) {
        self.stream.lemma_reaches_trans(&mid.stream, &later.stream);
    }

    proof fn lemma_reaches(&self, later: &Self) {
        self.stream.lemma_reaches(&later.stream);
    }

    fn peek_token(&self) -> (token: Option<S::Token>) {
        self.stream.peek_token()
    }

    fn next_token(&mut self) -> (token: Option<S::Token>) {
        self.stream.next_token()
    }

    fn peek_slice(&self, slice: &S::Slice) -> (found: Option<S::SliceRef>) {
        self.stream.peek_slice(slice)
    }

    fn eat_slice(&mut self, slice: &S::Slice) -> (found: Option<S::SliceRef>) {
        self.stream.eat_slice(slice)
    }

    fn try_slice(&self, start: usize, end: usize) -> (slice: Option<S::SliceRef>) {
        self.stream.try_slice(start, end)
    }

    fn peek_token_span(&self) -> (span: S::Span) {
        self.stream.peek_token_span()
    }

    fn prev_token_span(&self) -> (span: S::Span) {
        self.stream.prev_token_span()
    }

    fn stream_position(&self) -> (position: usize) {
        self.stream.stream_position()
    }

    fn at_end(&self) -> (ended: bool) {
        self.stream.at_end()
    }
}

impl<S: Stream, State> Sealed for StreamWithState<S, State> {

}

impl<S: Stream, State> BorrowState for StreamWithState<S, State> {
    type State = State;

    open spec fn state(&self) -> State {
        self.state
    }

    open spec fn with_state(&self, state: State) -> Self {
        StreamWithState { stream: self.stream, state }
    }

    proof fn lemma_with_state(&self) {
        self.stream.lemma_reaches_refl();
    }

    fn borrow_state(&mut self) -> (state: &mut State) {
        &mut self.state
    }
}

} // verus!
