//! The parser contract.

use std::marker::PhantomData;
use vstd::prelude::*;

use crate::combinator::{
    AndThen, AndThenWithState, ByRef, MapErr, MapErrTo, MapErrWithState, MapInto, MapTo,
    MapWithState, Mapped, NoCollection, Opaque, OrElse, OrElseWithState, OrRecover, Prefixed,
    RepeatWhile, Suffixed, ToSlice, WithErrCause, WithErrContext, WithSlice, WithSpan,
};
use crate::error::{Error, ErrorWithContext, Report};
use crate::stream::{BorrowState, Stream};
use crate::token_set::TokenSet;

verus! {

/// Anything that can consume a stream and yield an output or an error.
///
/// What a parser does is stated by the relation [`parses`](Parser::parses)
/// between the stream before, the stream after, the parser after, and the
/// result.  The other methods wrap the parser in a combinator.
#[must_use]
pub trait Parser<S, E> where S: Stream, E: Error<S> {
    type Output;

    /// What the parser needs to hold of itself to run.
    spec fn inv(&self) -> bool;

    /// Whether running this parser on `input` can leave the stream as
    /// `output` and the parser as `after`, and give `result`.
    spec fn parses(
        &self,
        input: S,
        output: S,
        after: &Self,
        result: Result<Self::Output, E>,
    ) -> bool;

    /// Run the parser on a stream.
    fn parse(&mut self, stream: &mut S) -> (result: Result<Self::Output, E>)
        requires
            old(self).inv(),
            old(stream).wf(),
        ensures
            final(self).inv(),
            final(stream).wf(),
            old(stream).reaches(final(stream)),
            old(self).parses(*old(stream), *final(stream), final(self), result),
    ;

    /// Map the output of this parser to another value.
    fn map<F, O>(self, f: F) -> (parser: Mapped<Self, O, F, S, E>) where
        Self: Sized,
        F: FnMut(Self::Output) -> O,

        ensures
            parser.parser == self,
            parser.f == f,
    {
        Mapped { parser: self, f, _phantom: PhantomData }
    }

    /// Map the output of this parser to another value, with access to the stream's state.
    ///
    /// This is for use with the [`StreamWithState`](crate::stream::StreamWithState) stream
    /// type, which as such is the only stream type that implements [`BorrowState`].
    fn map_with_state<F, O>(self, f: F) -> (parser: MapWithState<Self, O, F, S, E>) where
        Self: Sized,
        S: BorrowState,
        F: FnMut(Self::Output, &mut S::State) -> O,

        ensures
            parser.parser == self,
            parser.f == f,
    {
        MapWithState { parser: self, f, _phantom: PhantomData }
    }

    /// Map the output of this parser to a value without requiring a callback.
    fn map_to<O>(self, value: O) -> (parser: MapTo<Self, O, S, E>) where Self: Sized, O: Clone
        ensures
            parser.parser == self,
            parser.value == value,
    {
        MapTo { parser: self, value, _phantom: PhantomData }
    }

    /// Map the error of this parser to another error.
    fn map_err<F>(self, f: F) -> (parser: MapErr<Self, F, S, E>) where
        Self: Sized,
        F: FnMut(E) -> E,

        ensures
            parser.parser == self,
            parser.f == f,
    {
        MapErr { parser: self, f, _phantom: PhantomData }
    }

    /// Map the error of this parser to another error, with access to the stream's state.
    fn map_err_with_state<F>(self, f: F) -> (parser: MapErrWithState<Self, F, S, E>) where
        Self: Sized,
        S: BorrowState,
        F: FnMut(E, &mut S::State) -> E,

        ensures
            parser.parser == self,
            parser.f == f,
    {
        MapErrWithState { parser: self, f, _phantom: PhantomData }
    }

    /// Map the error of this parser to another error without requiring a callback.
    fn map_err_to(self, error: E) -> (parser: MapErrTo<Self, S, E>) where Self: Sized, E: Clone
        ensures
            parser.parser == self,
            parser.error == error,
    {
        MapErrTo { parser: self, error, _phantom: PhantomData }
    }

    /// Map the output of this parser to a result value.
    fn and_then<F, O>(self, f: F) -> (parser: AndThen<Self, F, O, S, E>) where
        Self: Sized,
        F: FnMut(Self::Output) -> Result<O, E>,

        ensures
            parser.parser == self,
            parser.f == f,
    {
        AndThen { parser: self, f, _phantom: PhantomData }
    }

    /// Map the output of this parser to a result value, with access to the stream's state.
    fn and_then_with_state<F, O>(self, f: F) -> (parser: AndThenWithState<Self, F, O, S, E>) where
        Self: Sized,
        F: FnMut(Self::Output, &mut S::State) -> Result<O, E>,
        S: BorrowState,

        ensures
            parser.parser == self,
            parser.f == f,
    {
        AndThenWithState { parser: self, f, _phantom: PhantomData }
    }

    /// Map the error of this parser to a result value.
    fn or_else<F>(self, f: F) -> (parser: OrElse<Self, F, S, E>) where
        Self: Sized,
        F: FnMut(E) -> Result<Self::Output, E>,

        ensures
            parser.parser == self,
            parser.f == f,
    {
        OrElse { parser: self, f, _phantom: PhantomData }
    }

    /// Map the error of this parser to a result value, with access to the stream's state.
    fn or_else_with_state<F>(self, f: F) -> (parser: OrElseWithState<Self, F, S, E>) where
        Self: Sized,
        F: FnMut(E, &mut S::State) -> Result<Self::Output, E>,
        S: BorrowState,

        ensures
            parser.parser == self,
            parser.f == f,
    {
        OrElseWithState { parser: self, f, _phantom: PhantomData }
    }

    /// Map the output of this parser to the parsed value's source slice.
    fn to_slice(self) -> (parser: ToSlice<Self, S, E>) where Self: Sized
        ensures
            parser.parser == self,
    {
        ToSlice { parser: self, _phantom: PhantomData }
    }

    /// Map the output of this parser to `(output, slice)`.
    fn with_slice(self) -> (parser: WithSlice<Self, S, E>) where Self: Sized
        ensures
            parser.parser == self,
    {
        WithSlice { parser: self, _phantom: PhantomData }
    }

    /// Map the output of this parser to `(output, span)`.
    fn with_span(self) -> (parser: WithSpan<Self, S, E>) where Self: Sized
        ensures
            parser.parser == self,
    {
        WithSpan { parser: self, _phantom: PhantomData }
    }

    /// Call [`Into::into`] on the output of this parser.
    fn map_into<O>(self) -> (parser: MapInto<Self, O, S, E>) where
        Self: Sized,
        O: From<Self::Output>,

        ensures
            parser.parser == self,
    {
        MapInto { parser: self, _phantom: PhantomData }
    }

    /// Discard the output of this parser (and output `()` instead).
    fn drop(self) -> (parser: MapTo<Self, (), S, E>) where Self: Sized
        ensures
            parser.parser == self,
    {
        MapTo { parser: self, value: (), _phantom: PhantomData }
    }

    /// Run this parser followed by another, discarding the first parser's output.
    fn drop_then<P>(self, parser: P) -> (prefixed: Prefixed<Self, P, S, E>) where Self: Sized
        ensures
            prefixed.prefix == self,
            prefixed.parser == parser,
    {
        Prefixed { prefix: self, parser, _phantom: PhantomData }
    }

    /// Run this parser followed by another, discarding the second parser's output.
    fn then_drop<P>(self, parser: P) -> (suffixed: Suffixed<Self, P, S, E>) where Self: Sized
        ensures
            suffixed.parser == self,
            suffixed.suffix == parser,
    {
        Suffixed { parser: self, suffix: parser, _phantom: PhantomData }
    }

    /// Repeat this parser while the next token is in the set `f`; a
    /// predicate on tokens is such a set.
    ///
    /// Does not consume the tokens that the set is asked about.  An iteration
    /// that succeeds without consuming a token ends the repetition with an
    /// error.
    fn repeat_while<F>(self, f: F) -> (parser: RepeatWhile<Self, F, NoCollection, S, E>) where
        Self: Sized,
        F: TokenSet<S::Token>,

        ensures
            parser.parser == self,
            parser.f == f,
            parser.min == 0,
            parser.max == None::<usize>,
    {
        RepeatWhile { parser: self, f, min: 0, max: None, _phantom: PhantomData }
    }

    /// If this parser fails, report the error and then recover by running another parser.
    fn or_recover<R>(self, recover: R) -> (parser: OrRecover<Self, R, S, E>) where
        Self: Sized,
        S: BorrowState<State: Report<E>>,

        ensures
            parser.parser == self,
            parser.recover == recover,
    {
        OrRecover { parser: self, recover, _phantom: PhantomData }
    }

    /// Set the cause for errors produced by this parser.
    fn with_err_cause<F>(self, make_cause: F) -> (parser: WithErrCause<Self, F, S, E>) where
        Self: Sized,
        F: FnMut() -> E::Cause,

        ensures
            parser.parser == self,
            parser.make_cause == make_cause,
    {
        WithErrCause { parser: self, make_cause, _phantom: PhantomData }
    }

    /// Add context to errors produced by this parser.
    fn with_err_context<F, Context>(self, make_context: F) -> (parser: WithErrContext<
        Self,
        F,
        Context,
        S,
        E,
    >) where Self: Sized, F: FnMut() -> Context, E: ErrorWithContext<S, Context: From<Context>>
        ensures
            parser.parser == self,
            parser.make_context == make_context,
    {
        WithErrContext { parser: self, make_context, _phantom: PhantomData }
    }

    /// Take this parser by reference.
    fn by_ref(&mut self) -> (parser: ByRef<'_, Self, S, E>) where Self: Sized
        ensures
            *parser.parser == *old(self),
            *final(self) == *final(parser.parser),
    {
        ByRef { parser: self, _phantom: PhantomData }
    }

    /// Hide the type of the parser.
    ///
    /// This is useful for debugging as it can simplify type errors,
    /// but it will hide the traits that the parser implements such as [`Clone`], which
    /// can cause additional type errors.
    fn opaque(self) -> (parser: Opaque<Self, S, E>) where Self: Sized
        ensures
            parser.parser == self,
    {
        Opaque { parser: self, _phantom: PhantomData }
    }
}

/// Run a parser on a stream: `parser.parse(stream)`, with the output type as
/// a parameter of its own.
///
/// Verified callers whose stream type borrows its input run their parsers
/// through this function: a direct call of `parse` there does not pass the
/// verifier's lifetime check.
pub fn run<S, O, E, P>(parser: &mut P, stream: &mut S) -> (result: Result<O, E>) where
    S: Stream,
    E: Error<S>,
    P: Parser<S, E, Output = O>,

    requires
        old(parser).inv(),
        old(stream).wf(),
    ensures
        final(parser).inv(),
        final(stream).wf(),
        old(stream).reaches(final(stream)),
        old(parser).parses(*old(stream), *final(stream), final(parser), result),
{
    parser.parse(stream)
}

} // verus!
