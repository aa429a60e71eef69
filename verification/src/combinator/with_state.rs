//! Combinators whose callback sees the state that the stream carries.

use std::marker::PhantomData;
use vstd::prelude::*;

use crate::error::Error;
use crate::parser::Parser;
use crate::stream::{BorrowState, Stream};

verus! {

/// Whether `output` is `stopped` but for the state that it carries.
pub open spec fn same_but_state<S: BorrowState>(stopped: S, output: S) -> bool {
    output == stopped.with_state(output.state())
}

/// Applies a function to the output of a parser and to the stream's state.
#[derive(Debug, PartialEq, Eq, PartialOrd, Ord, Hash)]
pub struct MapWithState<P, O, F, S, E> {
    pub parser: P,
    pub f: F,
    pub _phantom: PhantomData<(S, O, E)>,
}

impl<P: Clone, O, F: Clone, S, E> Clone for MapWithState<P, O, F, S, E> {
    fn clone(&self) -> (copy: Self)
        ensures
            cloned(self.parser, copy.parser),
            cloned(self.f, copy.f),
    {
        MapWithState { parser: self.parser.clone(), f: self.f.clone(), _phantom: PhantomData }
    }
}

impl<P: Copy, O, F: Copy, S, E> Copy for MapWithState<P, O, F, S, E> {

}

impl<P, O, F, S, E> MapWithState<P, O, F, S, E> where
    P: Parser<S, E>,
    F: FnMut(P::Output, &mut S::State) -> O,
    S: Stream + BorrowState,
    E: Error<S>,
 {
    /// Whether the function, called on `value` and on a state that holds
    /// `state`, can give `mapped`.
    pub open spec fn calls(&self, value: P::Output, state: S::State, mapped: O) -> bool {
        exists|borrowed: &mut S::State|
            *borrowed == state && #[trigger] call_ensures(self.f, (value, borrowed), mapped)
    }

    /// Whether the parser can give `inner` and leave the stream as
    /// `stopped`, and the function, called on the output and on the state of
    /// `stopped`, give what `result` holds.
    pub open spec fn runs(
        &self,
        input: S,
        inner: Result<P::Output, E>,
        stopped: S,
        output: S,
        after: &Self,
        result: Result<O, E>,
    ) -> bool {
        &&& self.parser.parses(input, stopped, &after.parser, inner)
        &&& match inner {
            Err(error) => output == stopped && result === Err(error),
            Ok(value) => {
                &&& same_but_state(stopped, output)
                &&& result matches Ok(mapped)
                &&& self.calls(value, stopped.state(), mapped)
            },
        }
    }
}

impl<P, O, F, S, E> Parser<S, E> for MapWithState<P, O, F, S, E> where
    P: Parser<S, E>,
    F: FnMut(P::Output, &mut S::State) -> O,
    S: Stream + BorrowState,
    E: Error<S>,
 {
    type Output = O;

    open spec fn inv(&self) -> bool {
        &&& self.parser.inv()
        &&& forall|output: P::Output, state: &mut S::State| call_requires(self.f, (output, state))
    }

    open spec fn parses(&self, input: S, output: S, after: &Self, result: Result<O, E>) -> bool {
        &&& after.f == self.f
        &&& exists|inner: Result<P::Output, E>, stopped: S| #[trigger]
            self.runs(input, inner, stopped, output, after, result)
    }

    fn parse(&mut self, stream: &mut S) -> (result: Result<O, E>)
        ensures
            result matches Ok(mapped) ==> exists|
                value: P::Output,
                stopped: S,
                state: &mut S::State,
            |
                {
                    &&& #[trigger] old(self).parser.parses(
                        *old(stream),
                        stopped,
                        &final(self).parser,
                        Ok::<P::Output, E>(value),
                    )
                    &&& *state == stopped.state()
                    &&& *final(state) == final(stream).state()
                    &&& #[trigger] call_ensures(old(self).f, (value, state), mapped)
                },
    {
        let ghost input = *stream;
        let ghost this = *self;
        let inner = self.parser.parse(stream);
        let ghost stopped = *stream;
        match inner {
            Ok(value) => {
                proof {
                    stopped.lemma_with_state();
                }
                let mapped = (self.f)(value, stream.borrow_state());
                proof {
                    input.lemma_reaches_trans(&stopped, stream);
                }
                let result = Ok(mapped);
                assert(this.calls(value, stopped.state(), mapped));
                assert(this.runs(input, inner, stopped, *stream, self, result));
                result
            },
            Err(error) => {
                let result = Err(error);
                assert(this.runs(input, inner, stopped, *stream, self, result));
                result
            },
        }
    }
}

/// Applies a function to the error of a parser and to the stream's state.
#[derive(Debug, PartialEq, Eq, PartialOrd, Ord, Hash)]
pub struct MapErrWithState<P, F, S, E> {
    pub parser: P,
    pub f: F,
    pub _phantom: PhantomData<(S, E)>,
}

impl<P: Clone, F: Clone, S, E> Clone for MapErrWithState<P, F, S, E> {
    fn clone(&self) -> (copy: Self)
        ensures
            cloned(self.parser, copy.parser),
            cloned(self.f, copy.f),
    {
        MapErrWithState { parser: self.parser.clone(), f: self.f.clone(), _phantom: PhantomData }
    }
}

impl<P: Copy, F: Copy, S, E> Copy for MapErrWithState<P, F, S, E> {

}

impl<P, F, S, E> MapErrWithState<P, F, S, E> where
    P: Parser<S, E>,
    S: Stream + BorrowState,
    F: FnMut(E, &mut S::State) -> E,
    E: Error<S>,
 {
    /// Whether the function, called on `error` and on a state that holds
    /// `state`, can give `mapped`.
    pub open spec fn calls(&self, error: E, state: S::State, mapped: E) -> bool {
        exists|borrowed: &mut S::State|
            *borrowed == state && #[trigger] call_ensures(self.f, (error, borrowed), mapped)
    }

    /// Whether the parser can give `inner` and leave the stream as
    /// `stopped`, and the function, called on the error and on the state of
    /// `stopped`, give what `result` holds.
    pub open spec fn runs(
        &self,
        input: S,
        inner: Result<P::Output, E>,
        stopped: S,
        output: S,
        after: &Self,
        result: Result<P::Output, E>,
    ) -> bool {
        &&& self.parser.parses(input, stopped, &after.parser, inner)
        &&& match inner {
            Ok(value) => output == stopped && result === Ok(value),
            Err(error) => {
                &&& same_but_state(stopped, output)
                &&& result matches Err(mapped)
                &&& self.calls(error, stopped.state(), mapped)
            },
        }
    }
}

impl<P, F, S, E> Parser<S, E> for MapErrWithState<P, F, S, E> where
    P: Parser<S, E>,
    S: Stream + BorrowState,
    F: FnMut(E, &mut S::State) -> E,
    E: Error<S>,
 {
    type Output = P::Output;

    open spec fn inv(&self) -> bool {
        &&& self.parser.inv()
        &&& forall|error: E, state: &mut S::State| call_requires(self.f, (error, state))
    }

    open spec fn parses(
        &self,
        input: S,
        output: S,
        after: &Self,
        result: Result<P::Output, E>,
    ) -> bool {
        &&& after.f == self.f
        &&& exists|inner: Result<P::Output, E>, stopped: S| #[trigger]
            self.runs(input, inner, stopped, output, after, result)
    }

    fn parse(&mut self, stream: &mut S) -> (result: Result<P::Output, E>)
        ensures
            result matches Err(mapped) ==> exists|error: E, stopped: S, state: &mut S::State|
                {
                    &&& #[trigger] old(self).parser.parses(
                        *old(stream),
                        stopped,
                        &final(self).parser,
                        Err::<P::Output, E>(error),
                    )
                    &&& *state == stopped.state()
                    &&& *final(state) == final(stream).state()
                    &&& #[trigger] call_ensures(old(self).f, (error, state), mapped)
                },
    {
        let ghost input = *stream;
        let ghost this = *self;
        let inner = self.parser.parse(stream);
        let ghost stopped = *stream;
        match inner {
            Ok(value) => {
                let result = Ok(value);
                assert(this.runs(input, inner, stopped, *stream, self, result));
                result
            },
            Err(error) => {
                proof {
                    stopped.lemma_with_state();
                }
                let mapped = (self.f)(error, stream.borrow_state());
                proof {
                    input.lemma_reaches_trans(&stopped, stream);
                }
                let result = Err(mapped);
                assert(this.calls(error, stopped.state(), mapped));
                assert(this.runs(input, inner, stopped, *stream, self, result));
                result
            },
        }
    }
}

/// Applies a function that may fail to the output of a parser and to the
/// stream's state.
#[derive(Debug, PartialEq, Eq, PartialOrd, Ord, Hash)]
pub struct AndThenWithState<P, F, O, S, E> {
    pub parser: P,
    pub f: F,
    pub _phantom: PhantomData<(S, O, E)>,
}

impl<P: Clone, F: Clone, O, S, E> Clone for AndThenWithState<P, F, O, S, E> {
    fn clone(&self) -> (copy: Self)
        ensures
            cloned(self.parser, copy.parser),
            cloned(self.f, copy.f),
    {
        AndThenWithState { parser: self.parser.clone(), f: self.f.clone(), _phantom: PhantomData }
    }
}

impl<P: Copy, F: Copy, O, S, E> Copy for AndThenWithState<P, F, O, S, E> {

}

impl<P, F, O, S, E> AndThenWithState<P, F, O, S, E> where
    P: Parser<S, E>,
    F: FnMut(P::Output, &mut S::State) -> Result<O, E>,
    S: Stream + BorrowState,
    E: Error<S>,
 {
    /// Whether the function, called on `value` and on a state that holds
    /// `state`, can give `result`.
    pub open spec fn calls(&self, value: P::Output, state: S::State, result: Result<O, E>) -> bool {
        exists|borrowed: &mut S::State|
            *borrowed == state && #[trigger] call_ensures(self.f, (value, borrowed), result)
    }

    /// Whether the parser can give `inner` and leave the stream as
    /// `stopped`, and the function, called on the output and on the state of
    /// `stopped`, give `result`.
    pub open spec fn runs(
        &self,
        input: S,
        inner: Result<P::Output, E>,
        stopped: S,
        output: S,
        after: &Self,
        result: Result<O, E>,
    ) -> bool {
        &&& self.parser.parses(input, stopped, &after.parser, inner)
        &&& match inner {
            Err(error) => output == stopped && result === Err(error),
            Ok(value) => {
                &&& same_but_state(stopped, output)
                &&& self.calls(value, stopped.state(), result)
            },
        }
    }
}

impl<P, F, O, S, E> Parser<S, E> for AndThenWithState<P, F, O, S, E> where
    P: Parser<S, E>,
    F: FnMut(P::Output, &mut S::State) -> Result<O, E>,
    S: Stream + BorrowState,
    E: Error<S>,
 {
    type Output = O;

    open spec fn inv(&self) -> bool {
        &&& self.parser.inv()
        &&& forall|output: P::Output, state: &mut S::State| call_requires(self.f, (output, state))
    }

    open spec fn parses(&self, input: S, output: S, after: &Self, result: Result<O, E>) -> bool {
        &&& after.f == self.f
        &&& exists|inner: Result<P::Output, E>, stopped: S| #[trigger]
            self.runs(input, inner, stopped, output, after, result)
    }

    fn parse(&mut self, stream: &mut S) -> (result: Result<O, E>)
        ensures
            exists|inner: Result<P::Output, E>, stopped: S| #[trigger]
                old(self).parser.parses(*old(stream), stopped, &final(self).parser, inner) && (
                inner matches Ok(value) ==> exists|state: &mut S::State|
                    {
                        &&& *state == stopped.state()
                        &&& *final(state) == final(stream).state()
                        &&& #[trigger] call_ensures(old(self).f, (value, state), result)
                    }),
    {
        let ghost input = *stream;
        let ghost this = *self;
        let inner = self.parser.parse(stream);
        let ghost stopped = *stream;
        match inner {
            Ok(value) => {
                proof {
                    stopped.lemma_with_state();
                }
                let result = (self.f)(value, stream.borrow_state());
                proof {
                    input.lemma_reaches_trans(&stopped, stream);
                }
                assert(this.calls(value, stopped.state(), result));
                assert(this.runs(input, inner, stopped, *stream, self, result));
                result
            },
            Err(error) => {
                let result = Err(error);
                assert(this.runs(input, inner, stopped, *stream, self, result));
                result
            },
        }
    }
}

/// Applies a function that may succeed to the error of a parser and to the
/// stream's state.
#[derive(Debug, PartialEq, Eq, PartialOrd, Ord, Hash)]
pub struct OrElseWithState<P, F, S, E> {
    pub parser: P,
    pub f: F,
    pub _phantom: PhantomData<(S, E)>,
}

impl<P: Clone, F: Clone, S, E> Clone for OrElseWithState<P, F, S, E> {
    fn clone(&self) -> (copy: Self)
        ensures
            cloned(self.parser, copy.parser),
            cloned(self.f, copy.f),
    {
        OrElseWithState { parser: self.parser.clone(), f: self.f.clone(), _phantom: PhantomData }
    }
}

impl<P: Copy, F: Copy, S, E> Copy for OrElseWithState<P, F, S, E> {

}

impl<P, F, S, E> OrElseWithState<P, F, S, E> where
    P: Parser<S, E>,
    F: FnMut(E, &mut S::State) -> Result<P::Output, E>,
    S: Stream + BorrowState,
    E: Error<S>,
 {
    /// Whether the function, called on `error` and on a state that holds
    /// `state`, can give `result`.
    pub open spec fn calls(&self, error: E, state: S::State, result: Result<P::Output, E>) -> bool {
        exists|borrowed: &mut S::State|
            *borrowed == state && #[trigger] call_ensures(self.f, (error, borrowed), result)
    }

    /// Whether the parser can give `inner` and leave the stream as
    /// `stopped`, and the function, called on the error and on the state of
    /// `stopped`, give `result`.
    pub open spec fn runs(
        &self,
        input: S,
        inner: Result<P::Output, E>,
        stopped: S,
        output: S,
        after: &Self,
        result: Result<P::Output, E>,
    ) -> bool {
        &&& self.parser.parses(input, stopped, &after.parser, inner)
        &&& match inner {
            Ok(value) => output == stopped && result === Ok(value),
            Err(error) => {
                &&& same_but_state(stopped, output)
                &&& self.calls(error, stopped.state(), result)
            },
        }
    }
}

impl<P, F, S, E> Parser<S, E> for OrElseWithState<P, F, S, E> where
    P: Parser<S, E>,
    F: FnMut(E, &mut S::State) -> Result<P::Output, E>,
    S: Stream + BorrowState,
    E: Error<S>,
 {
    type Output = P::Output;

    open spec fn inv(&self) -> bool {
        &&& self.parser.inv()
        &&& forall|error: E, state: &mut S::State| call_requires(self.f, (error, state))
    }

    open spec fn parses(
        &self,
        input: S,
        output: S,
        after: &Self,
        result: Result<P::Output, E>,
    ) -> bool {
        &&& after.f == self.f
        &&& exists|inner: Result<P::Output, E>, stopped: S| #[trigger]
            self.runs(input, inner, stopped, output, after, result)
    }

    fn parse(&mut self, stream: &mut S) -> (result: Result<P::Output, E>)
        ensures
            exists|inner: Result<P::Output, E>, stopped: S| #[trigger]
                old(self).parser.parses(*old(stream), stopped, &final(self).parser, inner) && (
                inner matches Err(error) ==> exists|state: &mut S::State|
                    {
                        &&& *state == stopped.state()
                        &&& *final(state) == final(stream).state()
                        &&& #[trigger] call_ensures(old(self).f, (error, state), result)
                    }),
    {
        let ghost input = *stream;
        let ghost this = *self;
        let inner = self.parser.parse(stream);
        let ghost stopped = *stream;
        match inner {
            Ok(value) => {
                let result = Ok(value);
                assert(this.runs(input, inner, stopped, *stream, self, result));
                result
            },
            Err(error) => {
                proof {
                    stopped.lemma_with_state();
                }
                let result = (self.f)(error, stream.borrow_state());
                proof {
                    input.lemma_reaches_trans(&stopped, stream);
                }
                assert(this.calls(error, stopped.state(), result));
                assert(this.runs(input, inner, stopped, *stream, self, result));
                result
            },
        }
    }
}

} // verus!
