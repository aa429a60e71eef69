//! Recovery: report an error and parse on.

use std::marker::PhantomData;
use vstd::prelude::*;

use crate::error::{Error, Report};
use crate::parser::Parser;
use crate::stream::{BorrowState, Stream};

verus! {

/// Runs a parser and, if it fails, reports the error to the stream's state
/// and runs another parser from where the first one stopped.
#[derive(Debug, PartialEq, Eq, PartialOrd, Ord, Hash)]
pub struct OrRecover<P, R, S, E> {
    pub parser: P,
    pub recover: R,
    pub _phantom: PhantomData<(S, E)>,
}

impl<P: Clone, R: Clone, S, E> Clone for OrRecover<P, R, S, E> {
    fn clone(&self) -> (copy: Self)
        ensures
            cloned(self.parser, copy.parser),
            cloned(self.recover, copy.recover),
    {
        OrRecover {
            parser: self.parser.clone(),
            recover: self.recover.clone(),
            _phantom: PhantomData,
        }
    }
}

impl<P: Copy, R: Copy, S, E> Copy for OrRecover<P, R, S, E> {

}

impl<P, R, S, E> OrRecover<P, R, S, E> where
    P: Parser<S, E>,
    R: Parser<S, E, Output = P::Output>,
    S: Stream + BorrowState<State: Report<E>>,
    E: Error<S>,
 {
    /// The stream that the recovery starts on: `stopped` with `error`
    /// reported to its state.
    pub open spec fn reported(stopped: S, error: E) -> S {
        stopped.with_state(stopped.state().reported(error))
    }

    /// Whether the parser can give `tried` and leave the stream as
    /// `stopped`, and the recovery, if it is needed, give `result`.
    pub open spec fn runs(
        &self,
        input: S,
        tried: Result<P::Output, E>,
        stopped: S,
        output: S,
        after: &Self,
        result: Result<P::Output, E>,
    ) -> bool {
        &&& self.parser.parses(input, stopped, &after.parser, tried)
        &&& match tried {
            Ok(value) => {
                &&& output == stopped
                &&& after.recover == self.recover
                &&& result === Ok(value)
            },
            Err(error) => self.recover.parses(
                Self::reported(stopped, error),
                output,
                &after.recover,
                result,
            ),
        }
    }
}

impl<P, R, S, E> Parser<S, E> for OrRecover<P, R, S, E> where
    P: Parser<S, E>,
    R: Parser<S, E, Output = P::Output>,
    S: Stream + BorrowState<State: Report<E>>,
    E: Error<S>,
 {
    type Output = P::Output;

    open spec fn inv(&self) -> bool {
        &&& self.parser.inv()
        &&& self.recover.inv()
    }

    open spec fn parses(
        &self,
        input: S,
        output: S,
        after: &Self,
        result: Result<P::Output, E>,
    ) -> bool {
        exists|tried: Result<P::Output, E>, stopped: S| #[trigger]
            self.runs(input, tried, stopped, output, after, result)
    }

    fn parse(&mut self, stream: &mut S) -> (result: Result<P::Output, E>) {
        let ghost input = *stream;
        let ghost this = *self;
        let tried = self.parser.parse(stream);
        let ghost stopped = *stream;
        match tried {
            Ok(value) => {
                assert(this.runs(input, tried, stopped, *stream, self, Ok::<P::Output, E>(value)));
                Ok(value)
            },
            Err(error) => {
                stream.borrow_state().report(error);
                proof {
                    stopped.lemma_with_state();
                    input.lemma_reaches_trans(&stopped, stream);
                }
                let ghost resumed = *stream;
                let result = self.recover.parse(stream);
                proof {
                    input.lemma_reaches_trans(&resumed, stream);
                    assert(this.runs(input, tried, stopped, *stream, self, result));
                }
                result
            },
        }
    }
}

} // verus!
