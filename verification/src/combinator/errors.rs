//! Combinators that annotate a parser's error.

use std::marker::PhantomData;
use vstd::prelude::*;

use crate::combinator::map::covered;
use crate::error::{Error, ErrorWithContext};
use crate::parser::Parser;
use crate::span::Span;
use crate::stream::Stream;

verus! {

/// Replaces the cause of a parser's error by one made on the failure path.
#[derive(Debug, PartialEq, Eq, PartialOrd, Ord, Hash)]
pub struct WithErrCause<P, MakeCause, S, E> {
    pub parser: P,
    pub make_cause: MakeCause,
    pub _phantom: PhantomData<(S, E)>,
}

impl<P: Clone, MakeCause: Clone, S, E> Clone for WithErrCause<P, MakeCause, S, E> {
    fn clone(&self) -> (copy: Self)
        ensures
            cloned(self.parser, copy.parser),
            cloned(self.make_cause, copy.make_cause),
    {
        WithErrCause {
            parser: self.parser.clone(),
            make_cause: self.make_cause.clone(),
            _phantom: PhantomData,
        }
    }
}

impl<P: Copy, MakeCause: Copy, S, E> Copy for WithErrCause<P, MakeCause, S, E> {

}

impl<P, MakeCause, S, E> Parser<S, E> for WithErrCause<P, MakeCause, S, E> where
    P: Parser<S, E>,
    MakeCause: FnMut() -> E::Cause,
    S: Stream,
    E: Error<S>,
 {
    type Output = P::Output;

    open spec fn inv(&self) -> bool {
        &&& self.parser.inv()
        &&& call_requires(self.make_cause, ())
    }

    open spec fn parses(
        &self,
        input: S,
        output: S,
        after: &Self,
        result: Result<P::Output, E>,
    ) -> bool {
        &&& after.make_cause == self.make_cause
        &&& exists|inner: Result<P::Output, E>| #[trigger]
            self.parser.parses(input, output, &after.parser, inner) && match inner {
                Ok(value) => result === Ok(value),
                Err(error) => exists|cause: E::Cause| #[trigger]
                    call_ensures(self.make_cause, (), cause) && result === Err(
                        error.spec_set_cause(cause),
                    ),
            }
    }

    fn parse(&mut self, stream: &mut S) -> (result: Result<P::Output, E>) {
        let ghost input = *stream;
        let ghost this = *self;
        let inner = self.parser.parse(stream);
        let ghost stopped = *stream;
        let result = match inner {
            Ok(value) => Ok(value),
            Err(error) => {
                let mut error = error;
                error.set_cause((self.make_cause)());
                Err(error)
            },
        };
        assert(this.parser.parses(input, stopped, &self.parser, inner));
        result
    }
}

/// Wraps a parser's error in a layer of context made on the failure path.
///
/// The layer's span runs from the token that the parser started on to the
/// last token that it consumed.
#[derive(Debug, PartialEq, Eq, PartialOrd, Ord, Hash)]
pub struct WithErrContext<P, MakeContext, Context, S, E> {
    pub parser: P,
    pub make_context: MakeContext,
    pub _phantom: PhantomData<(Context, S, E)>,
}

impl<P: Clone, MakeContext: Clone, Context, S, E> Clone for WithErrContext<P, MakeContext, Context, S, E> {
    fn clone(&self) -> (copy: Self)
        ensures
            cloned(self.parser, copy.parser),
            cloned(self.make_context, copy.make_context),
    {
        WithErrContext {
            parser: self.parser.clone(),
            make_context: self.make_context.clone(),
            _phantom: PhantomData,
        }
    }
}

impl<P: Copy, MakeContext: Copy, Context, S, E> Copy for WithErrContext<P, MakeContext, Context, S, E> {

}

impl<P, MakeContext, Context, S, E> Parser<S, E> for WithErrContext<
    P,
    MakeContext,
    Context,
    S,
    E,
> where
    P: Parser<S, E>,
    MakeContext: FnMut() -> Context,
    S: Stream,
    E: ErrorWithContext<S, Context: From<Context>>,
 {
    type Output = P::Output;

    open spec fn inv(&self) -> bool {
        &&& self.parser.inv()
        &&& call_requires(self.make_context, ())
        &&& S::Span::obeys_span_spec()
        &&& forall|made: Context|
            call_requires(<E::Context as From<Context>>::from, (made,))
    }

    open spec fn parses(
        &self,
        input: S,
        output: S,
        after: &Self,
        result: Result<P::Output, E>,
    ) -> bool {
        &&& after.make_context == self.make_context
        &&& exists|inner: Result<P::Output, E>| #[trigger]
            self.parser.parses(input, output, &after.parser, inner) && match inner {
                Ok(value) => result === Ok(value),
                Err(error) => exists|made: Context, context: E::Context|
                    {
                        &&& #[trigger] call_ensures(self.make_context, (), made)
                        &&& #[trigger] call_ensures(
                            <E::Context as From<Context>>::from,
                            (made,),
                            context,
                        )
                        &&& result === Err(
                            error.spec_with_context(context, covered(input, output)),
                        )
                    },
            }
    }

    fn parse(&mut self, stream: &mut S) -> (result: Result<P::Output, E>) {
        let ghost input = *stream;
        let ghost this = *self;
        let start_span = stream.peek_token_span();
        let inner = self.parser.parse(stream);
        let ghost stopped = *stream;
        let result = match inner {
            Ok(value) => Ok(value),
            Err(error) => {
                let end_span = stream.prev_token_span();
                let span = start_span.merge_right(end_span);
                let made = (self.make_context)();
                let context = E::Context::from(made);
                Err(error.with_context(context, span))
            },
        };
        assert(this.parser.parses(input, stopped, &self.parser, inner));
        result
    }
}

} // verus!
