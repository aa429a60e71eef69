//! Combinators that transform a parser's result.

use std::marker::PhantomData;
use vstd::prelude::*;

use crate::error::Error;
use crate::parser::Parser;
use crate::span::Span;
use crate::stream::Stream;

verus! {

/// Applies a function to the output of a parser.
#[derive(Debug, PartialEq, Eq, PartialOrd, Ord, Hash)]
pub struct Mapped<P, O, F, S, E> {
    pub parser: P,
    pub f: F,
    pub _phantom: PhantomData<(S, O, E)>,
}

impl<P: Clone, O, F: Clone, S, E> Clone for Mapped<P, O, F, S, E> {
    fn clone(&self) -> (copy: Self)
        ensures
            cloned(self.parser, copy.parser),
            cloned(self.f, copy.f),
    {
        Mapped { parser: self.parser.clone(), f: self.f.clone(), _phantom: PhantomData }
    }
}

impl<P: Copy, O, F: Copy, S, E> Copy for Mapped<P, O, F, S, E> {

}

impl<P, O, F, S, E> Parser<S, E> for Mapped<P, O, F, S, E> where
    P: Parser<S, E>,
    F: FnMut(P::Output) -> O,
    S: Stream,
    E: Error<S>,
 {
    type Output = O;

    open spec fn inv(&self) -> bool {
        &&& self.parser.inv()
        &&& forall|output: P::Output| call_requires(self.f, (output,))
    }

    open spec fn parses(&self, input: S, output: S, after: &Self, result: Result<O, E>) -> bool {
        &&& after.f == self.f
        &&& exists|inner: Result<P::Output, E>| #[trigger]
            self.parser.parses(input, output, &after.parser, inner) && match inner {
                Ok(value) => result matches Ok(mapped) && call_ensures(self.f, (value,), mapped),
                Err(error) => result === Err(error),
            }
    }

    fn parse(&mut self, stream: &mut S) -> (result: Result<O, E>) {
        let ghost input = *stream;
        let ghost this = *self;
        let inner = self.parser.parse(stream);
        let ghost stopped = *stream;
        let result = match inner {
            Ok(value) => Ok((self.f)(value)),
            Err(error) => Err(error),
        };
        assert(this.parser.parses(input, stopped, &self.parser, inner));
        result
    }
}

/// Replaces the output of a parser by a value.
#[derive(Debug, PartialEq, Eq, PartialOrd, Ord, Hash)]
pub struct MapTo<P, O, S, E> {
    pub parser: P,
    pub value: O,
    pub _phantom: PhantomData<(S, E)>,
}

impl<P: Clone, O: Clone, S, E> Clone for MapTo<P, O, S, E> {
    fn clone(&self) -> (copy: Self)
        ensures
            cloned(self.parser, copy.parser),
            cloned(self.value, copy.value),
    {
        MapTo { parser: self.parser.clone(), value: self.value.clone(), _phantom: PhantomData }
    }
}

impl<P: Copy, O: Copy, S, E> Copy for MapTo<P, O, S, E> {

}

impl<P, O, S, E> Parser<S, E> for MapTo<P, O, S, E> where
    P: Parser<S, E>,
    O: Clone,
    S: Stream,
    E: Error<S>,
 {
    type Output = O;

    open spec fn inv(&self) -> bool {
        self.parser.inv()
    }

    open spec fn parses(&self, input: S, output: S, after: &Self, result: Result<O, E>) -> bool {
        &&& after.value == self.value
        &&& exists|inner: Result<P::Output, E>| #[trigger]
            self.parser.parses(input, output, &after.parser, inner) && match inner {
                Ok(_) => result matches Ok(value) && cloned(self.value, value),
                Err(error) => result === Err(error),
            }
    }

    fn parse(&mut self, stream: &mut S) -> (result: Result<O, E>) {
        let ghost input = *stream;
        let ghost this = *self;
        let inner = self.parser.parse(stream);
        let ghost stopped = *stream;
        let result = match inner {
            Ok(_) => Ok(self.value.clone()),
            Err(error) => Err(error),
        };
        assert(this.parser.parses(input, stopped, &self.parser, inner));
        result
    }
}

/// Applies a function to the error of a parser.
#[derive(Debug, PartialEq, Eq, PartialOrd, Ord, Hash)]
pub struct MapErr<P, F, S, E> {
    pub parser: P,
    pub f: F,
    pub _phantom: PhantomData<(S, E)>,
}

impl<P: Clone, F: Clone, S, E> Clone for MapErr<P, F, S, E> {
    fn clone(&self) -> (copy: Self)
        ensures
            cloned(self.parser, copy.parser),
            cloned(self.f, copy.f),
    {
        MapErr { parser: self.parser.clone(), f: self.f.clone(), _phantom: PhantomData }
    }
}

impl<P: Copy, F: Copy, S, E> Copy for MapErr<P, F, S, E> {

}

impl<P, F, S, E> Parser<S, E> for MapErr<P, F, S, E> where
    P: Parser<S, E>,
    F: FnMut(E) -> E,
    S: Stream,
    E: Error<S>,
 {
    type Output = P::Output;

    open spec fn inv(&self) -> bool {
        &&& self.parser.inv()
        &&& forall|error: E| call_requires(self.f, (error,))
    }

    open spec fn parses(
        &self,
        input: S,
        output: S,
        after: &Self,
        result: Result<P::Output, E>,
    ) -> bool {
        &&& after.f == self.f
        &&& exists|inner: Result<P::Output, E>| #[trigger]
            self.parser.parses(input, output, &after.parser, inner) && match inner {
                Ok(value) => result === Ok(value),
                Err(error) => result matches Err(mapped) && call_ensures(self.f, (error,), mapped),
            }
    }

    fn parse(&mut self, stream: &mut S) -> (result: Result<P::Output, E>) {
        let ghost input = *stream;
        let ghost this = *self;
        let inner = self.parser.parse(stream);
        let ghost stopped = *stream;
        let result = match inner {
            Ok(value) => Ok(value),
            Err(error) => Err((self.f)(error)),
        };
        assert(this.parser.parses(input, stopped, &self.parser, inner));
        result
    }
}

/// Replaces the error of a parser by another.
#[derive(Debug, PartialEq, Eq, PartialOrd, Ord, Hash)]
pub struct MapErrTo<P, S, E> {
    pub parser: P,
    pub error: E,
    pub _phantom: PhantomData<S>,
}

impl<P: Clone, S, E: Clone> Clone for MapErrTo<P, S, E> {
    fn clone(&self) -> (copy: Self)
        ensures
            cloned(self.parser, copy.parser),
            cloned(self.error, copy.error),
    {
        MapErrTo { parser: self.parser.clone(), error: self.error.clone(), _phantom: PhantomData }
    }
}

impl<P: Copy, S, E: Copy> Copy for MapErrTo<P, S, E> {

}

impl<P, S, E> Parser<S, E> for MapErrTo<P, S, E> where
    P: Parser<S, E>,
    S: Stream,
    E: Error<S> + Clone,
 {
    type Output = P::Output;

    open spec fn inv(&self) -> bool {
        self.parser.inv()
    }

    open spec fn parses(
        &self,
        input: S,
        output: S,
        after: &Self,
        result: Result<P::Output, E>,
    ) -> bool {
        &&& after.error == self.error
        &&& exists|inner: Result<P::Output, E>| #[trigger]
            self.parser.parses(input, output, &after.parser, inner) && match inner {
                Ok(value) => result === Ok(value),
                Err(_) => result matches Err(error) && cloned(self.error, error),
            }
    }

    fn parse(&mut self, stream: &mut S) -> (result: Result<P::Output, E>) {
        let ghost input = *stream;
        let ghost this = *self;
        let inner = self.parser.parse(stream);
        let ghost stopped = *stream;
        let result = match inner {
            Ok(value) => Ok(value),
            Err(_) => Err(self.error.clone()),
        };
        assert(this.parser.parses(input, stopped, &self.parser, inner));
        result
    }
}

/// Applies a function that may fail to the output of a parser.
#[derive(Debug, PartialEq, Eq, PartialOrd, Ord, Hash)]
pub struct AndThen<P, F, O, S, E> {
    pub parser: P,
    pub f: F,
    pub _phantom: PhantomData<(S, O, E)>,
}

impl<P: Clone, F: Clone, O, S, E> Clone for AndThen<P, F, O, S, E> {
    fn clone(&self) -> (copy: Self)
        ensures
            cloned(self.parser, copy.parser),
            cloned(self.f, copy.f),
    {
        AndThen { parser: self.parser.clone(), f: self.f.clone(), _phantom: PhantomData }
    }
}

impl<P: Copy, F: Copy, O, S, E> Copy for AndThen<P, F, O, S, E> {

}

impl<P, F, O, S, E> Parser<S, E> for AndThen<P, F, O, S, E> where
    P: Parser<S, E>,
    F: FnMut(P::Output) -> Result<O, E>,
    S: Stream,
    E: Error<S>,
 {
    type Output = O;

    open spec fn inv(&self) -> bool {
        &&& self.parser.inv()
        &&& forall|output: P::Output| call_requires(self.f, (output,))
    }

    open spec fn parses(&self, input: S, output: S, after: &Self, result: Result<O, E>) -> bool {
        &&& after.f == self.f
        &&& exists|inner: Result<P::Output, E>| #[trigger]
            self.parser.parses(input, output, &after.parser, inner) && match inner {
                Ok(value) => call_ensures(self.f, (value,), result),
                Err(error) => result === Err(error),
            }
    }

    fn parse(&mut self, stream: &mut S) -> (result: Result<O, E>) {
        let ghost input = *stream;
        let ghost this = *self;
        let inner = self.parser.parse(stream);
        let ghost stopped = *stream;
        let result = match inner {
            Ok(value) => (self.f)(value),
            Err(error) => Err(error),
        };
        assert(this.parser.parses(input, stopped, &self.parser, inner));
        result
    }
}

/// Applies a function that may succeed to the error of a parser.
#[derive(Debug, PartialEq, Eq, PartialOrd, Ord, Hash)]
pub struct OrElse<P, F, S, E> {
    pub parser: P,
    pub f: F,
    pub _phantom: PhantomData<(S, E)>,
}

impl<P: Clone, F: Clone, S, E> Clone for OrElse<P, F, S, E> {
    fn clone(&self) -> (copy: Self)
        ensures
            cloned(self.parser, copy.parser),
            cloned(self.f, copy.f),
    {
        OrElse { parser: self.parser.clone(), f: self.f.clone(), _phantom: PhantomData }
    }
}

impl<P: Copy, F: Copy, S, E> Copy for OrElse<P, F, S, E> {

}

impl<P, F, S, E> Parser<S, E> for OrElse<P, F, S, E> where
    P: Parser<S, E>,
    F: FnMut(E) -> Result<P::Output, E>,
    S: Stream,
    E: Error<S>,
 {
    type Output = P::Output;

    open spec fn inv(&self) -> bool {
        &&& self.parser.inv()
        &&& forall|error: E| call_requires(self.f, (error,))
    }

    open spec fn parses(
        &self,
        input: S,
        output: S,
        after: &Self,
        result: Result<P::Output, E>,
    ) -> bool {
        &&& after.f == self.f
        &&& exists|inner: Result<P::Output, E>| #[trigger]
            self.parser.parses(input, output, &after.parser, inner) && match inner {
                Ok(value) => result === Ok(value),
                Err(error) => call_ensures(self.f, (error,), result),
            }
    }

    fn parse(&mut self, stream: &mut S) -> (result: Result<P::Output, E>) {
        let ghost input = *stream;
        let ghost this = *self;
        let inner = self.parser.parse(stream);
        let ghost stopped = *stream;
        let result = match inner {
            Ok(value) => Ok(value),
            Err(error) => (self.f)(error),
        };
        assert(this.parser.parses(input, stopped, &self.parser, inner));
        result
    }
}

/// Converts the output of a parser by `From`.
#[derive(Debug, PartialEq, Eq, PartialOrd, Ord, Hash)]
pub struct MapInto<P, O, S, E> {
    pub parser: P,
    pub _phantom: PhantomData<(S, O, E)>,
}

impl<P: Clone, O, S, E> Clone for MapInto<P, O, S, E> {
    fn clone(&self) -> (copy: Self)
        ensures
            cloned(self.parser, copy.parser),
    {
        MapInto { parser: self.parser.clone(), _phantom: PhantomData }
    }
}

impl<P: Copy, O, S, E> Copy for MapInto<P, O, S, E> {

}

impl<P, O, S, E> Parser<S, E> for MapInto<P, O, S, E> where
    P: Parser<S, E>,
    O: From<P::Output>,
    S: Stream,
    E: Error<S>,
 {
    type Output = O;

    open spec fn inv(&self) -> bool {
        &&& self.parser.inv()
        &&& forall|value: P::Output| call_requires(<O as From<P::Output>>::from, (value,))
    }

    open spec fn parses(&self, input: S, output: S, after: &Self, result: Result<O, E>) -> bool {
        exists|inner: Result<P::Output, E>| #[trigger]
            self.parser.parses(input, output, &after.parser, inner) && match inner {
                Ok(value) => result matches Ok(converted) && call_ensures(
                    <O as From<P::Output>>::from,
                    (value,),
                    converted,
                ),
                Err(error) => result === Err(error),
            }
    }

    fn parse(&mut self, stream: &mut S) -> (result: Result<O, E>) {
        let ghost input = *stream;
        let ghost this = *self;
        let inner = self.parser.parse(stream);
        let ghost stopped = *stream;
        let result = match inner {
            Ok(value) => Ok(O::from(value)),
            Err(error) => Err(error),
        };
        assert(this.parser.parses(input, stopped, &self.parser, inner));
        result
    }
}

/// Replaces the output of a parser by the slice of the input that the
/// parser consumed.
#[derive(Debug, PartialEq, Eq, PartialOrd, Ord, Hash)]
pub struct ToSlice<P, S, E> {
    pub parser: P,
    pub _phantom: PhantomData<(S, E)>,
}

impl<P: Clone, S, E> Clone for ToSlice<P, S, E> {
    fn clone(&self) -> (copy: Self)
        ensures
            cloned(self.parser, copy.parser),
    {
        ToSlice { parser: self.parser.clone(), _phantom: PhantomData }
    }
}

impl<P: Copy, S, E> Copy for ToSlice<P, S, E> {

}

impl<P, S, E> Parser<S, E> for ToSlice<P, S, E> where P: Parser<S, E>, S: Stream, E: Error<S> {
    type Output = S::SliceRef;

    open spec fn inv(&self) -> bool {
        self.parser.inv()
    }

    open spec fn parses(
        &self,
        input: S,
        output: S,
        after: &Self,
        result: Result<S::SliceRef, E>,
    ) -> bool {
        exists|inner: Result<P::Output, E>| #[trigger]
            self.parser.parses(input, output, &after.parser, inner) && match inner {
                Ok(_) => {
                    &&& result matches Ok(consumed)
                    &&& output.is_slice(input.position(), output.position(), consumed)
                },
                Err(error) => result === Err(error),
            }
    }

    fn parse(&mut self, stream: &mut S) -> (result: Result<S::SliceRef, E>) {
        let ghost input = *stream;
        let ghost this = *self;
        let start = stream.stream_position();
        let inner = self.parser.parse(stream);
        let ghost stopped = *stream;
        let result = match inner {
            Ok(_) => {
                let end = stream.stream_position();
                proof {
                    old(stream).lemma_reaches(stream);
                }
                Ok(stream.slice(start, end))
            },
            Err(error) => Err(error),
        };
        assert(this.parser.parses(input, stopped, &self.parser, inner));
        result
    }
}

/// The slice that `to_slice` yields is the part of the input between the
/// positions before and after a run of the wrapped parser alone, on the same
/// input; and it fails exactly when that run fails, with its error.
pub proof fn lemma_to_slice_round_trip<P, S, E>(
    parser: ToSlice<P, S, E>,
    input: S,
    output: S,
    after: ToSlice<P, S, E>,
    result: Result<S::SliceRef, E>,
) where P: Parser<S, E>, S: Stream, E: Error<S>
    requires
        parser.parses(input, output, &after, result),
    ensures
        exists|inner: Result<P::Output, E>| #[trigger]
            parser.parser.parses(input, output, &after.parser, inner) && match inner {
                Ok(_) => result is Ok,
                Err(error) => result === Err(error),
            },
        result matches Ok(consumed) ==> output.is_slice(
            input.position(),
            output.position(),
            consumed,
        ),
{
}

/// Pairs the output of a parser with the slice of the input that the parser
/// consumed.
#[derive(Debug, PartialEq, Eq, PartialOrd, Ord, Hash)]
pub struct WithSlice<P, S, E> {
    pub parser: P,
    pub _phantom: PhantomData<(S, E)>,
}

impl<P: Clone, S, E> Clone for WithSlice<P, S, E> {
    fn clone(&self) -> (copy: Self)
        ensures
            cloned(self.parser, copy.parser),
    {
        WithSlice { parser: self.parser.clone(), _phantom: PhantomData }
    }
}

impl<P: Copy, S, E> Copy for WithSlice<P, S, E> {

}

impl<P, S, E> Parser<S, E> for WithSlice<P, S, E> where P: Parser<S, E>, S: Stream, E: Error<S> {
    type Output = (P::Output, S::SliceRef);

    open spec fn inv(&self) -> bool {
        self.parser.inv()
    }

    open spec fn parses(
        &self,
        input: S,
        output: S,
        after: &Self,
        result: Result<(P::Output, S::SliceRef), E>,
    ) -> bool {
        exists|inner: Result<P::Output, E>| #[trigger]
            self.parser.parses(input, output, &after.parser, inner) && match inner {
                Ok(value) => {
                    &&& result matches Ok(pair)
                    &&& pair.0 == value
                    &&& output.is_slice(input.position(), output.position(), pair.1)
                },
                Err(error) => result === Err(error),
            }
    }

    fn parse(&mut self, stream: &mut S) -> (result: Result<(P::Output, S::SliceRef), E>) {
        let ghost input = *stream;
        let ghost this = *self;
        let start = stream.stream_position();
        let inner = self.parser.parse(stream);
        let ghost stopped = *stream;
        let result = match inner {
            Ok(value) => {
                let end = stream.stream_position();
                proof {
                    old(stream).lemma_reaches(stream);
                }
                Ok((value, stream.slice(start, end)))
            },
            Err(error) => Err(error),
        };
        assert(this.parser.parses(input, stopped, &self.parser, inner));
        result
    }
}

/// Pairs the output of a parser with the span of what the parser consumed.
#[derive(Debug, PartialEq, Eq, PartialOrd, Ord, Hash)]
pub struct WithSpan<P, S, E> {
    pub parser: P,
    pub _phantom: PhantomData<(S, E)>,
}

impl<P: Clone, S, E> Clone for WithSpan<P, S, E> {
    fn clone(&self) -> (copy: Self)
        ensures
            cloned(self.parser, copy.parser),
    {
        WithSpan { parser: self.parser.clone(), _phantom: PhantomData }
    }
}

impl<P: Copy, S, E> Copy for WithSpan<P, S, E> {

}

/// The span from the next token of `input` to the last token consumed on
/// the way to `output`.
pub open spec fn covered<S: Stream>(input: S, output: S) -> S::Span {
    input.next_span().spec_merge_right(output.prev_span())
}

impl<P, S, E> Parser<S, E> for WithSpan<P, S, E> where P: Parser<S, E>, S: Stream, E: Error<S> {
    type Output = (P::Output, S::Span);

    open spec fn inv(&self) -> bool {
        &&& self.parser.inv()
        &&& S::Span::obeys_span_spec()
    }

    open spec fn parses(
        &self,
        input: S,
        output: S,
        after: &Self,
        result: Result<(P::Output, S::Span), E>,
    ) -> bool {
        exists|inner: Result<P::Output, E>| #[trigger]
            self.parser.parses(input, output, &after.parser, inner) && match inner {
                Ok(value) => result === Ok(
                    (value, covered(input, output)),
                ),
                Err(error) => result === Err(error),
            }
    }

    fn parse(&mut self, stream: &mut S) -> (result: Result<(P::Output, S::Span), E>) {
        let ghost input = *stream;
        let ghost this = *self;
        let start_span = stream.peek_token_span();
        let inner = self.parser.parse(stream);
        let ghost stopped = *stream;
        let result = match inner {
            Ok(value) => {
                let end_span = stream.prev_token_span();
                let span = start_span.merge_right(end_span);
                Ok((value, span))
            },
            Err(error) => Err(error),
        };
        assert(this.parser.parses(input, stopped, &self.parser, inner));
        result
    }
}

} // verus!
