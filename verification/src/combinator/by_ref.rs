//! Borrowing a parser, and hiding its type.

use std::marker::PhantomData;
use vstd::prelude::*;

use crate::error::Error;
use crate::parser::Parser;
use crate::stream::Stream;

verus! {

/// A parser taken by reference: running it runs the parser it borrows.
#[derive(Debug, PartialEq, Eq, PartialOrd, Ord, Hash)]
pub struct ByRef<'a, P, S, E> {
    pub parser: &'a mut P,
    pub _phantom: PhantomData<(S, E)>,
}

impl<'a, P, S, E> Parser<S, E> for ByRef<'a, P, S, E> where
    P: Parser<S, E>,
    S: Stream,
    E: Error<S>,
 {
    type Output = P::Output;

    open spec fn inv(&self) -> bool {
        self.parser.inv()
    }

    open spec fn parses(
        &self,
        input: S,
        output: S,
        after: &Self,
        result: Result<P::Output, E>,
    ) -> bool {
        self.parser.parses(input, output, &*after.parser, result)
    }

    fn parse(&mut self, stream: &mut S) -> (result: Result<P::Output, E>) {
        self.parser.parse(stream)
    }
}

/// A parser behind a type that shows nothing of it but that it parses.
pub struct Opaque<P, S, E> {
    pub parser: P,
    pub _phantom: PhantomData<(S, E)>,
}

impl<P, S, E> Parser<S, E> for Opaque<P, S, E> where P: Parser<S, E>, S: Stream, E: Error<S> {
    type Output = P::Output;

    open spec fn inv(&self) -> bool {
        self.parser.inv()
    }

    open spec fn parses(
        &self,
        input: S,
        output: S,
        after: &Self,
        result: Result<P::Output, E>,
    ) -> bool {
        self.parser.parses(input, output, &after.parser, result)
    }

    fn parse(&mut self, stream: &mut S) -> (result: Result<P::Output, E>) {
        self.parser.parse(stream)
    }
}

} // verus!
