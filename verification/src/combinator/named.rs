//! Naming a production.

use std::marker::PhantomData;
use vstd::prelude::*;

use crate::error::Error;
use crate::parser::Parser;
use crate::stream::Stream;

verus! {

/// Replaces the error of a parser by one that names what was expected, at
/// the token that the parser started on.
pub struct Named<P, Name, S, E> {
    pub parser: P,
    pub name: Name,
    pub _phantom: PhantomData<(S, E)>,
}

impl<P, Name, S, E> Named<P, Name, S, E> where
    P: Parser<S, E>,
    Name: Clone + Into<E::Cause>,
    S: Stream,
    E: Error<S>,
 {
    /// Whether `error` names the production at the next token of `input`:
    /// its cause is made of `name`, a clone of the parser's name.
    pub open spec fn names(&self, input: S, name: Name, cause: E::Cause, error: E) -> bool {
        &&& cloned(self.name, name)
        &&& call_ensures(<Name as Into<E::Cause>>::into, (name,), cause)
        &&& error == E::spec_new(cause, input.next_span())
    }

    /// Whether `error` can replace an error of the parser on `input`.
    pub open spec fn renames(&self, input: S, error: E) -> bool {
        exists|name: Name, cause: E::Cause| #[trigger] self.names(input, name, cause, error)
    }
}

impl<P, Name, S, E> Parser<S, E> for Named<P, Name, S, E> where
    P: Parser<S, E>,
    Name: Clone + Into<E::Cause>,
    S: Stream,
    E: Error<S>,
 {
    type Output = P::Output;

    open spec fn inv(&self) -> bool {
        &&& self.parser.inv()
        &&& forall|name: Name| call_requires(<Name as Into<E::Cause>>::into, (name,))
    }

    open spec fn parses(
        &self,
        input: S,
        output: S,
        after: &Self,
        result: Result<P::Output, E>,
    ) -> bool {
        &&& after.name == self.name
        &&& exists|inner: Result<P::Output, E>| #[trigger]
            self.parser.parses(input, output, &after.parser, inner) && match inner {
                Ok(value) => result === Ok(value),
                Err(_) => result matches Err(error) && self.renames(input, error),
            }
    }

    fn parse(&mut self, stream: &mut S) -> (result: Result<P::Output, E>) {
        let ghost this = *self;
        let start_span = stream.peek_token_span();
        let inner = self.parser.parse(stream);
        match inner {
            Ok(value) => {
                assert(this.parser.parses(*old(stream), *stream, &self.parser, inner));
                Ok(value)
            },
            Err(_) => {
                let name = self.name.clone();
                let cause = name.into();
                let error = E::new(cause, start_span);
                let result = Err(error);
                assert(this.names(*old(stream), name, cause, error));
                assert(this.renames(*old(stream), error));
                result
            },
        }
    }
}

} // verus!
