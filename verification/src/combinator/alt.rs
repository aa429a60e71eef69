//! Ordered alternation: the first alternative that succeeds wins.

use std::marker::PhantomData;
use vstd::prelude::*;

use crate::error::{Cause, Error};
use crate::parser::Parser;
use crate::stream::Stream;

verus! {

/// Whether a clone of a `T` is always equal to the value it was cloned from.
pub open spec fn clone_is_exact<T: Clone>() -> bool {
    forall|value: T, copy: T| #[trigger] cloned(value, copy) ==> copy == value
}

/// The error of an alternation on `input` of which no alternative
/// succeeded.
pub open spec fn no_alternative<S: Stream, E: Error<S>>(input: S) -> E {
    E::spec_new(E::Cause::spec_unknown(), input.next_span())
}

/// A tuple of parsers with one output type that can be tried in order.
///
/// An alternative that fails consumes nothing: the next one starts where the
/// failed one started.
pub trait AltParsers<S, O, E> where S: Stream, E: Error<S> {
    /// What the parsers need to hold of themselves to run.
    spec fn inv(&self) -> bool;

    /// Whether trying the parsers in order on `input` can leave the stream
    /// as `output` and the parsers as `after`, and give `result`.
    spec fn parses_alt(
        &self,
        input: S,
        output: S,
        after: &Self,
        result: Result<O, E>,
    ) -> bool;

    /// Try the parsers left to right, up to the first success.
    fn parse_alt(&mut self, stream: &mut S) -> (result: Result<O, E>)
        requires
            old(self).inv(),
            old(stream).wf(),
        ensures
            final(self).inv(),
            final(stream).wf(),
            old(stream).reaches(final(stream)),
            old(self).parses_alt(*old(stream), *final(stream), final(self), result),
    ;
}

/// Whether `parser` ran from `input` to `output` with `result`, if the
/// alternation came to try it, and was left alone if not.
pub open spec fn tries_if<S: Stream, E: Error<S>, P: Parser<S, E>>(
    tried: bool,
    parser: &P,
    input: S,
    output: S,
    after: &P,
    result: Result<P::Output, E>,
) -> bool {
    if tried {
        parser.parses(input, output, after, result)
    } else {
        *after == *parser
    }
}

/// Whether one alternative can run as given: each on `input`, as long as none has
/// succeeded.  The result is the first success, on the stream that it left; or,
/// if there is none, an error on `input`.
pub open spec fn alt_1_run<S, O, E, P1>(
    parsers: &(P1,),
    input: S,
    stream_0: S,
    result_0: Result<O, E>,
    output: S,
    after: &(P1,),
    result: Result<O, E>,
) -> bool where
    S: Stream,
    E: Error<S>,
    P1: Parser<S, E, Output = O>,
 {
    &&& parsers.0.parses(input, stream_0, &after.0, result_0)
    &&& (output, result) === match result_0 {
        Ok(value) => (stream_0, Ok(value)),
        Err(_) => (input, Err(no_alternative(input))),
    }
}

impl<S, O, E, P1> AltParsers<S, O, E> for (P1,) where
    S: Stream + Clone,
    E: Error<S>,
    P1: Parser<S, E, Output = O>,
 {
    open spec fn inv(&self) -> bool {
        &&& clone_is_exact::<S>()
        &&& self.0.inv()
    }

    open spec fn parses_alt(
        &self,
        input: S,
        output: S,
        after: &Self,
        result: Result<O, E>,
    ) -> bool {
        exists|stream_0: S, result_0: Result<O, E>| #[trigger]
            alt_1_run(self, input, stream_0, result_0, output, after, result)
    }

    fn parse_alt(&mut self, stream: &mut S) -> (result: Result<O, E>) {
        let ghost input = *stream;
        let ghost this = *self;
        proof {
            input.lemma_reaches_refl();
        }
        let saved = stream.clone();
        assert(cloned(*stream, saved));
        let result_0 = self.0.parse(stream);
        let ghost stream_0 = *stream;
        match result_0 {
            Ok(value) => {
                assert(alt_1_run(&this, input, stream_0, result_0, *stream, self, Ok(value)));
                return Ok(value);
            },
            Err(_) => {
                *stream = saved;
            },
        }
        let result = Err(E::new(E::Cause::unknown(), stream.peek_token_span()));
        assert(alt_1_run(&this, input, stream_0, result_0, *stream, self, result));
        result
    }
}

/// Whether two alternatives can run as given: each on `input`, as long as none has
/// succeeded.  The result is the first success, on the stream that it left; or,
/// if there is none, an error on `input`.
pub open spec fn alt_2_run<S, O, E, P1, P2>(
    parsers: &(P1, P2),
    input: S,
    stream_0: S,
    result_0: Result<O, E>,
    stream_1: S,
    result_1: Result<O, E>,
    output: S,
    after: &(P1, P2),
    result: Result<O, E>,
) -> bool where
    S: Stream,
    E: Error<S>,
    P1: Parser<S, E, Output = O>,
    P2: Parser<S, E, Output = O>,
 {
    let tried_1 = result_0 is Err;
    &&& parsers.0.parses(input, stream_0, &after.0, result_0)
    &&& tries_if(tried_1, &parsers.1, input, stream_1, &after.1, result_1)
    &&& (output, result) === match (result_0, result_1) {
        (Ok(value), _) => (stream_0, Ok(value)),
        (Err(_), Ok(value)) => (stream_1, Ok(value)),
        (Err(_), Err(_)) => (input, Err(no_alternative(input))),
    }
}

impl<S, O, E, P1, P2> AltParsers<S, O, E> for (P1, P2) where
    S: Stream + Clone,
    E: Error<S>,
    P1: Parser<S, E, Output = O>,
    P2: Parser<S, E, Output = O>,
 {
    open spec fn inv(&self) -> bool {
        &&& clone_is_exact::<S>()
        &&& self.0.inv()
        &&& self.1.inv()
    }

    open spec fn parses_alt(
        &self,
        input: S,
        output: S,
        after: &Self,
        result: Result<O, E>,
    ) -> bool {
        exists|stream_0: S, result_0: Result<O, E>, stream_1: S, result_1: Result<O, E>| #[trigger]
            alt_2_run(self, input, stream_0, result_0, stream_1, result_1, output, after, result)
    }

    fn parse_alt(&mut self, stream: &mut S) -> (result: Result<O, E>) {
        let ghost input = *stream;
        let ghost this = *self;
        proof {
            input.lemma_reaches_refl();
        }
        let saved = stream.clone();
        assert(cloned(*stream, saved));
        let result_0 = self.0.parse(stream);
        let ghost stream_0 = *stream;
        match result_0 {
            Ok(value) => {
                assert(alt_2_run(
                    &this,
                    input,
                    stream_0,
                    result_0,
                    arbitrary(),
                    arbitrary(),
                    *stream,
                    self,
                    Ok(value),
                ));
                return Ok(value);
            },
            Err(_) => {
                *stream = saved;
            },
        }
        let saved = stream.clone();
        assert(cloned(*stream, saved));
        let result_1 = self.1.parse(stream);
        let ghost stream_1 = *stream;
        match result_1 {
            Ok(value) => {
                assert(alt_2_run(
                    &this,
                    input,
                    stream_0,
                    result_0,
                    stream_1,
                    result_1,
                    *stream,
                    self,
                    Ok(value),
                ));
                return Ok(value);
            },
            Err(_) => {
                *stream = saved;
            },
        }
        let result = Err(E::new(E::Cause::unknown(), stream.peek_token_span()));
        assert(alt_2_run(
            &this,
            input,
            stream_0,
            result_0,
            stream_1,
            result_1,
            *stream,
            self,
            result,
        ));
        result
    }
}

/// Whether three alternatives can run as given: each on `input`, as long as none has
/// succeeded.  The result is the first success, on the stream that it left; or,
/// if there is none, an error on `input`.
pub open spec fn alt_3_run<S, O, E, P1, P2, P3>(
    parsers: &(P1, P2, P3),
    input: S,
    stream_0: S,
    result_0: Result<O, E>,
    stream_1: S,
    result_1: Result<O, E>,
    stream_2: S,
    result_2: Result<O, E>,
    output: S,
    after: &(P1, P2, P3),
    result: Result<O, E>,
) -> bool where
    S: Stream,
    E: Error<S>,
    P1: Parser<S, E, Output = O>,
    P2: Parser<S, E, Output = O>,
    P3: Parser<S, E, Output = O>,
 {
    let tried_1 = result_0 is Err;
    let tried_2 = tried_1 && result_1 is Err;
    &&& parsers.0.parses(input, stream_0, &after.0, result_0)
    &&& tries_if(tried_1, &parsers.1, input, stream_1, &after.1, result_1)
    &&& tries_if(tried_2, &parsers.2, input, stream_2, &after.2, result_2)
    &&& (output, result) === match (result_0, result_1, result_2) {
        (Ok(value), _, _) => (stream_0, Ok(value)),
        (Err(_), Ok(value), _) => (stream_1, Ok(value)),
        (Err(_), Err(_), Ok(value)) => (stream_2, Ok(value)),
        (Err(_), Err(_), Err(_)) => (input, Err(no_alternative(input))),
    }
}

impl<S, O, E, P1, P2, P3> AltParsers<S, O, E> for (P1, P2, P3) where
    S: Stream + Clone,
    E: Error<S>,
    P1: Parser<S, E, Output = O>,
    P2: Parser<S, E, Output = O>,
    P3: Parser<S, E, Output = O>,
 {
    open spec fn inv(&self) -> bool {
        &&& clone_is_exact::<S>()
        &&& self.0.inv()
        &&& self.1.inv()
        &&& self.2.inv()
    }

    open spec fn parses_alt(
        &self,
        input: S,
        output: S,
        after: &Self,
        result: Result<O, E>,
    ) -> bool {
        exists|
            stream_0: S,
            result_0: Result<O, E>,
            stream_1: S,
            result_1: Result<O, E>,
            stream_2: S,
            result_2: Result<O, E>,
        | #[trigger]
            alt_3_run(
                self,
                input,
                stream_0,
                result_0,
                stream_1,
                result_1,
                stream_2,
                result_2,
                output,
                after,
                result,
            )
    }

    fn parse_alt(&mut self, stream: &mut S) -> (result: Result<O, E>) {
        let ghost input = *stream;
        let ghost this = *self;
        proof {
            input.lemma_reaches_refl();
        }
        let saved = stream.clone();
        assert(cloned(*stream, saved));
        let result_0 = self.0.parse(stream);
        let ghost stream_0 = *stream;
        match result_0 {
            Ok(value) => {
                assert(alt_3_run(
                    &this,
                    input,
                    stream_0,
                    result_0,
                    arbitrary(),
                    arbitrary(),
                    arbitrary(),
                    arbitrary(),
                    *stream,
                    self,
                    Ok(value),
                ));
                return Ok(value);
            },
            Err(_) => {
                *stream = saved;
            },
        }
        let saved = stream.clone();
        assert(cloned(*stream, saved));
        let result_1 = self.1.parse(stream);
        let ghost stream_1 = *stream;
        match result_1 {
            Ok(value) => {
                assert(alt_3_run(
                    &this,
                    input,
                    stream_0,
                    result_0,
                    stream_1,
                    result_1,
                    arbitrary(),
                    arbitrary(),
                    *stream,
                    self,
                    Ok(value),
                ));
                return Ok(value);
            },
            Err(_) => {
                *stream = saved;
            },
        }
        let saved = stream.clone();
        assert(cloned(*stream, saved));
        let result_2 = self.2.parse(stream);
        let ghost stream_2 = *stream;
        match result_2 {
            Ok(value) => {
                assert(alt_3_run(
                    &this,
                    input,
                    stream_0,
                    result_0,
                    stream_1,
                    result_1,
                    stream_2,
                    result_2,
                    *stream,
                    self,
                    Ok(value),
                ));
                return Ok(value);
            },
            Err(_) => {
                *stream = saved;
            },
        }
        let result = Err(E::new(E::Cause::unknown(), stream.peek_token_span()));
        assert(alt_3_run(
            &this,
            input,
            stream_0,
            result_0,
            stream_1,
            result_1,
            stream_2,
            result_2,
            *stream,
            self,
            result,
        ));
        result
    }
}

/// Whether four alternatives can run as given: each on `input`, as long as none has
/// succeeded.  The result is the first success, on the stream that it left; or,
/// if there is none, an error on `input`.
pub open spec fn alt_4_run<S, O, E, P1, P2, P3, P4>(
    parsers: &(P1, P2, P3, P4),
    input: S,
    stream_0: S,
    result_0: Result<O, E>,
    stream_1: S,
    result_1: Result<O, E>,
    stream_2: S,
    result_2: Result<O, E>,
    stream_3: S,
    result_3: Result<O, E>,
    output: S,
    after: &(P1, P2, P3, P4),
    result: Result<O, E>,
) -> bool where
    S: Stream,
    E: Error<S>,
    P1: Parser<S, E, Output = O>,
    P2: Parser<S, E, Output = O>,
    P3: Parser<S, E, Output = O>,
    P4: Parser<S, E, Output = O>,
 {
    let tried_1 = result_0 is Err;
    let tried_2 = tried_1 && result_1 is Err;
    let tried_3 = tried_2 && result_2 is Err;
    &&& parsers.0.parses(input, stream_0, &after.0, result_0)
    &&& tries_if(tried_1, &parsers.1, input, stream_1, &after.1, result_1)
    &&& tries_if(tried_2, &parsers.2, input, stream_2, &after.2, result_2)
    &&& tries_if(tried_3, &parsers.3, input, stream_3, &after.3, result_3)
    &&& (output, result) === match (result_0, result_1, result_2, result_3) {
        (Ok(value), _, _, _) => (stream_0, Ok(value)),
        (Err(_), Ok(value), _, _) => (stream_1, Ok(value)),
        (Err(_), Err(_), Ok(value), _) => (stream_2, Ok(value)),
        (Err(_), Err(_), Err(_), Ok(value)) => (stream_3, Ok(value)),
        (Err(_), Err(_), Err(_), Err(_)) => (input, Err(no_alternative(input))),
    }
}

impl<S, O, E, P1, P2, P3, P4> AltParsers<S, O, E> for (P1, P2, P3, P4) where
    S: Stream + Clone,
    E: Error<S>,
    P1: Parser<S, E, Output = O>,
    P2: Parser<S, E, Output = O>,
    P3: Parser<S, E, Output = O>,
    P4: Parser<S, E, Output = O>,
 {
    open spec fn inv(&self) -> bool {
        &&& clone_is_exact::<S>()
        &&& self.0.inv()
        &&& self.1.inv()
        &&& self.2.inv()
        &&& self.3.inv()
    }

    open spec fn parses_alt(
        &self,
        input: S,
        output: S,
        after: &Self,
        result: Result<O, E>,
    ) -> bool {
        exists|
            stream_0: S,
            result_0: Result<O, E>,
            stream_1: S,
            result_1: Result<O, E>,
            stream_2: S,
            result_2: Result<O, E>,
            stream_3: S,
            result_3: Result<O, E>,
        | #[trigger]
            alt_4_run(
                self,
                input,
                stream_0,
                result_0,
                stream_1,
                result_1,
                stream_2,
                result_2,
                stream_3,
                result_3,
                output,
                after,
                result,
            )
    }

    fn parse_alt(&mut self, stream: &mut S) -> (result: Result<O, E>) {
        let ghost input = *stream;
        let ghost this = *self;
        proof {
            input.lemma_reaches_refl();
        }
        let saved = stream.clone();
        assert(cloned(*stream, saved));
        let result_0 = self.0.parse(stream);
        let ghost stream_0 = *stream;
        match result_0 {
            Ok(value) => {
                assert(alt_4_run(
                    &this,
                    input,
                    stream_0,
                    result_0,
                    arbitrary(),
                    arbitrary(),
                    arbitrary(),
                    arbitrary(),
                    arbitrary(),
                    arbitrary(),
                    *stream,
                    self,
                    Ok(value),
                ));
                return Ok(value);
            },
            Err(_) => {
                *stream = saved;
            },
        }
        let saved = stream.clone();
        assert(cloned(*stream, saved));
        let result_1 = self.1.parse(stream);
        let ghost stream_1 = *stream;
        match result_1 {
            Ok(value) => {
                assert(alt_4_run(
                    &this,
                    input,
                    stream_0,
                    result_0,
                    stream_1,
                    result_1,
                    arbitrary(),
                    arbitrary(),
                    arbitrary(),
                    arbitrary(),
                    *stream,
                    self,
                    Ok(value),
                ));
                return Ok(value);
            },
            Err(_) => {
                *stream = saved;
            },
        }
        let saved = stream.clone();
        assert(cloned(*stream, saved));
        let result_2 = self.2.parse(stream);
        let ghost stream_2 = *stream;
        match result_2 {
            Ok(value) => {
                assert(alt_4_run(
                    &this,
                    input,
                    stream_0,
                    result_0,
                    stream_1,
                    result_1,
                    stream_2,
                    result_2,
                    arbitrary(),
                    arbitrary(),
                    *stream,
                    self,
                    Ok(value),
                ));
                return Ok(value);
            },
            Err(_) => {
                *stream = saved;
            },
        }
        let saved = stream.clone();
        assert(cloned(*stream, saved));
        let result_3 = self.3.parse(stream);
        let ghost stream_3 = *stream;
        match result_3 {
            Ok(value) => {
                assert(alt_4_run(
                    &this,
                    input,
                    stream_0,
                    result_0,
                    stream_1,
                    result_1,
                    stream_2,
                    result_2,
                    stream_3,
                    result_3,
                    *stream,
                    self,
                    Ok(value),
                ));
                return Ok(value);
            },
            Err(_) => {
                *stream = saved;
            },
        }
        let result = Err(E::new(E::Cause::unknown(), stream.peek_token_span()));
        assert(alt_4_run(
            &this,
            input,
            stream_0,
            result_0,
            stream_1,
            result_1,
            stream_2,
            result_2,
            stream_3,
            result_3,
            *stream,
            self,
            result,
        ));
        result
    }
}

/// Whether five alternatives can run as given: each on `input`, as long as none has
/// succeeded.  The result is the first success, on the stream that it left; or,
/// if there is none, an error on `input`.
pub open spec fn alt_5_run<S, O, E, P1, P2, P3, P4, P5>(
    parsers: &(P1, P2, P3, P4, P5),
    input: S,
    stream_0: S,
    result_0: Result<O, E>,
    stream_1: S,
    result_1: Result<O, E>,
    stream_2: S,
    result_2: Result<O, E>,
    stream_3: S,
    result_3: Result<O, E>,
    stream_4: S,
    result_4: Result<O, E>,
    output: S,
    after: &(P1, P2, P3, P4, P5),
    result: Result<O, E>,
) -> bool where
    S: Stream,
    E: Error<S>,
    P1: Parser<S, E, Output = O>,
    P2: Parser<S, E, Output = O>,
    P3: Parser<S, E, Output = O>,
    P4: Parser<S, E, Output = O>,
    P5: Parser<S, E, Output = O>,
 {
    let tried_1 = result_0 is Err;
    let tried_2 = tried_1 && result_1 is Err;
    let tried_3 = tried_2 && result_2 is Err;
    let tried_4 = tried_3 && result_3 is Err;
    &&& parsers.0.parses(input, stream_0, &after.0, result_0)
    &&& tries_if(tried_1, &parsers.1, input, stream_1, &after.1, result_1)
    &&& tries_if(tried_2, &parsers.2, input, stream_2, &after.2, result_2)
    &&& tries_if(tried_3, &parsers.3, input, stream_3, &after.3, result_3)
    &&& tries_if(tried_4, &parsers.4, input, stream_4, &after.4, result_4)
    &&& (output, result) === match (result_0, result_1, result_2, result_3, result_4) {
        (Ok(value), _, _, _, _) => (stream_0, Ok(value)),
        (Err(_), Ok(value), _, _, _) => (stream_1, Ok(value)),
        (Err(_), Err(_), Ok(value), _, _) => (stream_2, Ok(value)),
        (Err(_), Err(_), Err(_), Ok(value), _) => (stream_3, Ok(value)),
        (Err(_), Err(_), Err(_), Err(_), Ok(value)) => (stream_4, Ok(value)),
        (Err(_), Err(_), Err(_), Err(_), Err(_)) => (input, Err(no_alternative(input))),
    }
}

impl<S, O, E, P1, P2, P3, P4, P5> AltParsers<S, O, E> for (P1, P2, P3, P4, P5) where
    S: Stream + Clone,
    E: Error<S>,
    P1: Parser<S, E, Output = O>,
    P2: Parser<S, E, Output = O>,
    P3: Parser<S, E, Output = O>,
    P4: Parser<S, E, Output = O>,
    P5: Parser<S, E, Output = O>,
 {
    open spec fn inv(&self) -> bool {
        &&& clone_is_exact::<S>()
        &&& self.0.inv()
        &&& self.1.inv()
        &&& self.2.inv()
        &&& self.3.inv()
        &&& self.4.inv()
    }

    open spec fn parses_alt(
        &self,
        input: S,
        output: S,
        after: &Self,
        result: Result<O, E>,
    ) -> bool {
        exists|
            stream_0: S,
            result_0: Result<O, E>,
            stream_1: S,
            result_1: Result<O, E>,
            stream_2: S,
            result_2: Result<O, E>,
            stream_3: S,
            result_3: Result<O, E>,
            stream_4: S,
            result_4: Result<O, E>,
        | #[trigger]
            alt_5_run(
                self,
                input,
                stream_0,
                result_0,
                stream_1,
                result_1,
                stream_2,
                result_2,
                stream_3,
                result_3,
                stream_4,
                result_4,
                output,
                after,
                result,
            )
    }

    fn parse_alt(&mut self, stream: &mut S) -> (result: Result<O, E>) {
        let ghost input = *stream;
        let ghost this = *self;
        proof {
            input.lemma_reaches_refl();
        }
        let saved = stream.clone();
        assert(cloned(*stream, saved));
        let result_0 = self.0.parse(stream);
        let ghost stream_0 = *stream;
        match result_0 {
            Ok(value) => {
                assert(alt_5_run(
                    &this,
                    input,
                    stream_0,
                    result_0,
                    arbitrary(),
                    arbitrary(),
                    arbitrary(),
                    arbitrary(),
                    arbitrary(),
                    arbitrary(),
                    arbitrary(),
                    arbitrary(),
                    *stream,
                    self,
                    Ok(value),
                ));
                return Ok(value);
            },
            Err(_) => {
                *stream = saved;
            },
        }
        let saved = stream.clone();
        assert(cloned(*stream, saved));
        let result_1 = self.1.parse(stream);
        let ghost stream_1 = *stream;
        match result_1 {
            Ok(value) => {
                assert(alt_5_run(
                    &this,
                    input,
                    stream_0,
                    result_0,
                    stream_1,
                    result_1,
                    arbitrary(),
                    arbitrary(),
                    arbitrary(),
                    arbitrary(),
                    arbitrary(),
                    arbitrary(),
                    *stream,
                    self,
                    Ok(value),
                ));
                return Ok(value);
            },
            Err(_) => {
                *stream = saved;
            },
        }
        let saved = stream.clone();
        assert(cloned(*stream, saved));
        let result_2 = self.2.parse(stream);
        let ghost stream_2 = *stream;
        match result_2 {
            Ok(value) => {
                assert(alt_5_run(
                    &this,
                    input,
                    stream_0,
                    result_0,
                    stream_1,
                    result_1,
                    stream_2,
                    result_2,
                    arbitrary(),
                    arbitrary(),
                    arbitrary(),
                    arbitrary(),
                    *stream,
                    self,
                    Ok(value),
                ));
                return Ok(value);
            },
            Err(_) => {
                *stream = saved;
            },
        }
        let saved = stream.clone();
        assert(cloned(*stream, saved));
        let result_3 = self.3.parse(stream);
        let ghost stream_3 = *stream;
        match result_3 {
            Ok(value) => {
                assert(alt_5_run(
                    &this,
                    input,
                    stream_0,
                    result_0,
                    stream_1,
                    result_1,
                    stream_2,
                    result_2,
                    stream_3,
                    result_3,
                    arbitrary(),
                    arbitrary(),
                    *stream,
                    self,
                    Ok(value),
                ));
                return Ok(value);
            },
            Err(_) => {
                *stream = saved;
            },
        }
        let saved = stream.clone();
        assert(cloned(*stream, saved));
        let result_4 = self.4.parse(stream);
        let ghost stream_4 = *stream;
        match result_4 {
            Ok(value) => {
                assert(alt_5_run(
                    &this,
                    input,
                    stream_0,
                    result_0,
                    stream_1,
                    result_1,
                    stream_2,
                    result_2,
                    stream_3,
                    result_3,
                    stream_4,
                    result_4,
                    *stream,
                    self,
                    Ok(value),
                ));
                return Ok(value);
            },
            Err(_) => {
                *stream = saved;
            },
        }
        let result = Err(E::new(E::Cause::unknown(), stream.peek_token_span()));
        assert(alt_5_run(
            &this,
            input,
            stream_0,
            result_0,
            stream_1,
            result_1,
            stream_2,
            result_2,
            stream_3,
            result_3,
            stream_4,
            result_4,
            *stream,
            self,
            result,
        ));
        result
    }
}

/// Whether six alternatives can run as given: each on `input`, as long as none has
/// succeeded.  The result is the first success, on the stream that it left; or,
/// if there is none, an error on `input`.
pub open spec fn alt_6_run<S, O, E, P1, P2, P3, P4, P5, P6>(
    parsers: &(P1, P2, P3, P4, P5, P6),
    input: S,
    stream_0: S,
    result_0: Result<O, E>,
    stream_1: S,
    result_1: Result<O, E>,
    stream_2: S,
    result_2: Result<O, E>,
    stream_3: S,
    result_3: Result<O, E>,
    stream_4: S,
    result_4: Result<O, E>,
    stream_5: S,
    result_5: Result<O, E>,
    output: S,
    after: &(P1, P2, P3, P4, P5, P6),
    result: Result<O, E>,
) -> bool where
    S: Stream,
    E: Error<S>,
    P1: Parser<S, E, Output = O>,
    P2: Parser<S, E, Output = O>,
    P3: Parser<S, E, Output = O>,
    P4: Parser<S, E, Output = O>,
    P5: Parser<S, E, Output = O>,
    P6: Parser<S, E, Output = O>,
 {
    let tried_1 = result_0 is Err;
    let tried_2 = tried_1 && result_1 is Err;
    let tried_3 = tried_2 && result_2 is Err;
    let tried_4 = tried_3 && result_3 is Err;
    let tried_5 = tried_4 && result_4 is Err;
    &&& parsers.0.parses(input, stream_0, &after.0, result_0)
    &&& tries_if(tried_1, &parsers.1, input, stream_1, &after.1, result_1)
    &&& tries_if(tried_2, &parsers.2, input, stream_2, &after.2, result_2)
    &&& tries_if(tried_3, &parsers.3, input, stream_3, &after.3, result_3)
    &&& tries_if(tried_4, &parsers.4, input, stream_4, &after.4, result_4)
    &&& tries_if(tried_5, &parsers.5, input, stream_5, &after.5, result_5)
    &&& (output, result) === match (result_0, result_1, result_2, result_3, result_4, result_5) {
        (Ok(value), _, _, _, _, _) => (stream_0, Ok(value)),
        (Err(_), Ok(value), _, _, _, _) => (stream_1, Ok(value)),
        (Err(_), Err(_), Ok(value), _, _, _) => (stream_2, Ok(value)),
        (Err(_), Err(_), Err(_), Ok(value), _, _) => (stream_3, Ok(value)),
        (Err(_), Err(_), Err(_), Err(_), Ok(value), _) => (stream_4, Ok(value)),
        (Err(_), Err(_), Err(_), Err(_), Err(_), Ok(value)) => (stream_5, Ok(value)),
        (Err(_), Err(_), Err(_), Err(_), Err(_), Err(_)) => (input, Err(no_alternative(input))),
    }
}

impl<S, O, E, P1, P2, P3, P4, P5, P6> AltParsers<S, O, E> for (P1, P2, P3, P4, P5, P6) where
    S: Stream + Clone,
    E: Error<S>,
    P1: Parser<S, E, Output = O>,
    P2: Parser<S, E, Output = O>,
    P3: Parser<S, E, Output = O>,
    P4: Parser<S, E, Output = O>,
    P5: Parser<S, E, Output = O>,
    P6: Parser<S, E, Output = O>,
 {
    open spec fn inv(&self) -> bool {
        &&& clone_is_exact::<S>()
        &&& self.0.inv()
        &&& self.1.inv()
        &&& self.2.inv()
        &&& self.3.inv()
        &&& self.4.inv()
        &&& self.5.inv()
    }

    open spec fn parses_alt(
        &self,
        input: S,
        output: S,
        after: &Self,
        result: Result<O, E>,
    ) -> bool {
        exists|
            stream_0: S,
            result_0: Result<O, E>,
            stream_1: S,
            result_1: Result<O, E>,
            stream_2: S,
            result_2: Result<O, E>,
            stream_3: S,
            result_3: Result<O, E>,
            stream_4: S,
            result_4: Result<O, E>,
            stream_5: S,
            result_5: Result<O, E>,
        | #[trigger]
            alt_6_run(
                self,
                input,
                stream_0,
                result_0,
                stream_1,
                result_1,
                stream_2,
                result_2,
                stream_3,
                result_3,
                stream_4,
                result_4,
                stream_5,
                result_5,
                output,
                after,
                result,
            )
    }

    fn parse_alt(&mut self, stream: &mut S) -> (result: Result<O, E>) {
        let ghost input = *stream;
        let ghost this = *self;
        proof {
            input.lemma_reaches_refl();
        }
        let saved = stream.clone();
        assert(cloned(*stream, saved));
        let result_0 = self.0.parse(stream);
        let ghost stream_0 = *stream;
        match result_0 {
            Ok(value) => {
                assert(alt_6_run(
                    &this,
                    input,
                    stream_0,
                    result_0,
                    arbitrary(),
                    arbitrary(),
                    arbitrary(),
                    arbitrary(),
                    arbitrary(),
                    arbitrary(),
                    arbitrary(),
                    arbitrary(),
                    arbitrary(),
                    arbitrary(),
                    *stream,
                    self,
                    Ok(value),
                ));
                return Ok(value);
            },
            Err(_) => {
                *stream = saved;
            },
        }
        let saved = stream.clone();
        assert(cloned(*stream, saved));
        let result_1 = self.1.parse(stream);
        let ghost stream_1 = *stream;
        match result_1 {
            Ok(value) => {
                assert(alt_6_run(
                    &this,
                    input,
                    stream_0,
                    result_0,
                    stream_1,
                    result_1,
                    arbitrary(),
                    arbitrary(),
                    arbitrary(),
                    arbitrary(),
                    arbitrary(),
                    arbitrary(),
                    arbitrary(),
                    arbitrary(),
                    *stream,
                    self,
                    Ok(value),
                ));
                return Ok(value);
            },
            Err(_) => {
                *stream = saved;
            },
        }
        let saved = stream.clone();
        assert(cloned(*stream, saved));
        let result_2 = self.2.parse(stream);
        let ghost stream_2 = *stream;
        match result_2 {
            Ok(value) => {
                assert(alt_6_run(
                    &this,
                    input,
                    stream_0,
                    result_0,
                    stream_1,
                    result_1,
                    stream_2,
                    result_2,
                    arbitrary(),
                    arbitrary(),
                    arbitrary(),
                    arbitrary(),
                    arbitrary(),
                    arbitrary(),
                    *stream,
                    self,
                    Ok(value),
                ));
                return Ok(value);
            },
            Err(_) => {
                *stream = saved;
            },
        }
        let saved = stream.clone();
        assert(cloned(*stream, saved));
        let result_3 = self.3.parse(stream);
        let ghost stream_3 = *stream;
        match result_3 {
            Ok(value) => {
                assert(alt_6_run(
                    &this,
                    input,
                    stream_0,
                    result_0,
                    stream_1,
                    result_1,
                    stream_2,
                    result_2,
                    stream_3,
                    result_3,
                    arbitrary(),
                    arbitrary(),
                    arbitrary(),
                    arbitrary(),
                    *stream,
                    self,
                    Ok(value),
                ));
                return Ok(value);
            },
            Err(_) => {
                *stream = saved;
            },
        }
        let saved = stream.clone();
        assert(cloned(*stream, saved));
        let result_4 = self.4.parse(stream);
        let ghost stream_4 = *stream;
        match result_4 {
            Ok(value) => {
                assert(alt_6_run(
                    &this,
                    input,
                    stream_0,
                    result_0,
                    stream_1,
                    result_1,
                    stream_2,
                    result_2,
                    stream_3,
                    result_3,
                    stream_4,
                    result_4,
                    arbitrary(),
                    arbitrary(),
                    *stream,
                    self,
                    Ok(value),
                ));
                return Ok(value);
            },
            Err(_) => {
                *stream = saved;
            },
        }
        let saved = stream.clone();
        assert(cloned(*stream, saved));
        let result_5 = self.5.parse(stream);
        let ghost stream_5 = *stream;
        match result_5 {
            Ok(value) => {
                assert(alt_6_run(
                    &this,
                    input,
                    stream_0,
                    result_0,
                    stream_1,
                    result_1,
                    stream_2,
                    result_2,
                    stream_3,
                    result_3,
                    stream_4,
                    result_4,
                    stream_5,
                    result_5,
                    *stream,
                    self,
                    Ok(value),
                ));
                return Ok(value);
            },
            Err(_) => {
                *stream = saved;
            },
        }
        let result = Err(E::new(E::Cause::unknown(), stream.peek_token_span()));
        assert(alt_6_run(
            &this,
            input,
            stream_0,
            result_0,
            stream_1,
            result_1,
            stream_2,
            result_2,
            stream_3,
            result_3,
            stream_4,
            result_4,
            stream_5,
            result_5,
            *stream,
            self,
            result,
        ));
        result
    }
}

/// Whether seven alternatives can run as given: each on `input`, as long as none has
/// succeeded.  The result is the first success, on the stream that it left; or,
/// if there is none, an error on `input`.
pub open spec fn alt_7_run<S, O, E, P1, P2, P3, P4, P5, P6, P7>(
    parsers: &(P1, P2, P3, P4, P5, P6, P7),
    input: S,
    stream_0: S,
    result_0: Result<O, E>,
    stream_1: S,
    result_1: Result<O, E>,
    stream_2: S,
    result_2: Result<O, E>,
    stream_3: S,
    result_3: Result<O, E>,
    stream_4: S,
    result_4: Result<O, E>,
    stream_5: S,
    result_5: Result<O, E>,
    stream_6: S,
    result_6: Result<O, E>,
    output: S,
    after: &(P1, P2, P3, P4, P5, P6, P7),
    result: Result<O, E>,
) -> bool where
    S: Stream,
    E: Error<S>,
    P1: Parser<S, E, Output = O>,
    P2: Parser<S, E, Output = O>,
    P3: Parser<S, E, Output = O>,
    P4: Parser<S, E, Output = O>,
    P5: Parser<S, E, Output = O>,
    P6: Parser<S, E, Output = O>,
    P7: Parser<S, E, Output = O>,
 {
    let tried_1 = result_0 is Err;
    let tried_2 = tried_1 && result_1 is Err;
    let tried_3 = tried_2 && result_2 is Err;
    let tried_4 = tried_3 && result_3 is Err;
    let tried_5 = tried_4 && result_4 is Err;
    let tried_6 = tried_5 && result_5 is Err;
    &&& parsers.0.parses(input, stream_0, &after.0, result_0)
    &&& tries_if(tried_1, &parsers.1, input, stream_1, &after.1, result_1)
    &&& tries_if(tried_2, &parsers.2, input, stream_2, &after.2, result_2)
    &&& tries_if(tried_3, &parsers.3, input, stream_3, &after.3, result_3)
    &&& tries_if(tried_4, &parsers.4, input, stream_4, &after.4, result_4)
    &&& tries_if(tried_5, &parsers.5, input, stream_5, &after.5, result_5)
    &&& tries_if(tried_6, &parsers.6, input, stream_6, &after.6, result_6)
    &&& (output, result) === match (
        result_0,
        result_1,
        result_2,
        result_3,
        result_4,
        result_5,
        result_6,
    ) {
        (Ok(value), _, _, _, _, _, _) => (stream_0, Ok(value)),
        (Err(_), Ok(value), _, _, _, _, _) => (stream_1, Ok(value)),
        (Err(_), Err(_), Ok(value), _, _, _, _) => (stream_2, Ok(value)),
        (Err(_), Err(_), Err(_), Ok(value), _, _, _) => (stream_3, Ok(value)),
        (Err(_), Err(_), Err(_), Err(_), Ok(value), _, _) => (stream_4, Ok(value)),
        (Err(_), Err(_), Err(_), Err(_), Err(_), Ok(value), _) => (stream_5, Ok(value)),
        (Err(_), Err(_), Err(_), Err(_), Err(_), Err(_), Ok(value)) => (stream_6, Ok(value)),
        (Err(_), Err(_), Err(_), Err(_), Err(_), Err(_), Err(_)) => (
            input,
            Err(no_alternative(input)),
        ),
    }
}

impl<S, O, E, P1, P2, P3, P4, P5, P6, P7> AltParsers<S, O, E> for (P1, P2, P3, P4, P5, P6, P7) where
    S: Stream + Clone,
    E: Error<S>,
    P1: Parser<S, E, Output = O>,
    P2: Parser<S, E, Output = O>,
    P3: Parser<S, E, Output = O>,
    P4: Parser<S, E, Output = O>,
    P5: Parser<S, E, Output = O>,
    P6: Parser<S, E, Output = O>,
    P7: Parser<S, E, Output = O>,
 {
    open spec fn inv(&self) -> bool {
        &&& clone_is_exact::<S>()
        &&& self.0.inv()
        &&& self.1.inv()
        &&& self.2.inv()
        &&& self.3.inv()
        &&& self.4.inv()
        &&& self.5.inv()
        &&& self.6.inv()
    }

    open spec fn parses_alt(
        &self,
        input: S,
        output: S,
        after: &Self,
        result: Result<O, E>,
    ) -> bool {
        exists|
            stream_0: S,
            result_0: Result<O, E>,
            stream_1: S,
            result_1: Result<O, E>,
            stream_2: S,
            result_2: Result<O, E>,
            stream_3: S,
            result_3: Result<O, E>,
            stream_4: S,
            result_4: Result<O, E>,
            stream_5: S,
            result_5: Result<O, E>,
            stream_6: S,
            result_6: Result<O, E>,
        | #[trigger]
            alt_7_run(
                self,
                input,
                stream_0,
                result_0,
                stream_1,
                result_1,
                stream_2,
                result_2,
                stream_3,
                result_3,
                stream_4,
                result_4,
                stream_5,
                result_5,
                stream_6,
                result_6,
                output,
                after,
                result,
            )
    }

    fn parse_alt(&mut self, stream: &mut S) -> (result: Result<O, E>) {
        let ghost input = *stream;
        let ghost this = *self;
        proof {
            input.lemma_reaches_refl();
        }
        let saved = stream.clone();
        assert(cloned(*stream, saved));
        let result_0 = self.0.parse(stream);
        let ghost stream_0 = *stream;
        match result_0 {
            Ok(value) => {
                assert(alt_7_run(
                    &this,
                    input,
                    stream_0,
                    result_0,
                    arbitrary(),
                    arbitrary(),
                    arbitrary(),
                    arbitrary(),
                    arbitrary(),
                    arbitrary(),
                    arbitrary(),
                    arbitrary(),
                    arbitrary(),
                    arbitrary(),
                    arbitrary(),
                    arbitrary(),
                    *stream,
                    self,
                    Ok(value),
                ));
                return Ok(value);
            },
            Err(_) => {
                *stream = saved;
            },
        }
        let saved = stream.clone();
        assert(cloned(*stream, saved));
        let result_1 = self.1.parse(stream);
        let ghost stream_1 = *stream;
        match result_1 {
            Ok(value) => {
                assert(alt_7_run(
                    &this,
                    input,
                    stream_0,
                    result_0,
                    stream_1,
                    result_1,
                    arbitrary(),
                    arbitrary(),
                    arbitrary(),
                    arbitrary(),
                    arbitrary(),
                    arbitrary(),
                    arbitrary(),
                    arbitrary(),
                    arbitrary(),
                    arbitrary(),
                    *stream,
                    self,
                    Ok(value),
                ));
                return Ok(value);
            },
            Err(_) => {
                *stream = saved;
            },
        }
        let saved = stream.clone();
        assert(cloned(*stream, saved));
        let result_2 = self.2.parse(stream);
        let ghost stream_2 = *stream;
        match result_2 {
            Ok(value) => {
                assert(alt_7_run(
                    &this,
                    input,
                    stream_0,
                    result_0,
                    stream_1,
                    result_1,
                    stream_2,
                    result_2,
                    arbitrary(),
                    arbitrary(),
                    arbitrary(),
                    arbitrary(),
                    arbitrary(),
                    arbitrary(),
                    arbitrary(),
                    arbitrary(),
                    *stream,
                    self,
                    Ok(value),
                ));
                return Ok(value);
            },
            Err(_) => {
                *stream = saved;
            },
        }
        let saved = stream.clone();
        assert(cloned(*stream, saved));
        let result_3 = self.3.parse(stream);
        let ghost stream_3 = *stream;
        match result_3 {
            Ok(value) => {
                assert(alt_7_run(
                    &this,
                    input,
                    stream_0,
                    result_0,
                    stream_1,
                    result_1,
                    stream_2,
                    result_2,
                    stream_3,
                    result_3,
                    arbitrary(),
                    arbitrary(),
                    arbitrary(),
                    arbitrary(),
                    arbitrary(),
                    arbitrary(),
                    *stream,
                    self,
                    Ok(value),
                ));
                return Ok(value);
            },
            Err(_) => {
                *stream = saved;
            },
        }
        let saved = stream.clone();
        assert(cloned(*stream, saved));
        let result_4 = self.4.parse(stream);
        let ghost stream_4 = *stream;
        match result_4 {
            Ok(value) => {
                assert(alt_7_run(
                    &this,
                    input,
                    stream_0,
                    result_0,
                    stream_1,
                    result_1,
                    stream_2,
                    result_2,
                    stream_3,
                    result_3,
                    stream_4,
                    result_4,
                    arbitrary(),
                    arbitrary(),
                    arbitrary(),
                    arbitrary(),
                    *stream,
                    self,
                    Ok(value),
                ));
                return Ok(value);
            },
            Err(_) => {
                *stream = saved;
            },
        }
        let saved = stream.clone();
        assert(cloned(*stream, saved));
        let result_5 = self.5.parse(stream);
        let ghost stream_5 = *stream;
        match result_5 {
            Ok(value) => {
                assert(alt_7_run(
                    &this,
                    input,
                    stream_0,
                    result_0,
                    stream_1,
                    result_1,
                    stream_2,
                    result_2,
                    stream_3,
                    result_3,
                    stream_4,
                    result_4,
                    stream_5,
                    result_5,
                    arbitrary(),
                    arbitrary(),
                    *stream,
                    self,
                    Ok(value),
                ));
                return Ok(value);
            },
            Err(_) => {
                *stream = saved;
            },
        }
        let saved = stream.clone();
        assert(cloned(*stream, saved));
        let result_6 = self.6.parse(stream);
        let ghost stream_6 = *stream;
        match result_6 {
            Ok(value) => {
                assert(alt_7_run(
                    &this,
                    input,
                    stream_0,
                    result_0,
                    stream_1,
                    result_1,
                    stream_2,
                    result_2,
                    stream_3,
                    result_3,
                    stream_4,
                    result_4,
                    stream_5,
                    result_5,
                    stream_6,
                    result_6,
                    *stream,
                    self,
                    Ok(value),
                ));
                return Ok(value);
            },
            Err(_) => {
                *stream = saved;
            },
        }
        let result = Err(E::new(E::Cause::unknown(), stream.peek_token_span()));
        assert(alt_7_run(
            &this,
            input,
            stream_0,
            result_0,
            stream_1,
            result_1,
            stream_2,
            result_2,
            stream_3,
            result_3,
            stream_4,
            result_4,
            stream_5,
            result_5,
            stream_6,
            result_6,
            *stream,
            self,
            result,
        ));
        result
    }
}

/// Whether eight alternatives can run as given: each on `input`, as long as none has
/// succeeded.  The result is the first success, on the stream that it left; or,
/// if there is none, an error on `input`.
pub open spec fn alt_8_run<S, O, E, P1, P2, P3, P4, P5, P6, P7, P8>(
    parsers: &(P1, P2, P3, P4, P5, P6, P7, P8),
    input: S,
    stream_0: S,
    result_0: Result<O, E>,
    stream_1: S,
    result_1: Result<O, E>,
    stream_2: S,
    result_2: Result<O, E>,
    stream_3: S,
    result_3: Result<O, E>,
    stream_4: S,
    result_4: Result<O, E>,
    stream_5: S,
    result_5: Result<O, E>,
    stream_6: S,
    result_6: Result<O, E>,
    stream_7: S,
    result_7: Result<O, E>,
    output: S,
    after: &(P1, P2, P3, P4, P5, P6, P7, P8),
    result: Result<O, E>,
) -> bool where
    S: Stream,
    E: Error<S>,
    P1: Parser<S, E, Output = O>,
    P2: Parser<S, E, Output = O>,
    P3: Parser<S, E, Output = O>,
    P4: Parser<S, E, Output = O>,
    P5: Parser<S, E, Output = O>,
    P6: Parser<S, E, Output = O>,
    P7: Parser<S, E, Output = O>,
    P8: Parser<S, E, Output = O>,
 {
    let tried_1 = result_0 is Err;
    let tried_2 = tried_1 && result_1 is Err;
    let tried_3 = tried_2 && result_2 is Err;
    let tried_4 = tried_3 && result_3 is Err;
    let tried_5 = tried_4 && result_4 is Err;
    let tried_6 = tried_5 && result_5 is Err;
    let tried_7 = tried_6 && result_6 is Err;
    &&& parsers.0.parses(input, stream_0, &after.0, result_0)
    &&& tries_if(tried_1, &parsers.1, input, stream_1, &after.1, result_1)
    &&& tries_if(tried_2, &parsers.2, input, stream_2, &after.2, result_2)
    &&& tries_if(tried_3, &parsers.3, input, stream_3, &after.3, result_3)
    &&& tries_if(tried_4, &parsers.4, input, stream_4, &after.4, result_4)
    &&& tries_if(tried_5, &parsers.5, input, stream_5, &after.5, result_5)
    &&& tries_if(tried_6, &parsers.6, input, stream_6, &after.6, result_6)
    &&& tries_if(tried_7, &parsers.7, input, stream_7, &after.7, result_7)
    &&& (output, result) === match (
        result_0,
        result_1,
        result_2,
        result_3,
        result_4,
        result_5,
        result_6,
        result_7,
    ) {
        (Ok(value), _, _, _, _, _, _, _) => (stream_0, Ok(value)),
        (Err(_), Ok(value), _, _, _, _, _, _) => (stream_1, Ok(value)),
        (Err(_), Err(_), Ok(value), _, _, _, _, _) => (stream_2, Ok(value)),
        (Err(_), Err(_), Err(_), Ok(value), _, _, _, _) => (stream_3, Ok(value)),
        (Err(_), Err(_), Err(_), Err(_), Ok(value), _, _, _) => (stream_4, Ok(value)),
        (Err(_), Err(_), Err(_), Err(_), Err(_), Ok(value), _, _) => (stream_5, Ok(value)),
        (Err(_), Err(_), Err(_), Err(_), Err(_), Err(_), Ok(value), _) => (stream_6, Ok(value)),
        (Err(_), Err(_), Err(_), Err(_), Err(_), Err(_), Err(_), Ok(value)) => (
            stream_7,
            Ok(value),
        ),
        (Err(_), Err(_), Err(_), Err(_), Err(_), Err(_), Err(_), Err(_)) => (
            input,
            Err(no_alternative(input)),
        ),
    }
}

impl<S, O, E, P1, P2, P3, P4, P5, P6, P7, P8> AltParsers<S, O, E> for (
    P1,
    P2,
    P3,
    P4,
    P5,
    P6,
    P7,
    P8,
) where
    S: Stream + Clone,
    E: Error<S>,
    P1: Parser<S, E, Output = O>,
    P2: Parser<S, E, Output = O>,
    P3: Parser<S, E, Output = O>,
    P4: Parser<S, E, Output = O>,
    P5: Parser<S, E, Output = O>,
    P6: Parser<S, E, Output = O>,
    P7: Parser<S, E, Output = O>,
    P8: Parser<S, E, Output = O>,
 {
    open spec fn inv(&self) -> bool {
        &&& clone_is_exact::<S>()
        &&& self.0.inv()
        &&& self.1.inv()
        &&& self.2.inv()
        &&& self.3.inv()
        &&& self.4.inv()
        &&& self.5.inv()
        &&& self.6.inv()
        &&& self.7.inv()
    }

    open spec fn parses_alt(
        &self,
        input: S,
        output: S,
        after: &Self,
        result: Result<O, E>,
    ) -> bool {
        exists|
            stream_0: S,
            result_0: Result<O, E>,
            stream_1: S,
            result_1: Result<O, E>,
            stream_2: S,
            result_2: Result<O, E>,
            stream_3: S,
            result_3: Result<O, E>,
            stream_4: S,
            result_4: Result<O, E>,
            stream_5: S,
            result_5: Result<O, E>,
            stream_6: S,
            result_6: Result<O, E>,
            stream_7: S,
            result_7: Result<O, E>,
        | #[trigger]
            alt_8_run(
                self,
                input,
                stream_0,
                result_0,
                stream_1,
                result_1,
                stream_2,
                result_2,
                stream_3,
                result_3,
                stream_4,
                result_4,
                stream_5,
                result_5,
                stream_6,
                result_6,
                stream_7,
                result_7,
                output,
                after,
                result,
            )
    }

    fn parse_alt(&mut self, stream: &mut S) -> (result: Result<O, E>) {
        let ghost input = *stream;
        let ghost this = *self;
        proof {
            input.lemma_reaches_refl();
        }
        let saved = stream.clone();
        assert(cloned(*stream, saved));
        let result_0 = self.0.parse(stream);
        let ghost stream_0 = *stream;
        match result_0 {
            Ok(value) => {
                assert(alt_8_run(
                    &this,
                    input,
                    stream_0,
                    result_0,
                    arbitrary(),
                    arbitrary(),
                    arbitrary(),
                    arbitrary(),
                    arbitrary(),
                    arbitrary(),
                    arbitrary(),
                    arbitrary(),
                    arbitrary(),
                    arbitrary(),
                    arbitrary(),
                    arbitrary(),
                    arbitrary(),
                    arbitrary(),
                    *stream,
                    self,
                    Ok(value),
                ));
                return Ok(value);
            },
            Err(_) => {
                *stream = saved;
            },
        }
        let saved = stream.clone();
        assert(cloned(*stream, saved));
        let result_1 = self.1.parse(stream);
        let ghost stream_1 = *stream;
        match result_1 {
            Ok(value) => {
                assert(alt_8_run(
                    &this,
                    input,
                    stream_0,
                    result_0,
                    stream_1,
                    result_1,
                    arbitrary(),
                    arbitrary(),
                    arbitrary(),
                    arbitrary(),
                    arbitrary(),
                    arbitrary(),
                    arbitrary(),
                    arbitrary(),
                    arbitrary(),
                    arbitrary(),
                    arbitrary(),
                    arbitrary(),
                    *stream,
                    self,
                    Ok(value),
                ));
                return Ok(value);
            },
            Err(_) => {
                *stream = saved;
            },
        }
        let saved = stream.clone();
        assert(cloned(*stream, saved));
        let result_2 = self.2.parse(stream);
        let ghost stream_2 = *stream;
        match result_2 {
            Ok(value) => {
                assert(alt_8_run(
                    &this,
                    input,
                    stream_0,
                    result_0,
                    stream_1,
                    result_1,
                    stream_2,
                    result_2,
                    arbitrary(),
                    arbitrary(),
                    arbitrary(),
                    arbitrary(),
                    arbitrary(),
                    arbitrary(),
                    arbitrary(),
                    arbitrary(),
                    arbitrary(),
                    arbitrary(),
                    *stream,
                    self,
                    Ok(value),
                ));
                return Ok(value);
            },
            Err(_) => {
                *stream = saved;
            },
        }
        let saved = stream.clone();
        assert(cloned(*stream, saved));
        let result_3 = self.3.parse(stream);
        let ghost stream_3 = *stream;
        match result_3 {
            Ok(value) => {
                assert(alt_8_run(
                    &this,
                    input,
                    stream_0,
                    result_0,
                    stream_1,
                    result_1,
                    stream_2,
                    result_2,
                    stream_3,
                    result_3,
                    arbitrary(),
                    arbitrary(),
                    arbitrary(),
                    arbitrary(),
                    arbitrary(),
                    arbitrary(),
                    arbitrary(),
                    arbitrary(),
                    *stream,
                    self,
                    Ok(value),
                ));
                return Ok(value);
            },
            Err(_) => {
                *stream = saved;
            },
        }
        let saved = stream.clone();
        assert(cloned(*stream, saved));
        let result_4 = self.4.parse(stream);
        let ghost stream_4 = *stream;
        match result_4 {
            Ok(value) => {
                assert(alt_8_run(
                    &this,
                    input,
                    stream_0,
                    result_0,
                    stream_1,
                    result_1,
                    stream_2,
                    result_2,
                    stream_3,
                    result_3,
                    stream_4,
                    result_4,
                    arbitrary(),
                    arbitrary(),
                    arbitrary(),
                    arbitrary(),
                    arbitrary(),
                    arbitrary(),
                    *stream,
                    self,
                    Ok(value),
                ));
                return Ok(value);
            },
            Err(_) => {
                *stream = saved;
            },
        }
        let saved = stream.clone();
        assert(cloned(*stream, saved));
        let result_5 = self.5.parse(stream);
        let ghost stream_5 = *stream;
        match result_5 {
            Ok(value) => {
                assert(alt_8_run(
                    &this,
                    input,
                    stream_0,
                    result_0,
                    stream_1,
                    result_1,
                    stream_2,
                    result_2,
                    stream_3,
                    result_3,
                    stream_4,
                    result_4,
                    stream_5,
                    result_5,
                    arbitrary(),
                    arbitrary(),
                    arbitrary(),
                    arbitrary(),
                    *stream,
                    self,
                    Ok(value),
                ));
                return Ok(value);
            },
            Err(_) => {
                *stream = saved;
            },
        }
        let saved = stream.clone();
        assert(cloned(*stream, saved));
        let result_6 = self.6.parse(stream);
        let ghost stream_6 = *stream;
        match result_6 {
            Ok(value) => {
                assert(alt_8_run(
                    &this,
                    input,
                    stream_0,
                    result_0,
                    stream_1,
                    result_1,
                    stream_2,
                    result_2,
                    stream_3,
                    result_3,
                    stream_4,
                    result_4,
                    stream_5,
                    result_5,
                    stream_6,
                    result_6,
                    arbitrary(),
                    arbitrary(),
                    *stream,
                    self,
                    Ok(value),
                ));
                return Ok(value);
            },
            Err(_) => {
                *stream = saved;
            },
        }
        let saved = stream.clone();
        assert(cloned(*stream, saved));
        let result_7 = self.7.parse(stream);
        let ghost stream_7 = *stream;
        match result_7 {
            Ok(value) => {
                assert(alt_8_run(
                    &this,
                    input,
                    stream_0,
                    result_0,
                    stream_1,
                    result_1,
                    stream_2,
                    result_2,
                    stream_3,
                    result_3,
                    stream_4,
                    result_4,
                    stream_5,
                    result_5,
                    stream_6,
                    result_6,
                    stream_7,
                    result_7,
                    *stream,
                    self,
                    Ok(value),
                ));
                return Ok(value);
            },
            Err(_) => {
                *stream = saved;
            },
        }
        let result = Err(E::new(E::Cause::unknown(), stream.peek_token_span()));
        assert(alt_8_run(
            &this,
            input,
            stream_0,
            result_0,
            stream_1,
            result_1,
            stream_2,
            result_2,
            stream_3,
            result_3,
            stream_4,
            result_4,
            stream_5,
            result_5,
            stream_6,
            result_6,
            stream_7,
            result_7,
            *stream,
            self,
            result,
        ));
        result
    }
}

/// An alternative that fails consumes nothing: when the first of two
/// alternatives has failed, the second starts on the stream that the first
/// started on, at the same position; and when both have failed, that is the
/// stream that is left.
pub proof fn lemma_alt_restores<S, O, E, P1, P2>(
    parsers: (P1, P2),
    input: S,
    stream_0: S,
    result_0: Result<O, E>,
    stream_1: S,
    result_1: Result<O, E>,
    output: S,
    after: (P1, P2),
    result: Result<O, E>,
) where S: Stream, E: Error<S>, P1: Parser<S, E, Output = O>, P2: Parser<S, E, Output = O>
    requires
        alt_2_run(&parsers, input, stream_0, result_0, stream_1, result_1, output, &after, result),
        result_0 is Err,
    ensures
        parsers.1.parses(input, stream_1, &after.1, result_1),
        result === match result_1 {
            Ok(value) => Ok(value),
            Err(_) => Err(no_alternative(input)),
        },
        result is Ok ==> output == stream_1,
        result is Err ==> output == input && output.position() == input.position(),
{
}

/// Try the parsers of a tuple in order: the building block of `alt!`.
pub fn alt_inner<Parsers, S, O, E>(parsers: Parsers) -> (parser: Alt<Parsers, S, O, E>) where
    Parsers: AltParsers<S, O, E>,
    S: Stream,
    E: Error<S>,

    ensures
        parser.parsers == parsers,
{
    Alt { parsers, _phantom: PhantomData }
}

/// Tries the parsers of a tuple in order and yields the output of the first
/// that succeeds.
#[derive(Debug, PartialEq, Eq, PartialOrd, Ord, Hash)]
pub struct Alt<Parsers, S, O, E> {
    pub parsers: Parsers,
    pub _phantom: PhantomData<(S, O, E)>,
}

impl<Parsers: Clone, S, O, E> Clone for Alt<Parsers, S, O, E> {
    fn clone(&self) -> (copy: Self)
        ensures
            cloned(self.parsers, copy.parsers),
    {
        Alt { parsers: self.parsers.clone(), _phantom: PhantomData }
    }
}

impl<Parsers: Copy, S, O, E> Copy for Alt<Parsers, S, O, E> {

}

impl<Parsers, S, O, E> Parser<S, E> for Alt<Parsers, S, O, E> where
    Parsers: AltParsers<S, O, E>,
    S: Stream,
    E: Error<S>,
 {
    type Output = O;

    open spec fn inv(&self) -> bool {
        self.parsers.inv()
    }

    open spec fn parses(&self, input: S, output: S, after: &Self, result: Result<O, E>) -> bool {
        self.parsers.parses_alt(input, output, &after.parsers, result)
    }

    fn parse(&mut self, stream: &mut S) -> (result: Result<O, E>) {
        self.parsers.parse_alt(stream)
    }
}

} // verus!
