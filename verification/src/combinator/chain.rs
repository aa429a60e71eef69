//! Sequencing: parsers run one after the other.

use std::marker::PhantomData;
use vstd::prelude::*;

use crate::error::Error;
use crate::parser::Parser;
use crate::stream::Stream;

verus! {

/// A tuple of parsers that can run in order.
pub trait ChainedParsers<S, E> where S: Stream, E: Error<S> {
    type Output;

    /// What the parsers need to hold of themselves to run.
    spec fn inv(&self) -> bool;

    /// Whether running the parsers in order on `input` can leave the stream
    /// as `output` and the parsers as `after`, and give `result`.
    spec fn parses_chained(
        &self,
        input: S,
        output: S,
        after: &Self,
        result: Result<Self::Output, E>,
    ) -> bool;

    /// Run the parsers left to right, up to the first failure.
    fn parse_chained(&mut self, stream: &mut S) -> (result: Result<Self::Output, E>)
        requires
            old(self).inv(),
            old(stream).wf(),
        ensures
            final(self).inv(),
            final(stream).wf(),
            old(stream).reaches(final(stream)),
            old(self).parses_chained(*old(stream), *final(stream), final(self), result),
    ;
}

/// Whether `parser` ran from `input` to `output` with `result`, if the chain
/// reached it, and was left alone on a stream left alone, if not.
pub open spec fn runs_if<S: Stream, E: Error<S>, P: Parser<S, E>>(
    reached: bool,
    parser: &P,
    input: S,
    output: S,
    after: &P,
    result: Result<P::Output, E>,
) -> bool {
    if reached {
        parser.parses(input, output, after, result)
    } else {
        output == input && *after == *parser
    }
}

/// Whether a chain of one parser can run as given: each parser on the stream
/// that the one before it left, as long as none has failed.  The result is
/// the first error, or the tuple of the outputs.
pub open spec fn chain_1_run<S, E, P1>(
    parsers: &(P1,),
    input: S,
    result_0: Result<P1::Output, E>,
    output: S,
    after: &(P1,),
    result: Result<(P1::Output,), E>,
) -> bool where
    S: Stream,
    E: Error<S>,
    P1: Parser<S, E>,
 {
    &&& parsers.0.parses(input, output, &after.0, result_0)
    &&& result === match result_0 {
        Err(error) => Err(error),
        Ok(v0) => Ok((v0,)),
    }
}

impl<S, E, P1> ChainedParsers<S, E> for (P1,) where
    S: Stream,
    E: Error<S>,
    P1: Parser<S, E>,
 {
    type Output = (P1::Output,);

    open spec fn inv(&self) -> bool {
        self.0.inv()
    }

    open spec fn parses_chained(
        &self,
        input: S,
        output: S,
        after: &Self,
        result: Result<Self::Output, E>,
    ) -> bool {
        exists|result_0: Result<P1::Output, E>| #[trigger]
            chain_1_run(self, input, result_0, output, after, result)
    }

    fn parse_chained(&mut self, stream: &mut S) -> (result: Result<Self::Output, E>) {
        let ghost input = *stream;
        let ghost this = *self;
        let result_0 = self.0.parse(stream);
        let value_0 = match result_0 {
            Ok(value) => value,
            Err(error) => {
                assert(chain_1_run(&this, input, result_0, *stream, self, Err(error)));
                return Err(error);
            },
        };
        assert(chain_1_run(&this, input, result_0, *stream, self, Ok((value_0,))));
        Ok((value_0,))
    }
}

/// Whether a chain of two parsers can run as given: each parser on the stream
/// that the one before it left, as long as none has failed.  The result is
/// the first error, or the tuple of the outputs.
pub open spec fn chain_2_run<S, E, P1, P2>(
    parsers: &(P1, P2),
    input: S,
    result_0: Result<P1::Output, E>,
    stream_1: S,
    result_1: Result<P2::Output, E>,
    output: S,
    after: &(P1, P2),
    result: Result<(P1::Output, P2::Output), E>,
) -> bool where
    S: Stream,
    E: Error<S>,
    P1: Parser<S, E>,
    P2: Parser<S, E>,
 {
    let reached_1 = result_0 is Ok;
    &&& parsers.0.parses(input, stream_1, &after.0, result_0)
    &&& runs_if(reached_1, &parsers.1, stream_1, output, &after.1, result_1)
    &&& result === match (result_0, result_1) {
        (Err(error), _) => Err(error),
        (Ok(_), Err(error)) => Err(error),
        (Ok(v0), Ok(v1)) => Ok((v0, v1)),
    }
}

impl<S, E, P1, P2> ChainedParsers<S, E> for (P1, P2) where
    S: Stream,
    E: Error<S>,
    P1: Parser<S, E>,
    P2: Parser<S, E>,
 {
    type Output = (P1::Output, P2::Output);

    open spec fn inv(&self) -> bool {
        &&& self.0.inv()
        &&& self.1.inv()
    }

    open spec fn parses_chained(
        &self,
        input: S,
        output: S,
        after: &Self,
        result: Result<Self::Output, E>,
    ) -> bool {
        exists|
            result_0: Result<P1::Output, E>,
            stream_1: S,
            result_1: Result<P2::Output, E>,
        | #[trigger]
            chain_2_run(self, input, result_0, stream_1, result_1, output, after, result)
    }

    fn parse_chained(&mut self, stream: &mut S) -> (result: Result<Self::Output, E>) {
        let ghost input = *stream;
        let ghost this = *self;
        let result_0 = self.0.parse(stream);
        let ghost stream_1 = *stream;
        let value_0 = match result_0 {
            Ok(value) => value,
            Err(error) => {
                assert(chain_2_run(
                    &this,
                    input,
                    result_0,
                    stream_1,
                    arbitrary(),
                    *stream,
                    self,
                    Err(error),
                ));
                return Err(error);
            },
        };
        let result_1 = self.1.parse(stream);
        proof {
            input.lemma_reaches_trans(&stream_1, stream);
        }
        let value_1 = match result_1 {
            Ok(value) => value,
            Err(error) => {
                assert(chain_2_run(
                    &this,
                    input,
                    result_0,
                    stream_1,
                    result_1,
                    *stream,
                    self,
                    Err(error),
                ));
                return Err(error);
            },
        };
        assert(chain_2_run(
            &this,
            input,
            result_0,
            stream_1,
            result_1,
            *stream,
            self,
            Ok((value_0, value_1)),
        ));
        Ok((value_0, value_1))
    }
}

/// Whether a chain of three parsers can run as given: each parser on the stream
/// that the one before it left, as long as none has failed.  The result is
/// the first error, or the tuple of the outputs.
pub open spec fn chain_3_run<S, E, P1, P2, P3>(
    parsers: &(P1, P2, P3),
    input: S,
    result_0: Result<P1::Output, E>,
    stream_1: S,
    result_1: Result<P2::Output, E>,
    stream_2: S,
    result_2: Result<P3::Output, E>,
    output: S,
    after: &(P1, P2, P3),
    result: Result<(P1::Output, P2::Output, P3::Output), E>,
) -> bool where
    S: Stream,
    E: Error<S>,
    P1: Parser<S, E>,
    P2: Parser<S, E>,
    P3: Parser<S, E>,
 {
    let reached_1 = result_0 is Ok;
    let reached_2 = reached_1 && result_1 is Ok;
    &&& parsers.0.parses(input, stream_1, &after.0, result_0)
    &&& runs_if(reached_1, &parsers.1, stream_1, stream_2, &after.1, result_1)
    &&& runs_if(reached_2, &parsers.2, stream_2, output, &after.2, result_2)
    &&& result === match (result_0, result_1, result_2) {
        (Err(error), _, _) => Err(error),
        (Ok(_), Err(error), _) => Err(error),
        (Ok(_), Ok(_), Err(error)) => Err(error),
        (Ok(v0), Ok(v1), Ok(v2)) => Ok((v0, v1, v2)),
    }
}

impl<S, E, P1, P2, P3> ChainedParsers<S, E> for (P1, P2, P3) where
    S: Stream,
    E: Error<S>,
    P1: Parser<S, E>,
    P2: Parser<S, E>,
    P3: Parser<S, E>,
 {
    type Output = (P1::Output, P2::Output, P3::Output);

    open spec fn inv(&self) -> bool {
        &&& self.0.inv()
        &&& self.1.inv()
        &&& self.2.inv()
    }

    open spec fn parses_chained(
        &self,
        input: S,
        output: S,
        after: &Self,
        result: Result<Self::Output, E>,
    ) -> bool {
        exists|
            result_0: Result<P1::Output, E>,
            stream_1: S,
            result_1: Result<P2::Output, E>,
            stream_2: S,
            result_2: Result<P3::Output, E>,
        | #[trigger]
            chain_3_run(
                self,
                input,
                result_0,
                stream_1,
                result_1,
                stream_2,
                result_2,
                output,
                after,
                result,
            )
    }

    fn parse_chained(&mut self, stream: &mut S) -> (result: Result<Self::Output, E>) {
        let ghost input = *stream;
        let ghost this = *self;
        let result_0 = self.0.parse(stream);
        let ghost stream_1 = *stream;
        let value_0 = match result_0 {
            Ok(value) => value,
            Err(error) => {
                assert(chain_3_run(
                    &this,
                    input,
                    result_0,
                    stream_1,
                    arbitrary(),
                    stream_1,
                    arbitrary(),
                    *stream,
                    self,
                    Err(error),
                ));
                return Err(error);
            },
        };
        let result_1 = self.1.parse(stream);
        let ghost stream_2 = *stream;
        proof {
            input.lemma_reaches_trans(&stream_1, stream);
        }
        let value_1 = match result_1 {
            Ok(value) => value,
            Err(error) => {
                assert(chain_3_run(
                    &this,
                    input,
                    result_0,
                    stream_1,
                    result_1,
                    stream_2,
                    arbitrary(),
                    *stream,
                    self,
                    Err(error),
                ));
                return Err(error);
            },
        };
        let result_2 = self.2.parse(stream);
        proof {
            input.lemma_reaches_trans(&stream_2, stream);
        }
        let value_2 = match result_2 {
            Ok(value) => value,
            Err(error) => {
                assert(chain_3_run(
                    &this,
                    input,
                    result_0,
                    stream_1,
                    result_1,
                    stream_2,
                    result_2,
                    *stream,
                    self,
                    Err(error),
                ));
                return Err(error);
            },
        };
        assert(chain_3_run(
            &this,
            input,
            result_0,
            stream_1,
            result_1,
            stream_2,
            result_2,
            *stream,
            self,
            Ok((value_0, value_1, value_2)),
        ));
        Ok((value_0, value_1, value_2))
    }
}

/// Whether a chain of four parsers can run as given: each parser on the stream
/// that the one before it left, as long as none has failed.  The result is
/// the first error, or the tuple of the outputs.
pub open spec fn chain_4_run<S, E, P1, P2, P3, P4>(
    parsers: &(P1, P2, P3, P4),
    input: S,
    result_0: Result<P1::Output, E>,
    stream_1: S,
    result_1: Result<P2::Output, E>,
    stream_2: S,
    result_2: Result<P3::Output, E>,
    stream_3: S,
    result_3: Result<P4::Output, E>,
    output: S,
    after: &(P1, P2, P3, P4),
    result: Result<(P1::Output, P2::Output, P3::Output, P4::Output), E>,
) -> bool where
    S: Stream,
    E: Error<S>,
    P1: Parser<S, E>,
    P2: Parser<S, E>,
    P3: Parser<S, E>,
    P4: Parser<S, E>,
 {
    let reached_1 = result_0 is Ok;
    let reached_2 = reached_1 && result_1 is Ok;
    let reached_3 = reached_2 && result_2 is Ok;
    &&& parsers.0.parses(input, stream_1, &after.0, result_0)
    &&& runs_if(reached_1, &parsers.1, stream_1, stream_2, &after.1, result_1)
    &&& runs_if(reached_2, &parsers.2, stream_2, stream_3, &after.2, result_2)
    &&& runs_if(reached_3, &parsers.3, stream_3, output, &after.3, result_3)
    &&& result === match (result_0, result_1, result_2, result_3) {
        (Err(error), _, _, _) => Err(error),
        (Ok(_), Err(error), _, _) => Err(error),
        (Ok(_), Ok(_), Err(error), _) => Err(error),
        (Ok(_), Ok(_), Ok(_), Err(error)) => Err(error),
        (Ok(v0), Ok(v1), Ok(v2), Ok(v3)) => Ok((v0, v1, v2, v3)),
    }
}

impl<S, E, P1, P2, P3, P4> ChainedParsers<S, E> for (P1, P2, P3, P4) where
    S: Stream,
    E: Error<S>,
    P1: Parser<S, E>,
    P2: Parser<S, E>,
    P3: Parser<S, E>,
    P4: Parser<S, E>,
 {
    type Output = (P1::Output, P2::Output, P3::Output, P4::Output);

    open spec fn inv(&self) -> bool {
        &&& self.0.inv()
        &&& self.1.inv()
        &&& self.2.inv()
        &&& self.3.inv()
    }

    open spec fn parses_chained(
        &self,
        input: S,
        output: S,
        after: &Self,
        result: Result<Self::Output, E>,
    ) -> bool {
        exists|
            result_0: Result<P1::Output, E>,
            stream_1: S,
            result_1: Result<P2::Output, E>,
            stream_2: S,
            result_2: Result<P3::Output, E>,
            stream_3: S,
            result_3: Result<P4::Output, E>,
        | #[trigger]
            chain_4_run(
                self,
                input,
                result_0,
                stream_1,
                result_1,
                stream_2,
                result_2,
                stream_3,
                result_3,
                output,
                after,
                result,
            )
    }

    fn parse_chained(&mut self, stream: &mut S) -> (result: Result<Self::Output, E>) {
        let ghost input = *stream;
        let ghost this = *self;
        let result_0 = self.0.parse(stream);
        let ghost stream_1 = *stream;
        let value_0 = match result_0 {
            Ok(value) => value,
            Err(error) => {
                assert(chain_4_run(
                    &this,
                    input,
                    result_0,
                    stream_1,
                    arbitrary(),
                    stream_1,
                    arbitrary(),
                    stream_1,
                    arbitrary(),
                    *stream,
                    self,
                    Err(error),
                ));
                return Err(error);
            },
        };
        let result_1 = self.1.parse(stream);
        let ghost stream_2 = *stream;
        proof {
            input.lemma_reaches_trans(&stream_1, stream);
        }
        let value_1 = match result_1 {
            Ok(value) => value,
            Err(error) => {
                assert(chain_4_run(
                    &this,
                    input,
                    result_0,
                    stream_1,
                    result_1,
                    stream_2,
                    arbitrary(),
                    stream_2,
                    arbitrary(),
                    *stream,
                    self,
                    Err(error),
                ));
                return Err(error);
            },
        };
        let result_2 = self.2.parse(stream);
        let ghost stream_3 = *stream;
        proof {
            input.lemma_reaches_trans(&stream_2, stream);
        }
        let value_2 = match result_2 {
            Ok(value) => value,
            Err(error) => {
                assert(chain_4_run(
                    &this,
                    input,
                    result_0,
                    stream_1,
                    result_1,
                    stream_2,
                    result_2,
                    stream_3,
                    arbitrary(),
                    *stream,
                    self,
                    Err(error),
                ));
                return Err(error);
            },
        };
        let result_3 = self.3.parse(stream);
        proof {
            input.lemma_reaches_trans(&stream_3, stream);
        }
        let value_3 = match result_3 {
            Ok(value) => value,
            Err(error) => {
                assert(chain_4_run(
                    &this,
                    input,
                    result_0,
                    stream_1,
                    result_1,
                    stream_2,
                    result_2,
                    stream_3,
                    result_3,
                    *stream,
                    self,
                    Err(error),
                ));
                return Err(error);
            },
        };
        assert(chain_4_run(
            &this,
            input,
            result_0,
            stream_1,
            result_1,
            stream_2,
            result_2,
            stream_3,
            result_3,
            *stream,
            self,
            Ok((value_0, value_1, value_2, value_3)),
        ));
        Ok((value_0, value_1, value_2, value_3))
    }
}

/// Whether a chain of five parsers can run as given: each parser on the stream
/// that the one before it left, as long as none has failed.  The result is
/// the first error, or the tuple of the outputs.
pub open spec fn chain_5_run<S, E, P1, P2, P3, P4, P5>(
    parsers: &(P1, P2, P3, P4, P5),
    input: S,
    result_0: Result<P1::Output, E>,
    stream_1: S,
    result_1: Result<P2::Output, E>,
    stream_2: S,
    result_2: Result<P3::Output, E>,
    stream_3: S,
    result_3: Result<P4::Output, E>,
    stream_4: S,
    result_4: Result<P5::Output, E>,
    output: S,
    after: &(P1, P2, P3, P4, P5),
    result: Result<(P1::Output, P2::Output, P3::Output, P4::Output, P5::Output), E>,
) -> bool where
    S: Stream,
    E: Error<S>,
    P1: Parser<S, E>,
    P2: Parser<S, E>,
    P3: Parser<S, E>,
    P4: Parser<S, E>,
    P5: Parser<S, E>,
 {
    let reached_1 = result_0 is Ok;
    let reached_2 = reached_1 && result_1 is Ok;
    let reached_3 = reached_2 && result_2 is Ok;
    let reached_4 = reached_3 && result_3 is Ok;
    &&& parsers.0.parses(input, stream_1, &after.0, result_0)
    &&& runs_if(reached_1, &parsers.1, stream_1, stream_2, &after.1, result_1)
    &&& runs_if(reached_2, &parsers.2, stream_2, stream_3, &after.2, result_2)
    &&& runs_if(reached_3, &parsers.3, stream_3, stream_4, &after.3, result_3)
    &&& runs_if(reached_4, &parsers.4, stream_4, output, &after.4, result_4)
    &&& result === match (result_0, result_1, result_2, result_3, result_4) {
        (Err(error), _, _, _, _) => Err(error),
        (Ok(_), Err(error), _, _, _) => Err(error),
        (Ok(_), Ok(_), Err(error), _, _) => Err(error),
        (Ok(_), Ok(_), Ok(_), Err(error), _) => Err(error),
        (Ok(_), Ok(_), Ok(_), Ok(_), Err(error)) => Err(error),
        (Ok(v0), Ok(v1), Ok(v2), Ok(v3), Ok(v4)) => Ok((v0, v1, v2, v3, v4)),
    }
}

impl<S, E, P1, P2, P3, P4, P5> ChainedParsers<S, E> for (P1, P2, P3, P4, P5) where
    S: Stream,
    E: Error<S>,
    P1: Parser<S, E>,
    P2: Parser<S, E>,
    P3: Parser<S, E>,
    P4: Parser<S, E>,
    P5: Parser<S, E>,
 {
    type Output = (P1::Output, P2::Output, P3::Output, P4::Output, P5::Output);

    open spec fn inv(&self) -> bool {
        &&& self.0.inv()
        &&& self.1.inv()
        &&& self.2.inv()
        &&& self.3.inv()
        &&& self.4.inv()
    }

    open spec fn parses_chained(
        &self,
        input: S,
        output: S,
        after: &Self,
        result: Result<Self::Output, E>,
    ) -> bool {
        exists|
            result_0: Result<P1::Output, E>,
            stream_1: S,
            result_1: Result<P2::Output, E>,
            stream_2: S,
            result_2: Result<P3::Output, E>,
            stream_3: S,
            result_3: Result<P4::Output, E>,
            stream_4: S,
            result_4: Result<P5::Output, E>,
        | #[trigger]
            chain_5_run(
                self,
                input,
                result_0,
                stream_1,
                result_1,
                stream_2,
                result_2,
                stream_3,
                result_3,
                stream_4,
                result_4,
                output,
                after,
                result,
            )
    }

    fn parse_chained(&mut self, stream: &mut S) -> (result: Result<Self::Output, E>) {
        let ghost input = *stream;
        let ghost this = *self;
        let result_0 = self.0.parse(stream);
        let ghost stream_1 = *stream;
        let value_0 = match result_0 {
            Ok(value) => value,
            Err(error) => {
                assert(chain_5_run(
                    &this,
                    input,
                    result_0,
                    stream_1,
                    arbitrary(),
                    stream_1,
                    arbitrary(),
                    stream_1,
                    arbitrary(),
                    stream_1,
                    arbitrary(),
                    *stream,
                    self,
                    Err(error),
                ));
                return Err(error);
            },
        };
        let result_1 = self.1.parse(stream);
        let ghost stream_2 = *stream;
        proof {
            input.lemma_reaches_trans(&stream_1, stream);
        }
        let value_1 = match result_1 {
            Ok(value) => value,
            Err(error) => {
                assert(chain_5_run(
                    &this,
                    input,
                    result_0,
                    stream_1,
                    result_1,
                    stream_2,
                    arbitrary(),
                    stream_2,
                    arbitrary(),
                    stream_2,
                    arbitrary(),
                    *stream,
                    self,
                    Err(error),
                ));
                return Err(error);
            },
        };
        let result_2 = self.2.parse(stream);
        let ghost stream_3 = *stream;
        proof {
            input.lemma_reaches_trans(&stream_2, stream);
        }
        let value_2 = match result_2 {
            Ok(value) => value,
            Err(error) => {
                assert(chain_5_run(
                    &this,
                    input,
                    result_0,
                    stream_1,
                    result_1,
                    stream_2,
                    result_2,
                    stream_3,
                    arbitrary(),
                    stream_3,
                    arbitrary(),
                    *stream,
                    self,
                    Err(error),
                ));
                return Err(error);
            },
        };
        let result_3 = self.3.parse(stream);
        let ghost stream_4 = *stream;
        proof {
            input.lemma_reaches_trans(&stream_3, stream);
        }
        let value_3 = match result_3 {
            Ok(value) => value,
            Err(error) => {
                assert(chain_5_run(
                    &this,
                    input,
                    result_0,
                    stream_1,
                    result_1,
                    stream_2,
                    result_2,
                    stream_3,
                    result_3,
                    stream_4,
                    arbitrary(),
                    *stream,
                    self,
                    Err(error),
                ));
                return Err(error);
            },
        };
        let result_4 = self.4.parse(stream);
        proof {
            input.lemma_reaches_trans(&stream_4, stream);
        }
        let value_4 = match result_4 {
            Ok(value) => value,
            Err(error) => {
                assert(chain_5_run(
                    &this,
                    input,
                    result_0,
                    stream_1,
                    result_1,
                    stream_2,
                    result_2,
                    stream_3,
                    result_3,
                    stream_4,
                    result_4,
                    *stream,
                    self,
                    Err(error),
                ));
                return Err(error);
            },
        };
        assert(chain_5_run(
            &this,
            input,
            result_0,
            stream_1,
            result_1,
            stream_2,
            result_2,
            stream_3,
            result_3,
            stream_4,
            result_4,
            *stream,
            self,
            Ok((value_0, value_1, value_2, value_3, value_4)),
        ));
        Ok((value_0, value_1, value_2, value_3, value_4))
    }
}

/// Whether a chain of six parsers can run as given: each parser on the stream
/// that the one before it left, as long as none has failed.  The result is
/// the first error, or the tuple of the outputs.
pub open spec fn chain_6_run<S, E, P1, P2, P3, P4, P5, P6>(
    parsers: &(P1, P2, P3, P4, P5, P6),
    input: S,
    result_0: Result<P1::Output, E>,
    stream_1: S,
    result_1: Result<P2::Output, E>,
    stream_2: S,
    result_2: Result<P3::Output, E>,
    stream_3: S,
    result_3: Result<P4::Output, E>,
    stream_4: S,
    result_4: Result<P5::Output, E>,
    stream_5: S,
    result_5: Result<P6::Output, E>,
    output: S,
    after: &(P1, P2, P3, P4, P5, P6),
    result: Result<(P1::Output, P2::Output, P3::Output, P4::Output, P5::Output, P6::Output), E>,
) -> bool where
    S: Stream,
    E: Error<S>,
    P1: Parser<S, E>,
    P2: Parser<S, E>,
    P3: Parser<S, E>,
    P4: Parser<S, E>,
    P5: Parser<S, E>,
    P6: Parser<S, E>,
 {
    let reached_1 = result_0 is Ok;
    let reached_2 = reached_1 && result_1 is Ok;
    let reached_3 = reached_2 && result_2 is Ok;
    let reached_4 = reached_3 && result_3 is Ok;
    let reached_5 = reached_4 && result_4 is Ok;
    &&& parsers.0.parses(input, stream_1, &after.0, result_0)
    &&& runs_if(reached_1, &parsers.1, stream_1, stream_2, &after.1, result_1)
    &&& runs_if(reached_2, &parsers.2, stream_2, stream_3, &after.2, result_2)
    &&& runs_if(reached_3, &parsers.3, stream_3, stream_4, &after.3, result_3)
    &&& runs_if(reached_4, &parsers.4, stream_4, stream_5, &after.4, result_4)
    &&& runs_if(reached_5, &parsers.5, stream_5, output, &after.5, result_5)
    &&& result === match (result_0, result_1, result_2, result_3, result_4, result_5) {
        (Err(error), _, _, _, _, _) => Err(error),
        (Ok(_), Err(error), _, _, _, _) => Err(error),
        (Ok(_), Ok(_), Err(error), _, _, _) => Err(error),
        (Ok(_), Ok(_), Ok(_), Err(error), _, _) => Err(error),
        (Ok(_), Ok(_), Ok(_), Ok(_), Err(error), _) => Err(error),
        (Ok(_), Ok(_), Ok(_), Ok(_), Ok(_), Err(error)) => Err(error),
        (Ok(v0), Ok(v1), Ok(v2), Ok(v3), Ok(v4), Ok(v5)) => Ok((v0, v1, v2, v3, v4, v5)),
    }
}

impl<S, E, P1, P2, P3, P4, P5, P6> ChainedParsers<S, E> for (P1, P2, P3, P4, P5, P6) where
    S: Stream,
    E: Error<S>,
    P1: Parser<S, E>,
    P2: Parser<S, E>,
    P3: Parser<S, E>,
    P4: Parser<S, E>,
    P5: Parser<S, E>,
    P6: Parser<S, E>,
 {
    type Output = (P1::Output, P2::Output, P3::Output, P4::Output, P5::Output, P6::Output);

    open spec fn inv(&self) -> bool {
        &&& self.0.inv()
        &&& self.1.inv()
        &&& self.2.inv()
        &&& self.3.inv()
        &&& self.4.inv()
        &&& self.5.inv()
    }

    open spec fn parses_chained(
        &self,
        input: S,
        output: S,
        after: &Self,
        result: Result<Self::Output, E>,
    ) -> bool {
        exists|
            result_0: Result<P1::Output, E>,
            stream_1: S,
            result_1: Result<P2::Output, E>,
            stream_2: S,
            result_2: Result<P3::Output, E>,
            stream_3: S,
            result_3: Result<P4::Output, E>,
            stream_4: S,
            result_4: Result<P5::Output, E>,
            stream_5: S,
            result_5: Result<P6::Output, E>,
        | #[trigger]
            chain_6_run(
                self,
                input,
                result_0,
                stream_1,
                result_1,
                stream_2,
                result_2,
                stream_3,
                result_3,
                stream_4,
                result_4,
                stream_5,
                result_5,
                output,
                after,
                result,
            )
    }

    fn parse_chained(&mut self, stream: &mut S) -> (result: Result<Self::Output, E>) {
        let ghost input = *stream;
        let ghost this = *self;
        let result_0 = self.0.parse(stream);
        let ghost stream_1 = *stream;
        let value_0 = match result_0 {
            Ok(value) => value,
            Err(error) => {
                assert(chain_6_run(
                    &this,
                    input,
                    result_0,
                    stream_1,
                    arbitrary(),
                    stream_1,
                    arbitrary(),
                    stream_1,
                    arbitrary(),
                    stream_1,
                    arbitrary(),
                    stream_1,
                    arbitrary(),
                    *stream,
                    self,
                    Err(error),
                ));
                return Err(error);
            },
        };
        let result_1 = self.1.parse(stream);
        let ghost stream_2 = *stream;
        proof {
            input.lemma_reaches_trans(&stream_1, stream);
        }
        let value_1 = match result_1 {
            Ok(value) => value,
            Err(error) => {
                assert(chain_6_run(
                    &this,
                    input,
                    result_0,
                    stream_1,
                    result_1,
                    stream_2,
                    arbitrary(),
                    stream_2,
                    arbitrary(),
                    stream_2,
                    arbitrary(),
                    stream_2,
                    arbitrary(),
                    *stream,
                    self,
                    Err(error),
                ));
                return Err(error);
            },
        };
        let result_2 = self.2.parse(stream);
        let ghost stream_3 = *stream;
        proof {
            input.lemma_reaches_trans(&stream_2, stream);
        }
        let value_2 = match result_2 {
            Ok(value) => value,
            Err(error) => {
                assert(chain_6_run(
                    &this,
                    input,
                    result_0,
                    stream_1,
                    result_1,
                    stream_2,
                    result_2,
                    stream_3,
                    arbitrary(),
                    stream_3,
                    arbitrary(),
                    stream_3,
                    arbitrary(),
                    *stream,
                    self,
                    Err(error),
                ));
                return Err(error);
            },
        };
        let result_3 = self.3.parse(stream);
        let ghost stream_4 = *stream;
        proof {
            input.lemma_reaches_trans(&stream_3, stream);
        }
        let value_3 = match result_3 {
            Ok(value) => value,
            Err(error) => {
                assert(chain_6_run(
                    &this,
                    input,
                    result_0,
                    stream_1,
                    result_1,
                    stream_2,
                    result_2,
                    stream_3,
                    result_3,
                    stream_4,
                    arbitrary(),
                    stream_4,
                    arbitrary(),
                    *stream,
                    self,
                    Err(error),
                ));
                return Err(error);
            },
        };
        let result_4 = self.4.parse(stream);
        let ghost stream_5 = *stream;
        proof {
            input.lemma_reaches_trans(&stream_4, stream);
        }
        let value_4 = match result_4 {
            Ok(value) => value,
            Err(error) => {
                assert(chain_6_run(
                    &this,
                    input,
                    result_0,
                    stream_1,
                    result_1,
                    stream_2,
                    result_2,
                    stream_3,
                    result_3,
                    stream_4,
                    result_4,
                    stream_5,
                    arbitrary(),
                    *stream,
                    self,
                    Err(error),
                ));
                return Err(error);
            },
        };
        let result_5 = self.5.parse(stream);
        proof {
            input.lemma_reaches_trans(&stream_5, stream);
        }
        let value_5 = match result_5 {
            Ok(value) => value,
            Err(error) => {
                assert(chain_6_run(
                    &this,
                    input,
                    result_0,
                    stream_1,
                    result_1,
                    stream_2,
                    result_2,
                    stream_3,
                    result_3,
                    stream_4,
                    result_4,
                    stream_5,
                    result_5,
                    *stream,
                    self,
                    Err(error),
                ));
                return Err(error);
            },
        };
        assert(chain_6_run(
            &this,
            input,
            result_0,
            stream_1,
            result_1,
            stream_2,
            result_2,
            stream_3,
            result_3,
            stream_4,
            result_4,
            stream_5,
            result_5,
            *stream,
            self,
            Ok((value_0, value_1, value_2, value_3, value_4, value_5)),
        ));
        Ok((value_0, value_1, value_2, value_3, value_4, value_5))
    }
}

/// Whether a chain of seven parsers can run as given: each parser on the stream
/// that the one before it left, as long as none has failed.  The result is
/// the first error, or the tuple of the outputs.
pub open spec fn chain_7_run<S, E, P1, P2, P3, P4, P5, P6, P7>(
    parsers: &(P1, P2, P3, P4, P5, P6, P7),
    input: S,
    result_0: Result<P1::Output, E>,
    stream_1: S,
    result_1: Result<P2::Output, E>,
    stream_2: S,
    result_2: Result<P3::Output, E>,
    stream_3: S,
    result_3: Result<P4::Output, E>,
    stream_4: S,
    result_4: Result<P5::Output, E>,
    stream_5: S,
    result_5: Result<P6::Output, E>,
    stream_6: S,
    result_6: Result<P7::Output, E>,
    output: S,
    after: &(P1, P2, P3, P4, P5, P6, P7),
    result: Result<(
        P1::Output,
        P2::Output,
        P3::Output,
        P4::Output,
        P5::Output,
        P6::Output,
        P7::Output,
    ), E>,
) -> bool where
    S: Stream,
    E: Error<S>,
    P1: Parser<S, E>,
    P2: Parser<S, E>,
    P3: Parser<S, E>,
    P4: Parser<S, E>,
    P5: Parser<S, E>,
    P6: Parser<S, E>,
    P7: Parser<S, E>,
 {
    let reached_1 = result_0 is Ok;
    let reached_2 = reached_1 && result_1 is Ok;
    let reached_3 = reached_2 && result_2 is Ok;
    let reached_4 = reached_3 && result_3 is Ok;
    let reached_5 = reached_4 && result_4 is Ok;
    let reached_6 = reached_5 && result_5 is Ok;
    &&& parsers.0.parses(input, stream_1, &after.0, result_0)
    &&& runs_if(reached_1, &parsers.1, stream_1, stream_2, &after.1, result_1)
    &&& runs_if(reached_2, &parsers.2, stream_2, stream_3, &after.2, result_2)
    &&& runs_if(reached_3, &parsers.3, stream_3, stream_4, &after.3, result_3)
    &&& runs_if(reached_4, &parsers.4, stream_4, stream_5, &after.4, result_4)
    &&& runs_if(reached_5, &parsers.5, stream_5, stream_6, &after.5, result_5)
    &&& runs_if(reached_6, &parsers.6, stream_6, output, &after.6, result_6)
    &&& result === match (result_0, result_1, result_2, result_3, result_4, result_5, result_6) {
        (Err(error), _, _, _, _, _, _) => Err(error),
        (Ok(_), Err(error), _, _, _, _, _) => Err(error),
        (Ok(_), Ok(_), Err(error), _, _, _, _) => Err(error),
        (Ok(_), Ok(_), Ok(_), Err(error), _, _, _) => Err(error),
        (Ok(_), Ok(_), Ok(_), Ok(_), Err(error), _, _) => Err(error),
        (Ok(_), Ok(_), Ok(_), Ok(_), Ok(_), Err(error), _) => Err(error),
        (Ok(_), Ok(_), Ok(_), Ok(_), Ok(_), Ok(_), Err(error)) => Err(error),
        (Ok(v0), Ok(v1), Ok(v2), Ok(v3), Ok(v4), Ok(v5), Ok(v6)) => Ok(
            (v0, v1, v2, v3, v4, v5, v6),
        ),
    }
}

impl<S, E, P1, P2, P3, P4, P5, P6, P7> ChainedParsers<S, E> for (P1, P2, P3, P4, P5, P6, P7) where
    S: Stream,
    E: Error<S>,
    P1: Parser<S, E>,
    P2: Parser<S, E>,
    P3: Parser<S, E>,
    P4: Parser<S, E>,
    P5: Parser<S, E>,
    P6: Parser<S, E>,
    P7: Parser<S, E>,
 {
    type Output = (
        P1::Output,
        P2::Output,
        P3::Output,
        P4::Output,
        P5::Output,
        P6::Output,
        P7::Output,
    );

    open spec fn inv(&self) -> bool {
        &&& self.0.inv()
        &&& self.1.inv()
        &&& self.2.inv()
        &&& self.3.inv()
        &&& self.4.inv()
        &&& self.5.inv()
        &&& self.6.inv()
    }

    open spec fn parses_chained(
        &self,
        input: S,
        output: S,
        after: &Self,
        result: Result<Self::Output, E>,
    ) -> bool {
        exists|
            result_0: Result<P1::Output, E>,
            stream_1: S,
            result_1: Result<P2::Output, E>,
            stream_2: S,
            result_2: Result<P3::Output, E>,
            stream_3: S,
            result_3: Result<P4::Output, E>,
            stream_4: S,
            result_4: Result<P5::Output, E>,
            stream_5: S,
            result_5: Result<P6::Output, E>,
            stream_6: S,
            result_6: Result<P7::Output, E>,
        | #[trigger]
            chain_7_run(
                self,
                input,
                result_0,
                stream_1,
                result_1,
                stream_2,
                result_2,
                stream_3,
                result_3,
                stream_4,
                result_4,
                stream_5,
                result_5,
                stream_6,
                result_6,
                output,
                after,
                result,
            )
    }

    fn parse_chained(&mut self, stream: &mut S) -> (result: Result<Self::Output, E>) {
        let ghost input = *stream;
        let ghost this = *self;
        let result_0 = self.0.parse(stream);
        let ghost stream_1 = *stream;
        let value_0 = match result_0 {
            Ok(value) => value,
            Err(error) => {
                assert(chain_7_run(
                    &this,
                    input,
                    result_0,
                    stream_1,
                    arbitrary(),
                    stream_1,
                    arbitrary(),
                    stream_1,
                    arbitrary(),
                    stream_1,
                    arbitrary(),
                    stream_1,
                    arbitrary(),
                    stream_1,
                    arbitrary(),
                    *stream,
                    self,
                    Err(error),
                ));
                return Err(error);
            },
        };
        let result_1 = self.1.parse(stream);
        let ghost stream_2 = *stream;
        proof {
            input.lemma_reaches_trans(&stream_1, stream);
        }
        let value_1 = match result_1 {
            Ok(value) => value,
            Err(error) => {
                assert(chain_7_run(
                    &this,
                    input,
                    result_0,
                    stream_1,
                    result_1,
                    stream_2,
                    arbitrary(),
                    stream_2,
                    arbitrary(),
                    stream_2,
                    arbitrary(),
                    stream_2,
                    arbitrary(),
                    stream_2,
                    arbitrary(),
                    *stream,
                    self,
                    Err(error),
                ));
                return Err(error);
            },
        };
        let result_2 = self.2.parse(stream);
        let ghost stream_3 = *stream;
        proof {
            input.lemma_reaches_trans(&stream_2, stream);
        }
        let value_2 = match result_2 {
            Ok(value) => value,
            Err(error) => {
                assert(chain_7_run(
                    &this,
                    input,
                    result_0,
                    stream_1,
                    result_1,
                    stream_2,
                    result_2,
                    stream_3,
                    arbitrary(),
                    stream_3,
                    arbitrary(),
                    stream_3,
                    arbitrary(),
                    stream_3,
                    arbitrary(),
                    *stream,
                    self,
                    Err(error),
                ));
                return Err(error);
            },
        };
        let result_3 = self.3.parse(stream);
        let ghost stream_4 = *stream;
        proof {
            input.lemma_reaches_trans(&stream_3, stream);
        }
        let value_3 = match result_3 {
            Ok(value) => value,
            Err(error) => {
                assert(chain_7_run(
                    &this,
                    input,
                    result_0,
                    stream_1,
                    result_1,
                    stream_2,
                    result_2,
                    stream_3,
                    result_3,
                    stream_4,
                    arbitrary(),
                    stream_4,
                    arbitrary(),
                    stream_4,
                    arbitrary(),
                    *stream,
                    self,
                    Err(error),
                ));
                return Err(error);
            },
        };
        let result_4 = self.4.parse(stream);
        let ghost stream_5 = *stream;
        proof {
            input.lemma_reaches_trans(&stream_4, stream);
        }
        let value_4 = match result_4 {
            Ok(value) => value,
            Err(error) => {
                assert(chain_7_run(
                    &this,
                    input,
                    result_0,
                    stream_1,
                    result_1,
                    stream_2,
                    result_2,
                    stream_3,
                    result_3,
                    stream_4,
                    result_4,
                    stream_5,
                    arbitrary(),
                    stream_5,
                    arbitrary(),
                    *stream,
                    self,
                    Err(error),
                ));
                return Err(error);
            },
        };
        let result_5 = self.5.parse(stream);
        let ghost stream_6 = *stream;
        proof {
            input.lemma_reaches_trans(&stream_5, stream);
        }
        let value_5 = match result_5 {
            Ok(value) => value,
            Err(error) => {
                assert(chain_7_run(
                    &this,
                    input,
                    result_0,
                    stream_1,
                    result_1,
                    stream_2,
                    result_2,
                    stream_3,
                    result_3,
                    stream_4,
                    result_4,
                    stream_5,
                    result_5,
                    stream_6,
                    arbitrary(),
                    *stream,
                    self,
                    Err(error),
                ));
                return Err(error);
            },
        };
        let result_6 = self.6.parse(stream);
        proof {
            input.lemma_reaches_trans(&stream_6, stream);
        }
        let value_6 = match result_6 {
            Ok(value) => value,
            Err(error) => {
                assert(chain_7_run(
                    &this,
                    input,
                    result_0,
                    stream_1,
                    result_1,
                    stream_2,
                    result_2,
                    stream_3,
                    result_3,
                    stream_4,
                    result_4,
                    stream_5,
                    result_5,
                    stream_6,
                    result_6,
                    *stream,
                    self,
                    Err(error),
                ));
                return Err(error);
            },
        };
        assert(chain_7_run(
            &this,
            input,
            result_0,
            stream_1,
            result_1,
            stream_2,
            result_2,
            stream_3,
            result_3,
            stream_4,
            result_4,
            stream_5,
            result_5,
            stream_6,
            result_6,
            *stream,
            self,
            Ok((value_0, value_1, value_2, value_3, value_4, value_5, value_6)),
        ));
        Ok((value_0, value_1, value_2, value_3, value_4, value_5, value_6))
    }
}

/// Whether a chain of eight parsers can run as given: each parser on the stream
/// that the one before it left, as long as none has failed.  The result is
/// the first error, or the tuple of the outputs.
pub open spec fn chain_8_run<S, E, P1, P2, P3, P4, P5, P6, P7, P8>(
    parsers: &(P1, P2, P3, P4, P5, P6, P7, P8),
    input: S,
    result_0: Result<P1::Output, E>,
    stream_1: S,
    result_1: Result<P2::Output, E>,
    stream_2: S,
    result_2: Result<P3::Output, E>,
    stream_3: S,
    result_3: Result<P4::Output, E>,
    stream_4: S,
    result_4: Result<P5::Output, E>,
    stream_5: S,
    result_5: Result<P6::Output, E>,
    stream_6: S,
    result_6: Result<P7::Output, E>,
    stream_7: S,
    result_7: Result<P8::Output, E>,
    output: S,
    after: &(P1, P2, P3, P4, P5, P6, P7, P8),
    result: Result<(
        P1::Output,
        P2::Output,
        P3::Output,
        P4::Output,
        P5::Output,
        P6::Output,
        P7::Output,
        P8::Output,
    ), E>,
) -> bool where
    S: Stream,
    E: Error<S>,
    P1: Parser<S, E>,
    P2: Parser<S, E>,
    P3: Parser<S, E>,
    P4: Parser<S, E>,
    P5: Parser<S, E>,
    P6: Parser<S, E>,
    P7: Parser<S, E>,
    P8: Parser<S, E>,
 {
    let reached_1 = result_0 is Ok;
    let reached_2 = reached_1 && result_1 is Ok;
    let reached_3 = reached_2 && result_2 is Ok;
    let reached_4 = reached_3 && result_3 is Ok;
    let reached_5 = reached_4 && result_4 is Ok;
    let reached_6 = reached_5 && result_5 is Ok;
    let reached_7 = reached_6 && result_6 is Ok;
    &&& parsers.0.parses(input, stream_1, &after.0, result_0)
    &&& runs_if(reached_1, &parsers.1, stream_1, stream_2, &after.1, result_1)
    &&& runs_if(reached_2, &parsers.2, stream_2, stream_3, &after.2, result_2)
    &&& runs_if(reached_3, &parsers.3, stream_3, stream_4, &after.3, result_3)
    &&& runs_if(reached_4, &parsers.4, stream_4, stream_5, &after.4, result_4)
    &&& runs_if(reached_5, &parsers.5, stream_5, stream_6, &after.5, result_5)
    &&& runs_if(reached_6, &parsers.6, stream_6, stream_7, &after.6, result_6)
    &&& runs_if(reached_7, &parsers.7, stream_7, output, &after.7, result_7)
    &&& result === match (
        result_0,
        result_1,
        result_2,
        result_3,
        result_4,
        result_5,
        result_6,
        result_7,
    ) {
        (Err(error), _, _, _, _, _, _, _) => Err(error),
        (Ok(_), Err(error), _, _, _, _, _, _) => Err(error),
        (Ok(_), Ok(_), Err(error), _, _, _, _, _) => Err(error),
        (Ok(_), Ok(_), Ok(_), Err(error), _, _, _, _) => Err(error),
        (Ok(_), Ok(_), Ok(_), Ok(_), Err(error), _, _, _) => Err(error),
        (Ok(_), Ok(_), Ok(_), Ok(_), Ok(_), Err(error), _, _) => Err(error),
        (Ok(_), Ok(_), Ok(_), Ok(_), Ok(_), Ok(_), Err(error), _) => Err(error),
        (Ok(_), Ok(_), Ok(_), Ok(_), Ok(_), Ok(_), Ok(_), Err(error)) => Err(error),
        (Ok(v0), Ok(v1), Ok(v2), Ok(v3), Ok(v4), Ok(v5), Ok(v6), Ok(v7)) => Ok(
            (v0, v1, v2, v3, v4, v5, v6, v7),
        ),
    }
}

impl<S, E, P1, P2, P3, P4, P5, P6, P7, P8> ChainedParsers<S, E> for (
    P1,
    P2,
    P3,
    P4,
    P5,
    P6,
    P7,
    P8,
) where
    S: Stream,
    E: Error<S>,
    P1: Parser<S, E>,
    P2: Parser<S, E>,
    P3: Parser<S, E>,
    P4: Parser<S, E>,
    P5: Parser<S, E>,
    P6: Parser<S, E>,
    P7: Parser<S, E>,
    P8: Parser<S, E>,
 {
    type Output = (
        P1::Output,
        P2::Output,
        P3::Output,
        P4::Output,
        P5::Output,
        P6::Output,
        P7::Output,
        P8::Output,
    );

    open spec fn inv(&self) -> bool {
        &&& self.0.inv()
        &&& self.1.inv()
        &&& self.2.inv()
        &&& self.3.inv()
        &&& self.4.inv()
        &&& self.5.inv()
        &&& self.6.inv()
        &&& self.7.inv()
    }

    open spec fn parses_chained(
        &self,
        input: S,
        output: S,
        after: &Self,
        result: Result<Self::Output, E>,
    ) -> bool {
        exists|
            result_0: Result<P1::Output, E>,
            stream_1: S,
            result_1: Result<P2::Output, E>,
            stream_2: S,
            result_2: Result<P3::Output, E>,
            stream_3: S,
            result_3: Result<P4::Output, E>,
            stream_4: S,
            result_4: Result<P5::Output, E>,
            stream_5: S,
            result_5: Result<P6::Output, E>,
            stream_6: S,
            result_6: Result<P7::Output, E>,
            stream_7: S,
            result_7: Result<P8::Output, E>,
        | #[trigger]
            chain_8_run(
                self,
                input,
                result_0,
                stream_1,
                result_1,
                stream_2,
                result_2,
                stream_3,
                result_3,
                stream_4,
                result_4,
                stream_5,
                result_5,
                stream_6,
                result_6,
                stream_7,
                result_7,
                output,
                after,
                result,
            )
    }

    fn parse_chained(&mut self, stream: &mut S) -> (result: Result<Self::Output, E>) {
        let ghost input = *stream;
        let ghost this = *self;
        let result_0 = self.0.parse(stream);
        let ghost stream_1 = *stream;
        let value_0 = match result_0 {
            Ok(value) => value,
            Err(error) => {
                assert(chain_8_run(
                    &this,
                    input,
                    result_0,
                    stream_1,
                    arbitrary(),
                    stream_1,
                    arbitrary(),
                    stream_1,
                    arbitrary(),
                    stream_1,
                    arbitrary(),
                    stream_1,
                    arbitrary(),
                    stream_1,
                    arbitrary(),
                    stream_1,
                    arbitrary(),
                    *stream,
                    self,
                    Err(error),
                ));
                return Err(error);
            },
        };
        let result_1 = self.1.parse(stream);
        let ghost stream_2 = *stream;
        proof {
            input.lemma_reaches_trans(&stream_1, stream);
        }
        let value_1 = match result_1 {
            Ok(value) => value,
            Err(error) => {
                assert(chain_8_run(
                    &this,
                    input,
                    result_0,
                    stream_1,
                    result_1,
                    stream_2,
                    arbitrary(),
                    stream_2,
                    arbitrary(),
                    stream_2,
                    arbitrary(),
                    stream_2,
                    arbitrary(),
                    stream_2,
                    arbitrary(),
                    stream_2,
                    arbitrary(),
                    *stream,
                    self,
                    Err(error),
                ));
                return Err(error);
            },
        };
        let result_2 = self.2.parse(stream);
        let ghost stream_3 = *stream;
        proof {
            input.lemma_reaches_trans(&stream_2, stream);
        }
        let value_2 = match result_2 {
            Ok(value) => value,
            Err(error) => {
                assert(chain_8_run(
                    &this,
                    input,
                    result_0,
                    stream_1,
                    result_1,
                    stream_2,
                    result_2,
                    stream_3,
                    arbitrary(),
                    stream_3,
                    arbitrary(),
                    stream_3,
                    arbitrary(),
                    stream_3,
                    arbitrary(),
                    stream_3,
                    arbitrary(),
                    *stream,
                    self,
                    Err(error),
                ));
                return Err(error);
            },
        };
        let result_3 = self.3.parse(stream);
        let ghost stream_4 = *stream;
        proof {
            input.lemma_reaches_trans(&stream_3, stream);
        }
        let value_3 = match result_3 {
            Ok(value) => value,
            Err(error) => {
                assert(chain_8_run(
                    &this,
                    input,
                    result_0,
                    stream_1,
                    result_1,
                    stream_2,
                    result_2,
                    stream_3,
                    result_3,
                    stream_4,
                    arbitrary(),
                    stream_4,
                    arbitrary(),
                    stream_4,
                    arbitrary(),
                    stream_4,
                    arbitrary(),
                    *stream,
                    self,
                    Err(error),
                ));
                return Err(error);
            },
        };
        let result_4 = self.4.parse(stream);
        let ghost stream_5 = *stream;
        proof {
            input.lemma_reaches_trans(&stream_4, stream);
        }
        let value_4 = match result_4 {
            Ok(value) => value,
            Err(error) => {
                assert(chain_8_run(
                    &this,
                    input,
                    result_0,
                    stream_1,
                    result_1,
                    stream_2,
                    result_2,
                    stream_3,
                    result_3,
                    stream_4,
                    result_4,
                    stream_5,
                    arbitrary(),
                    stream_5,
                    arbitrary(),
                    stream_5,
                    arbitrary(),
                    *stream,
                    self,
                    Err(error),
                ));
                return Err(error);
            },
        };
        let result_5 = self.5.parse(stream);
        let ghost stream_6 = *stream;
        proof {
            input.lemma_reaches_trans(&stream_5, stream);
        }
        let value_5 = match result_5 {
            Ok(value) => value,
            Err(error) => {
                assert(chain_8_run(
                    &this,
                    input,
                    result_0,
                    stream_1,
                    result_1,
                    stream_2,
                    result_2,
                    stream_3,
                    result_3,
                    stream_4,
                    result_4,
                    stream_5,
                    result_5,
                    stream_6,
                    arbitrary(),
                    stream_6,
                    arbitrary(),
                    *stream,
                    self,
                    Err(error),
                ));
                return Err(error);
            },
        };
        let result_6 = self.6.parse(stream);
        let ghost stream_7 = *stream;
        proof {
            input.lemma_reaches_trans(&stream_6, stream);
        }
        let value_6 = match result_6 {
            Ok(value) => value,
            Err(error) => {
                assert(chain_8_run(
                    &this,
                    input,
                    result_0,
                    stream_1,
                    result_1,
                    stream_2,
                    result_2,
                    stream_3,
                    result_3,
                    stream_4,
                    result_4,
                    stream_5,
                    result_5,
                    stream_6,
                    result_6,
                    stream_7,
                    arbitrary(),
                    *stream,
                    self,
                    Err(error),
                ));
                return Err(error);
            },
        };
        let result_7 = self.7.parse(stream);
        proof {
            input.lemma_reaches_trans(&stream_7, stream);
        }
        let value_7 = match result_7 {
            Ok(value) => value,
            Err(error) => {
                assert(chain_8_run(
                    &this,
                    input,
                    result_0,
                    stream_1,
                    result_1,
                    stream_2,
                    result_2,
                    stream_3,
                    result_3,
                    stream_4,
                    result_4,
                    stream_5,
                    result_5,
                    stream_6,
                    result_6,
                    stream_7,
                    result_7,
                    *stream,
                    self,
                    Err(error),
                ));
                return Err(error);
            },
        };
        assert(chain_8_run(
            &this,
            input,
            result_0,
            stream_1,
            result_1,
            stream_2,
            result_2,
            stream_3,
            result_3,
            stream_4,
            result_4,
            stream_5,
            result_5,
            stream_6,
            result_6,
            stream_7,
            result_7,
            *stream,
            self,
            Ok((value_0, value_1, value_2, value_3, value_4, value_5, value_6, value_7)),
        ));
        Ok((value_0, value_1, value_2, value_3, value_4, value_5, value_6, value_7))
    }
}

/// A chain stops at the first failure: when the second of three parsers
/// fails, the third is left as it was, the stream is as the second left it,
/// and the second's error is the result.
pub proof fn lemma_chain_short_circuits<S, E, P1, P2, P3>(
    parsers: (P1, P2, P3),
    input: S,
    result_0: Result<P1::Output, E>,
    stream_1: S,
    result_1: Result<P2::Output, E>,
    stream_2: S,
    result_2: Result<P3::Output, E>,
    output: S,
    after: (P1, P2, P3),
    result: Result<(P1::Output, P2::Output, P3::Output), E>,
) where S: Stream, E: Error<S>, P1: Parser<S, E>, P2: Parser<S, E>, P3: Parser<S, E>
    requires
        chain_3_run(
            &parsers,
            input,
            result_0,
            stream_1,
            result_1,
            stream_2,
            result_2,
            output,
            &after,
            result,
        ),
        result_0 is Ok,
        result_1 is Err,
    ensures
        after.2 == parsers.2,
        output == stream_2,
        output.position() == stream_2.position(),
        result === Err(result_1->Err_0),
{
}

/// Chain the parsers of a tuple: the building block of `chain!`.
pub fn chain_inner<S, O, E, Parsers>(parsers: Parsers) -> (parser: Chained<S, O, E, Parsers>) where
    S: Stream,
    E: Error<S>,
    Parsers: ChainedParsers<S, E, Output = O>,

    ensures
        parser.parsers == parsers,
{
    Chained { parsers, _phantom: PhantomData }
}

/// Runs the parsers of a tuple in order and yields the tuple of their
/// outputs.
#[derive(Debug, PartialEq, Eq, PartialOrd, Ord, Hash)]
pub struct Chained<S, O, E, Parsers> {
    pub parsers: Parsers,
    pub _phantom: PhantomData<(S, O, E)>,
}

impl<S, O, E, Parsers: Clone> Clone for Chained<S, O, E, Parsers> {
    fn clone(&self) -> (copy: Self)
        ensures
            cloned(self.parsers, copy.parsers),
    {
        Chained { parsers: self.parsers.clone(), _phantom: PhantomData }
    }
}

impl<S, O, E, Parsers: Copy> Copy for Chained<S, O, E, Parsers> {

}

impl<S, O, E, Parsers> Parser<S, E> for Chained<S, O, E, Parsers> where
    S: Stream,
    E: Error<S>,
    Parsers: ChainedParsers<S, E, Output = O>,
 {
    type Output = O;

    open spec fn inv(&self) -> bool {
        self.parsers.inv()
    }

    open spec fn parses(&self, input: S, output: S, after: &Self, result: Result<O, E>) -> bool {
        self.parsers.parses_chained(input, output, &after.parsers, result)
    }

    fn parse(&mut self, stream: &mut S) -> (result: Result<O, E>) {
        self.parsers.parse_chained(stream)
    }
}

/// Run `prefix` and then `parser`, and keep the output of `parser`.
pub fn prefixed<A, B, S, E>(prefix: A, parser: B) -> (prefixed: Prefixed<A, B, S, E>) where
    S: Stream,
    E: Error<S>,
    A: Parser<S, E>,
    B: Parser<S, E>,

    ensures
        prefixed.prefix == prefix,
        prefixed.parser == parser,
{
    Prefixed { prefix, parser, _phantom: PhantomData }
}

/// Runs a prefix and then a parser, and yields the output of the parser.
#[derive(Debug, PartialEq, Eq, PartialOrd, Ord, Hash)]
pub struct Prefixed<A, B, S, E> {
    pub prefix: A,
    pub parser: B,
    pub _phantom: PhantomData<(S, E)>,
}

impl<A: Clone, B: Clone, S, E> Clone for Prefixed<A, B, S, E> {
    fn clone(&self) -> (copy: Self)
        ensures
            cloned(self.prefix, copy.prefix),
            cloned(self.parser, copy.parser),
    {
        Prefixed { prefix: self.prefix.clone(), parser: self.parser.clone(), _phantom: PhantomData }
    }
}

impl<A: Copy, B: Copy, S, E> Copy for Prefixed<A, B, S, E> {

}

impl<A, B, S, E> Prefixed<A, B, S, E> where
    S: Stream,
    E: Error<S>,
    A: Parser<S, E>,
    B: Parser<S, E>,
 {
    /// Whether the prefix can give `dropped` and leave the stream as
    /// `between`, and the parser, if it is reached, give `result`.
    pub open spec fn runs(
        &self,
        input: S,
        dropped: Result<A::Output, E>,
        between: S,
        output: S,
        after: &Self,
        result: Result<B::Output, E>,
    ) -> bool {
        &&& self.prefix.parses(input, between, &after.prefix, dropped)
        &&& match dropped {
            Err(error) => {
                &&& output == between
                &&& after.parser == self.parser
                &&& result === Err(error)
            },
            Ok(_) => self.parser.parses(between, output, &after.parser, result),
        }
    }
}

impl<A, B, S, E> Parser<S, E> for Prefixed<A, B, S, E> where
    S: Stream,
    E: Error<S>,
    A: Parser<S, E>,
    B: Parser<S, E>,
 {
    type Output = B::Output;

    open spec fn inv(&self) -> bool {
        &&& self.prefix.inv()
        &&& self.parser.inv()
    }

    open spec fn parses(
        &self,
        input: S,
        output: S,
        after: &Self,
        result: Result<B::Output, E>,
    ) -> bool {
        exists|dropped: Result<A::Output, E>, between: S| #[trigger]
            self.runs(input, dropped, between, output, after, result)
    }

    fn parse(&mut self, stream: &mut S) -> (result: Result<B::Output, E>) {
        let ghost input = *stream;
        let ghost this = *self;
        let dropped = self.prefix.parse(stream);
        let ghost between = *stream;
        if let Err(error) = dropped {
            assert(this.runs(input, dropped, between, *stream, self, Err::<B::Output, E>(error)));
            return Err(error);
        }
        let result = self.parser.parse(stream);
        proof {
            input.lemma_reaches_trans(&between, stream);
            assert(this.runs(input, dropped, between, *stream, self, result));
        }
        result
    }
}

/// Run `parser` and then `suffix`, and keep the output of `parser`.
pub fn suffixed<A, B, S, E>(parser: A, suffix: B) -> (suffixed: Suffixed<A, B, S, E>) where
    S: Stream,
    E: Error<S>,
    A: Parser<S, E>,
    B: Parser<S, E>,

    ensures
        suffixed.parser == parser,
        suffixed.suffix == suffix,
{
    Suffixed { parser, suffix, _phantom: PhantomData }
}

/// Runs a parser and then a suffix, and yields the output of the parser.
#[derive(Debug, PartialEq, Eq, PartialOrd, Ord, Hash)]
pub struct Suffixed<A, B, S, E> {
    pub parser: A,
    pub suffix: B,
    pub _phantom: PhantomData<(S, E)>,
}

impl<A: Clone, B: Clone, S, E> Clone for Suffixed<A, B, S, E> {
    fn clone(&self) -> (copy: Self)
        ensures
            cloned(self.parser, copy.parser),
            cloned(self.suffix, copy.suffix),
    {
        Suffixed { parser: self.parser.clone(), suffix: self.suffix.clone(), _phantom: PhantomData }
    }
}

impl<A: Copy, B: Copy, S, E> Copy for Suffixed<A, B, S, E> {

}

impl<A, B, S, E> Suffixed<A, B, S, E> where
    S: Stream,
    E: Error<S>,
    A: Parser<S, E>,
    B: Parser<S, E>,
 {
    /// Whether the parser can give `kept` and leave the stream as `between`,
    /// and the suffix, if it is reached, give `dropped`.
    pub open spec fn runs(
        &self,
        input: S,
        kept: Result<A::Output, E>,
        between: S,
        dropped: Result<B::Output, E>,
        output: S,
        after: &Self,
        result: Result<A::Output, E>,
    ) -> bool {
        &&& self.parser.parses(input, between, &after.parser, kept)
        &&& match kept {
            Err(error) => {
                &&& output == between
                &&& after.suffix == self.suffix
                &&& result === Err(error)
            },
            Ok(value) => {
                &&& self.suffix.parses(between, output, &after.suffix, dropped)
                &&& result == match dropped {
                    Err(error) => Err::<A::Output, E>(error),
                    Ok(_) => Ok::<A::Output, E>(value),
                }
            },
        }
    }
}

impl<A, B, S, E> Parser<S, E> for Suffixed<A, B, S, E> where
    S: Stream,
    E: Error<S>,
    A: Parser<S, E>,
    B: Parser<S, E>,
 {
    type Output = A::Output;

    open spec fn inv(&self) -> bool {
        &&& self.parser.inv()
        &&& self.suffix.inv()
    }

    open spec fn parses(
        &self,
        input: S,
        output: S,
        after: &Self,
        result: Result<A::Output, E>,
    ) -> bool {
        exists|kept: Result<A::Output, E>, between: S, dropped: Result<B::Output, E>| #[trigger]
            self.runs(input, kept, between, dropped, output, after, result)
    }

    fn parse(&mut self, stream: &mut S) -> (result: Result<A::Output, E>) {
        let ghost input = *stream;
        let ghost this = *self;
        let kept = self.parser.parse(stream);
        let ghost between = *stream;
        let value = match kept {
            Ok(value) => value,
            Err(error) => {
                assert(this.runs(
                    input,
                    kept,
                    between,
                    arbitrary(),
                    *stream,
                    self,
                    Err::<A::Output, E>(error),
                ));
                return Err(error);
            },
        };
        let dropped = self.suffix.parse(stream);
        proof {
            input.lemma_reaches_trans(&between, stream);
        }
        let result = match dropped {
            Ok(_) => Ok(value),
            Err(error) => Err(error),
        };
        assert(this.runs(input, kept, between, dropped, *stream, self, result));
        result
    }
}

/// Run `prefix`, `parser` and `suffix` in order, and keep the output of
/// `parser`.
pub fn between<A, B, C, S, E>(prefix: A, parser: B, suffix: C) -> (between: Between<
    A,
    B,
    C,
    S,
    E,
>) where S: Stream, E: Error<S>, A: Parser<S, E>, B: Parser<S, E>, C: Parser<S, E>
    ensures
        between.prefix == prefix,
        between.parser == parser,
        between.suffix == suffix,
{
    Between { prefix, parser, suffix, _phantom: PhantomData }
}

/// Runs a prefix, a parser and a suffix, and yields the output of the parser.
#[derive(Debug, PartialEq, Eq, PartialOrd, Ord, Hash)]
pub struct Between<A, B, C, S, E> {
    pub prefix: A,
    pub parser: B,
    pub suffix: C,
    pub _phantom: PhantomData<(S, E)>,
}

impl<A: Clone, B: Clone, C: Clone, S, E> Clone for Between<A, B, C, S, E> {
    fn clone(&self) -> (copy: Self)
        ensures
            cloned(self.prefix, copy.prefix),
            cloned(self.parser, copy.parser),
            cloned(self.suffix, copy.suffix),
    {
        Between {
            prefix: self.prefix.clone(),
            parser: self.parser.clone(),
            suffix: self.suffix.clone(),
            _phantom: PhantomData,
        }
    }
}

impl<A: Copy, B: Copy, C: Copy, S, E> Copy for Between<A, B, C, S, E> {

}

impl<A, B, C, S, E> Between<A, B, C, S, E> where
    S: Stream,
    E: Error<S>,
    A: Parser<S, E>,
    B: Parser<S, E>,
    C: Parser<S, E>,
 {
    /// Whether the three parsers can run as given, each on the stream that
    /// the one before left, up to the first that fails.
    pub open spec fn runs(
        &self,
        input: S,
        opened: Result<A::Output, E>,
        inside: S,
        kept: Result<B::Output, E>,
        behind: S,
        closed: Result<C::Output, E>,
        output: S,
        after: &Self,
        result: Result<B::Output, E>,
    ) -> bool {
        &&& self.prefix.parses(input, inside, &after.prefix, opened)
        &&& match opened {
            Err(error) => {
                &&& output == inside
                &&& after.parser == self.parser
                &&& after.suffix == self.suffix
                &&& result === Err(error)
            },
            Ok(_) => {
                &&& self.parser.parses(inside, behind, &after.parser, kept)
                &&& match kept {
                    Err(error) => {
                        &&& output == behind
                        &&& after.suffix == self.suffix
                        &&& result === Err(error)
                    },
                    Ok(value) => {
                        &&& self.suffix.parses(behind, output, &after.suffix, closed)
                        &&& result == match closed {
                            Err(error) => Err::<B::Output, E>(error),
                            Ok(_) => Ok::<B::Output, E>(value),
                        }
                    },
                }
            },
        }
    }
}

impl<A, B, C, S, E> Parser<S, E> for Between<A, B, C, S, E> where
    S: Stream,
    E: Error<S>,
    A: Parser<S, E>,
    B: Parser<S, E>,
    C: Parser<S, E>,
 {
    type Output = B::Output;

    open spec fn inv(&self) -> bool {
        &&& self.prefix.inv()
        &&& self.parser.inv()
        &&& self.suffix.inv()
    }

    open spec fn parses(
        &self,
        input: S,
        output: S,
        after: &Self,
        result: Result<B::Output, E>,
    ) -> bool {
        exists|
            opened: Result<A::Output, E>,
            inside: S,
            kept: Result<B::Output, E>,
            behind: S,
            closed: Result<C::Output, E>,
        | #[trigger]
            self.runs(input, opened, inside, kept, behind, closed, output, after, result)
    }

    fn parse(&mut self, stream: &mut S) -> (result: Result<B::Output, E>) {
        let ghost input = *stream;
        let ghost this = *self;
        let opened = self.prefix.parse(stream);
        let ghost inside = *stream;
        if let Err(error) = opened {
            assert(this.runs(
                input,
                opened,
                inside,
                arbitrary(),
                arbitrary(),
                arbitrary(),
                *stream,
                self,
                Err::<B::Output, E>(error),
            ));
            return Err(error);
        }
        let kept = self.parser.parse(stream);
        let ghost behind = *stream;
        proof {
            input.lemma_reaches_trans(&inside, stream);
        }
        let value = match kept {
            Ok(value) => value,
            Err(error) => {
                assert(this.runs(
                    input,
                    opened,
                    inside,
                    kept,
                    behind,
                    arbitrary(),
                    *stream,
                    self,
                    Err::<B::Output, E>(error),
                ));
                return Err(error);
            },
        };
        let closed = self.suffix.parse(stream);
        proof {
            input.lemma_reaches_trans(&behind, stream);
        }
        let result = match closed {
            Ok(_) => Ok(value),
            Err(error) => Err(error),
        };
        assert(this.runs(input, opened, inside, kept, behind, closed, *stream, self, result));
        result
    }
}

} // verus!
