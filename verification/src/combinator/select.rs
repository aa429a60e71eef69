//! Dispatch on the next token.

use std::marker::PhantomData;
use vstd::prelude::*;

use crate::combinator::alt::{no_alternative, tries_if};
use crate::error::{Cause, Error};
use crate::parser::Parser;
use crate::stream::{first, Stream};
use crate::token_set::TokenSet;

verus! {

/// A tuple of arms, each a set of tokens and the parser to run when the next
/// token is in the set.
pub trait SelectArms<S, O, E> where S: Stream, E: Error<S> {
    /// What the arms need to hold of themselves to run.
    spec fn inv(&self) -> bool;

    /// Whether selecting among the arms on `input` can leave the stream as
    /// `output` and the arms as `after`, and give `result`.
    spec fn parses_selected(
        &self,
        input: S,
        output: S,
        after: &Self,
        result: Result<O, E>,
    ) -> bool;

    /// Peek one token and run the parser of the first arm that holds it.
    fn parse_selected(&mut self, stream: &mut S) -> (result: Result<O, E>)
        requires
            old(self).inv(),
            old(stream).wf(),
        ensures
            final(self).inv(),
            final(stream).wf(),
            old(stream).reaches(final(stream)),
            old(self).parses_selected(*old(stream), *final(stream), final(self), result),
    ;
}

/// Whether a selection among one arm can run as given: arm `picked` is the first
/// whose set holds the next token, and its parser runs on `input`; if `picked`
/// is past the last arm, no set holds the token, or there is none, and the
/// selection fails on `input`.  The parsers that were not picked are left as
/// they were.
pub open spec fn select_1_run<S, O, E, T1, P1>(
    arms: &((T1, P1),),
    input: S,
    picked: int,
    output: S,
    after: &((T1, P1),),
    result: Result<O, E>,
) -> bool where
    S: Stream,
    E: Error<S>,
    T1: TokenSet<S::Token>,
    P1: Parser<S, E, Output = O>,
 {
    &&& 0 <= picked <= 1
    &&& match first(input) {
        None => picked == 1,
        Some(token) => {
            &&& picked > 0 ==> arms.0.0.holds(&token, false)
            &&& picked == 0 ==> arms.0.0.holds(&token, true)
        },
    }
    &&& after.0.0 == arms.0.0
    &&& tries_if(picked == 0, &arms.0.1, input, output, &after.0.1, result)
    &&& picked == 1 ==> output == input && result === Err(no_alternative(input))
}

impl<S, O, E, T1, P1> SelectArms<S, O, E> for ((T1, P1),) where
    S: Stream,
    E: Error<S>,
    T1: TokenSet<S::Token>,
    P1: Parser<S, E, Output = O>,
 {
    open spec fn inv(&self) -> bool {
        &&& self.0.0.inv()
        &&& self.0.1.inv()
    }

    open spec fn parses_selected(
        &self,
        input: S,
        output: S,
        after: &Self,
        result: Result<O, E>,
    ) -> bool {
        exists|picked: int| #[trigger] select_1_run(self, input, picked, output, after, result)
    }

    fn parse_selected(&mut self, stream: &mut S) -> (result: Result<O, E>) {
        let ghost input = *stream;
        let ghost this = *self;
        proof {
            stream.lemma_reaches_refl();
        }
        match stream.peek_token() {
            Some(token) => {
                if self.0.0.contains(&token) {
                    let result = self.0.1.parse(stream);
                    assert(select_1_run(&this, input, 0, *stream, self, result));
                    return result;
                }
            },
            None => {},
        }
        let result = Err(E::new(E::Cause::unknown(), stream.peek_token_span()));
        assert(select_1_run(&this, input, 1, *stream, self, result));
        result
    }
}

/// Whether a selection among two arms can run as given: arm `picked` is the first
/// whose set holds the next token, and its parser runs on `input`; if `picked`
/// is past the last arm, no set holds the token, or there is none, and the
/// selection fails on `input`.  The parsers that were not picked are left as
/// they were.
pub open spec fn select_2_run<S, O, E, T1, P1, T2, P2>(
    arms: &((T1, P1), (T2, P2)),
    input: S,
    picked: int,
    output: S,
    after: &((T1, P1), (T2, P2)),
    result: Result<O, E>,
) -> bool where
    S: Stream,
    E: Error<S>,
    T1: TokenSet<S::Token>,
    P1: Parser<S, E, Output = O>,
    T2: TokenSet<S::Token>,
    P2: Parser<S, E, Output = O>,
 {
    &&& 0 <= picked <= 2
    &&& match first(input) {
        None => picked == 2,
        Some(token) => {
            &&& picked > 0 ==> arms.0.0.holds(&token, false)
            &&& picked == 0 ==> arms.0.0.holds(&token, true)
            &&& picked > 1 ==> arms.1.0.holds(&token, false)
            &&& picked == 1 ==> arms.1.0.holds(&token, true)
        },
    }
    &&& after.0.0 == arms.0.0
    &&& tries_if(picked == 0, &arms.0.1, input, output, &after.0.1, result)
    &&& after.1.0 == arms.1.0
    &&& tries_if(picked == 1, &arms.1.1, input, output, &after.1.1, result)
    &&& picked == 2 ==> output == input && result === Err(no_alternative(input))
}

impl<S, O, E, T1, P1, T2, P2> SelectArms<S, O, E> for ((T1, P1), (T2, P2)) where
    S: Stream,
    E: Error<S>,
    T1: TokenSet<S::Token>,
    P1: Parser<S, E, Output = O>,
    T2: TokenSet<S::Token>,
    P2: Parser<S, E, Output = O>,
 {
    open spec fn inv(&self) -> bool {
        &&& self.0.0.inv()
        &&& self.0.1.inv()
        &&& self.1.0.inv()
        &&& self.1.1.inv()
    }

    open spec fn parses_selected(
        &self,
        input: S,
        output: S,
        after: &Self,
        result: Result<O, E>,
    ) -> bool {
        exists|picked: int| #[trigger] select_2_run(self, input, picked, output, after, result)
    }

    fn parse_selected(&mut self, stream: &mut S) -> (result: Result<O, E>) {
        let ghost input = *stream;
        let ghost this = *self;
        proof {
            stream.lemma_reaches_refl();
        }
        match stream.peek_token() {
            Some(token) => {
                if self.0.0.contains(&token) {
                    let result = self.0.1.parse(stream);
                    assert(select_2_run(&this, input, 0, *stream, self, result));
                    return result;
                }
                if self.1.0.contains(&token) {
                    let result = self.1.1.parse(stream);
                    assert(select_2_run(&this, input, 1, *stream, self, result));
                    return result;
                }
            },
            None => {},
        }
        let result = Err(E::new(E::Cause::unknown(), stream.peek_token_span()));
        assert(select_2_run(&this, input, 2, *stream, self, result));
        result
    }
}

/// Whether a selection among three arms can run as given: arm `picked` is the first
/// whose set holds the next token, and its parser runs on `input`; if `picked`
/// is past the last arm, no set holds the token, or there is none, and the
/// selection fails on `input`.  The parsers that were not picked are left as
/// they were.
pub open spec fn select_3_run<S, O, E, T1, P1, T2, P2, T3, P3>(
    arms: &((T1, P1), (T2, P2), (T3, P3)),
    input: S,
    picked: int,
    output: S,
    after: &((T1, P1), (T2, P2), (T3, P3)),
    result: Result<O, E>,
) -> bool where
    S: Stream,
    E: Error<S>,
    T1: TokenSet<S::Token>,
    P1: Parser<S, E, Output = O>,
    T2: TokenSet<S::Token>,
    P2: Parser<S, E, Output = O>,
    T3: TokenSet<S::Token>,
    P3: Parser<S, E, Output = O>,
 {
    &&& 0 <= picked <= 3
    &&& match first(input) {
        None => picked == 3,
        Some(token) => {
            &&& picked > 0 ==> arms.0.0.holds(&token, false)
            &&& picked == 0 ==> arms.0.0.holds(&token, true)
            &&& picked > 1 ==> arms.1.0.holds(&token, false)
            &&& picked == 1 ==> arms.1.0.holds(&token, true)
            &&& picked > 2 ==> arms.2.0.holds(&token, false)
            &&& picked == 2 ==> arms.2.0.holds(&token, true)
        },
    }
    &&& after.0.0 == arms.0.0
    &&& tries_if(picked == 0, &arms.0.1, input, output, &after.0.1, result)
    &&& after.1.0 == arms.1.0
    &&& tries_if(picked == 1, &arms.1.1, input, output, &after.1.1, result)
    &&& after.2.0 == arms.2.0
    &&& tries_if(picked == 2, &arms.2.1, input, output, &after.2.1, result)
    &&& picked == 3 ==> output == input && result === Err(no_alternative(input))
}

impl<S, O, E, T1, P1, T2, P2, T3, P3> SelectArms<S, O, E> for ((T1, P1), (T2, P2), (T3, P3)) where
    S: Stream,
    E: Error<S>,
    T1: TokenSet<S::Token>,
    P1: Parser<S, E, Output = O>,
    T2: TokenSet<S::Token>,
    P2: Parser<S, E, Output = O>,
    T3: TokenSet<S::Token>,
    P3: Parser<S, E, Output = O>,
 {
    open spec fn inv(&self) -> bool {
        &&& self.0.0.inv()
        &&& self.0.1.inv()
        &&& self.1.0.inv()
        &&& self.1.1.inv()
        &&& self.2.0.inv()
        &&& self.2.1.inv()
    }

    open spec fn parses_selected(
        &self,
        input: S,
        output: S,
        after: &Self,
        result: Result<O, E>,
    ) -> bool {
        exists|picked: int| #[trigger] select_3_run(self, input, picked, output, after, result)
    }

    fn parse_selected(&mut self, stream: &mut S) -> (result: Result<O, E>) {
        let ghost input = *stream;
        let ghost this = *self;
        proof {
            stream.lemma_reaches_refl();
        }
        match stream.peek_token() {
            Some(token) => {
                if self.0.0.contains(&token) {
                    let result = self.0.1.parse(stream);
                    assert(select_3_run(&this, input, 0, *stream, self, result));
                    return result;
                }
                if self.1.0.contains(&token) {
                    let result = self.1.1.parse(stream);
                    assert(select_3_run(&this, input, 1, *stream, self, result));
                    return result;
                }
                if self.2.0.contains(&token) {
                    let result = self.2.1.parse(stream);
                    assert(select_3_run(&this, input, 2, *stream, self, result));
                    return result;
                }
            },
            None => {},
        }
        let result = Err(E::new(E::Cause::unknown(), stream.peek_token_span()));
        assert(select_3_run(&this, input, 3, *stream, self, result));
        result
    }
}

/// Whether a selection among four arms can run as given: arm `picked` is the first
/// whose set holds the next token, and its parser runs on `input`; if `picked`
/// is past the last arm, no set holds the token, or there is none, and the
/// selection fails on `input`.  The parsers that were not picked are left as
/// they were.
pub open spec fn select_4_run<S, O, E, T1, P1, T2, P2, T3, P3, T4, P4>(
    arms: &((T1, P1), (T2, P2), (T3, P3), (T4, P4)),
    input: S,
    picked: int,
    output: S,
    after: &((T1, P1), (T2, P2), (T3, P3), (T4, P4)),
    result: Result<O, E>,
) -> bool where
    S: Stream,
    E: Error<S>,
    T1: TokenSet<S::Token>,
    P1: Parser<S, E, Output = O>,
    T2: TokenSet<S::Token>,
    P2: Parser<S, E, Output = O>,
    T3: TokenSet<S::Token>,
    P3: Parser<S, E, Output = O>,
    T4: TokenSet<S::Token>,
    P4: Parser<S, E, Output = O>,
 {
    &&& 0 <= picked <= 4
    &&& match first(input) {
        None => picked == 4,
        Some(token) => {
            &&& picked > 0 ==> arms.0.0.holds(&token, false)
            &&& picked == 0 ==> arms.0.0.holds(&token, true)
            &&& picked > 1 ==> arms.1.0.holds(&token, false)
            &&& picked == 1 ==> arms.1.0.holds(&token, true)
            &&& picked > 2 ==> arms.2.0.holds(&token, false)
            &&& picked == 2 ==> arms.2.0.holds(&token, true)
            &&& picked > 3 ==> arms.3.0.holds(&token, false)
            &&& picked == 3 ==> arms.3.0.holds(&token, true)
        },
    }
    &&& after.0.0 == arms.0.0
    &&& tries_if(picked == 0, &arms.0.1, input, output, &after.0.1, result)
    &&& after.1.0 == arms.1.0
    &&& tries_if(picked == 1, &arms.1.1, input, output, &after.1.1, result)
    &&& after.2.0 == arms.2.0
    &&& tries_if(picked == 2, &arms.2.1, input, output, &after.2.1, result)
    &&& after.3.0 == arms.3.0
    &&& tries_if(picked == 3, &arms.3.1, input, output, &after.3.1, result)
    &&& picked == 4 ==> output == input && result === Err(no_alternative(input))
}

impl<S, O, E, T1, P1, T2, P2, T3, P3, T4, P4> SelectArms<S, O, E> for (
    (T1, P1),
    (T2, P2),
    (T3, P3),
    (T4, P4),
) where
    S: Stream,
    E: Error<S>,
    T1: TokenSet<S::Token>,
    P1: Parser<S, E, Output = O>,
    T2: TokenSet<S::Token>,
    P2: Parser<S, E, Output = O>,
    T3: TokenSet<S::Token>,
    P3: Parser<S, E, Output = O>,
    T4: TokenSet<S::Token>,
    P4: Parser<S, E, Output = O>,
 {
    open spec fn inv(&self) -> bool {
        &&& self.0.0.inv()
        &&& self.0.1.inv()
        &&& self.1.0.inv()
        &&& self.1.1.inv()
        &&& self.2.0.inv()
        &&& self.2.1.inv()
        &&& self.3.0.inv()
        &&& self.3.1.inv()
    }

    open spec fn parses_selected(
        &self,
        input: S,
        output: S,
        after: &Self,
        result: Result<O, E>,
    ) -> bool {
        exists|picked: int| #[trigger] select_4_run(self, input, picked, output, after, result)
    }

    fn parse_selected(&mut self, stream: &mut S) -> (result: Result<O, E>) {
        let ghost input = *stream;
        let ghost this = *self;
        proof {
            stream.lemma_reaches_refl();
        }
        match stream.peek_token() {
            Some(token) => {
                if self.0.0.contains(&token) {
                    let result = self.0.1.parse(stream);
                    assert(select_4_run(&this, input, 0, *stream, self, result));
                    return result;
                }
                if self.1.0.contains(&token) {
                    let result = self.1.1.parse(stream);
                    assert(select_4_run(&this, input, 1, *stream, self, result));
                    return result;
                }
                if self.2.0.contains(&token) {
                    let result = self.2.1.parse(stream);
                    assert(select_4_run(&this, input, 2, *stream, self, result));
                    return result;
                }
                if self.3.0.contains(&token) {
                    let result = self.3.1.parse(stream);
                    assert(select_4_run(&this, input, 3, *stream, self, result));
                    return result;
                }
            },
            None => {},
        }
        let result = Err(E::new(E::Cause::unknown(), stream.peek_token_span()));
        assert(select_4_run(&this, input, 4, *stream, self, result));
        result
    }
}

/// Whether a selection among five arms can run as given: arm `picked` is the first
/// whose set holds the next token, and its parser runs on `input`; if `picked`
/// is past the last arm, no set holds the token, or there is none, and the
/// selection fails on `input`.  The parsers that were not picked are left as
/// they were.
pub open spec fn select_5_run<S, O, E, T1, P1, T2, P2, T3, P3, T4, P4, T5, P5>(
    arms: &((T1, P1), (T2, P2), (T3, P3), (T4, P4), (T5, P5)),
    input: S,
    picked: int,
    output: S,
    after: &((T1, P1), (T2, P2), (T3, P3), (T4, P4), (T5, P5)),
    result: Result<O, E>,
) -> bool where
    S: Stream,
    E: Error<S>,
    T1: TokenSet<S::Token>,
    P1: Parser<S, E, Output = O>,
    T2: TokenSet<S::Token>,
    P2: Parser<S, E, Output = O>,
    T3: TokenSet<S::Token>,
    P3: Parser<S, E, Output = O>,
    T4: TokenSet<S::Token>,
    P4: Parser<S, E, Output = O>,
    T5: TokenSet<S::Token>,
    P5: Parser<S, E, Output = O>,
 {
    &&& 0 <= picked <= 5
    &&& match first(input) {
        None => picked == 5,
        Some(token) => {
            &&& picked > 0 ==> arms.0.0.holds(&token, false)
            &&& picked == 0 ==> arms.0.0.holds(&token, true)
            &&& picked > 1 ==> arms.1.0.holds(&token, false)
            &&& picked == 1 ==> arms.1.0.holds(&token, true)
            &&& picked > 2 ==> arms.2.0.holds(&token, false)
            &&& picked == 2 ==> arms.2.0.holds(&token, true)
            &&& picked > 3 ==> arms.3.0.holds(&token, false)
            &&& picked == 3 ==> arms.3.0.holds(&token, true)
            &&& picked > 4 ==> arms.4.0.holds(&token, false)
            &&& picked == 4 ==> arms.4.0.holds(&token, true)
        },
    }
    &&& after.0.0 == arms.0.0
    &&& tries_if(picked == 0, &arms.0.1, input, output, &after.0.1, result)
    &&& after.1.0 == arms.1.0
    &&& tries_if(picked == 1, &arms.1.1, input, output, &after.1.1, result)
    &&& after.2.0 == arms.2.0
    &&& tries_if(picked == 2, &arms.2.1, input, output, &after.2.1, result)
    &&& after.3.0 == arms.3.0
    &&& tries_if(picked == 3, &arms.3.1, input, output, &after.3.1, result)
    &&& after.4.0 == arms.4.0
    &&& tries_if(picked == 4, &arms.4.1, input, output, &after.4.1, result)
    &&& picked == 5 ==> output == input && result === Err(no_alternative(input))
}

impl<S, O, E, T1, P1, T2, P2, T3, P3, T4, P4, T5, P5> SelectArms<S, O, E> for (
    (T1, P1),
    (T2, P2),
    (T3, P3),
    (T4, P4),
    (T5, P5),
) where
    S: Stream,
    E: Error<S>,
    T1: TokenSet<S::Token>,
    P1: Parser<S, E, Output = O>,
    T2: TokenSet<S::Token>,
    P2: Parser<S, E, Output = O>,
    T3: TokenSet<S::Token>,
    P3: Parser<S, E, Output = O>,
    T4: TokenSet<S::Token>,
    P4: Parser<S, E, Output = O>,
    T5: TokenSet<S::Token>,
    P5: Parser<S, E, Output = O>,
 {
    open spec fn inv(&self) -> bool {
        &&& self.0.0.inv()
        &&& self.0.1.inv()
        &&& self.1.0.inv()
        &&& self.1.1.inv()
        &&& self.2.0.inv()
        &&& self.2.1.inv()
        &&& self.3.0.inv()
        &&& self.3.1.inv()
        &&& self.4.0.inv()
        &&& self.4.1.inv()
    }

    open spec fn parses_selected(
        &self,
        input: S,
        output: S,
        after: &Self,
        result: Result<O, E>,
    ) -> bool {
        exists|picked: int| #[trigger] select_5_run(self, input, picked, output, after, result)
    }

    fn parse_selected(&mut self, stream: &mut S) -> (result: Result<O, E>) {
        let ghost input = *stream;
        let ghost this = *self;
        proof {
            stream.lemma_reaches_refl();
        }
        match stream.peek_token() {
            Some(token) => {
                if self.0.0.contains(&token) {
                    let result = self.0.1.parse(stream);
                    assert(select_5_run(&this, input, 0, *stream, self, result));
                    return result;
                }
                if self.1.0.contains(&token) {
                    let result = self.1.1.parse(stream);
                    assert(select_5_run(&this, input, 1, *stream, self, result));
                    return result;
                }
                if self.2.0.contains(&token) {
                    let result = self.2.1.parse(stream);
                    assert(select_5_run(&this, input, 2, *stream, self, result));
                    return result;
                }
                if self.3.0.contains(&token) {
                    let result = self.3.1.parse(stream);
                    assert(select_5_run(&this, input, 3, *stream, self, result));
                    return result;
                }
                if self.4.0.contains(&token) {
                    let result = self.4.1.parse(stream);
                    assert(select_5_run(&this, input, 4, *stream, self, result));
                    return result;
                }
            },
            None => {},
        }
        let result = Err(E::new(E::Cause::unknown(), stream.peek_token_span()));
        assert(select_5_run(&this, input, 5, *stream, self, result));
        result
    }
}

/// Whether a selection among six arms can run as given: arm `picked` is the first
/// whose set holds the next token, and its parser runs on `input`; if `picked`
/// is past the last arm, no set holds the token, or there is none, and the
/// selection fails on `input`.  The parsers that were not picked are left as
/// they were.
pub open spec fn select_6_run<S, O, E, T1, P1, T2, P2, T3, P3, T4, P4, T5, P5, T6, P6>(
    arms: &((T1, P1), (T2, P2), (T3, P3), (T4, P4), (T5, P5), (T6, P6)),
    input: S,
    picked: int,
    output: S,
    after: &((T1, P1), (T2, P2), (T3, P3), (T4, P4), (T5, P5), (T6, P6)),
    result: Result<O, E>,
) -> bool where
    S: Stream,
    E: Error<S>,
    T1: TokenSet<S::Token>,
    P1: Parser<S, E, Output = O>,
    T2: TokenSet<S::Token>,
    P2: Parser<S, E, Output = O>,
    T3: TokenSet<S::Token>,
    P3: Parser<S, E, Output = O>,
    T4: TokenSet<S::Token>,
    P4: Parser<S, E, Output = O>,
    T5: TokenSet<S::Token>,
    P5: Parser<S, E, Output = O>,
    T6: TokenSet<S::Token>,
    P6: Parser<S, E, Output = O>,
 {
    &&& 0 <= picked <= 6
    &&& match first(input) {
        None => picked == 6,
        Some(token) => {
            &&& picked > 0 ==> arms.0.0.holds(&token, false)
            &&& picked == 0 ==> arms.0.0.holds(&token, true)
            &&& picked > 1 ==> arms.1.0.holds(&token, false)
            &&& picked == 1 ==> arms.1.0.holds(&token, true)
            &&& picked > 2 ==> arms.2.0.holds(&token, false)
            &&& picked == 2 ==> arms.2.0.holds(&token, true)
            &&& picked > 3 ==> arms.3.0.holds(&token, false)
            &&& picked == 3 ==> arms.3.0.holds(&token, true)
            &&& picked > 4 ==> arms.4.0.holds(&token, false)
            &&& picked == 4 ==> arms.4.0.holds(&token, true)
            &&& picked > 5 ==> arms.5.0.holds(&token, false)
            &&& picked == 5 ==> arms.5.0.holds(&token, true)
        },
    }
    &&& after.0.0 == arms.0.0
    &&& tries_if(picked == 0, &arms.0.1, input, output, &after.0.1, result)
    &&& after.1.0 == arms.1.0
    &&& tries_if(picked == 1, &arms.1.1, input, output, &after.1.1, result)
    &&& after.2.0 == arms.2.0
    &&& tries_if(picked == 2, &arms.2.1, input, output, &after.2.1, result)
    &&& after.3.0 == arms.3.0
    &&& tries_if(picked == 3, &arms.3.1, input, output, &after.3.1, result)
    &&& after.4.0 == arms.4.0
    &&& tries_if(picked == 4, &arms.4.1, input, output, &after.4.1, result)
    &&& after.5.0 == arms.5.0
    &&& tries_if(picked == 5, &arms.5.1, input, output, &after.5.1, result)
    &&& picked == 6 ==> output == input && result === Err(no_alternative(input))
}

impl<S, O, E, T1, P1, T2, P2, T3, P3, T4, P4, T5, P5, T6, P6> SelectArms<S, O, E> for (
    (T1, P1),
    (T2, P2),
    (T3, P3),
    (T4, P4),
    (T5, P5),
    (T6, P6),
) where
    S: Stream,
    E: Error<S>,
    T1: TokenSet<S::Token>,
    P1: Parser<S, E, Output = O>,
    T2: TokenSet<S::Token>,
    P2: Parser<S, E, Output = O>,
    T3: TokenSet<S::Token>,
    P3: Parser<S, E, Output = O>,
    T4: TokenSet<S::Token>,
    P4: Parser<S, E, Output = O>,
    T5: TokenSet<S::Token>,
    P5: Parser<S, E, Output = O>,
    T6: TokenSet<S::Token>,
    P6: Parser<S, E, Output = O>,
 {
    open spec fn inv(&self) -> bool {
        &&& self.0.0.inv()
        &&& self.0.1.inv()
        &&& self.1.0.inv()
        &&& self.1.1.inv()
        &&& self.2.0.inv()
        &&& self.2.1.inv()
        &&& self.3.0.inv()
        &&& self.3.1.inv()
        &&& self.4.0.inv()
        &&& self.4.1.inv()
        &&& self.5.0.inv()
        &&& self.5.1.inv()
    }

    open spec fn parses_selected(
        &self,
        input: S,
        output: S,
        after: &Self,
        result: Result<O, E>,
    ) -> bool {
        exists|picked: int| #[trigger] select_6_run(self, input, picked, output, after, result)
    }

    fn parse_selected(&mut self, stream: &mut S) -> (result: Result<O, E>) {
        let ghost input = *stream;
        let ghost this = *self;
        proof {
            stream.lemma_reaches_refl();
        }
        match stream.peek_token() {
            Some(token) => {
                if self.0.0.contains(&token) {
                    let result = self.0.1.parse(stream);
                    assert(select_6_run(&this, input, 0, *stream, self, result));
                    return result;
                }
                if self.1.0.contains(&token) {
                    let result = self.1.1.parse(stream);
                    assert(select_6_run(&this, input, 1, *stream, self, result));
                    return result;
                }
                if self.2.0.contains(&token) {
                    let result = self.2.1.parse(stream);
                    assert(select_6_run(&this, input, 2, *stream, self, result));
                    return result;
                }
                if self.3.0.contains(&token) {
                    let result = self.3.1.parse(stream);
                    assert(select_6_run(&this, input, 3, *stream, self, result));
                    return result;
                }
                if self.4.0.contains(&token) {
                    let result = self.4.1.parse(stream);
                    assert(select_6_run(&this, input, 4, *stream, self, result));
                    return result;
                }
                if self.5.0.contains(&token) {
                    let result = self.5.1.parse(stream);
                    assert(select_6_run(&this, input, 5, *stream, self, result));
                    return result;
                }
            },
            None => {},
        }
        let result = Err(E::new(E::Cause::unknown(), stream.peek_token_span()));
        assert(select_6_run(&this, input, 6, *stream, self, result));
        result
    }
}

/// Whether a selection among seven arms can run as given: arm `picked` is the first
/// whose set holds the next token, and its parser runs on `input`; if `picked`
/// is past the last arm, no set holds the token, or there is none, and the
/// selection fails on `input`.  The parsers that were not picked are left as
/// they were.
pub open spec fn select_7_run<S, O, E, T1, P1, T2, P2, T3, P3, T4, P4, T5, P5, T6, P6, T7, P7>(
    arms: &((T1, P1), (T2, P2), (T3, P3), (T4, P4), (T5, P5), (T6, P6), (T7, P7)),
    input: S,
    picked: int,
    output: S,
    after: &((T1, P1), (T2, P2), (T3, P3), (T4, P4), (T5, P5), (T6, P6), (T7, P7)),
    result: Result<O, E>,
) -> bool where
    S: Stream,
    E: Error<S>,
    T1: TokenSet<S::Token>,
    P1: Parser<S, E, Output = O>,
    T2: TokenSet<S::Token>,
    P2: Parser<S, E, Output = O>,
    T3: TokenSet<S::Token>,
    P3: Parser<S, E, Output = O>,
    T4: TokenSet<S::Token>,
    P4: Parser<S, E, Output = O>,
    T5: TokenSet<S::Token>,
    P5: Parser<S, E, Output = O>,
    T6: TokenSet<S::Token>,
    P6: Parser<S, E, Output = O>,
    T7: TokenSet<S::Token>,
    P7: Parser<S, E, Output = O>,
 {
    &&& 0 <= picked <= 7
    &&& match first(input) {
        None => picked == 7,
        Some(token) => {
            &&& picked > 0 ==> arms.0.0.holds(&token, false)
            &&& picked == 0 ==> arms.0.0.holds(&token, true)
            &&& picked > 1 ==> arms.1.0.holds(&token, false)
            &&& picked == 1 ==> arms.1.0.holds(&token, true)
            &&& picked > 2 ==> arms.2.0.holds(&token, false)
            &&& picked == 2 ==> arms.2.0.holds(&token, true)
            &&& picked > 3 ==> arms.3.0.holds(&token, false)
            &&& picked == 3 ==> arms.3.0.holds(&token, true)
            &&& picked > 4 ==> arms.4.0.holds(&token, false)
            &&& picked == 4 ==> arms.4.0.holds(&token, true)
            &&& picked > 5 ==> arms.5.0.holds(&token, false)
            &&& picked == 5 ==> arms.5.0.holds(&token, true)
            &&& picked > 6 ==> arms.6.0.holds(&token, false)
            &&& picked == 6 ==> arms.6.0.holds(&token, true)
        },
    }
    &&& after.0.0 == arms.0.0
    &&& tries_if(picked == 0, &arms.0.1, input, output, &after.0.1, result)
    &&& after.1.0 == arms.1.0
    &&& tries_if(picked == 1, &arms.1.1, input, output, &after.1.1, result)
    &&& after.2.0 == arms.2.0
    &&& tries_if(picked == 2, &arms.2.1, input, output, &after.2.1, result)
    &&& after.3.0 == arms.3.0
    &&& tries_if(picked == 3, &arms.3.1, input, output, &after.3.1, result)
    &&& after.4.0 == arms.4.0
    &&& tries_if(picked == 4, &arms.4.1, input, output, &after.4.1, result)
    &&& after.5.0 == arms.5.0
    &&& tries_if(picked == 5, &arms.5.1, input, output, &after.5.1, result)
    &&& after.6.0 == arms.6.0
    &&& tries_if(picked == 6, &arms.6.1, input, output, &after.6.1, result)
    &&& picked == 7 ==> output == input && result === Err(no_alternative(input))
}

impl<S, O, E, T1, P1, T2, P2, T3, P3, T4, P4, T5, P5, T6, P6, T7, P7> SelectArms<S, O, E> for (
    (T1, P1),
    (T2, P2),
    (T3, P3),
    (T4, P4),
    (T5, P5),
    (T6, P6),
    (T7, P7),
) where
    S: Stream,
    E: Error<S>,
    T1: TokenSet<S::Token>,
    P1: Parser<S, E, Output = O>,
    T2: TokenSet<S::Token>,
    P2: Parser<S, E, Output = O>,
    T3: TokenSet<S::Token>,
    P3: Parser<S, E, Output = O>,
    T4: TokenSet<S::Token>,
    P4: Parser<S, E, Output = O>,
    T5: TokenSet<S::Token>,
    P5: Parser<S, E, Output = O>,
    T6: TokenSet<S::Token>,
    P6: Parser<S, E, Output = O>,
    T7: TokenSet<S::Token>,
    P7: Parser<S, E, Output = O>,
 {
    open spec fn inv(&self) -> bool {
        &&& self.0.0.inv()
        &&& self.0.1.inv()
        &&& self.1.0.inv()
        &&& self.1.1.inv()
        &&& self.2.0.inv()
        &&& self.2.1.inv()
        &&& self.3.0.inv()
        &&& self.3.1.inv()
        &&& self.4.0.inv()
        &&& self.4.1.inv()
        &&& self.5.0.inv()
        &&& self.5.1.inv()
        &&& self.6.0.inv()
        &&& self.6.1.inv()
    }

    open spec fn parses_selected(
        &self,
        input: S,
        output: S,
        after: &Self,
        result: Result<O, E>,
    ) -> bool {
        exists|picked: int| #[trigger] select_7_run(self, input, picked, output, after, result)
    }

    fn parse_selected(&mut self, stream: &mut S) -> (result: Result<O, E>) {
        let ghost input = *stream;
        let ghost this = *self;
        proof {
            stream.lemma_reaches_refl();
        }
        match stream.peek_token() {
            Some(token) => {
                if self.0.0.contains(&token) {
                    let result = self.0.1.parse(stream);
                    assert(select_7_run(&this, input, 0, *stream, self, result));
                    return result;
                }
                if self.1.0.contains(&token) {
                    let result = self.1.1.parse(stream);
                    assert(select_7_run(&this, input, 1, *stream, self, result));
                    return result;
                }
                if self.2.0.contains(&token) {
                    let result = self.2.1.parse(stream);
                    assert(select_7_run(&this, input, 2, *stream, self, result));
                    return result;
                }
                if self.3.0.contains(&token) {
                    let result = self.3.1.parse(stream);
                    assert(select_7_run(&this, input, 3, *stream, self, result));
                    return result;
                }
                if self.4.0.contains(&token) {
                    let result = self.4.1.parse(stream);
                    assert(select_7_run(&this, input, 4, *stream, self, result));
                    return result;
                }
                if self.5.0.contains(&token) {
                    let result = self.5.1.parse(stream);
                    assert(select_7_run(&this, input, 5, *stream, self, result));
                    return result;
                }
                if self.6.0.contains(&token) {
                    let result = self.6.1.parse(stream);
                    assert(select_7_run(&this, input, 6, *stream, self, result));
                    return result;
                }
            },
            None => {},
        }
        let result = Err(E::new(E::Cause::unknown(), stream.peek_token_span()));
        assert(select_7_run(&this, input, 7, *stream, self, result));
        result
    }
}

/// Whether a selection among eight arms can run as given: arm `picked` is the first
/// whose set holds the next token, and its parser runs on `input`; if `picked`
/// is past the last arm, no set holds the token, or there is none, and the
/// selection fails on `input`.  The parsers that were not picked are left as
/// they were.
pub open spec fn select_8_run<
    S,
    O,
    E,
    T1,
    P1,
    T2,
    P2,
    T3,
    P3,
    T4,
    P4,
    T5,
    P5,
    T6,
    P6,
    T7,
    P7,
    T8,
    P8,
>(
    arms: &((T1, P1), (T2, P2), (T3, P3), (T4, P4), (T5, P5), (T6, P6), (T7, P7), (T8, P8)),
    input: S,
    picked: int,
    output: S,
    after: &((T1, P1), (T2, P2), (T3, P3), (T4, P4), (T5, P5), (T6, P6), (T7, P7), (T8, P8)),
    result: Result<O, E>,
) -> bool where
    S: Stream,
    E: Error<S>,
    T1: TokenSet<S::Token>,
    P1: Parser<S, E, Output = O>,
    T2: TokenSet<S::Token>,
    P2: Parser<S, E, Output = O>,
    T3: TokenSet<S::Token>,
    P3: Parser<S, E, Output = O>,
    T4: TokenSet<S::Token>,
    P4: Parser<S, E, Output = O>,
    T5: TokenSet<S::Token>,
    P5: Parser<S, E, Output = O>,
    T6: TokenSet<S::Token>,
    P6: Parser<S, E, Output = O>,
    T7: TokenSet<S::Token>,
    P7: Parser<S, E, Output = O>,
    T8: TokenSet<S::Token>,
    P8: Parser<S, E, Output = O>,
 {
    &&& 0 <= picked <= 8
    &&& match first(input) {
        None => picked == 8,
        Some(token) => {
            &&& picked > 0 ==> arms.0.0.holds(&token, false)
            &&& picked == 0 ==> arms.0.0.holds(&token, true)
            &&& picked > 1 ==> arms.1.0.holds(&token, false)
            &&& picked == 1 ==> arms.1.0.holds(&token, true)
            &&& picked > 2 ==> arms.2.0.holds(&token, false)
            &&& picked == 2 ==> arms.2.0.holds(&token, true)
            &&& picked > 3 ==> arms.3.0.holds(&token, false)
            &&& picked == 3 ==> arms.3.0.holds(&token, true)
            &&& picked > 4 ==> arms.4.0.holds(&token, false)
            &&& picked == 4 ==> arms.4.0.holds(&token, true)
            &&& picked > 5 ==> arms.5.0.holds(&token, false)
            &&& picked == 5 ==> arms.5.0.holds(&token, true)
            &&& picked > 6 ==> arms.6.0.holds(&token, false)
            &&& picked == 6 ==> arms.6.0.holds(&token, true)
            &&& picked > 7 ==> arms.7.0.holds(&token, false)
            &&& picked == 7 ==> arms.7.0.holds(&token, true)
        },
    }
    &&& after.0.0 == arms.0.0
    &&& tries_if(picked == 0, &arms.0.1, input, output, &after.0.1, result)
    &&& after.1.0 == arms.1.0
    &&& tries_if(picked == 1, &arms.1.1, input, output, &after.1.1, result)
    &&& after.2.0 == arms.2.0
    &&& tries_if(picked == 2, &arms.2.1, input, output, &after.2.1, result)
    &&& after.3.0 == arms.3.0
    &&& tries_if(picked == 3, &arms.3.1, input, output, &after.3.1, result)
    &&& after.4.0 == arms.4.0
    &&& tries_if(picked == 4, &arms.4.1, input, output, &after.4.1, result)
    &&& after.5.0 == arms.5.0
    &&& tries_if(picked == 5, &arms.5.1, input, output, &after.5.1, result)
    &&& after.6.0 == arms.6.0
    &&& tries_if(picked == 6, &arms.6.1, input, output, &after.6.1, result)
    &&& after.7.0 == arms.7.0
    &&& tries_if(picked == 7, &arms.7.1, input, output, &after.7.1, result)
    &&& picked == 8 ==> output == input && result === Err(no_alternative(input))
}

impl<
    S,
    O,
    E,
    T1,
    P1,
    T2,
    P2,
    T3,
    P3,
    T4,
    P4,
    T5,
    P5,
    T6,
    P6,
    T7,
    P7,
    T8,
    P8,
> SelectArms<S, O, E> for (
    (T1, P1),
    (T2, P2),
    (T3, P3),
    (T4, P4),
    (T5, P5),
    (T6, P6),
    (T7, P7),
    (T8, P8),
) where
    S: Stream,
    E: Error<S>,
    T1: TokenSet<S::Token>,
    P1: Parser<S, E, Output = O>,
    T2: TokenSet<S::Token>,
    P2: Parser<S, E, Output = O>,
    T3: TokenSet<S::Token>,
    P3: Parser<S, E, Output = O>,
    T4: TokenSet<S::Token>,
    P4: Parser<S, E, Output = O>,
    T5: TokenSet<S::Token>,
    P5: Parser<S, E, Output = O>,
    T6: TokenSet<S::Token>,
    P6: Parser<S, E, Output = O>,
    T7: TokenSet<S::Token>,
    P7: Parser<S, E, Output = O>,
    T8: TokenSet<S::Token>,
    P8: Parser<S, E, Output = O>,
 {
    open spec fn inv(&self) -> bool {
        &&& self.0.0.inv()
        &&& self.0.1.inv()
        &&& self.1.0.inv()
        &&& self.1.1.inv()
        &&& self.2.0.inv()
        &&& self.2.1.inv()
        &&& self.3.0.inv()
        &&& self.3.1.inv()
        &&& self.4.0.inv()
        &&& self.4.1.inv()
        &&& self.5.0.inv()
        &&& self.5.1.inv()
        &&& self.6.0.inv()
        &&& self.6.1.inv()
        &&& self.7.0.inv()
        &&& self.7.1.inv()
    }

    open spec fn parses_selected(
        &self,
        input: S,
        output: S,
        after: &Self,
        result: Result<O, E>,
    ) -> bool {
        exists|picked: int| #[trigger] select_8_run(self, input, picked, output, after, result)
    }

    fn parse_selected(&mut self, stream: &mut S) -> (result: Result<O, E>) {
        let ghost input = *stream;
        let ghost this = *self;
        proof {
            stream.lemma_reaches_refl();
        }
        match stream.peek_token() {
            Some(token) => {
                if self.0.0.contains(&token) {
                    let result = self.0.1.parse(stream);
                    assert(select_8_run(&this, input, 0, *stream, self, result));
                    return result;
                }
                if self.1.0.contains(&token) {
                    let result = self.1.1.parse(stream);
                    assert(select_8_run(&this, input, 1, *stream, self, result));
                    return result;
                }
                if self.2.0.contains(&token) {
                    let result = self.2.1.parse(stream);
                    assert(select_8_run(&this, input, 2, *stream, self, result));
                    return result;
                }
                if self.3.0.contains(&token) {
                    let result = self.3.1.parse(stream);
                    assert(select_8_run(&this, input, 3, *stream, self, result));
                    return result;
                }
                if self.4.0.contains(&token) {
                    let result = self.4.1.parse(stream);
                    assert(select_8_run(&this, input, 4, *stream, self, result));
                    return result;
                }
                if self.5.0.contains(&token) {
                    let result = self.5.1.parse(stream);
                    assert(select_8_run(&this, input, 5, *stream, self, result));
                    return result;
                }
                if self.6.0.contains(&token) {
                    let result = self.6.1.parse(stream);
                    assert(select_8_run(&this, input, 6, *stream, self, result));
                    return result;
                }
                if self.7.0.contains(&token) {
                    let result = self.7.1.parse(stream);
                    assert(select_8_run(&this, input, 7, *stream, self, result));
                    return result;
                }
            },
            None => {},
        }
        let result = Err(E::new(E::Cause::unknown(), stream.peek_token_span()));
        assert(select_8_run(&this, input, 8, *stream, self, result));
        result
    }
}

/// Select among the arms of a tuple: the building block of `select!`.
pub fn select_inner<Arms, S, O, E>(arms: Arms) -> (parser: Select<Arms, S, O, E>) where
    Arms: SelectArms<S, O, E>,
    S: Stream,
    E: Error<S>,

    ensures
        parser.arms == arms,
{
    Select { arms, _phantom: PhantomData }
}

/// Peeks one token and commits to the parser of the first arm whose set
/// holds it.
#[derive(Debug, PartialEq, Eq, PartialOrd, Ord, Hash)]
pub struct Select<Arms, S, O, E> {
    pub arms: Arms,
    pub _phantom: PhantomData<(S, O, E)>,
}

impl<Arms: Clone, S, O, E> Clone for Select<Arms, S, O, E> {
    fn clone(&self) -> (copy: Self)
        ensures
            cloned(self.arms, copy.arms),
    {
        Select { arms: self.arms.clone(), _phantom: PhantomData }
    }
}

impl<Arms: Copy, S, O, E> Copy for Select<Arms, S, O, E> {

}

impl<Arms, S, O, E> Parser<S, E> for Select<Arms, S, O, E> where
    Arms: SelectArms<S, O, E>,
    S: Stream,
    E: Error<S>,
 {
    type Output = O;

    open spec fn inv(&self) -> bool {
        self.arms.inv()
    }

    open spec fn parses(&self, input: S, output: S, after: &Self, result: Result<O, E>) -> bool {
        self.arms.parses_selected(input, output, &after.arms, result)
    }

    fn parse(&mut self, stream: &mut S) -> (result: Result<O, E>) {
        self.arms.parse_selected(stream)
    }
}

} // verus!
