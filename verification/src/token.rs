//! Primitive matchers: the parsers that touch the stream.

use std::marker::PhantomData;
use vstd::prelude::*;

pub mod text;

use crate::error::{Cause, Error};
use crate::parser::Parser;
use crate::stream::{first, remaining, Stream};
use crate::token_set::TokenSet;

verus! {

/// The error of a matcher that failed on the stream `at` for `cause`.
pub open spec fn mismatch<S: Stream, E: Error<S>>(cause: E::Cause, at: S) -> E {
    E::spec_new(cause, at.next_span())
}

/// Whether comparing `expected` with `token` by `==` can give `same`.
pub open spec fn equal<T: PartialEq>(expected: T, token: T, same: bool) -> bool {
    call_ensures(<T as PartialEq>::eq, (&expected, &token), same)
}

/// Whether `result` is the error of a matcher that wanted `wanted` and did
/// not find it next on `input`: the error names a clone of `wanted`.
pub open spec fn misses<S: Stream<Token: Clone>, E: Error<S>>(
    wanted: S::Token,
    input: S,
    result: Result<S::Token, E>,
) -> bool {
    exists|expected: S::Token| #[trigger]
        cloned(wanted, expected) && result === Err(
            mismatch(E::Cause::spec_expected_token(expected), input),
        )
}

/// Match a token without consuming it, or return an error.
pub fn peek<S, E>(token: S::Token) -> (parser: Peek<S, E>) where
    S: Stream<Token: Clone>,
    E: Error<S>,

    ensures
        parser.token == token,
{
    Peek { token, _phantom: PhantomData }
}

/// Matches one token by `==`, and leaves it.
#[derive(Debug, PartialEq, Eq, PartialOrd, Ord, Hash)]
pub struct Peek<S: Stream, E> {
    pub token: S::Token,
    pub _phantom: PhantomData<E>,
}

impl<S: Stream<Token: Clone>, E> Clone for Peek<S, E> {
    fn clone(&self) -> (copy: Self)
        ensures
            cloned(self.token, copy.token),
    {
        Peek { token: self.token.clone(), _phantom: PhantomData }
    }
}

impl<S: Stream<Token: Copy>, E> Copy for Peek<S, E> {

}

impl<S, E> Parser<S, E> for Peek<S, E> where S: Stream<Token: Clone>, E: Error<S> {
    type Output = S::Token;

    open spec fn inv(&self) -> bool {
        true
    }

    open spec fn parses(
        &self,
        input: S,
        output: S,
        after: &Self,
        result: Result<S::Token, E>,
    ) -> bool {
        &&& *after == *self
        &&& output == input
        &&& match first(input) {
            Some(token) => {
                ||| equal(self.token, token, true) && result === Ok(token)
                ||| equal(self.token, token, false) && misses(self.token, input, result)
            },
            None => misses(self.token, input, result),
        }
    }

    fn parse(&mut self, stream: &mut S) -> (result: Result<S::Token, E>) {
        proof {
            stream.lemma_reaches_refl();
        }
        match stream.peek_token() {
            Some(token) => {
                if self.token.eq(&token) {
                    return Ok(token);
                }
            },
            None => {},
        }
        let expected = self.token.clone();
        assert(cloned(self.token, expected));
        Err(E::new(E::Cause::expected_token(expected), stream.peek_token_span()))
    }
}

/// Consume a token if it matches the expected token, or return an error.
pub fn eat<S, E>(token: S::Token) -> (parser: Eat<S, E>) where
    S: Stream<Token: Clone>,
    E: Error<S>,

    ensures
        parser.token == token,
{
    Eat { token, _phantom: PhantomData }
}

/// Matches one token by `==`, and consumes it.
#[derive(Debug, PartialEq, Eq, PartialOrd, Ord, Hash)]
pub struct Eat<S: Stream, E> {
    pub token: S::Token,
    pub _phantom: PhantomData<(S, E)>,
}

impl<S: Stream<Token: Clone>, E> Clone for Eat<S, E> {
    fn clone(&self) -> (copy: Self)
        ensures
            cloned(self.token, copy.token),
    {
        Eat { token: self.token.clone(), _phantom: PhantomData }
    }
}

impl<S: Stream<Token: Copy>, E> Copy for Eat<S, E> {

}

impl<S, E> Parser<S, E> for Eat<S, E> where S: Stream<Token: Clone>, E: Error<S> {
    type Output = S::Token;

    open spec fn inv(&self) -> bool {
        true
    }

    open spec fn parses(
        &self,
        input: S,
        output: S,
        after: &Self,
        result: Result<S::Token, E>,
    ) -> bool {
        &&& *after == *self
        &&& match first(input) {
            Some(token) => {
                ||| {
                    &&& equal(self.token, token, true)
                    &&& output == input.advanced(1)
                    &&& result === Ok(token)
                }
                ||| {
                    &&& equal(self.token, token, false)
                    &&& output == input
                    &&& misses(self.token, input, result)
                }
            },
            None => output == input && misses(self.token, input, result),
        }
    }

    fn parse(&mut self, stream: &mut S) -> (result: Result<S::Token, E>) {
        proof {
            stream.lemma_reaches_refl();
        }
        match stream.peek_token() {
            Some(token) => {
                if self.token.eq(&token) {
                    stream.next_token();
                    return Ok(token);
                }
            },
            None => {},
        }
        let expected = self.token.clone();
        assert(cloned(self.token, expected));
        Err(E::new(E::Cause::expected_token(expected), stream.peek_token_span()))
    }
}

/// Match a token without consuming it if it is in the set, or return an error.
///
/// A predicate on tokens is a set of tokens.
pub fn peek_if<F, S, E>(f: F) -> (parser: PeekIf<F, S, E>) where
    F: TokenSet<S::Token>,
    S: Stream,
    E: Error<S>,

    ensures
        parser.f == f,
{
    PeekIf { f, _phantom: PhantomData }
}

/// Matches one token of a set, and leaves it.
#[derive(Debug, PartialEq, Eq, PartialOrd, Ord, Hash)]
pub struct PeekIf<F, S, E> {
    pub f: F,
    pub _phantom: PhantomData<(S, E)>,
}

impl<F: Clone, S, E> Clone for PeekIf<F, S, E> {
    fn clone(&self) -> (copy: Self)
        ensures
            cloned(self.f, copy.f),
    {
        PeekIf { f: self.f.clone(), _phantom: PhantomData }
    }
}

impl<F: Copy, S, E> Copy for PeekIf<F, S, E> {

}

impl<F, S, E> Parser<S, E> for PeekIf<F, S, E> where
    F: TokenSet<S::Token>,
    S: Stream,
    E: Error<S>,
 {
    type Output = S::Token;

    open spec fn inv(&self) -> bool {
        self.f.inv()
    }

    open spec fn parses(
        &self,
        input: S,
        output: S,
        after: &Self,
        result: Result<S::Token, E>,
    ) -> bool {
        let failure = Err::<S::Token, E>(mismatch(E::Cause::spec_expected_matching_fn(), input));
        &&& *after == *self
        &&& output == input
        &&& match first(input) {
            Some(token) => {
                ||| self.f.holds(&token, true) && result === Ok(token)
                ||| self.f.holds(&token, false) && result == failure
            },
            None => result == failure,
        }
    }

    fn parse(&mut self, stream: &mut S) -> (result: Result<S::Token, E>) {
        proof {
            stream.lemma_reaches_refl();
        }
        match stream.peek_token() {
            Some(token) => {
                if self.f.contains(&token) {
                    return Ok(token);
                }
            },
            None => {},
        }
        Err(E::new(E::Cause::expected_matching_fn(), stream.peek_token_span()))
    }
}

/// Consume a token if it is in the set, or return an error.
///
/// A predicate on tokens is a set of tokens.
pub fn eat_if<F, S, E>(f: F) -> (parser: EatIf<F, S, E>) where
    F: TokenSet<S::Token>,
    S: Stream,
    E: Error<S>,

    ensures
        parser.f == f,
{
    EatIf { f, _phantom: PhantomData }
}

/// Matches one token of a set, and consumes it.
#[derive(Debug, PartialEq, Eq, PartialOrd, Ord, Hash)]
pub struct EatIf<F, S, E> {
    pub f: F,
    pub _phantom: PhantomData<(S, E)>,
}

impl<F: Clone, S, E> Clone for EatIf<F, S, E> {
    fn clone(&self) -> (copy: Self)
        ensures
            cloned(self.f, copy.f),
    {
        EatIf { f: self.f.clone(), _phantom: PhantomData }
    }
}

impl<F: Copy, S, E> Copy for EatIf<F, S, E> {

}

impl<F, S, E> Parser<S, E> for EatIf<F, S, E> where
    F: TokenSet<S::Token>,
    S: Stream,
    E: Error<S>,
 {
    type Output = S::Token;

    open spec fn inv(&self) -> bool {
        self.f.inv()
    }

    open spec fn parses(
        &self,
        input: S,
        output: S,
        after: &Self,
        result: Result<S::Token, E>,
    ) -> bool {
        let failure = Err::<S::Token, E>(mismatch(E::Cause::spec_expected_matching_fn(), input));
        &&& *after == *self
        &&& match first(input) {
            Some(token) => {
                ||| {
                    &&& self.f.holds(&token, true)
                    &&& output == input.advanced(1)
                    &&& result === Ok(token)
                }
                ||| {
                    &&& self.f.holds(&token, false)
                    &&& output == input
                    &&& result == failure
                }
            },
            None => output == input && result == failure,
        }
    }

    fn parse(&mut self, stream: &mut S) -> (result: Result<S::Token, E>) {
        proof {
            stream.lemma_reaches_refl();
        }
        match stream.peek_token() {
            Some(token) => {
                if self.f.contains(&token) {
                    stream.next_token();
                    return Ok(token);
                }
            },
            None => {},
        }
        Err(E::new(E::Cause::expected_matching_fn(), stream.peek_token_span()))
    }
}

/// Match a slice without consuming it, or return an error.
pub fn peek_slice<S, E>(slice: &'static S::Slice) -> (parser: PeekSlice<S, E>) where
    S: Stream<Slice: PartialEq>,
    E: Error<S>,

    ensures
        parser.slice == slice,
{
    PeekSlice { slice, _phantom: PhantomData }
}

/// Matches a literal slice, and leaves it.
#[derive(Debug, PartialEq, Eq, PartialOrd, Ord, Hash)]
pub struct PeekSlice<S: Stream, E> {
    pub slice: &'static S::Slice,
    pub _phantom: PhantomData<E>,
}

impl<S: Stream, E> Clone for PeekSlice<S, E> {
    fn clone(&self) -> (copy: Self)
        ensures
            copy.slice == self.slice,
    {
        PeekSlice { slice: self.slice, _phantom: PhantomData }
    }
}

impl<S: Stream, E> Copy for PeekSlice<S, E> {

}

impl<S, E> Parser<S, E> for PeekSlice<S, E> where S: Stream<Slice: PartialEq>, E: Error<S> {
    type Output = S::SliceRef;

    open spec fn inv(&self) -> bool {
        true
    }

    open spec fn parses(
        &self,
        input: S,
        output: S,
        after: &Self,
        result: Result<S::SliceRef, E>,
    ) -> bool {
        &&& *after == *self
        &&& output == input
        &&& match input.matches(self.slice) {
            Some(n) => {
                &&& result matches Ok(found)
                &&& input.is_slice(input.position(), input.advanced(n).position(), found)
            },
            None => result === Err(
                mismatch(E::Cause::spec_expected_slice(self.slice), input),
            ),
        }
    }

    fn parse(&mut self, stream: &mut S) -> (result: Result<S::SliceRef, E>) {
        proof {
            stream.lemma_reaches_refl();
        }
        match stream.peek_slice(self.slice) {
            Some(found) => Ok(found),
            None => Err(E::new(E::Cause::expected_slice(self.slice), stream.peek_token_span())),
        }
    }
}

/// Consume a slice if it matches, or return an error.
pub fn eat_slice<S, E>(slice: &'static S::Slice) -> (parser: EatSlice<S, E>) where
    S: Stream<Slice: PartialEq>,
    E: Error<S>,

    ensures
        parser.slice == slice,
{
    EatSlice { slice, _phantom: PhantomData }
}

/// Matches a literal slice, and consumes it.
#[derive(Debug, PartialEq, Eq, PartialOrd, Ord, Hash)]
pub struct EatSlice<S: Stream, E> {
    pub slice: &'static S::Slice,
    pub _phantom: PhantomData<E>,
}

impl<S: Stream, E> Clone for EatSlice<S, E> {
    fn clone(&self) -> (copy: Self)
        ensures
            copy.slice == self.slice,
    {
        EatSlice { slice: self.slice, _phantom: PhantomData }
    }
}

impl<S: Stream, E> Copy for EatSlice<S, E> {

}

impl<S, E> Parser<S, E> for EatSlice<S, E> where S: Stream<Slice: PartialEq>, E: Error<S> {
    type Output = S::SliceRef;

    open spec fn inv(&self) -> bool {
        true
    }

    open spec fn parses(
        &self,
        input: S,
        output: S,
        after: &Self,
        result: Result<S::SliceRef, E>,
    ) -> bool {
        &&& *after == *self
        &&& match input.matches(self.slice) {
            Some(n) => {
                &&& output == input.advanced(n)
                &&& result matches Ok(found)
                &&& output.is_slice(input.position(), output.position(), found)
            },
            None => {
                &&& output == input
                &&& result === Err(
                    mismatch(E::Cause::spec_expected_slice(self.slice), input),
                )
            },
        }
    }

    fn parse(&mut self, stream: &mut S) -> (result: Result<S::SliceRef, E>) {
        match stream.eat_slice(self.slice) {
            Some(found) => Ok(found),
            None => Err(E::new(E::Cause::expected_slice(self.slice), stream.peek_token_span())),
        }
    }
}

/// Matches the end of the stream.
pub fn end<S, E>() -> (parser: End<S, E>) where S: Stream, E: Error<S> {
    End { _phantom: PhantomData }
}

/// Matches the end of the input.
#[derive(Debug, PartialEq, Eq, PartialOrd, Ord, Hash)]
#[non_exhaustive]
pub struct End<S, E> {
    pub _phantom: PhantomData<(S, E)>,
}

impl<S, E> Clone for End<S, E> {
    fn clone(&self) -> (copy: Self) {
        End { _phantom: PhantomData }
    }
}

impl<S, E> Copy for End<S, E> {

}

impl<S, E> Parser<S, E> for End<S, E> where S: Stream, E: Error<S> {
    type Output = ();

    open spec fn inv(&self) -> bool {
        true
    }

    open spec fn parses(&self, input: S, output: S, after: &Self, result: Result<(), E>) -> bool {
        &&& output == input
        &&& result == if first(input) is None {
            Ok::<(), E>(())
        } else {
            Err::<(), E>(mismatch(E::Cause::spec_expected_end(), input))
        }
    }

    fn parse(&mut self, stream: &mut S) -> (result: Result<(), E>) {
        proof {
            stream.lemma_reaches_refl();
        }
        if stream.at_end() {
            Ok(())
        } else {
            Err(E::new(E::Cause::expected_end(), stream.peek_token_span()))
        }
    }
}

/// Eat tokens while they are in the set `f`, and yield them as a slice.
///
/// A predicate on tokens is a set of tokens.
pub fn eat_while<F, S, E>(f: F) -> (parser: EatUntil<F, S, E>) where
    F: TokenSet<S::Token>,
    S: Stream,
    E: Error<S>,

    ensures
        parser.f == f,
{
    EatUntil { f, _phantom: PhantomData }
}

/// Consumes tokens as long as they are in a set, and yields them as a slice.
#[derive(Debug, PartialEq, Eq, PartialOrd, Ord, Hash)]
pub struct EatUntil<F, S, E> {
    pub f: F,
    pub _phantom: PhantomData<(S, E)>,
}

impl<F: Clone, S, E> Clone for EatUntil<F, S, E> {
    fn clone(&self) -> (copy: Self)
        ensures
            cloned(self.f, copy.f),
    {
        EatUntil { f: self.f.clone(), _phantom: PhantomData }
    }
}

impl<F: Copy, S, E> Copy for EatUntil<F, S, E> {

}

impl<F, S, E> EatUntil<F, S, E> where F: TokenSet<S::Token>, S: Stream, E: Error<S> {
    /// Whether the set can hold the first `eaten` unconsumed tokens of
    /// `input`, and not the one behind them, if there is one.
    pub open spec fn eats(&self, input: S, eaten: nat) -> bool {
        let rest = remaining(input);
        &&& eaten <= rest.len()
        &&& forall|i: int| 0 <= i < eaten ==> self.f.holds(&#[trigger] rest[i], true)
        &&& eaten < rest.len() ==> self.f.holds(&rest[eaten as int], false)
    }
}

impl<F, S, E> Parser<S, E> for EatUntil<F, S, E> where
    F: TokenSet<S::Token>,
    S: Stream,
    E: Error<S>,
 {
    type Output = S::SliceRef;

    open spec fn inv(&self) -> bool {
        self.f.inv()
    }

    open spec fn parses(
        &self,
        input: S,
        output: S,
        after: &Self,
        result: Result<S::SliceRef, E>,
    ) -> bool {
        &&& *after == *self
        &&& result matches Ok(eaten)
        &&& output.is_slice(input.position(), output.position(), eaten)
        &&& exists|n: nat| #[trigger] self.eats(input, n) && output == input.advanced(n)
    }

    fn parse(&mut self, stream: &mut S) -> (result: Result<S::SliceRef, E>) {
        let ghost input = *stream;
        let ghost rest = remaining(input);
        let ghost mut eaten: nat = 0;
        let start = stream.stream_position();
        proof {
            input.lemma_cursor_in_bounds();
            input.lemma_advanced(0);
            assert(rest.len() == input.tokens().len() - input.cursor());
        }
        loop
            invariant_except_break
                forall|i: int|
                    0 <= i < eaten ==> self.f.holds(&#[trigger] rest[i], true),
            invariant
                input == *old(stream),
                input.wf(),
                stream.wf(),
                self.inv(),
                *self == *old(self),
                rest == remaining(input),
                eaten <= rest.len(),
                rest.len() == input.tokens().len() - input.cursor(),
                *stream == input.advanced(eaten),
                input.reaches(stream),
            ensures
                self.eats(input, eaten),
            decreases rest.len() - eaten,
        {
            proof {
                input.lemma_advanced(eaten);
            }
            let go_on = match stream.peek_token() {
                Some(token) => self.f.contains(&token),
                None => false,
            };
            if !go_on {
                break ;
            }
            stream.next_token();
            proof {
                input.lemma_advanced_twice(eaten, 1);
                eaten = eaten + 1;
                input.lemma_advanced(eaten);
            }
        }
        let end = stream.stream_position();
        proof {
            input.lemma_reaches(stream);
        }
        Ok(stream.slice(start, end))
    }
}

/// What the callback of [`seek`] says of a token.
#[derive(Debug, Clone, Copy, PartialEq, Eq, PartialOrd, Ord, Hash)]
pub enum SeekResult {
    Match { consume: bool },
    NoMatch,
}

impl SeekResult {
    /// `Match { consume }` if `m` holds, and nothing if not.
    pub fn match_if(m: bool, consume: bool) -> (found: Option<Self>)
        ensures
            found == if m {
                Some(SeekResult::Match { consume })
            } else {
                None::<SeekResult>
            },
    {
        if m {
            Some(SeekResult::Match { consume })
        } else {
            None
        }
    }
}

/// Eat tokens until `f` returns `Some(seek_result)`.
///
/// If `must_progress` is `true`, the parser fails on a match that is not
/// consumed when no token was skipped before it.
pub fn seek<F, S, E>(f: F, must_progress: bool) -> (parser: Seek<F, S, E>) where
    F: Fn(&S::Token) -> Option<SeekResult>,
    S: Stream,
    E: Error<S>,

    ensures
        parser.f == f,
        parser.must_progress == must_progress,
{
    Seek { f, must_progress, _phantom: PhantomData }
}

/// Skips tokens up to one that a callback stops at.
#[derive(Debug, PartialEq, Eq, PartialOrd, Ord, Hash)]
pub struct Seek<F, S, E> {
    pub f: F,
    pub must_progress: bool,
    pub _phantom: PhantomData<(S, E)>,
}

impl<F: Clone, S, E> Clone for Seek<F, S, E> {
    fn clone(&self) -> (copy: Self)
        ensures
            cloned(self.f, copy.f),
            copy.must_progress == self.must_progress,
    {
        Seek { f: self.f.clone(), must_progress: self.must_progress, _phantom: PhantomData }
    }
}

impl<F: Copy, S, E> Copy for Seek<F, S, E> {

}

impl<F, S, E> Seek<F, S, E> where
    F: Fn(&S::Token) -> Option<SeekResult>,
    S: Stream,
    E: Error<S>,
 {
    /// The error that a failed seek gives on the stream `at`.
    pub open spec fn failure(at: S) -> E {
        E::spec_new(E::Cause::spec_expected_matching_fn(), at.next_span())
    }

    /// Whether the seek can skip exactly `skipped` tokens of `input`, and
    /// then stop with `result`, leaving `output`.
    pub open spec fn stops_after(
        &self,
        input: S,
        skipped: nat,
        output: S,
        result: Result<S::Token, E>,
    ) -> bool {
        let rest = remaining(input);
        &&& skipped <= rest.len()
        &&& forall|i: int|
            0 <= i < skipped ==> call_ensures(self.f, (&#[trigger] rest[i],), None::<SeekResult>)
        &&& if skipped == rest.len() {
            &&& output == input.advanced(skipped)
            &&& result === Err(Self::failure(output))
        } else {
            exists|found: SeekResult| #[trigger]
                call_ensures(self.f, (&rest[skipped as int],), Some(found)) && match found {
                    SeekResult::Match { consume: true } => {
                        &&& output == input.advanced(skipped + 1)
                        &&& result === Ok(rest[skipped as int])
                    },
                    SeekResult::Match { consume: false } => {
                        &&& output == input.advanced(skipped)
                        &&& result == if !self.must_progress || skipped > 0 {
                            Ok::<S::Token, E>(rest[skipped as int])
                        } else {
                            Err::<S::Token, E>(Self::failure(output))
                        }
                    },
                    SeekResult::NoMatch => {
                        &&& output == input.advanced(skipped)
                        &&& result === Err(Self::failure(output))
                    },
                }
        }
    }
}

impl<F, S, E> Parser<S, E> for Seek<F, S, E> where
    F: Fn(&S::Token) -> Option<SeekResult>,
    S: Stream,
    E: Error<S>,
 {
    type Output = S::Token;

    open spec fn inv(&self) -> bool {
        forall|token: S::Token| call_requires(self.f, (&token,))
    }

    open spec fn parses(
        &self,
        input: S,
        output: S,
        after: &Self,
        result: Result<S::Token, E>,
    ) -> bool {
        &&& *after == *self
        &&& exists|skipped: nat| self.stops_after(input, skipped, output, result)
    }

    fn parse(&mut self, stream: &mut S) -> (result: Result<S::Token, E>) {
        let ghost input = *stream;
        let ghost rest = remaining(input);
        let ghost mut skipped: nat = 0;
        let mut progressed = false;
        proof {
            input.lemma_cursor_in_bounds();
            input.lemma_advanced(0);
            assert(rest.len() == input.tokens().len() - input.cursor());
        }
        loop
            invariant
                input == *old(stream),
                input.wf(),
                stream.wf(),
                self.inv(),
                *self == *old(self),
                rest == remaining(input),
                skipped <= rest.len(),
                rest.len() == input.tokens().len() - input.cursor(),
                *stream == input.advanced(skipped),
                progressed == (skipped > 0),
                forall|i: int|
                    0 <= i < skipped ==> call_ensures(
                        self.f,
                        (&#[trigger] rest[i],),
                        None::<SeekResult>,
                    ),
            decreases rest.len() - skipped,
        {
            proof {
                input.lemma_advanced(skipped);
            }
            match stream.peek_token() {
                Some(token) => {
                    assert(token == rest[skipped as int]);
                    match (self.f)(&token) {
                        Some(seek_result) => {
                            let result = match seek_result {
                                SeekResult::Match { consume: true } => {
                                    stream.next_token();
                                    proof {
                                        input.lemma_advanced_twice(skipped, 1);
                                        input.lemma_advanced(skipped + 1);
                                    }
                                    Ok(token)
                                },
                                SeekResult::Match { consume: false } => {
                                    if !self.must_progress || progressed {
                                        Ok(token)
                                    } else {
                                        Err(
                                            E::new(
                                                E::Cause::expected_matching_fn(),
                                                stream.peek_token_span(),
                                            ),
                                        )
                                    }
                                },
                                SeekResult::NoMatch => Err(
                                    E::new(
                                        E::Cause::expected_matching_fn(),
                                        stream.peek_token_span(),
                                    ),
                                ),
                            };
                            assert(self.stops_after(input, skipped, *stream, result));
                            return result;
                        },
                        None => {
                            stream.next_token();
                            progressed = true;
                            proof {
                                input.lemma_advanced_twice(skipped, 1);
                                skipped = skipped + 1;
                            }
                        },
                    }
                },
                None => {
                    let result = Err(
                        E::new(E::Cause::expected_matching_fn(), stream.peek_token_span()),
                    );
                    assert(self.stops_after(input, skipped, *stream, result));
                    return result;
                },
            }
        }
    }
}

} // verus!
