//! Bounded repetition.

use std::marker::PhantomData;
use vstd::prelude::*;

use crate::error::{Cause, Error};
use crate::parser::Parser;
use crate::stream::{first, Stream};
use crate::token_set::TokenSet;

verus! {

/// A container that the outputs of a repetition are gathered in.
pub trait Collect<T>: Sized {
    /// Whether the container stands for these items, gathered in this order.
    spec fn holds(&self, items: Seq<T>) -> bool;

    /// A container with nothing gathered yet.
    fn empty() -> (container: Self)
        ensures
            container.holds(Seq::empty()),
    ;

    /// Gather one more item, behind those gathered before.
    fn put(&mut self, item: T)
        ensures
            forall|items: Seq<T>| #[trigger]
                old(self).holds(items) ==> final(self).holds(items.push(item)),
    ;
}

/// The container that keeps nothing.
#[derive(Debug, Clone, Copy, PartialEq, Eq, PartialOrd, Ord, Hash)]
pub struct NoCollection;

impl<T> Collect<T> for NoCollection {
    open spec fn holds(&self, items: Seq<T>) -> bool {
        true
    }

    fn empty() -> (container: Self) {
        NoCollection
    }

    fn put(&mut self, item: T) {
    }
}

impl<T> Collect<T> for Vec<T> {
    open spec fn holds(&self, items: Seq<T>) -> bool {
        self@ == items
    }

    fn empty() -> (container: Self) {
        Vec::new()
    }

    fn put(&mut self, item: T) {
        self.push(item);
    }
}

/// `String::push`: the character is appended to the text.
pub assume_specification[ String::push ](text: &mut String, c: char)
    ensures
        final(text)@ == old(text)@.push(c),
;

impl Collect<char> for String {
    open spec fn holds(&self, items: Seq<char>) -> bool {
        self@ == items
    }

    fn empty() -> (container: Self) {
        String::new()
    }

    fn put(&mut self, item: char) {
        self.push(item);
    }
}

/// Repeats a parser while the next token is in a set, and gathers the
/// outputs.
///
/// The repetition stops with success when `max` repetitions are done, and
/// when the next token is not in the set, or the input ends, after at least
/// `min` repetitions.  It stops with an error when that happens earlier,
/// when the parser fails, and when the parser succeeds without consuming a
/// token.
#[derive(Debug, PartialEq, Eq, PartialOrd, Ord, Hash)]
pub struct RepeatWhile<P, F, Collection, S, E> {
    pub parser: P,
    pub f: F,
    pub min: usize,
    pub max: Option<usize>,
    pub _phantom: PhantomData<(Collection, S, E)>,
}

impl<P: Clone, F: Clone, Collection, S, E> Clone for RepeatWhile<P, F, Collection, S, E> {
    fn clone(&self) -> (copy: Self)
        ensures
            cloned(self.parser, copy.parser),
            cloned(self.f, copy.f),
            copy.min == self.min,
            copy.max == self.max,
    {
        RepeatWhile {
            parser: self.parser.clone(),
            f: self.f.clone(),
            min: self.min,
            max: self.max,
            _phantom: PhantomData,
        }
    }
}

impl<P: Copy, F: Copy, Collection, S, E> Copy for RepeatWhile<P, F, Collection, S, E> {

}

impl<P, F, Collection, S, E> RepeatWhile<P, F, Collection, S, E> where
    P: Parser<S, E>,
    F: TokenSet<S::Token>,
    Collection: Collect<P::Output>,
    S: Stream,
    E: Error<S>,
 {
    /// Ask for at least `min` repetitions.
    pub fn min(self, min: usize) -> (parser: Self)
        ensures
            parser.parser == self.parser,
            parser.f == self.f,
            parser.min == min,
            parser.max == self.max,
    {
        let mut parser = self;
        parser.min = min;
        parser
    }

    /// Stop after `max` repetitions.
    pub fn max(self, max: usize) -> (parser: Self)
        requires
            max > 0,
        ensures
            parser.parser == self.parser,
            parser.f == self.f,
            parser.min == self.min,
            parser.max == Some(max),
    {
        let mut parser = self;
        parser.max = Some(max);
        parser
    }

    /// Gather the outputs in a container of another type.
    pub fn collect<C: Collect<P::Output>>(self) -> (parser: RepeatWhile<P, F, C, S, E>)
        ensures
            parser.parser == self.parser,
            parser.f == self.f,
            parser.min == self.min,
            parser.max == self.max,
    {
        RepeatWhile {
            parser: self.parser,
            f: self.f,
            min: self.min,
            max: self.max,
            _phantom: PhantomData,
        }
    }

    /// The stream that repetition `i` starts on.
    pub open spec fn stream_before(input: S, steps: Seq<(S, P, P::Output)>, i: int) -> S {
        if i == 0 {
            input
        } else {
            steps[i - 1].0
        }
    }

    /// The wrapped parser as repetition `i` finds it.
    pub open spec fn parser_before(&self, steps: Seq<(S, P, P::Output)>, i: int) -> P {
        if i == 0 {
            self.parser
        } else {
            steps[i - 1].1
        }
    }

    /// The outputs of the repetitions, in order.
    pub open spec fn outputs(steps: Seq<(S, P, P::Output)>) -> Seq<P::Output> {
        Seq::new(steps.len(), |i: int| steps[i].2)
    }

    /// The set can hold the next token of `at`.
    pub open spec fn accepts(&self, at: S) -> bool {
        first(at) matches Some(token) && self.f.holds(&token, true)
    }

    /// `at` has ended, or the set can fail to hold its next token.
    pub open spec fn declines(&self, at: S) -> bool {
        first(at) matches Some(token) ==> self.f.holds(&token, false)
    }

    /// The error of a repetition that stops on the stream `at` for a reason
    /// of its own.
    pub open spec fn failure(at: S) -> E {
        E::spec_new(E::Cause::spec_unknown(), at.next_span())
    }

    /// Whether repetition `i` of `steps` was accepted by the set, succeeded,
    /// and consumed something.
    pub open spec fn step_ok(&self, input: S, steps: Seq<(S, P, P::Output)>, i: int) -> bool {
        let before = Self::stream_before(input, steps, i);
        &&& self.accepts(before)
        &&& self.parser_before(steps, i).parses(
            before,
            steps[i].0,
            &steps[i].1,
            Ok::<P::Output, E>(steps[i].2),
        )
        &&& steps[i].0.cursor() > before.cursor()
    }

    /// Whether `steps` are successive repetitions from `input` on, within the
    /// upper bound.
    pub open spec fn repeats(&self, input: S, steps: Seq<(S, P, P::Output)>) -> bool {
        &&& self.max matches Some(max) ==> steps.len() <= max
        &&& forall|i: int| 0 <= i < steps.len() ==> #[trigger] self.step_ok(input, steps, i)
    }

    /// Whether the repetition stops after `steps` with this result.
    ///
    /// It stops with what it gathered when the upper bound is reached; when
    /// the set declines, with what it gathered if that is enough and
    /// with an error if not; with the wrapped parser's error; and with an
    /// error when the wrapped parser succeeds and consumes nothing.
    pub open spec fn ends(
        &self,
        input: S,
        steps: Seq<(S, P, P::Output)>,
        output: S,
        after: &Self,
        result: Result<Collection, E>,
    ) -> bool {
        let at = Self::stream_before(input, steps, steps.len() as int);
        let parser = self.parser_before(steps, steps.len() as int);
        if self.max == Some(steps.len() as usize) {
            &&& output == at
            &&& after.parser == parser
            &&& result matches Ok(gathered)
            &&& gathered.holds(Self::outputs(steps))
        } else {
            ||| {
                &&& self.declines(at)
                &&& output == at
                &&& after.parser == parser
                &&& if steps.len() >= self.min {
                    result matches Ok(gathered) && gathered.holds(Self::outputs(steps))
                } else {
                    result === Err(Self::failure(at))
                }
            }
            ||| {
                &&& self.accepts(at)
                &&& exists|inner: Result<P::Output, E>| #[trigger]
                    parser.parses(at, output, &after.parser, inner) && match inner {
                        Err(error) => result === Err(error),
                        Ok(_) => {
                            &&& output.cursor() == at.cursor()
                            &&& result === Err(Self::failure(output))
                        },
                    }
            }
        }
    }
}

/// A repetition that succeeds has run at least `min` and at most `max`
/// times; it yields the outputs of its runs, in order, and leaves the stream
/// where the last run left it.
pub proof fn lemma_repetition_bounds<P, F, Collection, S, E>(
    parser: RepeatWhile<P, F, Collection, S, E>,
    input: S,
    steps: Seq<(S, P, P::Output)>,
    output: S,
    after: RepeatWhile<P, F, Collection, S, E>,
    result: Result<Collection, E>,
) where
    P: Parser<S, E>,
    F: TokenSet<S::Token>,
    Collection: Collect<P::Output>,
    S: Stream,
    E: Error<S>,

    requires
        parser.inv(),
        parser.repeats(input, steps),
        parser.ends(input, steps, output, &after, result),
        result is Ok,
    ensures
        parser.min <= steps.len(),
        parser.max matches Some(max) ==> steps.len() <= max,
        result->Ok_0.holds(RepeatWhile::<P, F, Collection, S, E>::outputs(steps)),
        output == RepeatWhile::<P, F, Collection, S, E>::stream_before(
            input,
            steps,
            steps.len() as int,
        ),
{
}

impl<P, F, Collection, S, E> Parser<S, E> for RepeatWhile<P, F, Collection, S, E> where
    P: Parser<S, E>,
    F: TokenSet<S::Token>,
    Collection: Collect<P::Output>,
    S: Stream,
    E: Error<S>,
 {
    type Output = Collection;

    open spec fn inv(&self) -> bool {
        &&& self.parser.inv()
        &&& self.f.inv()
        &&& self.max matches Some(max) ==> max > 0 && max >= self.min
    }

    open spec fn parses(
        &self,
        input: S,
        output: S,
        after: &Self,
        result: Result<Collection, E>,
    ) -> bool {
        &&& after.f == self.f
        &&& after.min == self.min
        &&& after.max == self.max
        &&& exists|steps: Seq<(S, P, P::Output)>|
            self.repeats(input, steps) && #[trigger] self.ends(input, steps, output, after, result)
    }

    fn parse(&mut self, stream: &mut S) -> (result: Result<Collection, E>) {
        let ghost input = *stream;
        let ghost this = *self;
        let ghost mut steps: Seq<(S, P, P::Output)> = Seq::empty();
        let mut gathered = Collection::empty();
        let mut n: usize = 0;
        proof {
            input.lemma_reaches_refl();
            input.lemma_reaches(&input);
            input.lemma_cursor_in_bounds();
            assert(Self::outputs(steps) =~= Seq::empty());
        }
        loop
            invariant
                input == *old(stream),
                this == *old(self),
                this.inv(),
                input.wf(),
                stream.wf(),
                self.parser.inv(),
                self.f == this.f,
                self.min == this.min,
                self.max == this.max,
                n == steps.len(),
                this.repeats(input, steps),
                *stream == Self::stream_before(input, steps, steps.len() as int),
                self.parser == this.parser_before(steps, steps.len() as int),
                gathered.holds(Self::outputs(steps)),
                input.reaches(stream),
                stream.tokens() == input.tokens(),
                stream.cursor() <= stream.tokens().len(),
                input.position() + n <= stream.position(),
            decreases stream.tokens().len() - stream.cursor(),
        {
            if let Some(max) = self.max {
                if n >= max {
                    let result = Ok(gathered);
                    assert(this.ends(input, steps, *stream, self, result));
                    return result;
                }
            }
            let accepted = match stream.peek_token() {
                Some(token) => self.f.contains(&token),
                None => false,
            };
            if !accepted {
                let result = if n >= self.min {
                    Ok(gathered)
                } else {
                    Err(E::new(E::Cause::unknown(), stream.peek_token_span()))
                };
                assert(this.ends(input, steps, *stream, self, result));
                return result;
            }
            let ghost at = *stream;
            let ghost parser = self.parser;
            let start = stream.stream_position();
            let inner = self.parser.parse(stream);
            proof {
                at.lemma_reaches(stream);
                input.lemma_reaches_trans(&at, stream);
                stream.lemma_cursor_in_bounds();
            }
            match inner {
                Err(error) => {
                    let result = Err(error);
                    assert(parser.parses(at, *stream, &self.parser, inner));
                    assert(this.ends(input, steps, *stream, self, result));
                    return result;
                },
                Ok(item) => {
                    if stream.stream_position() == start {
                        let result = Err(E::new(E::Cause::unknown(), stream.peek_token_span()));
                        assert(parser.parses(at, *stream, &self.parser, inner));
                        assert(this.ends(input, steps, *stream, self, result));
                        return result;
                    }
                    proof {
                        let ghost before = steps;
                        steps = steps.push((*stream, self.parser, item));
                        assert(Self::outputs(steps) =~= Self::outputs(before).push(item));
                        assert forall|i: int| 0 <= i < steps.len() implies #[trigger] this.step_ok(
                            input,
                            steps,
                            i,
                        ) by {
                            if i < before.len() {
                                assert(this.step_ok(input, before, i));
                            }
                        }
                    }
                    gathered.put(item);
                    n = n + 1;
                },
            }
        }
    }
}

} // verus!
