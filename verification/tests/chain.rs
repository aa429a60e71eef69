use parsley6::combinator::{between, chain_inner, prefixed, suffixed};
use parsley6::error::{DefaultCause, DefaultError};
use parsley6::parser::Parser;
use parsley6::stream::{CharStream, Stream};
use parsley6::token::{eat, end};

type Error<'a> = DefaultError<CharStream<'a>>;

/// Succeeds without consuming, and counts how often it was run.
struct Counting {
    calls: usize,
}

impl<'a> Parser<CharStream<'a>, Error<'a>> for Counting {
    type Output = ();

    fn inv(&self) -> bool {
        true
    }

    fn parses(
        &self,
        input: CharStream<'a>,
        output: CharStream<'a>,
        after: &Self,
        result: Result<(), Error<'a>>,
    ) -> bool {
        output == input && after.calls == self.calls + 1 && result == Ok(())
    }

    fn parse(&mut self, _stream: &mut CharStream<'a>) -> Result<(), Error<'a>> {
        self.calls += 1;
        Ok(())
    }
}

#[test]
fn chain_yields_the_tuple_of_outputs() {
    let mut stream = CharStream::new("abc");
    let mut parser = chain_inner((eat::<_, Error>('a'), eat('b'), eat('c')));
    assert_eq!(parser.parse(&mut stream), Ok(('a', 'b', 'c')));
    assert_eq!(stream.stream_position(), 3);
}

#[test]
fn chain_of_one_yields_a_one_tuple() {
    let mut stream = CharStream::new("a");
    let mut parser = chain_inner((eat::<_, Error>('a'),));
    assert_eq!(parser.parse(&mut stream), Ok(('a',)));
}

#[test]
fn chain_short_circuits_at_the_first_failure() {
    let mut stream = CharStream::new("axc");
    let mut parser = chain_inner((eat::<_, Error>('a'), eat('b'), Counting { calls: 0 }));
    assert_eq!(
        parser.parse(&mut stream),
        Err(DefaultError::Error { cause: DefaultCause::ExpectedToken('b'), span: 1..2 })
    );
    assert_eq!(parser.parsers.2.calls, 0);
    assert_eq!(stream.stream_position(), 1);
}

#[test]
fn chain_runs_every_parser_on_success() {
    let mut stream = CharStream::new("ab");
    let mut parser = chain_inner((eat::<_, Error>('a'), Counting { calls: 0 }, eat('b')));
    assert_eq!(parser.parse(&mut stream), Ok(('a', (), 'b')));
    assert_eq!(parser.parsers.1.calls, 1);
}

#[test]
fn chain_does_not_roll_back_what_was_consumed() {
    let mut stream = CharStream::new("abx");
    let mut parser = chain_inner((eat::<_, Error>('a'), eat('b'), eat('c')));
    assert!(parser.parse(&mut stream).is_err());
    assert_eq!(stream.stream_position(), 2);
}

#[test]
fn chain_of_eight() {
    let mut stream = CharStream::new("abcdefgh");
    let mut parser = chain_inner((
        eat::<_, Error>('a'),
        eat('b'),
        eat('c'),
        eat('d'),
        eat('e'),
        eat('f'),
        eat('g'),
        eat('h'),
    ));
    assert_eq!(parser.parse(&mut stream), Ok(('a', 'b', 'c', 'd', 'e', 'f', 'g', 'h')));
    assert_eq!(stream.peek_token(), None);
}

#[test]
fn prefixed_keeps_the_second_output() {
    let mut stream = CharStream::new("ab");
    assert_eq!(prefixed(eat::<_, Error>('a'), eat('b')).parse(&mut stream), Ok('b'));
    assert_eq!(stream.stream_position(), 2);
}

#[test]
fn prefixed_stops_when_the_prefix_fails() {
    let mut stream = CharStream::new("xb");
    let mut parser = prefixed(eat::<_, Error>('a'), Counting { calls: 0 });
    assert_eq!(
        parser.parse(&mut stream),
        Err(DefaultError::Error { cause: DefaultCause::ExpectedToken('a'), span: 0..1 })
    );
    assert_eq!(parser.parser.calls, 0);
}

#[test]
fn suffixed_keeps_the_first_output() {
    let mut stream = CharStream::new("ab");
    assert_eq!(suffixed(eat::<_, Error>('a'), eat('b')).parse(&mut stream), Ok('a'));
    assert_eq!(stream.stream_position(), 2);
}

#[test]
fn suffixed_fails_with_the_suffix() {
    let mut stream = CharStream::new("ab");
    assert_eq!(
        suffixed(eat::<_, Error>('a'), end()).parse(&mut stream),
        Err(DefaultError::Error { cause: DefaultCause::ExpectedEnd, span: 1..2 })
    );
    assert_eq!(stream.stream_position(), 1);
}

#[test]
fn between_keeps_the_middle_output() {
    let mut stream = CharStream::new("[b]");
    assert_eq!(between(eat::<_, Error>('['), eat('b'), eat(']')).parse(&mut stream), Ok('b'));
    assert_eq!(stream.stream_position(), 3);
}

#[test]
fn between_fails_with_the_first_failure() {
    let mut stream = CharStream::new("[b)");
    assert_eq!(
        between(eat::<_, Error>('['), eat('b'), eat(']')).parse(&mut stream),
        Err(DefaultError::Error { cause: DefaultCause::ExpectedToken(']'), span: 2..3 })
    );
    let mut stream = CharStream::new("[x]");
    let mut parser = between(eat::<_, Error>('['), eat('b'), Counting { calls: 0 });
    assert_eq!(
        parser.parse(&mut stream),
        Err(DefaultError::Error { cause: DefaultCause::ExpectedToken('b'), span: 1..2 })
    );
    assert_eq!(parser.suffix.calls, 0);
}

#[test]
fn drop_then_and_then_drop_are_prefixed_and_suffixed() {
    let mut stream = CharStream::new("abc");
    let mut parser = eat::<_, Error>('a').drop_then(eat('b')).then_drop(eat('c'));
    assert_eq!(parser.parse(&mut stream), Ok('b'));
    assert_eq!(stream.stream_position(), 3);
}
