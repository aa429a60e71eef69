use parsley6::combinator::alt::alt_inner;
use parsley6::combinator::chain_inner;
use parsley6::error::{DefaultCause, DefaultError};
use parsley6::parser::Parser;
use parsley6::stream::{CharStream, Stream};
use parsley6::token::{eat, eat_slice};

type Error<'a> = DefaultError<CharStream<'a>>;

fn leaf<'a>(cause: DefaultCause<CharStream<'a>>, span: std::ops::Range<usize>) -> Error<'a> {
    DefaultError::Error { cause, span }
}

/// Fails after consuming one token, and notes the positions it started at.
struct Greedy {
    started_at: Vec<usize>,
}

/// Succeeds without consuming, and notes the positions it started at.
struct Probe {
    started_at: Vec<usize>,
}

impl<'a> Parser<CharStream<'a>, Error<'a>> for Greedy {
    type Output = usize;

    fn inv(&self) -> bool {
        true
    }

    fn parses(
        &self,
        input: CharStream<'a>,
        output: CharStream<'a>,
        _after: &Self,
        result: Result<usize, Error<'a>>,
    ) -> bool {
        let mut moved = input;
        moved.next_token();
        output == moved && result.is_err()
    }

    fn parse(&mut self, stream: &mut CharStream<'a>) -> Result<usize, Error<'a>> {
        self.started_at.push(stream.stream_position());
        stream.next_token();
        Err(leaf(DefaultCause::custom("greedy"), stream.prev_token_span()))
    }
}

impl<'a> Parser<CharStream<'a>, Error<'a>> for Probe {
    type Output = usize;

    fn inv(&self) -> bool {
        true
    }

    fn parses(
        &self,
        input: CharStream<'a>,
        output: CharStream<'a>,
        _after: &Self,
        result: Result<usize, Error<'a>>,
    ) -> bool {
        output == input && result == Ok(input.stream_position())
    }

    fn parse(&mut self, stream: &mut CharStream<'a>) -> Result<usize, Error<'a>> {
        self.started_at.push(stream.stream_position());
        Ok(stream.stream_position())
    }
}

#[test]
fn the_first_success_wins() {
    let mut parser = alt_inner((eat::<_, Error>('r'), eat('t')));
    let mut stream = CharStream::new("r");
    assert_eq!(parser.parse(&mut stream), Ok('r'));
    let mut stream = CharStream::new("t");
    assert_eq!(parser.parse(&mut stream), Ok('t'));
    assert_eq!(stream.stream_position(), 1);
}

#[test]
fn alternatives_after_the_first_success_are_not_run() {
    let mut stream = CharStream::new("ab");
    let mut parser = alt_inner((Probe { started_at: vec![] }, Probe { started_at: vec![] }));
    assert_eq!(parser.parse(&mut stream), Ok(0));
    assert_eq!(parser.parsers.0.started_at, vec![0]);
    assert_eq!(parser.parsers.1.started_at, Vec::<usize>::new());
}

#[test]
fn when_all_fail_the_error_is_unknown_at_the_start() {
    let mut stream = CharStream::new("xp");
    stream.next_token();
    let mut parser = alt_inner((eat::<_, Error>('r'), eat('t')));
    assert_eq!(parser.parse(&mut stream), Err(leaf(DefaultCause::Unknown, 1..2)));
    assert_eq!(stream.stream_position(), 1);
}

#[test]
fn a_failed_alternative_leaves_the_position_where_it_was() {
    let mut stream = CharStream::new("xab");
    stream.next_token();
    let before = stream.stream_position();
    let mut parser = alt_inner((Greedy { started_at: vec![] }, Probe { started_at: vec![] }));
    assert_eq!(parser.parse(&mut stream), Ok(before));
    assert_eq!(parser.parsers.0.started_at, vec![before]);
    assert_eq!(parser.parsers.1.started_at, vec![before]);
    assert_eq!(stream.stream_position(), before);
}

#[test]
fn when_all_fail_nothing_is_consumed() {
    let mut stream = CharStream::new("xab");
    stream.next_token();
    let before = stream.clone();
    let mut parser = alt_inner((Greedy { started_at: vec![] }, Greedy { started_at: vec![] }));
    assert_eq!(parser.parse(&mut stream), Err(leaf(DefaultCause::Unknown, 1..2)));
    assert_eq!(parser.parsers.0.started_at, vec![1]);
    assert_eq!(parser.parsers.1.started_at, vec![1]);
    assert_eq!(stream, before);
}

#[test]
fn alternatives_backtrack_over_a_common_prefix() {
    let mut parser = alt_inner((
        chain_inner((eat::<_, Error>('a'), eat('b'))).map_to(1),
        chain_inner((eat::<_, Error>('a'), eat('c'))).map_to(2),
        eat_slice::<_, Error>("ad").map_to(3),
    ));
    let mut stream = CharStream::new("ab");
    assert_eq!(parser.parse(&mut stream), Ok(1));
    let mut stream = CharStream::new("ac");
    assert_eq!(parser.parse(&mut stream), Ok(2));
    assert_eq!(stream.stream_position(), 2);
    let mut stream = CharStream::new("ad");
    assert_eq!(parser.parse(&mut stream), Ok(3));
    let mut stream = CharStream::new("ae");
    assert_eq!(parser.parse(&mut stream), Err(leaf(DefaultCause::Unknown, 0..1)));
    assert_eq!(stream.stream_position(), 0);
}

#[test]
fn one_alternative_alone() {
    let mut parser = alt_inner((eat::<_, Error>('a'),));
    let mut stream = CharStream::new("a");
    assert_eq!(parser.parse(&mut stream), Ok('a'));
    let mut stream = CharStream::new("b");
    assert_eq!(parser.parse(&mut stream), Err(leaf(DefaultCause::Unknown, 0..1)));
}

#[test]
fn eight_alternatives() {
    let mut parser = alt_inner((
        eat::<_, Error>('a'),
        eat('b'),
        eat('c'),
        eat('d'),
        eat('e'),
        eat('f'),
        eat('g'),
        eat('h'),
    ));
    for (text, wanted) in [("a", 'a'), ("d", 'd'), ("h", 'h')] {
        let mut stream = CharStream::new(text);
        assert_eq!(parser.parse(&mut stream), Ok(wanted));
    }
    let mut stream = CharStream::new("i");
    assert_eq!(parser.parse(&mut stream), Err(leaf(DefaultCause::Unknown, 0..1)));
}
