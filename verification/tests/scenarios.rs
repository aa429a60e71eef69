use parsley6::combinator::alt::alt_inner;
use parsley6::combinator::chain_inner;
use parsley6::error::{DefaultCause, DefaultError};
use parsley6::parser::run;
use parsley6::prelude::{eat, eat_if, eat_while, end, Parser};
use parsley6::stream::{CharStream, Stream};

type Error<'a> = DefaultError<CharStream<'a>>;

fn bar_bat<'a>(stream: &mut CharStream<'a>) -> Result<(char, char, char), Error<'a>> {
    chain_inner((eat('b'), eat('a'), alt_inner((eat('r'), eat('t')))))
        .then_drop(end())
        .parse(stream)
}

#[test]
fn bar_is_accepted() {
    let mut stream = CharStream::new("bar");
    assert_eq!(bar_bat(&mut stream), Ok(('b', 'a', 'r')));
    assert_eq!(stream.stream_position(), 3);
}

#[test]
fn bat_is_accepted() {
    let mut stream = CharStream::new("bat");
    assert_eq!(bar_bat(&mut stream), Ok(('b', 'a', 't')));
}

#[test]
fn bart_fails_at_the_trailing_letter() {
    let mut stream = CharStream::new("bart");
    assert_eq!(
        bar_bat(&mut stream),
        Err(DefaultError::Error { cause: DefaultCause::ExpectedEnd, span: 3..4 })
    );
}

#[test]
fn bap_fails_at_position_two() {
    let mut stream = CharStream::new("bap");
    assert_eq!(
        bar_bat(&mut stream),
        Err(DefaultError::Error { cause: DefaultCause::Unknown, span: 2..3 })
    );
    assert_eq!(stream.stream_position(), 2);
}

fn ident<'a>(stream: &mut CharStream<'a>) -> Result<&'a str, Error<'a>> {
    chain_inner((
        eat_if(|ch: &char| ch.is_ascii_alphabetic() || *ch == '_'),
        eat_while(|ch: &char| ch.is_ascii_alphanumeric() || *ch == '_'),
    ))
    .to_slice()
    .parse(stream)
}

#[test]
fn identifier_is_sliced_out() {
    let mut stream = CharStream::new("a0a 12");
    assert_eq!(ident(&mut stream), Ok("a0a"));
    assert_eq!(stream.stream_position(), 3);
    assert_eq!(stream.peek_token(), Some(' '));
}

#[test]
fn identifier_does_not_start_with_a_digit() {
    let mut stream = CharStream::new("0a");
    assert_eq!(
        ident(&mut stream),
        Err(DefaultError::Error { cause: DefaultCause::ExpectedMatchingFn, span: 0..1 })
    );
    assert_eq!(stream.stream_position(), 0);
}

#[test]
fn run_is_parse() {
    let mut parser = chain_inner((eat::<_, Error>('b'), eat('a'), alt_inner((eat('r'), eat('t')))));
    let mut stream = CharStream::new("bat");
    assert_eq!(run(&mut parser, &mut stream), Ok(('b', 'a', 't')));
    assert_eq!(stream.stream_position(), 3);
    let mut stream = CharStream::new("bad");
    assert_eq!(
        run(&mut parser, &mut stream),
        Err(DefaultError::Error { cause: DefaultCause::Unknown, span: 2..3 })
    );
    assert_eq!(stream.stream_position(), 2);
}
