use parsley6::combinator::NoCollection;
use parsley6::error::{DefaultCause, DefaultError};
use parsley6::parser::Parser;
use parsley6::stream::{CharStream, Stream};
use parsley6::token::{eat, eat_if, peek};
use parsley6::token_set::TokenSet;

type Error<'a> = DefaultError<CharStream<'a>>;

fn leaf<'a>(cause: DefaultCause<CharStream<'a>>, span: std::ops::Range<usize>) -> Error<'a> {
    DefaultError::Error { cause, span }
}

fn digits<'a>(stream: &mut CharStream<'a>) -> Result<Vec<char>, Error<'a>> {
    eat_if(|c: &char| c.is_ascii_digit())
        .repeat_while(|c: &char| c.is_ascii_digit())
        .min(2)
        .max(4)
        .collect::<Vec<_>>()
        .parse(stream)
}

#[test]
fn three_matches_within_two_and_four() {
    let mut stream = CharStream::new("123abc");
    assert_eq!(digits(&mut stream), Ok(vec!['1', '2', '3']));
    assert_eq!(stream.stream_position(), 3);
}

#[test]
fn one_match_is_below_the_minimum() {
    let mut stream = CharStream::new("1abc");
    assert_eq!(digits(&mut stream), Err(leaf(DefaultCause::Unknown, 1..2)));
    assert_eq!(stream.stream_position(), 1);
}

#[test]
fn six_matches_stop_at_the_maximum() {
    let mut stream = CharStream::new("123456");
    assert_eq!(digits(&mut stream), Ok(vec!['1', '2', '3', '4']));
    assert_eq!(stream.stream_position(), 4);
    assert_eq!(stream.slice(4, 6), "56");
    assert_eq!(stream.peek_token(), Some('5'));
}

#[test]
fn exactly_the_minimum_is_enough() {
    let mut stream = CharStream::new("12");
    assert_eq!(digits(&mut stream), Ok(vec!['1', '2']));
    assert!(stream.at_end());
}

#[test]
fn exactly_the_maximum_is_reached_at_the_end() {
    let mut stream = CharStream::new("1234");
    assert_eq!(digits(&mut stream), Ok(vec!['1', '2', '3', '4']));
    assert!(stream.at_end());
}

#[test]
fn the_end_of_the_input_below_the_minimum_fails() {
    let mut stream = CharStream::new("1");
    assert_eq!(digits(&mut stream), Err(leaf(DefaultCause::Unknown, 1..1)));
    let mut stream = CharStream::new("");
    assert_eq!(digits(&mut stream), Err(leaf(DefaultCause::Unknown, 0..0)));
}

#[test]
fn without_bounds_any_number_of_repetitions_is_accepted() {
    let mut parser = eat_if::<_, _, Error>(|c: &char| c.is_ascii_digit())
        .repeat_while(|c: &char| c.is_ascii_digit())
        .collect::<Vec<_>>();
    let mut stream = CharStream::new("abc");
    assert_eq!(parser.parse(&mut stream), Ok(vec![]));
    assert_eq!(stream.stream_position(), 0);
    let mut stream = CharStream::new("1234567890x");
    assert_eq!(parser.parse(&mut stream).map(|digits| digits.len()), Ok(10));
    assert_eq!(stream.stream_position(), 10);
}

#[test]
fn a_maximum_of_one_stops_after_one() {
    let mut stream = CharStream::new("12");
    let mut parser = eat_if::<_, _, Error>(|c: &char| c.is_ascii_digit())
        .repeat_while(|c: &char| c.is_ascii_digit())
        .max(1)
        .collect::<Vec<_>>();
    assert_eq!(parser.parse(&mut stream), Ok(vec!['1']));
    assert_eq!(stream.stream_position(), 1);
}

#[test]
fn by_default_nothing_is_kept() {
    let mut stream = CharStream::new("12a");
    let mut parser =
        eat_if::<_, _, Error>(|c: &char| c.is_ascii_digit()).repeat_while(|c: &char| c.is_ascii_digit());
    assert_eq!(parser.parse(&mut stream), Ok(NoCollection));
    assert_eq!(stream.stream_position(), 2);
}

#[test]
fn the_predicate_does_not_consume() {
    let mut stream = CharStream::new("bcbcbc]");
    let mut parser = eat::<_, Error>('b')
        .then_drop(eat('c'))
        .repeat_while(|c: &char| *c != ']')
        .collect::<Vec<_>>();
    assert_eq!(parser.parse(&mut stream), Ok(vec!['b', 'b', 'b']));
    assert_eq!(stream.peek_token(), Some(']'));
}

#[test]
fn the_error_of_the_repeated_parser_is_passed_on() {
    let mut stream = CharStream::new("bcbcb]");
    let mut parser = eat::<_, Error>('b')
        .then_drop(eat('c'))
        .repeat_while(|c: &char| *c != ']')
        .collect::<Vec<_>>();
    assert_eq!(parser.parse(&mut stream), Err(leaf(DefaultCause::ExpectedToken('c'), 5..6)));
    assert_eq!(stream.stream_position(), 5);
}

#[test]
fn an_iteration_that_consumes_nothing_ends_the_repetition_with_an_error() {
    let mut stream = CharStream::new("aaa");
    let mut parser = peek::<_, Error>('a').repeat_while(|c: &char| *c == 'a').collect::<Vec<_>>();
    assert_eq!(parser.parse(&mut stream), Err(leaf(DefaultCause::Unknown, 0..1)));
    assert_eq!(stream.stream_position(), 0);
}

#[test]
fn the_bounds_can_be_read_back() {
    let parser = eat::<CharStream, Error>('a').repeat_while(|_: &char| true);
    assert_eq!(parser.min, 0);
    assert_eq!(parser.max, None);
    let parser = parser.min(3).max(5);
    assert_eq!(parser.min, 3);
    assert_eq!(parser.max, Some(5));
    let parser = parser.collect::<Vec<_>>();
    assert_eq!(parser.min, 3);
    assert_eq!(parser.max, Some(5));
}

#[test]
fn the_guard_can_be_a_set() {
    let mut stream = CharStream::new("bcbc]");
    let mut parser = eat::<_, Error>('b')
        .then_drop(eat('c'))
        .repeat_while(TokenSet::<char>::not([']']))
        .collect::<Vec<_>>();
    assert_eq!(parser.parse(&mut stream), Ok(vec!['b', 'b']));
    assert_eq!(stream.peek_token(), Some(']'));
}

#[test]
fn characters_can_be_gathered_in_a_string() {
    let mut stream = CharStream::new("abc1");
    let mut parser = eat_if::<_, _, Error>(|c: &char| c.is_ascii_alphabetic())
        .map(|c: char| c.to_ascii_uppercase())
        .repeat_while(|c: &char| c.is_ascii_alphabetic())
        .collect::<String>();
    assert_eq!(parser.parse(&mut stream), Ok(String::from("ABC")));
    assert_eq!(stream.stream_position(), 3);
}
