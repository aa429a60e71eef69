use parsley6::error::{DefaultCause, DefaultError};
use parsley6::parser::Parser;
use parsley6::stream::{CharStream, Stream};
use parsley6::token::{
    eat, eat_if, eat_slice, eat_while, end, peek, peek_if, peek_slice, seek, SeekResult,
};

type Error<'a> = DefaultError<CharStream<'a>>;

fn leaf<'a>(cause: DefaultCause<CharStream<'a>>, span: std::ops::Range<usize>) -> Error<'a> {
    DefaultError::Error { cause, span }
}

#[test]
fn eat_consumes_the_wanted_token() {
    let mut stream = CharStream::new("ab");
    assert_eq!(eat::<_, Error>('a').parse(&mut stream), Ok('a'));
    assert_eq!(stream.stream_position(), 1);
}

#[test]
fn eat_fails_on_another_token_and_consumes_nothing() {
    let mut stream = CharStream::new("\u{e9}b");
    assert_eq!(
        eat::<_, Error>('a').parse(&mut stream),
        Err(leaf(DefaultCause::ExpectedToken('a'), 0..2))
    );
    assert_eq!(stream.stream_position(), 0);
}

#[test]
fn eat_fails_at_the_end() {
    let mut stream = CharStream::new("");
    assert_eq!(
        eat::<_, Error>('a').parse(&mut stream),
        Err(leaf(DefaultCause::ExpectedToken('a'), 0..0))
    );
}

#[test]
fn peek_matches_without_consuming() {
    let mut stream = CharStream::new("ab");
    assert_eq!(peek::<_, Error>('a').parse(&mut stream), Ok('a'));
    assert_eq!(stream.stream_position(), 0);
    assert_eq!(
        peek::<_, Error>('b').parse(&mut stream),
        Err(leaf(DefaultCause::ExpectedToken('b'), 0..1))
    );
    assert_eq!(stream.stream_position(), 0);
}

#[test]
fn peek_fails_at_the_end() {
    let mut stream = CharStream::new("");
    assert_eq!(
        peek::<_, Error>('a').parse(&mut stream),
        Err(leaf(DefaultCause::ExpectedToken('a'), 0..0))
    );
}

#[test]
fn eat_if_consumes_a_token_that_the_predicate_holds_of() {
    let mut stream = CharStream::new("7x");
    let mut digit = eat_if::<_, _, Error>(|c: &char| c.is_ascii_digit());
    assert_eq!(digit.parse(&mut stream), Ok('7'));
    assert_eq!(stream.stream_position(), 1);
    assert_eq!(digit.parse(&mut stream), Err(leaf(DefaultCause::ExpectedMatchingFn, 1..2)));
    assert_eq!(stream.stream_position(), 1);
    stream.next_token();
    assert_eq!(digit.parse(&mut stream), Err(leaf(DefaultCause::ExpectedMatchingFn, 2..2)));
}

#[test]
fn peek_if_never_consumes() {
    let mut stream = CharStream::new("7x");
    let mut digit = peek_if::<_, _, Error>(|c: &char| c.is_ascii_digit());
    assert_eq!(digit.parse(&mut stream), Ok('7'));
    assert_eq!(stream.stream_position(), 0);
    stream.next_token();
    assert_eq!(digit.parse(&mut stream), Err(leaf(DefaultCause::ExpectedMatchingFn, 1..2)));
    assert_eq!(stream.stream_position(), 1);
    stream.next_token();
    assert_eq!(digit.parse(&mut stream), Err(leaf(DefaultCause::ExpectedMatchingFn, 2..2)));
}

#[test]
fn eat_slice_consumes_the_literal() {
    let mut stream = CharStream::new("true!");
    assert_eq!(eat_slice::<_, Error>("true").parse(&mut stream), Ok("true"));
    assert_eq!(stream.stream_position(), 4);
}

#[test]
fn eat_slice_fails_as_a_whole() {
    let mut stream = CharStream::new("trap");
    assert_eq!(
        eat_slice::<_, Error>("true").parse(&mut stream),
        Err(leaf(DefaultCause::ExpectedSlice("true"), 0..1))
    );
    assert_eq!(stream.stream_position(), 0);
}

#[test]
fn peek_slice_never_consumes() {
    let mut stream = CharStream::new("true!");
    assert_eq!(peek_slice::<_, Error>("true").parse(&mut stream), Ok("true"));
    assert_eq!(stream.stream_position(), 0);
    assert_eq!(
        peek_slice::<_, Error>("false").parse(&mut stream),
        Err(leaf(DefaultCause::ExpectedSlice("false"), 0..1))
    );
    assert_eq!(stream.stream_position(), 0);
}

#[test]
fn end_succeeds_on_an_exhausted_stream_only() {
    let mut stream = CharStream::new("a");
    assert_eq!(end::<_, Error>().parse(&mut stream), Err(leaf(DefaultCause::ExpectedEnd, 0..1)));
    assert_eq!(stream.stream_position(), 0);
    stream.next_token();
    assert_eq!(end::<_, Error>().parse(&mut stream), Ok(()));
    assert_eq!(stream.stream_position(), 1);
}

#[test]
fn eat_while_is_greedy() {
    let mut stream = CharStream::new("123ab");
    let mut digits = eat_while::<_, _, Error>(|c: &char| c.is_ascii_digit());
    assert_eq!(digits.parse(&mut stream), Ok("123"));
    assert_eq!(stream.stream_position(), 3);
}

#[test]
fn eat_while_never_fails() {
    let mut stream = CharStream::new("ab");
    let mut digits = eat_while::<_, _, Error>(|c: &char| c.is_ascii_digit());
    assert_eq!(digits.parse(&mut stream), Ok(""));
    assert_eq!(stream.stream_position(), 0);
    let mut stream = CharStream::new("");
    assert_eq!(digits.parse(&mut stream), Ok(""));
}

#[test]
fn eat_while_can_reach_the_end() {
    let mut stream = CharStream::new("x12\u{e9}");
    stream.next_token();
    let mut rest = eat_while::<_, _, Error>(|_: &char| true);
    assert_eq!(rest.parse(&mut stream), Ok("12\u{e9}"));
    assert_eq!(stream.stream_position(), 5);
    assert!(stream.at_end());
}

#[test]
fn match_if_makes_a_match_or_nothing() {
    assert_eq!(SeekResult::match_if(true, true), Some(SeekResult::Match { consume: true }));
    assert_eq!(SeekResult::match_if(true, false), Some(SeekResult::Match { consume: false }));
    assert_eq!(SeekResult::match_if(false, true), None);
    assert_eq!(SeekResult::match_if(false, false), None);
}

#[test]
fn seek_skips_to_a_match_and_consumes_it() {
    let mut stream = CharStream::new("hello;world");
    let mut semicolon = seek::<_, _, Error>(|c: &char| SeekResult::match_if(*c == ';', true), false);
    assert_eq!(semicolon.parse(&mut stream), Ok(';'));
    assert_eq!(stream.stream_position(), 6);
}

#[test]
fn seek_can_leave_the_match_unconsumed() {
    let mut stream = CharStream::new("hello;world");
    let mut semicolon =
        seek::<_, _, Error>(|c: &char| SeekResult::match_if(*c == ';', false), false);
    assert_eq!(semicolon.parse(&mut stream), Ok(';'));
    assert_eq!(stream.stream_position(), 5);
    assert_eq!(semicolon.parse(&mut stream), Ok(';'));
    assert_eq!(stream.stream_position(), 5);
}

#[test]
fn seek_fails_at_the_end_when_nothing_matches() {
    let mut stream = CharStream::new("no semicolon");
    let mut semicolon = seek::<_, _, Error>(|c: &char| SeekResult::match_if(*c == ';', true), false);
    assert_eq!(semicolon.parse(&mut stream), Err(leaf(DefaultCause::ExpectedMatchingFn, 12..12)));
    assert_eq!(stream.stream_position(), 12);
}

#[test]
fn seek_that_must_progress_fails_on_an_unconsumed_match_at_once() {
    let mut stream = CharStream::new(";a");
    let mut semicolon =
        seek::<_, _, Error>(|c: &char| SeekResult::match_if(*c == ';', false), true);
    assert_eq!(semicolon.parse(&mut stream), Err(leaf(DefaultCause::ExpectedMatchingFn, 0..1)));
    assert_eq!(stream.stream_position(), 0);
}

#[test]
fn seek_that_must_progress_accepts_a_match_after_a_skip() {
    let mut stream = CharStream::new("a;");
    let mut semicolon =
        seek::<_, _, Error>(|c: &char| SeekResult::match_if(*c == ';', false), true);
    assert_eq!(semicolon.parse(&mut stream), Ok(';'));
    assert_eq!(stream.stream_position(), 1);
}

#[test]
fn seek_that_must_progress_accepts_a_consumed_match_at_once() {
    let mut stream = CharStream::new(";a");
    let mut semicolon = seek::<_, _, Error>(|c: &char| SeekResult::match_if(*c == ';', true), true);
    assert_eq!(semicolon.parse(&mut stream), Ok(';'));
    assert_eq!(stream.stream_position(), 1);
}

#[test]
fn seek_stops_with_an_error_where_the_callback_says_no_match() {
    let mut stream = CharStream::new("ab;c");
    let mut parser = seek::<_, _, Error>(
        |c: &char| match *c {
            ';' => Some(SeekResult::Match { consume: true }),
            'b' => Some(SeekResult::NoMatch),
            _ => None,
        },
        false,
    );
    assert_eq!(parser.parse(&mut stream), Err(leaf(DefaultCause::ExpectedMatchingFn, 1..2)));
    assert_eq!(stream.stream_position(), 1);
}

#[test]
fn matchers_take_sets_of_any_kind() {
    let mut stream = CharStream::new("_a1 ");
    assert_eq!(eat_if::<_, _, Error>(['_', '$']).parse(&mut stream), Ok('_'));
    assert_eq!(peek_if::<_, _, Error>('a'..='z').parse(&mut stream), Ok('a'));
    assert_eq!(eat_while::<_, _, Error>(('a'..='z', '0'..='9')).parse(&mut stream), Ok("a1"));
    assert_eq!(
        eat_if::<_, _, Error>(('a'..='z', '0'..='9')).parse(&mut stream),
        Err(leaf(DefaultCause::ExpectedMatchingFn, 3..4))
    );
    assert_eq!(eat_if::<_, _, Error>(..).parse(&mut stream), Ok(' '));
    assert_eq!(
        eat_if::<_, _, Error>(..).parse(&mut stream),
        Err(leaf(DefaultCause::ExpectedMatchingFn, 4..4))
    );
}
