use parsley6::combinator::alt_inner;
use parsley6::error::{DefaultCause, DefaultError, Report};
use parsley6::parser::Parser;
use parsley6::stream::{CharStream, Stream, StreamWithState};
use parsley6::token::{eat, eat_if, end, seek, SeekResult};

/// A list of the errors that were recovered from.
#[derive(Debug, Clone, PartialEq, Eq, Hash)]
struct Sink<'a>(Vec<Error<'a>>);

type Input<'a> = StreamWithState<CharStream<'a>, Sink<'a>>;
type Error<'a> = DefaultError<Input<'a>>;

impl<'a> Report<Error<'a>> for Sink<'a> {
    fn reported(self, error: Error<'a>) -> Self {
        let mut errors = self.0;
        errors.push(error);
        Sink(errors)
    }

    fn report(&mut self, error: Error<'a>) {
        self.0.push(error);
    }
}

fn input(text: &str) -> Input<'_> {
    StreamWithState::new(CharStream::new(text), Sink(Vec::new()))
}

fn statement<'a>(stream: &mut Input<'a>) -> Result<char, Error<'a>> {
    eat_if(|c: &char| c.is_ascii_digit())
        .then_drop(eat(';'))
        .or_recover(seek(|c: &char| SeekResult::match_if(*c == ';', true), false).map_to('?'))
        .parse(stream)
}

#[test]
fn a_success_reports_nothing() {
    let mut stream = input("1;2;");
    assert_eq!(statement(&mut stream), Ok('1'));
    assert_eq!(stream.stream_position(), 2);
    assert_eq!(stream.state, Sink(vec![]));
}

#[test]
fn a_failure_is_reported_and_recovered_from() {
    let mut stream = input("ab;2;");
    assert_eq!(statement(&mut stream), Ok('?'));
    assert_eq!(stream.stream_position(), 3);
    assert_eq!(
        stream.state,
        Sink(vec![DefaultError::Error { cause: DefaultCause::ExpectedMatchingFn, span: 0..1 }])
    );
}

#[test]
fn recovery_starts_where_the_failed_parser_stopped() {
    let mut stream = input("1x;2;");
    assert_eq!(statement(&mut stream), Ok('?'));
    assert_eq!(stream.stream_position(), 3);
    assert_eq!(
        stream.state,
        Sink(vec![DefaultError::Error { cause: DefaultCause::ExpectedToken(';'), span: 1..2 }])
    );
}

#[test]
fn several_errors_are_collected_in_one_pass() {
    let mut stream = input("1;x;2;y;");
    let mut values = Vec::new();
    while !stream.at_end() {
        values.push(statement(&mut stream).unwrap());
    }
    assert_eq!(values, vec!['1', '?', '2', '?']);
    assert_eq!(
        stream.state,
        Sink(vec![
            DefaultError::Error { cause: DefaultCause::ExpectedMatchingFn, span: 2..3 },
            DefaultError::Error { cause: DefaultCause::ExpectedMatchingFn, span: 6..7 },
        ])
    );
}

#[test]
fn a_failed_recovery_is_the_result() {
    let mut stream = input("ab");
    assert_eq!(
        statement(&mut stream),
        Err(DefaultError::Error { cause: DefaultCause::ExpectedMatchingFn, span: 2..2 })
    );
    assert_eq!(
        stream.state,
        Sink(vec![DefaultError::Error { cause: DefaultCause::ExpectedMatchingFn, span: 0..1 }])
    );
}

#[test]
fn callbacks_see_the_state() {
    let mut stream = StreamWithState::new(CharStream::new("ab"), 0usize);
    type Counted<'a> = DefaultError<StreamWithState<CharStream<'a>, usize>>;
    let mut parser = eat::<_, Counted>('a').map_with_state(|c: char, seen: &mut usize| {
        *seen += 1;
        c.to_ascii_uppercase()
    });
    assert_eq!(parser.parse(&mut stream), Ok('A'));
    assert_eq!(stream.state, 1);
    assert_eq!(
        parser.parse(&mut stream),
        Err(DefaultError::Error { cause: DefaultCause::ExpectedToken('a'), span: 1..2 })
    );
    assert_eq!(stream.state, 1);
}

#[test]
fn error_callbacks_see_the_state() {
    let mut stream = StreamWithState::new(CharStream::new("ab"), 0usize);
    type Counted<'a> = DefaultError<StreamWithState<CharStream<'a>, usize>>;
    let mut parser = eat::<_, Counted>('a').map_err_with_state(|error: Counted, failed: &mut usize| {
        *failed += 1;
        error
    });
    assert_eq!(parser.parse(&mut stream), Ok('a'));
    assert_eq!(stream.state, 0);
    assert_eq!(
        parser.parse(&mut stream),
        Err(DefaultError::Error { cause: DefaultCause::ExpectedToken('a'), span: 1..2 })
    );
    assert_eq!(stream.state, 1);
}

#[test]
fn and_then_with_state_can_fail_by_the_state() {
    let mut stream = StreamWithState::new(CharStream::new("aaa"), 0usize);
    type Counted<'a> = DefaultError<StreamWithState<CharStream<'a>, usize>>;
    let mut parser = eat::<_, Counted>('a').and_then_with_state(|c: char, seen: &mut usize| {
        *seen += 1;
        if *seen < 3 {
            Ok(c)
        } else {
            Err(DefaultError::Error { cause: DefaultCause::custom("too many"), span: 0..*seen })
        }
    });
    assert_eq!(parser.parse(&mut stream), Ok('a'));
    assert_eq!(parser.parse(&mut stream), Ok('a'));
    assert_eq!(
        parser.parse(&mut stream),
        Err(DefaultError::Error { cause: DefaultCause::Custom("too many".into()), span: 0..3 })
    );
    assert_eq!(stream.stream_position(), 3);
    assert_eq!(
        end::<_, Counted>().and_then_with_state(|_, seen: &mut usize| Ok(*seen)).parse(&mut stream),
        Ok(3)
    );
}

#[test]
fn or_else_with_state_can_succeed_by_the_state() {
    let mut stream = StreamWithState::new(CharStream::new("ab"), 7usize);
    type Counted<'a> = DefaultError<StreamWithState<CharStream<'a>, usize>>;
    let mut parser = eat::<_, Counted>('a')
        .map_to(0usize)
        .or_else_with_state(|_: Counted, fallback: &mut usize| Ok(*fallback));
    assert_eq!(parser.parse(&mut stream), Ok(0));
    assert_eq!(parser.parse(&mut stream), Ok(7));
    assert_eq!(stream.stream_position(), 1);
}

#[test]
fn a_failed_alternative_leaves_the_state_as_it_was() {
    let mut stream = input("x;1;");
    // The first alternative recovers from an error, which it reports, and
    // then fails; the second one starts on the stream as it was before that.
    let mut parser = alt_inner((
        eat_if(|c: &char| c.is_ascii_digit())
            .or_recover(seek(|c: &char| SeekResult::match_if(*c == ';', true), false))
            .then_drop(end()),
        eat::<_, Error>('x').then_drop(eat(';')),
    ));
    assert_eq!(parser.parse(&mut stream), Ok('x'));
    assert_eq!(stream.stream_position(), 2);
    assert_eq!(stream.state, Sink(vec![]));
}
