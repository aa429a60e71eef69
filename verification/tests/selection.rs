use parsley6::combinator::select::select_inner;
use parsley6::error::{Cause, DefaultError, Error as _};
use parsley6::parser::Parser;
use parsley6::stream::{CharStream, Stream};
use parsley6::token::{eat_slice, eat_while};

#[derive(Debug, Clone, PartialEq)]
enum ParseCause {
    Expected(String),
    ExpectedChar(char),
    ExpectedSlice(&'static str),
    ExpectedMatch,
    ExpectedEnd,
    Unknown,
    IntError(std::num::ParseIntError),
}

impl Cause for ParseCause {
    type Token = char;
    type Slice = str;

    fn spec_expected_token(token: char) -> Self {
        ParseCause::ExpectedChar(token)
    }

    fn spec_expected_slice(slice: &'static str) -> Self {
        ParseCause::ExpectedSlice(slice)
    }

    fn spec_expected_matching_fn() -> Self {
        ParseCause::ExpectedMatch
    }

    fn spec_expected_end() -> Self {
        ParseCause::ExpectedEnd
    }

    fn spec_unknown() -> Self {
        ParseCause::Unknown
    }

    fn expected_token(token: char) -> Self {
        ParseCause::ExpectedChar(token)
    }

    fn expected_slice(slice: &'static str) -> Self {
        ParseCause::ExpectedSlice(slice)
    }

    fn expected_matching_fn() -> Self {
        ParseCause::ExpectedMatch
    }

    fn expected_end() -> Self {
        ParseCause::ExpectedEnd
    }

    fn unknown() -> Self {
        ParseCause::Unknown
    }
}

impl From<&str> for ParseCause {
    fn from(s: &str) -> Self {
        ParseCause::Expected(s.to_owned())
    }
}

impl From<std::num::ParseIntError> for ParseCause {
    fn from(error: std::num::ParseIntError) -> Self {
        ParseCause::IntError(error)
    }
}

type ParseError<'a> = DefaultError<CharStream<'a>, ParseCause>;

#[derive(Debug, Clone, PartialEq)]
enum Value {
    Number(i32),
    Bool(bool),
    Null,
}

fn parse_number<'a>(stream: &mut CharStream<'a>) -> Result<i32, ParseError<'a>> {
    eat_while(|c: &char| c.is_ascii_digit())
        .with_span()
        .and_then(|(digits, span): (&str, _)| {
            digits.parse::<i32>().map_err(|error| DefaultError::new(error.into(), span))
        })
        .parse(stream)
}

/// The parser of numbers as a parser value.
struct Number;

impl<'a> Parser<CharStream<'a>, ParseError<'a>> for Number {
    type Output = i32;

    fn inv(&self) -> bool {
        true
    }

    fn parses(
        &self,
        input: CharStream<'a>,
        output: CharStream<'a>,
        _after: &Self,
        result: Result<i32, ParseError<'a>>,
    ) -> bool {
        let mut stream = input;
        parse_number(&mut stream) == result && stream == output
    }

    fn parse(&mut self, stream: &mut CharStream<'a>) -> Result<i32, ParseError<'a>> {
        parse_number(stream)
    }
}

fn parse_value<'a>(stream: &mut CharStream<'a>) -> Result<Value, ParseError<'a>> {
    select_inner((
        (
            |c: &char| *c == 't',
            eat_slice("true").map_to(Value::Bool(true)).with_err_cause(|| "expected a value".into()),
        ),
        (
            |c: &char| *c == 'f',
            eat_slice("false")
                .map_to(Value::Bool(false))
                .with_err_cause(|| "expected a value".into()),
        ),
        (
            |c: &char| *c == 'n',
            eat_slice("null").map_to(Value::Null).with_err_cause(|| "expected a value".into()),
        ),
        (
            |c: &char| c.is_ascii_digit(),
            Number.map(Value::Number).with_err_context(|| "while parsing a number"),
        ),
    ))
    .parse(stream)
}

#[test]
fn literals_are_dispatched_on_their_first_letter() {
    let mut stream = CharStream::new("true");
    assert_eq!(parse_value(&mut stream), Ok(Value::Bool(true)));
    assert_eq!(stream.stream_position(), 4);
    let mut stream = CharStream::new("false");
    assert_eq!(parse_value(&mut stream), Ok(Value::Bool(false)));
    let mut stream = CharStream::new("null");
    assert_eq!(parse_value(&mut stream), Ok(Value::Null));
}

#[test]
fn a_digit_dispatches_to_the_number() {
    let mut stream = CharStream::new("12");
    assert_eq!(parse_value(&mut stream), Ok(Value::Number(12)));
    assert_eq!(stream.stream_position(), 2);
}

#[test]
fn an_overflowing_number_reports_its_cause_and_context() {
    let text = "1000000000000000000000000000000";
    let overflow = text.parse::<i32>().unwrap_err();
    let mut stream = CharStream::new(text);
    assert_eq!(
        parse_value(&mut stream),
        Err(DefaultError::WithContext {
            context: "while parsing a number".into(),
            span: 0..31,
            inner: Box::new(DefaultError::Error {
                cause: ParseCause::IntError(overflow),
                span: 0..31,
            }),
        })
    );
}

#[test]
fn no_arm_for_the_token_is_a_failure_that_consumes_nothing() {
    let mut stream = CharStream::new("x?oo");
    stream.next_token();
    assert_eq!(
        parse_value(&mut stream),
        Err(DefaultError::Error { cause: ParseCause::Unknown, span: 1..2 })
    );
    assert_eq!(stream.stream_position(), 1);
}

#[test]
fn no_token_is_a_failure() {
    let mut stream = CharStream::new("");
    assert_eq!(
        parse_value(&mut stream),
        Err(DefaultError::Error { cause: ParseCause::Unknown, span: 0..0 })
    );
}

#[test]
fn the_selected_arm_is_committed_to() {
    let mut stream = CharStream::new("trap");
    assert_eq!(
        parse_value(&mut stream),
        Err(DefaultError::Error {
            cause: ParseCause::Expected("expected a value".to_owned()),
            span: 0..1,
        })
    );
}

#[test]
fn the_first_arm_that_holds_the_token_is_taken() {
    let mut parser = select_inner((
        (|c: &char| c.is_ascii_alphabetic(), eat_slice::<_, ParseError>("ab").map_to(1)),
        (|c: &char| *c == 'a', eat_slice::<_, ParseError>("a").map_to(2)),
    ));
    let mut stream = CharStream::new("ab");
    assert_eq!(parser.parse(&mut stream), Ok(1));
    let mut stream = CharStream::new("ac");
    assert_eq!(
        parser.parse(&mut stream),
        Err(DefaultError::Error { cause: ParseCause::ExpectedSlice("ab"), span: 0..1 })
    );
}

#[test]
fn arms_can_be_sets_of_any_kind() {
    let mut parser = select_inner((
        (['x', 'y'], eat_slice::<_, ParseError>("x").map_to(1)),
        ('0'..='9', eat_slice::<_, ParseError>("1").map_to(2)),
        (.., eat_slice::<_, ParseError>("z").map_to(3)),
    ));
    let mut stream = CharStream::new("x");
    assert_eq!(parser.parse(&mut stream), Ok(1));
    let mut stream = CharStream::new("1");
    assert_eq!(parser.parse(&mut stream), Ok(2));
    let mut stream = CharStream::new("z");
    assert_eq!(parser.parse(&mut stream), Ok(3));
    let mut stream = CharStream::new("y");
    assert_eq!(
        parser.parse(&mut stream),
        Err(DefaultError::Error { cause: ParseCause::ExpectedSlice("x"), span: 0..1 })
    );
}
