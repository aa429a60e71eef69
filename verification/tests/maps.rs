use parsley6::combinator::{Collect, Named, NoCollection};
use parsley6::error::{DefaultCause, DefaultError, Error as _};
use parsley6::parser::Parser;
use parsley6::stream::{CharStream, Stream};
use parsley6::token::{eat, eat_if, eat_while, end};

type Error<'a> = DefaultError<CharStream<'a>>;

fn leaf<'a>(cause: DefaultCause<CharStream<'a>>, span: std::ops::Range<usize>) -> Error<'a> {
    DefaultError::Error { cause, span }
}

#[test]
fn map_applies_the_function_on_success() {
    let mut stream = CharStream::new("7");
    let mut parser = eat_if::<_, _, Error>(|c: &char| c.is_ascii_digit())
        .map(|c: char| c.to_digit(10).unwrap() * 2);
    assert_eq!(parser.parse(&mut stream), Ok(14));
}

#[test]
fn map_passes_the_error_on_unchanged() {
    let mut stream = CharStream::new("x");
    let mut calls = 0;
    let mut parser = eat::<_, Error>('a').map(|_| calls += 1);
    assert_eq!(parser.parse(&mut stream), Err(leaf(DefaultCause::ExpectedToken('a'), 0..1)));
    assert_eq!(calls, 0);
}

#[test]
fn map_to_replaces_the_output() {
    let mut stream = CharStream::new("ab");
    let mut parser = eat::<_, Error>('a').map_to(String::from("first"));
    assert_eq!(parser.parse(&mut stream), Ok(String::from("first")));
    assert_eq!(parser.parse(&mut stream), Err(leaf(DefaultCause::ExpectedToken('a'), 1..2)));
}

#[test]
fn drop_discards_the_output() {
    let mut stream = CharStream::new("a");
    assert_eq!(eat::<_, Error>('a').drop().parse(&mut stream), Ok(()));
    assert_eq!(stream.stream_position(), 1);
}

#[test]
fn map_err_applies_the_function_on_failure_only() {
    let mut stream = CharStream::new("ab");
    let mut parser = eat::<_, Error>('a').map_err(|error: Error| {
        DefaultError::Error { cause: DefaultCause::Unknown, span: error.span().clone() }
    });
    assert_eq!(parser.parse(&mut stream), Ok('a'));
    assert_eq!(parser.parse(&mut stream), Err(leaf(DefaultCause::Unknown, 1..2)));
}

#[test]
fn map_err_to_replaces_the_error() {
    let mut stream = CharStream::new("ab");
    let mut parser = eat::<_, Error>('a').map_err_to(leaf(DefaultCause::custom("no a"), 9..9));
    assert_eq!(parser.parse(&mut stream), Ok('a'));
    assert_eq!(parser.parse(&mut stream), Err(leaf(DefaultCause::Custom("no a".into()), 9..9)));
    assert_eq!(parser.parse(&mut stream), Err(leaf(DefaultCause::Custom("no a".into()), 9..9)));
}

#[test]
fn and_then_can_turn_a_success_into_a_failure() {
    let mut parser = eat_while::<_, _, Error>(|c: &char| c.is_ascii_digit()).and_then(
        |digits: &str| {
            digits.parse::<u8>().map_err(|_| leaf(DefaultCause::custom("too large"), 0..digits.len()))
        },
    );
    let mut stream = CharStream::new("255");
    assert_eq!(parser.parse(&mut stream), Ok(255));
    let mut stream = CharStream::new("256");
    assert_eq!(
        parser.parse(&mut stream),
        Err(leaf(DefaultCause::Custom("too large".into()), 0..3))
    );
    assert_eq!(stream.stream_position(), 3);
}

#[test]
fn and_then_passes_the_error_on_unchanged() {
    let mut stream = CharStream::new("x");
    let mut parser = eat::<_, Error>('a').and_then(|c: char| Ok::<char, Error>(c));
    assert_eq!(parser.parse(&mut stream), Err(leaf(DefaultCause::ExpectedToken('a'), 0..1)));
}

#[test]
fn or_else_can_turn_a_failure_into_a_success() {
    let mut stream = CharStream::new("xa");
    let mut parser = eat::<_, Error>('a').or_else(|error: Error| {
        if error.span().start == 0 {
            Ok('?')
        } else {
            Err(error)
        }
    });
    assert_eq!(parser.parse(&mut stream), Ok('?'));
    assert_eq!(stream.stream_position(), 0);
    stream.next_token();
    assert_eq!(parser.parse(&mut stream), Ok('a'));
    assert_eq!(parser.parse(&mut stream), Err(leaf(DefaultCause::ExpectedToken('a'), 2..2)));
}

#[test]
fn map_into_converts_the_output() {
    let mut stream = CharStream::new("a");
    let mut parser = eat::<_, Error>('a').map_into::<String>();
    assert_eq!(parser.parse(&mut stream), Ok(String::from("a")));
    let mut stream = CharStream::new("a");
    let mut parser = eat::<_, Error>('a').map_into::<u32>();
    assert_eq!(parser.parse(&mut stream), Ok(97));
}

#[test]
fn to_slice_yields_what_was_consumed() {
    let mut stream = CharStream::new("x=12;");
    stream.next_token();
    stream.next_token();
    let mut parser = eat_while::<_, _, Error>(|c: &char| c.is_ascii_digit())
        .map(|_| ())
        .then_drop(eat(';'))
        .to_slice();
    assert_eq!(parser.parse(&mut stream), Ok("12;"));
    assert_eq!(stream.stream_position(), 5);
}

#[test]
fn to_slice_is_the_text_between_the_positions_of_a_run_on_a_clone() {
    for text in ["", "1", "12ab", "\u{e9}\u{e9}x", "abc"] {
        let stream = CharStream::new(text);
        let mut alone = stream.clone();
        let letters = |c: &char| !c.is_ascii_digit() && *c != 'x';
        let before = alone.stream_position();
        let ran = eat_while::<_, _, Error>(letters).parse(&mut alone);
        let after = alone.stream_position();
        assert!(ran.is_ok());
        let mut sliced = stream.clone();
        assert_eq!(
            eat_while::<_, _, Error>(letters).to_slice().parse(&mut sliced),
            Ok(&text[before..after])
        );
        assert_eq!(sliced, alone);
    }
}

#[test]
fn to_slice_of_nothing_is_empty() {
    let mut stream = CharStream::new("ab");
    stream.next_token();
    assert_eq!(end::<_, Error>().map_err(|e| e).or_else(|_| Ok(())).to_slice().parse(&mut stream), Ok(""));
}

#[test]
fn to_slice_passes_the_error_on() {
    let mut stream = CharStream::new("ab");
    assert_eq!(
        eat::<_, Error>('b').to_slice().parse(&mut stream),
        Err(leaf(DefaultCause::ExpectedToken('b'), 0..1))
    );
}

#[test]
fn with_slice_pairs_the_output_with_the_slice() {
    let mut stream = CharStream::new("\u{e9}12");
    let mut parser = eat::<_, Error>('\u{e9}').with_slice();
    assert_eq!(parser.parse(&mut stream), Ok(('\u{e9}', "\u{e9}")));
    let mut parser = eat_while::<_, _, Error>(|c: &char| c.is_ascii_digit())
        .map(|digits: &str| digits.len())
        .with_slice();
    assert_eq!(parser.parse(&mut stream), Ok((2, "12")));
    assert_eq!(
        eat::<_, Error>('x').with_slice().parse(&mut stream),
        Err(leaf(DefaultCause::ExpectedToken('x'), 4..4))
    );
}

#[test]
fn with_span_pairs_the_output_with_the_span() {
    let mut stream = CharStream::new("a\u{e9}12 ");
    stream.next_token();
    let mut parser = eat::<_, Error>('\u{e9}')
        .drop_then(eat_while(|c: &char| c.is_ascii_digit()))
        .with_span();
    assert_eq!(parser.parse(&mut stream), Ok(("12", 1..5)));
}

#[test]
fn with_span_of_nothing_is_the_span_of_the_next_token() {
    let mut stream = CharStream::new("ab");
    stream.next_token();
    let mut parser = eat_while::<_, _, Error>(|c: &char| c.is_ascii_digit()).with_span();
    assert_eq!(parser.parse(&mut stream), Ok(("", 1..2)));
    assert_eq!(
        eat::<_, Error>('x').with_span().parse(&mut stream),
        Err(leaf(DefaultCause::ExpectedToken('x'), 1..2))
    );
}

#[test]
fn by_ref_runs_the_borrowed_parser() {
    let mut stream = CharStream::new("aab");
    let mut parser = eat::<_, Error>('a');
    assert_eq!(parser.by_ref().parse(&mut stream), Ok('a'));
    assert_eq!(parser.by_ref().map(|c| c.to_ascii_uppercase()).parse(&mut stream), Ok('A'));
    assert_eq!(parser.parse(&mut stream), Err(leaf(DefaultCause::ExpectedToken('a'), 2..3)));
}

#[test]
fn opaque_runs_the_parser_it_hides() {
    let mut stream = CharStream::new("ab");
    let mut parser = eat::<_, Error>('a').opaque();
    assert_eq!(parser.parse(&mut stream), Ok('a'));
    assert_eq!(parser.parse(&mut stream), Err(leaf(DefaultCause::ExpectedToken('a'), 1..2)));
}

#[test]
fn with_err_cause_replaces_the_cause_on_failure() {
    let mut stream = CharStream::new("ab");
    let mut made = 0;
    let mut parser = eat::<_, Error>('a').with_err_cause(|| {
        made += 1;
        DefaultCause::custom("expected an a")
    });
    assert_eq!(parser.parse(&mut stream), Ok('a'));
    assert_eq!(
        parser.parse(&mut stream),
        Err(leaf(DefaultCause::Custom("expected an a".into()), 1..2))
    );
    drop(parser);
    assert_eq!(made, 1);
}

#[test]
fn with_err_cause_keeps_the_context() {
    let mut stream = CharStream::new("ab");
    let mut parser = eat::<_, Error>('b')
        .with_err_context(|| "in a word")
        .with_err_cause(|| DefaultCause::custom("expected a b"));
    assert_eq!(
        parser.parse(&mut stream),
        Err(DefaultError::WithContext {
            context: "in a word".into(),
            span: 0..1,
            inner: Box::new(leaf(DefaultCause::Custom("expected a b".into()), 0..1)),
        })
    );
}

#[test]
fn with_err_context_spans_the_whole_production() {
    let mut stream = CharStream::new("xab!");
    stream.next_token();
    let mut made = 0;
    let mut parser = eat::<_, Error>('a')
        .then_drop(eat('b'))
        .then_drop(eat('c'))
        .with_err_context(|| {
            made += 1;
            "while parsing abc"
        });
    assert_eq!(
        parser.parse(&mut stream),
        Err(DefaultError::WithContext {
            context: "while parsing abc".into(),
            span: 1..3,
            inner: Box::new(leaf(DefaultCause::ExpectedToken('c'), 3..4)),
        })
    );
    drop(parser);
    assert_eq!(made, 1);
}

#[test]
fn with_err_context_adds_nothing_on_success() {
    let mut stream = CharStream::new("a");
    let mut made = 0;
    let mut parser = eat::<_, Error>('a').with_err_context(|| {
        made += 1;
        "in a word"
    });
    assert_eq!(parser.parse(&mut stream), Ok('a'));
    drop(parser);
    assert_eq!(made, 0);
}

#[test]
fn context_accumulates_outwards() {
    let mut stream = CharStream::new("ab");
    let mut parser = eat::<_, Error>('a')
        .drop_then(eat('x').with_err_context(|| "inner"))
        .with_err_context(|| "outer");
    assert_eq!(
        parser.parse(&mut stream),
        Err(DefaultError::WithContext {
            context: "outer".into(),
            span: 0..1,
            inner: Box::new(DefaultError::WithContext {
                context: "inner".into(),
                span: 1..2,
                inner: Box::new(leaf(DefaultCause::ExpectedToken('x'), 1..2)),
            }),
        })
    );
}

#[derive(Debug, Clone, PartialEq)]
struct Production(&'static str);

impl<'a> From<Production> for DefaultCause<CharStream<'a>> {
    fn from(production: Production) -> Self {
        DefaultCause::custom(production.0)
    }
}

#[test]
fn named_replaces_the_error_by_one_at_the_start() {
    let mut stream = CharStream::new("xab!");
    stream.next_token();
    let mut parser = Named {
        parser: eat::<_, Error>('a').then_drop(eat('b')).then_drop(eat('c')),
        name: Production("abc"),
        _phantom: std::marker::PhantomData,
    };
    assert_eq!(parser.parse(&mut stream), Err(leaf(DefaultCause::Custom("abc".into()), 1..2)));
    assert_eq!(stream.stream_position(), 3);
    let mut stream = CharStream::new("abc");
    assert_eq!(parser.parse(&mut stream), Ok('a'));
}

#[test]
fn collections_gather_in_order() {
    let mut items = <Vec<u8> as Collect<u8>>::empty();
    assert!(items.is_empty());
    items.put(3);
    items.put(1);
    assert_eq!(items, vec![3, 1]);
    let mut nothing = <NoCollection as Collect<u8>>::empty();
    nothing.put(3);
    assert_eq!(nothing, NoCollection);
}

#[test]
fn new_error_is_what_the_matchers_give() {
    let mut stream = CharStream::new("x");
    assert_eq!(
        eat::<_, Error>('a').parse(&mut stream),
        Err(Error::new(DefaultCause::ExpectedToken('a'), 0..1))
    );
}
