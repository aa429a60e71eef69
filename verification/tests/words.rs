use std::ops::Range;

use parsley6::combinator::alt::alt_inner;
use parsley6::combinator::chain_inner;
use parsley6::error::{DefaultCause, DefaultError};
use parsley6::parser::Parser;
use parsley6::stream::{AsToken, SliceStream, Stream};
use parsley6::token::{eat, eat_if, eat_while, end, peek};

#[derive(Debug, Clone, Copy, PartialEq, Eq, Hash)]
enum Kind {
    Name,
    Equals,
    Number,
}

#[derive(Debug, Clone, PartialEq, Eq, Hash)]
struct Word {
    kind: Kind,
    at: Range<usize>,
}

impl AsToken for Word {
    type Token = Kind;
    type Span = Range<usize>;

    fn token(&self) -> Kind {
        self.kind
    }

    fn span(&self) -> Range<usize> {
        self.at.clone()
    }

    fn as_token(&self) -> Kind {
        self.kind
    }

    fn as_span(&self) -> Range<usize> {
        self.at.clone()
    }
}

type Error<'a> = DefaultError<SliceStream<'a, Word>>;

fn words() -> Vec<Word> {
    // x = 12
    vec![
        Word { kind: Kind::Name, at: 0..1 },
        Word { kind: Kind::Equals, at: 2..3 },
        Word { kind: Kind::Number, at: 4..6 },
    ]
}

#[test]
fn an_assignment_is_a_chain_of_words() {
    let words = words();
    let mut stream = SliceStream::new(&words, 6..6);
    let mut parser =
        chain_inner((eat::<_, Error>(Kind::Name), eat(Kind::Equals), eat(Kind::Number)))
            .then_drop(end());
    assert_eq!(parser.parse(&mut stream), Ok((Kind::Name, Kind::Equals, Kind::Number)));
    assert_eq!(stream.stream_position(), 3);
}

#[test]
fn errors_carry_the_spans_of_the_words() {
    let words = words();
    let mut stream = SliceStream::new(&words, 6..6);
    let mut parser = chain_inner((eat::<_, Error>(Kind::Name), eat(Kind::Number)));
    assert_eq!(
        parser.parse(&mut stream),
        Err(DefaultError::Error { cause: DefaultCause::ExpectedToken(Kind::Number), span: 2..3 })
    );
    assert_eq!(stream.stream_position(), 1);
}

#[test]
fn an_error_at_the_end_carries_the_end_span() {
    let words = words();
    let mut stream = SliceStream::new(&words[..1], 1..1);
    let mut parser = chain_inner((eat::<_, Error>(Kind::Name), eat(Kind::Equals)));
    assert_eq!(
        parser.parse(&mut stream),
        Err(DefaultError::Error { cause: DefaultCause::ExpectedToken(Kind::Equals), span: 1..1 })
    );
}

#[test]
fn slices_of_words_are_sliced_out() {
    let words = words();
    let mut stream = SliceStream::new(&words, 6..6);
    stream.next_token();
    let mut parser = eat_while::<_, _, Error>(|kind: &Kind| *kind != Kind::Name);
    assert_eq!(parser.parse(&mut stream), Ok(&words[1..3]));
    let mut stream = SliceStream::new(&words, 6..6);
    let mut parser = eat::<_, Error>(Kind::Name).then_drop(eat(Kind::Equals)).to_slice();
    assert_eq!(parser.parse(&mut stream), Ok(&words[0..2]));
}

#[test]
fn spans_of_words_are_merged() {
    let words = words();
    let mut stream = SliceStream::new(&words, 6..6);
    let mut parser = eat::<_, Error>(Kind::Name)
        .then_drop(eat(Kind::Equals))
        .then_drop(eat(Kind::Number))
        .with_span();
    assert_eq!(parser.parse(&mut stream), Ok((Kind::Name, 0..6)));
}

#[test]
fn alternatives_backtrack_on_words() {
    let words = words();
    let mut stream = SliceStream::new(&words, 6..6);
    let mut parser = alt_inner((
        chain_inner((eat::<_, Error>(Kind::Name), eat(Kind::Number))).map_to(1),
        chain_inner((eat::<_, Error>(Kind::Name), eat(Kind::Equals))).map_to(2),
    ));
    assert_eq!(parser.parse(&mut stream), Ok(2));
    assert_eq!(stream.stream_position(), 2);
    assert_eq!(peek::<_, Error>(Kind::Number).parse(&mut stream), Ok(Kind::Number));
    assert_eq!(
        eat_if::<_, _, Error>(|kind: &Kind| *kind == Kind::Name).parse(&mut stream),
        Err(DefaultError::Error { cause: DefaultCause::ExpectedMatchingFn, span: 4..6 })
    );
}
