use parsley6::combinator::chain_inner;
use parsley6::error::DefaultError;
use parsley6::parser::Parser;
use parsley6::stream::{CharStream, StreamWithState};
use parsley6::token::{eat, eat_if, end, seek, SeekResult};
use parsley6::token_set::Not;

type Error<'a> = DefaultError<CharStream<'a>>;

fn is_digit(c: &char) -> bool {
    c.is_ascii_digit()
}

#[test]
fn parsers_can_be_cloned_and_run_apart() {
    let parser = chain_inner((eat::<_, Error>('a'), eat_if(is_digit))).then_drop(end());
    let mut first = parser.clone();
    let mut second = parser.clone();
    let mut stream = CharStream::new("a1");
    assert_eq!(first.parse(&mut stream), Ok(('a', '1')));
    let mut stream = CharStream::new("a2");
    assert_eq!(second.parse(&mut stream), Ok(('a', '2')));
}

#[test]
fn a_cloned_parser_equals_the_one_it_came_from() {
    let parser = eat::<CharStream, Error>('a').map_to(3u8).repeat_while(is_digit as fn(&char) -> bool);
    assert_eq!(parser.clone(), parser);
    let other = eat::<CharStream, Error>('b').map_to(3u8).repeat_while(is_digit as fn(&char) -> bool);
    assert_ne!(parser, other);
    assert_ne!(parser.clone().min(1), parser);
}

#[test]
fn parsers_show_what_they_are_made_of() {
    let shown = format!("{:?}", eat::<CharStream, Error>('a').map_to(3u8));
    assert!(shown.starts_with("MapTo { parser: Eat { token: 'a'"));
    assert!(shown.contains("value: 3"));
    let shown = format!("{:?}", seek::<_, CharStream, Error>(
        (|_| Some(SeekResult::NoMatch)) as fn(&char) -> Option<SeekResult>,
        true,
    ));
    assert!(shown.starts_with("Seek { f: "));
    assert!(shown.contains("must_progress: true"));
}

#[test]
fn streams_with_state_can_be_cloned() {
    let stream = StreamWithState::new(CharStream::new("ab"), vec![1, 2]);
    let copy = stream.clone();
    assert_eq!(copy, stream);
    assert_eq!(copy.state, vec![1, 2]);
}

#[test]
fn complements_can_be_cloned_and_compared() {
    let not = Not('a'..'c');
    assert_eq!(not.clone(), not);
    assert_ne!(Not('a'..'d'), not);
    assert!(Not(['a', 'c']) < Not(['b', 'c']));
}
