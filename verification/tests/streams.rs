use std::ops::Range;

use parsley6::stream::{
    len_utf8, same_bytes, same_items, AsToken, BorrowState, CharStream, SliceStream, Stream,
    StreamWithState,
};

#[test]
fn char_stream_starts_at_zero() {
    let stream = CharStream::new("ab");
    assert_eq!(stream.stream_position(), 0);
    assert_eq!(stream.peek_token(), Some('a'));
    assert!(!stream.at_end());
}

#[test]
fn empty_char_stream_is_at_its_end() {
    let mut stream = CharStream::new("");
    assert!(stream.at_end());
    assert_eq!(stream.peek_token(), None);
    assert_eq!(stream.next_token(), None);
    assert_eq!(stream.stream_position(), 0);
    assert_eq!(stream.peek_token_span(), 0..0);
    assert_eq!(stream.prev_token_span(), 0..0);
}

#[test]
fn peeking_does_not_consume() {
    let stream = CharStream::new("ab");
    assert_eq!(stream.peek_token(), Some('a'));
    assert_eq!(stream.peek_token(), Some('a'));
    assert_eq!(stream.stream_position(), 0);
}

#[test]
fn positions_are_byte_offsets() {
    let mut stream = CharStream::new("a\u{e9}\u{20ac}\u{1f600}");
    assert_eq!(stream.next_token(), Some('a'));
    assert_eq!(stream.stream_position(), 1);
    assert_eq!(stream.next_token(), Some('\u{e9}'));
    assert_eq!(stream.stream_position(), 3);
    assert_eq!(stream.next_token(), Some('\u{20ac}'));
    assert_eq!(stream.stream_position(), 6);
    assert_eq!(stream.next_token(), Some('\u{1f600}'));
    assert_eq!(stream.stream_position(), 10);
    assert_eq!(stream.next_token(), None);
    assert_eq!(stream.stream_position(), 10);
    assert!(stream.at_end());
}

#[test]
fn spans_cover_the_tokens_on_either_side() {
    let mut stream = CharStream::new("a\u{e9}\u{20ac}\u{1f600}");
    assert_eq!(stream.peek_token_span(), 0..1);
    assert_eq!(stream.prev_token_span(), 0..0);
    stream.next_token();
    assert_eq!(stream.peek_token_span(), 1..3);
    assert_eq!(stream.prev_token_span(), 0..1);
    stream.next_token();
    assert_eq!(stream.peek_token_span(), 3..6);
    assert_eq!(stream.prev_token_span(), 1..3);
    stream.next_token();
    assert_eq!(stream.peek_token_span(), 6..10);
    assert_eq!(stream.prev_token_span(), 3..6);
    stream.next_token();
    assert_eq!(stream.peek_token_span(), 10..10);
    assert_eq!(stream.prev_token_span(), 6..10);
}

#[test]
fn try_slice_cuts_at_character_boundaries_only() {
    let stream = CharStream::new("a\u{e9}\u{20ac}\u{1f600}");
    assert_eq!(stream.try_slice(0, 10), Some("a\u{e9}\u{20ac}\u{1f600}"));
    assert_eq!(stream.try_slice(1, 3), Some("\u{e9}"));
    assert_eq!(stream.try_slice(3, 3), Some(""));
    assert_eq!(stream.try_slice(10, 10), Some(""));
    assert_eq!(stream.try_slice(2, 3), None);
    assert_eq!(stream.try_slice(1, 2), None);
    assert_eq!(stream.try_slice(3, 1), None);
    assert_eq!(stream.try_slice(0, 11), None);
    assert_eq!(stream.try_slice(11, 12), None);
}

#[test]
fn slices_do_not_depend_on_the_cursor() {
    let mut stream = CharStream::new("hello");
    stream.next_token();
    stream.next_token();
    assert_eq!(stream.slice(0, 5), "hello");
    assert_eq!(stream.slice(1, 4), "ell");
}

#[test]
fn peek_slice_matches_without_consuming() {
    let stream = CharStream::new("a\u{e9}b");
    assert_eq!(stream.peek_slice("a\u{e9}"), Some("a\u{e9}"));
    assert_eq!(stream.peek_slice(""), Some(""));
    assert_eq!(stream.peek_slice("ab"), None);
    assert_eq!(stream.peek_slice("a\u{e9}bc"), None);
    assert_eq!(stream.stream_position(), 0);
}

#[test]
fn peek_slice_does_not_match_half_a_character() {
    // The first byte of U+00E9 is 0xC3, which is also the first byte of U+00C0.
    let stream = CharStream::new("\u{e9}");
    assert_eq!(stream.peek_slice("\u{c0}"), None);
}

#[test]
fn eat_slice_consumes_what_it_matches() {
    let mut stream = CharStream::new("true!");
    assert_eq!(stream.eat_slice("false"), None);
    assert_eq!(stream.stream_position(), 0);
    assert_eq!(stream.eat_slice("true"), Some("true"));
    assert_eq!(stream.stream_position(), 4);
    assert_eq!(stream.peek_token(), Some('!'));
    assert_eq!(stream.eat_slice("!!"), None);
    assert_eq!(stream.stream_position(), 4);
}

#[test]
fn a_cloned_stream_reads_on_by_itself() {
    let mut stream = CharStream::new("ab");
    let saved = stream.clone();
    stream.next_token();
    assert_eq!(saved.stream_position(), 0);
    assert_eq!(saved.peek_token(), Some('a'));
    assert_eq!(stream.peek_token(), Some('b'));
    assert_ne!(saved, stream);
}

#[test]
fn len_utf8_is_the_width_of_the_encoding() {
    assert_eq!(len_utf8('a'), 1);
    assert_eq!(len_utf8('\u{7f}'), 1);
    assert_eq!(len_utf8('\u{80}'), 2);
    assert_eq!(len_utf8('\u{7ff}'), 2);
    assert_eq!(len_utf8('\u{800}'), 3);
    assert_eq!(len_utf8('\u{ffff}'), 3);
    assert_eq!(len_utf8('\u{10000}'), 4);
    assert_eq!(len_utf8('\u{10ffff}'), 4);
    for c in ['a', '\u{e9}', '\u{20ac}', '\u{1f600}'] {
        assert_eq!(len_utf8(c), c.len_utf8());
    }
}

#[test]
fn same_bytes_compares_contents() {
    assert!(same_bytes(b"abc", b"abc"));
    assert!(same_bytes(b"", b""));
    assert!(!same_bytes(b"abc", b"abd"));
    assert!(!same_bytes(b"abc", b"ab"));
}

#[derive(Debug, Clone, PartialEq)]
struct Word {
    kind: u8,
    at: Range<usize>,
}

impl AsToken for Word {
    type Token = u8;
    type Span = Range<usize>;

    fn token(&self) -> u8 {
        self.kind
    }

    fn span(&self) -> Range<usize> {
        self.at.clone()
    }

    fn as_token(&self) -> u8 {
        self.kind
    }

    fn as_span(&self) -> Range<usize> {
        self.at.clone()
    }
}

fn words() -> Vec<Word> {
    vec![
        Word { kind: 1, at: 0..2 },
        Word { kind: 2, at: 3..4 },
        Word { kind: 3, at: 5..9 },
    ]
}

#[test]
fn slice_stream_yields_the_tokens_of_its_items() {
    let words = words();
    let mut stream = SliceStream::new(&words, 9..9);
    assert_eq!(stream.stream_position(), 0);
    assert_eq!(stream.peek_token(), Some(1));
    assert_eq!(stream.next_token(), Some(1));
    assert_eq!(stream.stream_position(), 1);
    assert_eq!(stream.next_token(), Some(2));
    assert_eq!(stream.next_token(), Some(3));
    assert_eq!(stream.stream_position(), 3);
    assert!(stream.at_end());
    assert_eq!(stream.next_token(), None);
    assert_eq!(stream.stream_position(), 3);
}

#[test]
fn slice_stream_reports_the_spans_of_its_items() {
    let words = words();
    let mut stream = SliceStream::new(&words, 9..9);
    assert_eq!(stream.peek_token_span(), 0..2);
    assert_eq!(stream.prev_token_span(), 0..2);
    stream.next_token();
    assert_eq!(stream.peek_token_span(), 3..4);
    assert_eq!(stream.prev_token_span(), 0..2);
    stream.next_token();
    stream.next_token();
    assert_eq!(stream.peek_token_span(), 9..9);
    assert_eq!(stream.prev_token_span(), 5..9);
}

#[test]
fn empty_slice_stream_reports_its_end_span() {
    let words: Vec<Word> = Vec::new();
    let stream = SliceStream::new(&words, 7..7);
    assert!(stream.at_end());
    assert_eq!(stream.peek_token_span(), 7..7);
    assert_eq!(stream.prev_token_span(), 7..7);
}

#[test]
fn slice_stream_slices_by_index() {
    let words = words();
    let mut stream = SliceStream::new(&words, 9..9);
    stream.next_token();
    assert_eq!(stream.try_slice(0, 3), Some(&words[..]));
    assert_eq!(stream.try_slice(1, 2), Some(&words[1..2]));
    assert_eq!(stream.try_slice(2, 2), Some(&words[2..2]));
    assert_eq!(stream.try_slice(2, 1), None);
    assert_eq!(stream.try_slice(0, 4), None);
    assert_eq!(stream.slice(0, 1), &words[0..1]);
}

#[test]
fn slice_stream_matches_slices_of_items() {
    let words = words();
    let mut stream = SliceStream::new(&words, 9..9);
    let wanted = [Word { kind: 1, at: 0..2 }, Word { kind: 2, at: 3..4 }];
    let other = [Word { kind: 1, at: 0..2 }, Word { kind: 2, at: 3..5 }];
    assert_eq!(stream.peek_slice(&other), None);
    assert_eq!(stream.peek_slice(&wanted), Some(&words[0..2]));
    assert_eq!(stream.stream_position(), 0);
    assert_eq!(stream.eat_slice(&other), None);
    assert_eq!(stream.stream_position(), 0);
    assert_eq!(stream.eat_slice(&wanted), Some(&words[0..2]));
    assert_eq!(stream.stream_position(), 2);
    assert_eq!(stream.eat_slice(&wanted), None);
    assert_eq!(stream.eat_slice(&[]), Some(&words[2..2]));
    assert_eq!(stream.stream_position(), 2);
}

#[test]
fn same_items_compares_pairwise() {
    assert!(same_items(&[1u8, 2, 3], &[1, 2, 3]));
    assert!(same_items::<u8>(&[], &[]));
    assert!(!same_items(&[1u8, 2, 3], &[1, 2, 4]));
    assert!(!same_items(&[1u8, 2, 3], &[1, 2]));
}

#[test]
fn stream_with_state_reads_as_its_stream_does() {
    let mut stream = StreamWithState::new(CharStream::new("a\u{e9}b"), 0u32);
    assert_eq!(stream.peek_token(), Some('a'));
    assert_eq!(stream.next_token(), Some('a'));
    assert_eq!(stream.stream_position(), 1);
    assert_eq!(stream.peek_token_span(), 1..3);
    assert_eq!(stream.prev_token_span(), 0..1);
    assert_eq!(stream.peek_slice("\u{e9}b"), Some("\u{e9}b"));
    assert_eq!(stream.eat_slice("\u{e9}"), Some("\u{e9}"));
    assert_eq!(stream.try_slice(0, 3), Some("a\u{e9}"));
    assert_eq!(stream.slice(3, 4), "b");
    assert!(!stream.at_end());
    assert_eq!(stream.next_token(), Some('b'));
    assert!(stream.at_end());
    assert_eq!(stream.state, 0);
}

#[test]
fn borrowed_state_can_be_changed() {
    let mut stream = StreamWithState::new(CharStream::new("ab"), 0u32);
    *stream.borrow_state() += 5;
    assert_eq!(stream.state, 5);
    assert_eq!(stream.borrow_state().clone(), 5);
    assert_eq!(stream.stream_position(), 0);
}
