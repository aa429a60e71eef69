//! Classes of ASCII characters.

use vstd::prelude::*;

use crate::error::{Cause, Error};
use crate::parser::Parser;
use crate::stream::{first, CharStream, Stream};
use crate::token::{equal, mismatch, Eat, Peek};

verus! {

/// `==` on `char`: two characters are equal when they are the same
/// character.
pub assume_specification[ <char as PartialEq>::eq ](left: &char, right: &char) -> (same: bool)
    ensures
        same == (*left == *right),
;

/// What `eat` does on text: if the next character is the wanted one, it is
/// consumed and yielded; if not, nothing is consumed and the error says
/// which character was expected, at the span of the next one.
pub proof fn lemma_eat_char<'a, E: Error<CharStream<'a>>>(
    parser: Eat<CharStream<'a>, E>,
    input: CharStream<'a>,
    output: CharStream<'a>,
    after: Eat<CharStream<'a>, E>,
    result: Result<char, E>,
)
    requires
        parser.parses(input, output, &after, result),
    ensures
        after == parser,
        first(input) == Some(parser.token) ==> {
            &&& output == input.advanced(1)
            &&& result === Ok(parser.token)
        },
        first(input) != Some(parser.token) ==> {
            &&& output == input
            &&& result === Err(
                mismatch(E::Cause::spec_expected_token(parser.token), input),
            )
        },
{
}

/// What `peek` does on text: it yields the next character if it is the
/// wanted one, and fails as `eat` does if not; it never consumes.
pub proof fn lemma_peek_char<'a, E: Error<CharStream<'a>>>(
    parser: Peek<CharStream<'a>, E>,
    input: CharStream<'a>,
    output: CharStream<'a>,
    after: Peek<CharStream<'a>, E>,
    result: Result<char, E>,
)
    requires
        parser.parses(input, output, &after, result),
    ensures
        after == parser,
        output == input,
        result == if first(input) == Some(parser.token) {
            Ok::<char, E>(parser.token)
        } else {
            Err::<char, E>(mismatch(E::Cause::spec_expected_token(parser.token), input))
        },
{
}

/// Whether the code point is an ASCII letter.
pub open spec fn ascii_alphabetic(code: int) -> bool {
    0x41 <= code <= 0x5A || 0x61 <= code <= 0x7A
}

/// Whether the code point is an ASCII decimal digit.
pub open spec fn ascii_digit(code: int) -> bool {
    0x30 <= code <= 0x39
}

/// Whether the code point is an ASCII hexadecimal digit.
pub open spec fn ascii_hexdigit(code: int) -> bool {
    ascii_digit(code) || 0x41 <= code <= 0x46 || 0x61 <= code <= 0x66
}

/// Whether the code point is ASCII whitespace: space, tab, line feed, form
/// feed or carriage return.
pub open spec fn ascii_space(code: int) -> bool {
    code == 0x20 || code == 0x09 || code == 0x0A || code == 0x0C || code == 0x0D
}

/// An ASCII character.
pub trait Ascii {
    /// The code point of the character.
    spec fn code(&self) -> int;

    fn is_ascii_alphabetic(&self) -> (is: bool)
        ensures
            is == ascii_alphabetic(self.code()),
    ;

    fn is_ascii_alphanumeric(&self) -> (is: bool)
        ensures
            is == (ascii_alphabetic(self.code()) || ascii_digit(self.code())),
    ;

    fn is_ascii_digit(&self) -> (is: bool)
        ensures
            is == ascii_digit(self.code()),
    ;

    fn is_ascii_hexdigit(&self) -> (is: bool)
        ensures
            is == ascii_hexdigit(self.code()),
    ;

    fn is_ascii_space(&self) -> (is: bool)
        ensures
            is == ascii_space(self.code()),
    ;
}

impl Ascii for u8 {
    open spec fn code(&self) -> int {
        *self as int
    }

    fn is_ascii_alphabetic(&self) -> (is: bool) {
        let byte = *self;
        (0x41 <= byte && byte <= 0x5A) || (0x61 <= byte && byte <= 0x7A)
    }

    fn is_ascii_alphanumeric(&self) -> (is: bool) {
        let byte = *self;
        (0x41 <= byte && byte <= 0x5A) || (0x61 <= byte && byte <= 0x7A) || (0x30 <= byte && byte
            <= 0x39)
    }

    fn is_ascii_digit(&self) -> (is: bool) {
        let byte = *self;
        0x30 <= byte && byte <= 0x39
    }

    fn is_ascii_hexdigit(&self) -> (is: bool) {
        let byte = *self;
        (0x30 <= byte && byte <= 0x39) || (0x41 <= byte && byte <= 0x46) || (0x61 <= byte && byte
            <= 0x66)
    }

    fn is_ascii_space(&self) -> (is: bool) {
        let byte = *self;
        byte == 0x20 || byte == 0x09 || byte == 0x0A || byte == 0x0C || byte == 0x0D
    }
}

impl Ascii for char {
    open spec fn code(&self) -> int {
        (*self as u32) as int
    }

    fn is_ascii_alphabetic(&self) -> (is: bool) {
        let code = *self as u32;
        (0x41 <= code && code <= 0x5A) || (0x61 <= code && code <= 0x7A)
    }

    fn is_ascii_alphanumeric(&self) -> (is: bool) {
        let code = *self as u32;
        (0x41 <= code && code <= 0x5A) || (0x61 <= code && code <= 0x7A) || (0x30 <= code && code
            <= 0x39)
    }

    fn is_ascii_digit(&self) -> (is: bool) {
        let code = *self as u32;
        0x30 <= code && code <= 0x39
    }

    fn is_ascii_hexdigit(&self) -> (is: bool) {
        let code = *self as u32;
        (0x30 <= code && code <= 0x39) || (0x41 <= code && code <= 0x46) || (0x61 <= code && code
            <= 0x66)
    }

    fn is_ascii_space(&self) -> (is: bool) {
        let code = *self as u32;
        code == 0x20 || code == 0x09 || code == 0x0A || code == 0x0C || code == 0x0D
    }
}

} // verus!
