//! A stream over the characters of a string slice.

use core::ops::Range;
use vstd::prelude::*;
use vstd::slice::*;
use vstd::string::*;
use vstd::utf8::*;

use crate::stream::utf8::{
    lemma_boundary_in_prefix, lemma_encode_concat, lemma_encode_injective,
    lemma_no_boundary_inside, lemma_offset_ends, lemma_offset_is_boundary, lemma_offset_monotone,
    lemma_offset_step, lemma_prefix_bytes, lemma_split, offset, width,
};
use crate::stream::Stream;

verus! {

/// The number of bytes that a character takes in UTF-8.
pub fn len_utf8(c: char) -> (len: usize)
    ensures
        len == width(c),
{
    let code = c as u32;
    if code < 0x80 {
        1
    } else if code < 0x800 {
        2
    } else if code < 0x10000 {
        3
    } else {
        4
    }
}

/// Whether two byte slices hold the same bytes.
pub fn same_bytes(left: &[u8], right: &[u8]) -> (same: bool)
    ensures
        same == (left@ == right@),
{
    if left.len() != right.len() {
        return false;
    }
    let mut i: usize = 0;
    while i < left.len()
        invariant
            left.len() == right.len(),
            i <= left.len(),
            forall|j: int| 0 <= j < i ==> left@[j] == right@[j],
        decreases left.len() - i,
    {
        if left[i] != right[i] {
            return false;
        }
        i = i + 1;
    }
    assert(left@ =~= right@);
    true
}

/// A stream of the characters of a string slice.
///
/// Its tokens are the characters of the text; its positions are byte
/// offsets into the text, and its slices are parts of the text.
#[derive(Debug, Clone, Copy, PartialEq, Eq, Hash)]
pub struct CharStream<'a> {
    all: &'a str,
    pos: usize,
}

impl<'a> CharStream<'a> {
    /// A stream at the start of `s`.
    pub fn new(s: &'a str) -> (stream: Self)
        ensures
            stream.wf(),
            stream.tokens() == s@,
            stream.cursor() == 0,
            stream.position() == 0,
            stream.text() == s,
    {
        let stream = Self { all: s, pos: 0 };
        let bytes = s.as_bytes();
        let _ = bytes.len();
        proof {
            axiom_spec_len(bytes);
            lemma_offset_ends(s@);
            stream.lemma_cursor_is(0);
        }
        stream
    }

    /// The text that the stream reads.
    pub closed spec fn text(&self) -> &'a str {
        self.all
    }

    /// The stream's position is the offset of exactly one character index.
    proof fn lemma_cursor_is(&self, count: nat)
        requires
            self.all.spec_bytes().len() <= usize::MAX,
            count <= self.all@.len(),
            self.pos == offset(self.all@, count),
        ensures
            self.wf(),
            self.cursor() == count,
    {
        let chosen = self.cursor();
        if chosen < count {
            lemma_offset_monotone(self.all@, chosen, count);
        } else if count < chosen {
            lemma_offset_monotone(self.all@, count, chosen);
        }
    }

    /// How the model of a stream hangs together: the position is the byte
    /// offset of the cursor, and the spans are those of the characters on
    /// either side of it.
    pub proof fn lemma_model(&self)
        requires
            self.wf(),
        ensures
            self.cursor() <= self.tokens().len(),
            self.tokens() == self.text()@,
            self.position() == offset(self.tokens(), self.cursor()),
            self.position() <= self.text().spec_bytes().len() <= usize::MAX,
            self.next_span() == (Range {
                start: self.position(),
                end: if self.cursor() < self.tokens().len() {
                    offset(self.tokens(), self.cursor() + 1) as usize
                } else {
                    self.position()
                },
            }),
            self.prev_span() == (Range {
                start: if self.cursor() > 0 {
                    offset(self.tokens(), (self.cursor() - 1) as nat) as usize
                } else {
                    self.position()
                },
                end: self.position(),
            }),
            forall|n: nat|
                self.cursor() + n <= self.tokens().len() ==> (#[trigger] self.advanced(
                    n,
                )).position() == offset(self.tokens(), self.cursor() + n),
    {
        let chars = self.all@;
        let count = self.cursor();
        lemma_split(chars, count);
        if count < chars.len() {
            lemma_offset_step(chars, count);
            lemma_offset_monotone(chars, count + 1, chars.len());
            lemma_offset_ends(chars);
        }
        if count > 0 {
            lemma_offset_step(chars, (count - 1) as nat);
        }
        assert forall|n: nat| count + n <= chars.len() implies (#[trigger] self.advanced(
            n,
        )).position() == offset(chars, count + n) by {
            lemma_offset_monotone(chars, count + n, chars.len());
            lemma_offset_ends(chars);
        }
    }

    /// Where a slice that matches ends.
    proof fn lemma_match_end(&self, slice: &str)
        requires
            self.wf(),
            self.matches(slice) is Some,
        ensures
            self.cursor() + slice@.len() <= self.all@.len(),
            offset(self.all@, self.cursor() + slice@.len()) == self.pos + slice.spec_bytes().len(),
            self.advanced(slice@.len()).pos == self.pos + slice.spec_bytes().len(),
            self.pos + slice.spec_bytes().len() <= self.all.spec_bytes().len(),
    {
        let chars = self.all@;
        let count = self.cursor();
        let m = slice@.len();
        assert(chars.take((count + m) as int) =~= chars.take(count as int) + slice@);
        lemma_encode_concat(chars.take(count as int), slice@);
        lemma_offset_monotone(chars, count + m, chars.len());
        lemma_offset_ends(chars);
    }

    /// The slice between the positions of two streams over one text holds
    /// the characters between their cursors.
    pub proof fn lemma_slice_between(&self, later: &Self, slice: &'a str)
        requires
            self.wf(),
            later.wf(),
            self.reaches(later),
            later.is_slice(self.position(), later.position(), slice),
        ensures
            self.cursor() <= later.cursor() <= self.tokens().len(),
            slice@ == self.tokens().subrange(self.cursor() as int, later.cursor() as int),
    {
        let chars = self.all@;
        let low = self.cursor();
        let high = later.cursor();
        self.lemma_reaches(later);
        let front = chars.take(low as int);
        let middle = chars.subrange(low as int, high as int);
        let back = chars.skip(high as int);
        assert(chars.take(high as int) =~= front + middle);
        lemma_encode_concat(front, middle);
        lemma_split(chars, high);
        assert(encode_utf8(chars).subrange(self.pos as int, later.pos as int) =~= encode_utf8(
            middle,
        )) by {
            assert(encode_utf8(chars).subrange(0, later.pos as int).subrange(
                self.pos as int,
                later.pos as int,
            ) =~= encode_utf8(chars).subrange(self.pos as int, later.pos as int));
            assert((encode_utf8(front) + encode_utf8(middle)).subrange(
                self.pos as int,
                later.pos as int,
            ) =~= encode_utf8(middle));
        }
        lemma_encode_injective(slice@, middle);
    }

    /// The unconsumed part of the text.
    fn rest(&self) -> (rest: &'a str)
        requires
            self.wf(),
        ensures
            rest@ == self.all@.skip(self.cursor() as int),
            rest.spec_bytes() == self.all.spec_bytes().subrange(
                self.pos as int,
                self.all.spec_bytes().len() as int,
            ),
    {
        proof {
            lemma_offset_is_boundary(self.all@, self.cursor());
            lemma_split(self.all@, self.cursor());
        }
        let (_, rest) = self.all.split_at(self.pos);
        proof {
            lemma_encode_injective(rest@, self.all@.skip(self.cursor() as int));
        }
        rest
    }

}

impl<'a> Stream for CharStream<'a> {
    type Token = char;

    type Slice = str;

    type SliceRef = &'a str;

    type Span = Range<usize>;

    closed spec fn wf(&self) -> bool {
        &&& self.all.spec_bytes().len() <= usize::MAX
        &&& exists|count: nat|
            count <= self.all@.len() && self.pos == #[trigger] offset(self.all@, count)
    }

    closed spec fn tokens(&self) -> Seq<char> {
        self.all@
    }

    closed spec fn cursor(&self) -> nat {
        choose|count: nat|
            count <= self.all@.len() && self.pos == #[trigger] offset(self.all@, count)
    }

    closed spec fn position(&self) -> usize {
        self.pos
    }

    closed spec fn advanced(&self, n: nat) -> Self {
        CharStream { all: self.all, pos: offset(self.all@, self.cursor() + n) as usize }
    }

    closed spec fn reaches(&self, later: &Self) -> bool {
        &&& later.all == self.all
        &&& self.pos <= later.pos
    }

    closed spec fn next_span(&self) -> Range<usize> {
        Range {
            start: self.pos,
            end: if self.cursor() < self.all@.len() {
                (self.pos + width(self.all@[self.cursor() as int])) as usize
            } else {
                self.pos
            },
        }
    }

    closed spec fn prev_span(&self) -> Range<usize> {
        Range {
            start: if self.cursor() > 0 {
                (self.pos - width(self.all@[self.cursor() - 1])) as usize
            } else {
                self.pos
            },
            end: self.pos,
        }
    }

    open spec fn matches(&self, slice: &str) -> Option<nat> {
        if slice@.is_prefix_of(self.tokens().skip(self.cursor() as int)) {
            Some(slice@.len())
        } else {
            None
        }
    }

    open spec fn can_slice(&self, start: usize, end: usize) -> bool {
        &&& start <= end
        &&& is_char_boundary(self.text().spec_bytes(), start as int)
        &&& is_char_boundary(self.text().spec_bytes(), end as int)
    }

    open spec fn is_slice(&self, start: usize, end: usize, slice: &'a str) -> bool {
        slice.spec_bytes() == self.text().spec_bytes().subrange(start as int, end as int)
    }

    proof fn lemma_cursor_in_bounds(&self) {
    }

    proof fn lemma_advanced(&self, n: nat) {
        let chars = self.all@;
        let count = self.cursor();
        lemma_offset_monotone(chars, count, count + n);
        lemma_offset_monotone(chars, count + n, chars.len());
        lemma_offset_ends(chars);
        self.advanced(n).lemma_cursor_is(count + n);
    }

    proof fn lemma_advanced_twice(&self, n: nat, m: nat) {
        self.lemma_advanced(n);
    }

    proof fn lemma_matches(&self, slice: &str) {
    }

    proof fn lemma_reaches_refl(&self) {
    }

    proof fn lemma_reaches_trans(&self, mid: &Self, later: &Self) {
    }

    proof fn lemma_reaches(&self, later: &Self) {
        let chars = self.all@;
        let low = self.cursor();
        let high = later.cursor();
        if low < high {
            lemma_offset_monotone(chars, low, high);
        } else if high < low {
            lemma_offset_monotone(chars, high, low);
        }
        lemma_offset_is_boundary(chars, low);
        lemma_offset_is_boundary(chars, high);
    }

    fn peek_token(&self) -> (token: Option<char>) {
        let rest = self.rest();
        let mut chars = rest.chars();
        chars.next()
    }

    fn next_token(&mut self) -> (token: Option<char>) {
        let token = self.peek_token();
        if let Some(c) = token {
            proof {
                self.lemma_model();
                lemma_offset_step(self.all@, self.cursor());
                self.lemma_advanced(1);
            }
            self.pos = self.pos + len_utf8(c);
        }
        token
    }

    fn peek_slice(&self, slice: &str) -> (found: Option<&'a str>) {
        let rest = self.rest();
        let wanted = slice.as_bytes();
        let n = wanted.len();
        proof {
            axiom_spec_len(wanted);
            lemma_prefix_bytes(rest@, slice@);
            if self.matches(slice) is Some {
                self.lemma_match_end(slice);
            }
        }
        if rest.is_char_boundary(n) {
            proof {
                encode_utf8_valid_utf8(rest@);
                lemma_boundary_in_prefix(rest.spec_bytes(), 0, n as int);
            }
            let (prefix, _) = rest.split_at(n);
            if same_bytes(prefix.as_bytes(), wanted) {
                assert(prefix.spec_bytes() =~= self.all.spec_bytes().subrange(
                    self.pos as int,
                    self.pos + n,
                ));
                return Some(prefix);
            }
        }
        None
    }

    fn eat_slice(&mut self, slice: &str) -> (found: Option<&'a str>) {
        let found = self.peek_slice(slice);
        if found.is_some() {
            let wanted = slice.as_bytes();
            proof {
                axiom_spec_len(wanted);
                self.lemma_match_end(slice);
                self.lemma_advanced(slice@.len());
            }
            self.pos = self.pos + wanted.len();
        }
        found
    }

    fn try_slice(&self, start: usize, end: usize) -> (slice: Option<&'a str>) {
        proof {
            encode_utf8_valid_utf8(self.all@);
        }
        if start <= end && self.all.is_char_boundary(start) && self.all.is_char_boundary(end) {
            proof {
                lemma_boundary_in_prefix(self.all.spec_bytes(), start as int, end as int);
            }
            let (head, _) = self.all.split_at(end);
            let (_, slice) = head.split_at(start);
            assert(slice.spec_bytes() =~= self.all.spec_bytes().subrange(start as int, end as int));
            Some(slice)
        } else {
            None
        }
    }

    fn peek_token_span(&self) -> (span: Range<usize>) {
        proof {
            self.lemma_model();
            if self.cursor() < self.all@.len() {
                lemma_offset_step(self.all@, self.cursor());
                lemma_offset_monotone(self.all@, self.cursor() + 1, self.all@.len());
                lemma_offset_ends(self.all@);
            }
        }
        let width = match self.peek_token() {
            Some(c) => len_utf8(c),
            None => 0,
        };
        Range { start: self.pos, end: self.pos + width }
    }

    fn prev_token_span(&self) -> (span: Range<usize>) {
        proof {
            self.lemma_model();
            lemma_offset_ends(self.all@);
        }
        if self.pos == 0 {
            proof {
                if self.cursor() > 0 {
                    lemma_offset_monotone(self.all@, 0, self.cursor());
                }
            }
            return Range { start: self.pos, end: self.pos };
        }
        let ghost before = (self.cursor() - 1) as nat;
        proof {
            lemma_offset_step(self.all@, before);
            lemma_offset_is_boundary(self.all@, before);
        }
        let mut start = self.pos - 1;
        while !self.all.is_char_boundary(start)
            invariant
                self.wf(),
                before + 1 == self.cursor(),
                self.cursor() <= self.all@.len(),
                self.pos == offset(self.all@, self.cursor()),
                offset(self.all@, before) <= start < self.pos,
                is_char_boundary(self.all.spec_bytes(), offset(self.all@, before) as int),
            decreases start,
        {
            start = start - 1;
        }
        proof {
            if offset(self.all@, before) < start {
                lemma_no_boundary_inside(self.all@, before, start as int);
            }
        }
        Range { start, end: self.pos }
    }

    fn stream_position(&self) -> (position: usize) {
        self.pos
    }
}

} // verus!
