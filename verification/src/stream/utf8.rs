//! Byte offsets of characters in UTF-8 text.

use vstd::prelude::*;
use vstd::utf8::*;

verus! {

/// The number of bytes that the first `count` characters of `chars` take in
/// UTF-8.
pub open spec fn offset(chars: Seq<char>, count: nat) -> nat {
    encode_utf8(chars.take(count as int)).len()
}

/// The number of bytes that `c` takes in UTF-8.
pub open spec fn width(c: char) -> nat {
    encode_scalar(c as u32).len()
}

/// The encoding of a concatenation is the concatenation of the encodings.
pub proof fn lemma_encode_concat(front: Seq<char>, back: Seq<char>)
    ensures
        encode_utf8(front + back) == encode_utf8(front) + encode_utf8(back),
    decreases front.len(),
{
    if front.len() == 0 {
        assert(front + back =~= back);
        assert(encode_utf8(front) + encode_utf8(back) =~= encode_utf8(back));
    } else {
        lemma_encode_concat(front.drop_first(), back);
        assert((front + back).drop_first() =~= front.drop_first() + back);
        assert(encode_utf8(front + back) =~= encode_utf8(front) + encode_utf8(back));
    }
}

/// The encoding of a single character.
pub proof fn lemma_encode_single(c: char)
    ensures
        encode_utf8(seq![c]) == encode_scalar(c as u32),
{
    reveal_with_fuel(encode_utf8, 2);
    assert(seq![c].drop_first() =~= Seq::<char>::empty());
    assert(encode_utf8(seq![c]) =~= encode_scalar(c as u32));
}

/// A character takes between one and four bytes.
pub proof fn lemma_width(c: char)
    ensures
        1 <= width(c) <= 4,
{
}

/// The text splits at a character index into two encodings that meet at
/// the offset of that index.
pub proof fn lemma_split(chars: Seq<char>, count: nat)
    requires
        count <= chars.len(),
    ensures
        offset(chars, count) <= encode_utf8(chars).len(),
        encode_utf8(chars).subrange(0, offset(chars, count) as int) == encode_utf8(
            chars.take(count as int),
        ),
        encode_utf8(chars).subrange(offset(chars, count) as int, encode_utf8(chars).len() as int)
            == encode_utf8(chars.skip(count as int)),
{
    let front = chars.take(count as int);
    let back = chars.skip(count as int);
    assert(chars =~= front + back);
    lemma_encode_concat(front, back);
    let bytes = encode_utf8(front) + encode_utf8(back);
    assert(bytes.subrange(0, encode_utf8(front).len() as int) =~= encode_utf8(front));
    assert(bytes.subrange(encode_utf8(front).len() as int, bytes.len() as int) =~= encode_utf8(
        back,
    ));
}

/// The offset of the next character lies one character's width further.
pub proof fn lemma_offset_step(chars: Seq<char>, count: nat)
    requires
        count < chars.len(),
    ensures
        offset(chars, count + 1) == offset(chars, count) + width(chars[count as int]),
        offset(chars, count) < offset(chars, count + 1),
{
    let front = chars.take(count as int);
    let next = seq![chars[count as int]];
    assert(chars.take(count as int + 1) =~= front + next);
    lemma_encode_concat(front, next);
    lemma_encode_single(chars[count as int]);
    lemma_width(chars[count as int]);
}

/// Offsets grow with the character index, and strictly so.
pub proof fn lemma_offset_monotone(chars: Seq<char>, low: nat, high: nat)
    requires
        low <= high <= chars.len(),
    ensures
        offset(chars, low) <= offset(chars, high),
        low < high ==> offset(chars, low) < offset(chars, high),
        offset(chars, high) - offset(chars, low) >= high - low,
    decreases high - low,
{
    if low < high {
        lemma_offset_monotone(chars, low, (high - 1) as nat);
        lemma_offset_step(chars, (high - 1) as nat);
    }
}

/// The offset of the first character is zero, and that of the end is the
/// length of the encoding.
pub proof fn lemma_offset_ends(chars: Seq<char>)
    ensures
        offset(chars, 0) == 0,
        offset(chars, chars.len()) == encode_utf8(chars).len(),
{
    assert(chars.take(0) =~= Seq::<char>::empty());
    assert(chars.take(chars.len() as int) =~= chars);
}

/// The offset of every character index is a character boundary of the
/// encoding.
pub proof fn lemma_offset_is_boundary(chars: Seq<char>, count: nat)
    requires
        count <= chars.len(),
    ensures
        is_char_boundary(encode_utf8(chars), offset(chars, count) as int),
    decreases count,
{
    let bytes = encode_utf8(chars);
    encode_utf8_valid_utf8(chars);
    lemma_offset_ends(chars);
    if count > 0 {
        let tail = chars.drop_first();
        encode_utf8_first_scalar(chars);
        assert(pop_first_scalar(bytes) =~= encode_utf8(tail));
        lemma_offset_is_boundary(tail, (count - 1) as nat);
        let front = seq![chars[0]];
        assert(chars.take(count as int) =~= front + tail.take(count - 1));
        lemma_encode_concat(front, tail.take(count - 1));
        lemma_encode_single(chars[0]);
        lemma_width(chars[0]);
        lemma_split(chars, count);
    }
}

/// No byte offset strictly inside a character is a character boundary.
pub proof fn lemma_no_boundary_inside(chars: Seq<char>, count: nat, index: int)
    requires
        count < chars.len(),
        offset(chars, count) < index < offset(chars, count + 1),
    ensures
        !is_char_boundary(encode_utf8(chars), index),
    decreases count,
{
    let bytes = encode_utf8(chars);
    let tail = chars.drop_first();
    encode_utf8_valid_utf8(chars);
    encode_utf8_first_scalar(chars);
    assert(pop_first_scalar(bytes) =~= encode_utf8(tail));
    lemma_offset_ends(chars);
    lemma_offset_step(chars, 0);
    lemma_offset_monotone(chars, count + 1, chars.len());
    reveal_with_fuel(is_char_boundary, 2);
    if count > 0 {
        let front = seq![chars[0]];
        lemma_encode_single(chars[0]);
        assert(chars.take(count as int) =~= front + tail.take(count - 1));
        lemma_encode_concat(front, tail.take(count - 1));
        assert(chars.take(count as int + 1) =~= front + tail.take(count as int));
        lemma_encode_concat(front, tail.take(count as int));
        lemma_no_boundary_inside(tail, (count - 1) as nat, index - width(chars[0]));
    }
}

/// A text starts with a pattern exactly when its encoding starts with the
/// pattern's encoding and that ends on a character boundary.
pub proof fn lemma_prefix_bytes(chars: Seq<char>, pattern: Seq<char>)
    ensures
        pattern.is_prefix_of(chars) <==> {
            &&& encode_utf8(pattern).len() <= encode_utf8(chars).len()
            &&& is_char_boundary(encode_utf8(chars), encode_utf8(pattern).len() as int)
            &&& encode_utf8(chars).subrange(0, encode_utf8(pattern).len() as int) == encode_utf8(
                pattern,
            )
        },
        pattern.is_prefix_of(chars) ==> offset(chars, pattern.len()) == encode_utf8(pattern).len(),
{
    let bytes = encode_utf8(chars);
    let wanted = encode_utf8(pattern);
    let n = wanted.len() as int;
    encode_utf8_valid_utf8(chars);
    if pattern.is_prefix_of(chars) {
        assert(chars.take(pattern.len() as int) =~= pattern);
        lemma_split(chars, pattern.len());
        lemma_offset_is_boundary(chars, pattern.len());
    }
    if n <= bytes.len() && is_char_boundary(bytes, n) && bytes.subrange(0, n) == wanted {
        decode_utf8_split(bytes, n);
        encode_utf8_decode_utf8(chars);
        encode_utf8_decode_utf8(pattern);
        let back = decode_utf8(bytes.subrange(n, bytes.len() as int));
        assert(chars =~= pattern + back);
        assert(pattern =~= chars.subrange(0, pattern.len() as int));
    }
}

/// A character boundary of a text is one of each prefix that ends on a
/// character boundary behind it.
pub proof fn lemma_boundary_in_prefix(bytes: Seq<u8>, start: int, end: int)
    requires
        valid_utf8(bytes),
        0 <= start <= end,
        is_char_boundary(bytes, start),
        is_char_boundary(bytes, end),
    ensures
        end <= bytes.len(),
        valid_utf8(bytes.subrange(0, end)),
        is_char_boundary(bytes.subrange(0, end), start),
{
    let head = bytes.subrange(0, end);
    valid_utf8_split(bytes, end);
    if start == end {
        is_char_boundary_start_end_of_seq(head);
    } else {
        is_char_boundary_iff_not_is_continuation_byte(bytes, start);
        is_char_boundary_iff_not_is_continuation_byte(head, start);
    }
}

/// Texts with the same encoding are the same text.
pub proof fn lemma_encode_injective(left: Seq<char>, right: Seq<char>)
    requires
        encode_utf8(left) == encode_utf8(right),
    ensures
        left == right,
{
    encode_utf8_decode_utf8(left);
    encode_utf8_decode_utf8(right);
}

} // verus!
