//! Byte offsets, lines and columns of a text, over its sequence of characters.
//!
//! A text is a `Seq<char>`; its bytes are those of its UTF-8 encoding. An
//! offset counts bytes, a line or a column counts characters.

use vstd::prelude::*;
use vstd::utf8::*;

verus! {

/// Number of bytes in the UTF-8 encoding of `c`.
pub open spec fn scalar_length(c: char) -> nat {
    encode_scalar(c as u32).len()
}

/// Number of bytes in the UTF-8 encoding of `chars`.
pub open spec fn byte_length(chars: Seq<char>) -> nat {
    encode_utf8(chars).len()
}

/// Byte offset at which the character with index `index` starts; for
/// `index == chars.len()` the length of the whole text.
pub open spec fn start_of(chars: Seq<char>, index: int) -> nat {
    byte_length(chars.take(index))
}

/// Number of line feeds in `chars`.
pub open spec fn newline_count(chars: Seq<char>) -> nat
    decreases chars.len(),
{
    if chars.len() == 0 {
        0
    } else if chars.last() == '\n' {
        1 + newline_count(chars.drop_last())
    } else {
        newline_count(chars.drop_last())
    }
}

/// Number of characters that follow the last line feed of `chars`, or the
/// length of `chars` where it holds none.
pub open spec fn trailing_run(chars: Seq<char>) -> nat
    decreases chars.len(),
{
    if chars.len() == 0 || chars.last() == '\n' {
        0
    } else {
        1 + trailing_run(chars.drop_last())
    }
}

/// One-based line reached after reading `prefix`.
pub open spec fn line_of(prefix: Seq<char>) -> nat {
    1 + newline_count(prefix)
}

/// One-based column reached after reading `prefix`.
pub open spec fn column_of(prefix: Seq<char>) -> nat {
    1 + trailing_run(prefix)
}

/// Number of characters of `chars` that start before byte `offset`.
pub open spec fn chars_before(chars: Seq<char>, offset: int) -> nat
    decreases chars.len(),
{
    if chars.len() == 0 {
        0
    } else if byte_length(chars.drop_last()) < offset {
        chars.len()
    } else {
        chars_before(chars.drop_last(), offset)
    }
}

/// One-based line of byte `offset` in `chars`.
pub open spec fn line_at(chars: Seq<char>, offset: int) -> nat {
    line_of(chars.take(chars_before(chars, offset) as int))
}

/// One-based column of byte `offset` in `chars`.
pub open spec fn column_at(chars: Seq<char>, offset: int) -> nat {
    column_of(chars.take(chars_before(chars, offset) as int))
}

/// `a` comes no later than `b` when positions are ordered by line, then by
/// column.
pub open spec fn position_le(a: (nat, nat), b: (nat, nat)) -> bool {
    a.0 < b.0 || (a.0 == b.0 && a.1 <= b.1)
}

/// A character takes between one and four bytes.
pub proof fn lemma_scalar_length_bounds(c: char)
    ensures
        1 <= scalar_length(c) <= 4,
{
}

/// The encoding of a concatenation is the concatenation of the encodings.
pub proof fn lemma_encode_concat(a: Seq<char>, b: Seq<char>)
    ensures
        encode_utf8(a + b) == encode_utf8(a) + encode_utf8(b),
    decreases a.len(),
{
    if a.len() == 0 {
        assert(a + b == b);
        assert(encode_utf8(a) + encode_utf8(b) == encode_utf8(b));
    } else {
        lemma_encode_concat(a.drop_first(), b);
        assert((a + b).drop_first() == a.drop_first() + b);
        assert(encode_utf8(a + b) == encode_scalar(a[0] as u32) + (encode_utf8(a.drop_first())
            + encode_utf8(b)));
    }
}

/// Appending a character adds its bytes to the length.
pub proof fn lemma_byte_length_push(chars: Seq<char>, c: char)
    ensures
        byte_length(chars.push(c)) == byte_length(chars) + scalar_length(c),
{
    lemma_encode_concat(chars, seq![c]);
    assert(chars.push(c) == chars + seq![c]);
    assert(seq![c].drop_first() == Seq::<char>::empty());
    assert(encode_utf8(seq![c]) == encode_scalar(c as u32) + encode_utf8(Seq::<char>::empty()));
    assert(encode_utf8(seq![c]) == encode_scalar(c as u32));
}

/// The start offsets of the characters grow strictly: each character starts
/// where the one before it ends.
pub proof fn lemma_start_of_next(chars: Seq<char>, index: int)
    requires
        0 <= index < chars.len(),
    ensures
        start_of(chars, index + 1) == start_of(chars, index) + scalar_length(chars[index]),
        start_of(chars, index) < start_of(chars, index + 1),
{
    assert(chars.take(index + 1) == chars.take(index).push(chars[index]));
    lemma_byte_length_push(chars.take(index), chars[index]);
    lemma_scalar_length_bounds(chars[index]);
}

/// A text has at least as many bytes before a character as characters, and
/// start offsets grow with the index.
pub proof fn lemma_start_of_monotone(chars: Seq<char>, i: int, j: int)
    requires
        0 <= i <= j <= chars.len(),
    ensures
        start_of(chars, i) + (j - i) <= start_of(chars, j),
    decreases j - i,
{
    if i < j {
        lemma_start_of_monotone(chars, i, j - 1);
        lemma_start_of_next(chars, j - 1);
    }
}

/// A text has at least as many bytes as characters.
pub proof fn lemma_length_le_byte_length(chars: Seq<char>)
    ensures
        chars.len() <= byte_length(chars),
{
    lemma_start_of_monotone(chars, 0, chars.len() as int);
    assert(chars.take(chars.len() as int) == chars);
    assert(chars.take(0) == Seq::<char>::empty());
}

/// `count` is the number of characters of `chars` that start before byte
/// `offset`: each of the first `count` does, and the next one, if there is
/// one, does not.
pub open spec fn is_cut(chars: Seq<char>, offset: int, count: int) -> bool {
    &&& 0 <= count <= chars.len()
    &&& (count > 0 ==> start_of(chars, count - 1) < offset)
    &&& (count < chars.len() ==> offset <= start_of(chars, count))
}

/// `chars_before` is the one count that cuts `chars` at `offset`.
pub proof fn lemma_chars_before_is_cut(chars: Seq<char>, offset: int)
    ensures
        is_cut(chars, offset, chars_before(chars, offset) as int),
    decreases chars.len(),
{
    if chars.len() > 0 {
        let front = chars.drop_last();
        assert(front == chars.take(chars.len() - 1));
        if !(byte_length(front) < offset) {
            lemma_chars_before_is_cut(front, offset);
            let count = chars_before(front, offset) as int;
            if count > 0 {
                assert(front.take(count - 1) == chars.take(count - 1));
            }
            if count < front.len() {
                assert(front.take(count) == chars.take(count));
            }
        }
    }
}

/// A count that cuts `chars` at `offset` is `chars_before(chars, offset)`.
pub proof fn lemma_cut_is_chars_before(chars: Seq<char>, offset: int, count: int)
    requires
        is_cut(chars, offset, count),
    ensures
        chars_before(chars, offset) == count,
    decreases chars.len(),
{
    if chars.len() > 0 {
        let front = chars.drop_last();
        assert(front == chars.take(chars.len() - 1));
        if count == chars.len() {
        } else {
            lemma_start_of_monotone(chars, count, chars.len() - 1);
            if count > 0 {
                assert(front.take(count - 1) == chars.take(count - 1));
            }
            if count < front.len() {
                assert(front.take(count) == chars.take(count));
            }
            lemma_cut_is_chars_before(front, offset, count);
        }
    }
}

/// No character starts before byte 0, so offset 0 is at line 1, column 1.
pub proof fn lemma_origin(chars: Seq<char>)
    ensures
        chars_before(chars, 0) == 0,
        line_at(chars, 0) == 1,
        column_at(chars, 0) == 1,
{
    lemma_cut_is_chars_before(chars, 0, 0);
    assert(chars.take(0) == Seq::<char>::empty());
}

/// A later offset has at least as many characters before it.
pub proof fn lemma_chars_before_monotone(chars: Seq<char>, first: int, second: int)
    requires
        first <= second,
    ensures
        chars_before(chars, first) <= chars_before(chars, second),
{
    lemma_chars_before_is_cut(chars, first);
    lemma_chars_before_is_cut(chars, second);
    let a = chars_before(chars, first) as int;
    let b = chars_before(chars, second) as int;
    if b < a {
        lemma_start_of_monotone(chars, b, a - 1);
    }
}

/// Reading one more character moves the position forward: to the next
/// column, or to the first column of the next line.
pub proof fn lemma_position_step(chars: Seq<char>, count: int)
    requires
        0 <= count < chars.len(),
    ensures
        chars[count] == '\n' ==> line_of(chars.take(count + 1)) == line_of(chars.take(count)) + 1
            && column_of(chars.take(count + 1)) == 1,
        chars[count] != '\n' ==> line_of(chars.take(count + 1)) == line_of(chars.take(count))
            && column_of(chars.take(count + 1)) == column_of(chars.take(count)) + 1,
{
    assert(chars.take(count + 1).drop_last() == chars.take(count));
    assert(chars.take(count + 1).last() == chars[count]);
}

/// A longer prefix ends at a position that is no earlier.
pub proof fn lemma_position_monotone(chars: Seq<char>, shorter: int, longer: int)
    requires
        0 <= shorter <= longer <= chars.len(),
    ensures
        position_le(
            (line_of(chars.take(shorter)), column_of(chars.take(shorter))),
            (line_of(chars.take(longer)), column_of(chars.take(longer))),
        ),
    decreases longer - shorter,
{
    if shorter < longer {
        lemma_position_monotone(chars, shorter, longer - 1);
        lemma_position_step(chars, longer - 1);
    }
}

/// Line and column never go back as the offset grows: of two offsets, the
/// later one lies at a position that is no earlier, by line and then by
/// column.
pub proof fn lemma_line_column_monotone(chars: Seq<char>, first: int, second: int)
    requires
        first <= second,
    ensures
        position_le(
            (line_at(chars, first), column_at(chars, first)),
            (line_at(chars, second), column_at(chars, second)),
        ),
{
    lemma_chars_before_monotone(chars, first, second);
    lemma_chars_before_is_cut(chars, first);
    lemma_chars_before_is_cut(chars, second);
    lemma_position_monotone(
        chars,
        chars_before(chars, first) as int,
        chars_before(chars, second) as int,
    );
}

/// A position counts what was read: the line feeds and the characters after
/// the last of them are no more than the characters read.
pub proof fn lemma_position_bound(prefix: Seq<char>)
    ensures
        newline_count(prefix) + trailing_run(prefix) <= prefix.len(),
    decreases prefix.len(),
{
    if prefix.len() > 0 {
        lemma_position_bound(prefix.drop_last());
        lemma_trailing_run_le_len(prefix.drop_last());
    }
}

/// The run after the last line feed is no longer than the text.
pub proof fn lemma_trailing_run_le_len(chars: Seq<char>)
    ensures
        trailing_run(chars) <= chars.len(),
    decreases chars.len(),
{
    if chars.len() > 0 && chars.last() != '\n' {
        lemma_trailing_run_le_len(chars.drop_last());
    }
}

} // verus!
