//! The lines of a text, as a report shows them.
//!
//! A line ends at a line feed, or at the end of the text. The line feed is
//! not part of the line, nor is a carriage return that stands directly
//! before it. After the last line feed the text holds one more line only if
//! it holds anything at all: the empty text has no line, and `"a\n"` has
//! one.

use crate::position::{
    byte_length, chars_before, column_at, lemma_chars_before_is_cut, lemma_cut_is_chars_before,
    lemma_length_le_byte_length, lemma_start_of_next, line_at, newline_count, scalar_length,
    trailing_run,
};
use vstd::prelude::*;
use vstd::std_specs::iter::IteratorSpec;

verus! {

/// Index of the first line feed of `chars` at or after `from`, or the length
/// of `chars` where there is none.
pub open spec fn line_end(chars: Seq<char>, from: int) -> int
    decreases chars.len() - from,
{
    if from >= chars.len() {
        chars.len() as int
    } else if chars[from] == '\n' {
        from
    } else {
        line_end(chars, from + 1)
    }
}

/// Index at which the line with index `index` begins: 0 for the first line,
/// else one past the line feed that ends the line before. `None` where
/// `chars` holds fewer than `index` line feeds.
pub open spec fn line_start(chars: Seq<char>, index: nat) -> Option<int>
    decreases index,
{
    if index == 0 {
        Some(0)
    } else {
        match line_start(chars, (index - 1) as nat) {
            Some(start) => {
                let end = line_end(chars, start);
                if end < chars.len() {
                    Some(end + 1)
                } else {
                    None
                }
            },
            None => None,
        }
    }
}

/// `line` without the carriage return at its end, if it was ended by a line
/// feed and has one.
pub open spec fn without_carriage_return(line: Seq<char>, ended: bool) -> Seq<char> {
    if ended && line.len() > 0 && line.last() == '\r' {
        line.drop_last()
    } else {
        line
    }
}

/// The line of `chars` with index `index`, counted from 0, or `None` where
/// `chars` has no such line.
pub open spec fn nth_line(chars: Seq<char>, index: nat) -> Option<Seq<char>> {
    match line_start(chars, index) {
        Some(start) => {
            let end = line_end(chars, start);
            if start < chars.len() {
                Some(without_carriage_return(chars.subrange(start, end), end < chars.len()))
            } else {
                None
            }
        },
        None => None,
    }
}

/// A stretch without a line feed that reaches a line feed, or the end of the
/// text, is where `line_end` stops.
pub proof fn lemma_line_end(chars: Seq<char>, from: int, end: int)
    requires
        0 <= from <= end <= chars.len(),
        forall|i: int| from <= i < end ==> chars[i] != '\n',
        end < chars.len() ==> chars[end] == '\n',
    ensures
        line_end(chars, from) == end,
    decreases end - from,
{
    if from < end {
        lemma_line_end(chars, from + 1, end);
    }
}

/// Once a text has run out of lines, it has none with a larger index.
pub proof fn lemma_no_later_line(chars: Seq<char>, index: nat, later: nat)
    requires
        index <= later,
        line_start(chars, index) is None,
    ensures
        line_start(chars, later) is None,
    decreases later,
{
    if index < later {
        lemma_no_later_line(chars, index, (later - 1) as nat);
    }
}

/// The line of `source` with index `index`, counted from 0, or `None` where
/// `source` has no such line.
pub fn line_of_text(source: &str, index: usize) -> (line: Option<&str>)
    ensures
        line is Some <==> nth_line(source@, index as nat) is Some,
        line matches Some(text) ==> Some(text@) == nth_line(source@, index as nat),
{
    let ghost chars = source@;
    let total = source.as_bytes().len();
    proof {
        lemma_length_le_byte_length(chars);
        assert(chars.skip(0) == chars);
    }
    let mut rest = source.chars();
    let mut seen: usize = 0;
    let mut start: usize = 0;
    let mut current: usize = 0;
    while current < index
        invariant
            current <= index,
            chars == source@,
            start <= seen <= chars.len() <= total,
            line_start(chars, current as nat) == Some(start as int),
            forall|i: int| start <= i < seen ==> chars[i] != '\n',
            current == index ==> seen == start,
            rest.remaining() == chars.skip(seen as int),
            rest.obeys_prophetic_iter_laws(),
        decreases chars.len() - seen,
    {
        match rest.next() {
            None => {
                proof {
                    lemma_line_end(chars, start as int, seen as int);
                    assert(line_start(chars, (current + 1) as nat) is None);
                    lemma_no_later_line(chars, (current + 1) as nat, index as nat);
                }
                return None;
            },
            Some(c) => {
                proof {
                    assert(chars.skip(seen as int).drop_first() == chars.skip(seen + 1));
                }
                if c == '\n' {
                    proof {
                        lemma_line_end(chars, start as int, seen as int);
                    }
                    current += 1;
                    start = seen + 1;
                }
                seen += 1;
            },
        }
    }
    let mut carriage = false;
    loop
        invariant
            start <= seen <= chars.len() <= total,
            chars == source@,
            line_start(chars, index as nat) == Some(start as int),
            forall|i: int| start <= i < seen ==> chars[i] != '\n',
            carriage <==> seen > start && chars[seen - 1] == '\r',
            rest.remaining() == chars.skip(seen as int),
            rest.obeys_prophetic_iter_laws(),
        decreases chars.len() - seen,
    {
        match rest.next() {
            None => {
                proof {
                    lemma_line_end(chars, start as int, seen as int);
                }
                if seen == start {
                    return None;
                }
                let text = source.substring_char(start, seen);
                return Some(text);
            },
            Some(c) => {
                proof {
                    assert(chars.skip(seen as int).drop_first() == chars.skip(seen + 1));
                }
                if c == '\n' {
                    proof {
                        lemma_line_end(chars, start as int, seen as int);
                    }
                    let end = if carriage {
                        seen - 1
                    } else {
                        seen
                    };
                    let text = source.substring_char(start, end);
                    proof {
                        let whole = chars.subrange(start as int, seen as int);
                        if carriage {
                            assert(whole.last() == chars[seen - 1]);
                            assert(whole.drop_last() == chars.subrange(start as int, end as int));
                        }
                    }
                    return Some(text);
                }
                carriage = c == '\r';
                seen += 1;
            },
        }
    }
}

/// The run after the last line feed of a text holds no line feed, and is
/// empty only where the text is empty or ends in a line feed.
pub proof fn lemma_trailing_run_has_no_newline(chars: Seq<char>)
    ensures
        trailing_run(chars) <= chars.len(),
        forall|i: int| chars.len() - trailing_run(chars) <= i < chars.len() ==> chars[i] != '\n',
        trailing_run(chars) == 0 <==> chars.len() == 0 || chars.last() == '\n',
    decreases chars.len(),
{
    if chars.len() > 0 && chars.last() != '\n' {
        let front = chars.drop_last();
        lemma_trailing_run_has_no_newline(front);
        assert forall|i: int| chars.len() - trailing_run(chars) <= i < chars.len() implies chars[i]
            != '\n' by {
            if i < front.len() {
                assert(front[i] == chars[i]);
            }
        }
    }
}

/// `line_end` gives an index from `from` to the length of the text, with no
/// line feed between `from` and it.
pub proof fn lemma_line_end_bounds(chars: Seq<char>, from: int)
    requires
        0 <= from <= chars.len(),
    ensures
        from <= line_end(chars, from) <= chars.len(),
        forall|i: int| from <= i < line_end(chars, from) ==> chars[i] != '\n',
        line_end(chars, from) < chars.len() ==> chars[line_end(chars, from)] == '\n',
    decreases chars.len() - from,
{
    if from < chars.len() && chars[from] != '\n' {
        lemma_line_end_bounds(chars, from + 1);
    }
}

/// A stretch without a line feed ends no later than its line.
pub proof fn lemma_line_end_after(chars: Seq<char>, from: int, until: int)
    requires
        0 <= from <= until <= chars.len(),
        forall|i: int| from <= i < until ==> chars[i] != '\n',
    ensures
        until <= line_end(chars, from),
    decreases until - from,
{
    if from < until {
        assert(chars[from] != '\n');
        lemma_line_end_after(chars, from + 1, until);
    } else {
        lemma_line_end_bounds(chars, from);
    }
}

/// The line that the first `count` characters of a text end in begins where
/// the run after their last line feed begins.
pub proof fn lemma_line_start_of_prefix(chars: Seq<char>, count: int)
    requires
        0 <= count <= chars.len(),
    ensures
        line_start(chars, newline_count(chars.take(count))) == Some(
            count - trailing_run(chars.take(count)),
        ),
    decreases count,
{
    if count > 0 {
        let shorter = chars.take(count - 1);
        assert(chars.take(count).drop_last() == shorter);
        assert(chars.take(count).last() == chars[count - 1]);
        lemma_line_start_of_prefix(chars, count - 1);
        if chars[count - 1] == '\n' {
            lemma_trailing_run_has_no_newline(shorter);
            let start = count - 1 - trailing_run(shorter);
            assert forall|i: int| start <= i < count - 1 implies chars[i] != '\n' by {
                assert(shorter[i] == chars[i]);
            }
            lemma_line_end(chars, start, count - 1);
        }
    }
}

/// A text has the line that a valid offset lies in, unless the offset is at
/// the end of a text that is empty or ends in a line feed.
pub proof fn lemma_located_line_exists(chars: Seq<char>, offset: int)
    requires
        0 <= offset <= byte_length(chars),
    ensures
        nth_line(chars, (line_at(chars, offset) - 1) as nat) is None <==> offset == byte_length(
            chars,
        ) && (chars.len() == 0 || chars.last() == '\n'),
{
    let count = chars_before(chars, offset) as int;
    let prefix = chars.take(count);
    let start = count - trailing_run(prefix);
    lemma_chars_before_is_cut(chars, offset);
    lemma_line_start_of_prefix(chars, count);
    lemma_trailing_run_has_no_newline(prefix);
    assert(chars.take(chars.len() as int) == chars);
    assert(nth_line(chars, (line_at(chars, offset) - 1) as nat) is None <==> start == chars.len());
    if chars.len() == 0 {
        assert(byte_length(chars) == 0);
    } else {
        let last = chars.len() - 1;
        lemma_start_of_next(chars, last);
        if chars.last() == '\n' {
            assert(scalar_length('\n') == 1);
            if offset == byte_length(chars) {
                lemma_cut_is_chars_before(chars, offset, chars.len() as int);
            }
        }
        if start == chars.len() {
            assert(prefix == chars);
        }
    }
}

/// How the cursor stands under the line that an offset lies in.
///
/// The characters of the line before the cursor are the characters of the
/// text between the beginning of the line and the offset. The cursor stands
/// under a character of the line, or directly after its last character, or,
/// under a line feed that follows a carriage return, one place further.
pub proof fn lemma_located_line_cursor(chars: Seq<char>, offset: int)
    requires
        nth_line(chars, (line_at(chars, offset) - 1) as nat) is Some,
    ensures
        ({
            let line = nth_line(chars, (line_at(chars, offset) - 1) as nat).unwrap();
            let count = chars_before(chars, offset) as int;
            let before = column_at(chars, offset) - 1;
            &&& 0 <= before <= count <= chars.len()
            &&& before <= line.len() + 1
            &&& forall|i: int|
                0 <= i < before && i < line.len() ==> line[i] == chars[count - before + i]
        }),
{
    let count = chars_before(chars, offset) as int;
    let prefix = chars.take(count);
    let start = count - trailing_run(prefix);
    lemma_chars_before_is_cut(chars, offset);
    lemma_line_start_of_prefix(chars, count);
    lemma_trailing_run_has_no_newline(prefix);
    assert forall|i: int| start <= i < count implies chars[i] != '\n' by {
        assert(prefix[i] == chars[i]);
    }
    lemma_line_end_bounds(chars, start);
    lemma_line_end_after(chars, start, count);
}

} // verus!
