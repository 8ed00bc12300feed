//! How many terminal columns a character takes, and what that makes of the
//! cursor line under a snippet.

use crate::text::{lemma_run_concat, push_spaces, run};
use vstd::prelude::*;
use vstd::std_specs::iter::IteratorSpec;

verus! {

/// The width in columns that `unicode_width::UnicodeWidthChar::width` gives
/// for `c`: `None` for a control character, else the number of columns.
pub uninterp spec fn display_width(c: char) -> Option<usize>;

/// Calls `unicode_width::UnicodeWidthChar::width`. The contract names the
/// result and claims nothing else of it: the width is a function of the
/// character alone.
#[verifier::external_body]
fn char_width(c: char) -> (width: Option<usize>)
    ensures
        width == display_width(c),
{
    unicode_width::UnicodeWidthChar::width(c)
}

/// Columns by which a character of the given width moves what follows it: a
/// character without a width counts as one column.
pub open spec fn advance_columns(width: Option<usize>) -> nat {
    match width {
        Some(columns) => columns as nat,
        None => 1,
    }
}

/// Columns that the marker under a character of the given width takes: the
/// width of the character, and one column where it has none or is zero
/// columns wide.
pub open spec fn marker_columns(width: Option<usize>) -> nat {
    match width {
        Some(columns) => if columns == 0 {
            1
        } else {
            columns as nat
        },
        None => 1,
    }
}

/// Columns taken by the first `count` characters of `line`, or by all of
/// them where it has fewer.
pub open spec fn columns_before(line: Seq<char>, count: nat) -> nat
    decreases count,
{
    if count == 0 {
        0
    } else if count > line.len() {
        columns_before(line, line.len())
    } else {
        columns_before(line, (count - 1) as nat) + advance_columns(
            display_width(line[count - 1]),
        )
    }
}

/// Columns of the marker under the character with index `index` of `line`:
/// one where the line ends before it.
pub open spec fn marker_width(line: Seq<char>, index: nat) -> nat {
    if index < line.len() {
        marker_columns(display_width(line[index as int]))
    } else {
        1
    }
}

/// Columns by which a character of the given width moves what follows it.
pub fn advance_of(width: Option<usize>) -> (columns: usize)
    ensures
        columns == advance_columns(width),
{
    match width {
        Some(columns) => columns,
        None => 1,
    }
}

/// Columns that the marker under a character of the given width takes.
pub fn marker_of(width: Option<usize>) -> (columns: usize)
    ensures
        columns == marker_columns(width),
{
    match width {
        Some(columns) => if columns == 0 {
            1
        } else {
            columns
        },
        None => 1,
    }
}

/// Columns by which `c` moves what follows it on its line.
pub fn advance_of_char(c: char) -> (columns: usize)
    ensures
        columns == advance_columns(display_width(c)),
{
    advance_of(char_width(c))
}

/// Columns that the marker under `c` takes.
pub fn marker_of_char(c: char) -> (columns: usize)
    ensures
        columns == marker_columns(display_width(c)),
{
    marker_of(char_width(c))
}

/// Under a line whose characters before the cursor are all one column wide,
/// the cursor is moved right by as many columns as characters come before
/// it.
pub proof fn lemma_single_width_columns(line: Seq<char>, count: nat)
    requires
        count <= line.len(),
        forall|i: int| 0 <= i < count ==> #[trigger] display_width(line[i]) == Some(1usize),
    ensures
        columns_before(line, count) == count,
    decreases count,
{
    if count > 0 {
        lemma_single_width_columns(line, (count - 1) as nat);
    }
}

/// Appends to `out` the spaces that stand before the cursor under `line`,
/// for a cursor under the character with index `index`, and gives the
/// number of columns that the marker takes.
///
/// The spaces are as many as the columns that the characters before the
/// cursor take. Where the line ends before `index`, the cursor stands
/// directly after its last character and the marker takes one column.
pub fn push_cursor_padding(out: &mut String, line: &str, index: usize) -> (marker: usize)
    ensures
        final(out)@ == old(out)@ + run(' ', columns_before(line@, index as nat)),
        marker == marker_width(line@, index as nat),
{
    let ghost chars = line@;
    let mut rest = line.chars();
    let mut seen: usize = 0;
    let ghost mut columns: nat = 0;
    proof {
        assert(chars.skip(0) == chars);
        assert(out@ =~= old(out)@ + run(' ', 0));
    }
    loop
        invariant
            chars == line@,
            seen <= index,
            seen <= chars.len(),
            columns == columns_before(chars, seen as nat),
            out@ == old(out)@ + run(' ', columns),
            rest.remaining() == chars.skip(seen as int),
            rest.obeys_prophetic_iter_laws(),
        decreases chars.len() - seen,
    {
        match rest.next() {
            None => {
                proof {
                    lemma_columns_past_end(chars, index as nat);
                }
                return 1;
            },
            Some(c) => {
                if seen == index {
                    return marker_of_char(c);
                }
                let ghost before = out@;
                let width = advance_of_char(c);
                push_spaces(out, width);
                proof {
                    assert(chars.skip(seen as int).drop_first() == chars.skip(seen + 1));
                    lemma_run_concat(' ', columns, width as nat);
                    assert(out@ =~= old(out)@ + (run(' ', columns) + run(' ', width as nat)));
                    columns = columns + width as nat;
                }
                seen += 1;
            },
        }
    }
}

/// A cursor at or past the end of the line has all of the line before it.
pub proof fn lemma_columns_past_end(line: Seq<char>, count: nat)
    requires
        line.len() <= count,
    ensures
        columns_before(line, count) == columns_before(line, line.len()),
{
}

} // verus!
