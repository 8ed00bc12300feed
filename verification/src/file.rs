//! Source files and the places in them that reports point at.

use crate::position::{
    byte_length, column_at, column_of, is_cut, lemma_cut_is_chars_before,
    lemma_length_le_byte_length, lemma_origin, lemma_position_bound, lemma_position_step,
    lemma_start_of_monotone, lemma_start_of_next, line_at, line_of, scalar_length, start_of,
};
use crate::snippet::{line_of_text, nth_line};
use crate::text::{decimal, push_decimal};
use std::sync::Arc;
use vstd::prelude::*;
use vstd::std_specs::iter::IteratorSpec;

verus! {

/// Number of bytes that `c` takes in UTF-8.
pub fn utf8_length(c: char) -> (length: usize)
    ensures
        length == scalar_length(c),
{
    let code = c as u32;
    if code <= 0x7F {
        1
    } else if code <= 0x7FF {
        2
    } else if code <= 0xFFFF {
        3
    } else {
        4
    }
}

/// What a [`File`] is: its path and its text.
pub struct FileView {
    pub path: Seq<char>,
    pub source: Seq<char>,
}

/// A source file: the path it is known by and its text.
#[derive(Debug, Hash, PartialEq, Eq)]
pub struct File {
    path: String,
    source: String,
}

impl View for File {
    type V = FileView;

    closed spec fn view(&self) -> FileView {
        FileView { path: self.path@, source: self.source@ }
    }
}

impl Clone for File {
    fn clone(&self) -> (copy: File)
        ensures
            copy@ == self@,
    {
        proof {
            use_type_invariant(self);
        }
        File { path: self.path.clone(), source: self.source.clone() }
    }
}

impl File {
    #[verifier::type_invariant]
    spec fn fits_in_memory(self) -> bool {
        byte_length(self.source@) <= isize::MAX
    }

    /// Makes a file of `path` and `source`, both kept as they are.
    ///
    /// The text has to be one that memory can hold: no allocation is longer
    /// than `isize::MAX` bytes.
    pub fn new(path: &str, source: &str) -> (file: Arc<File>)
        requires
            byte_length(source@) <= isize::MAX,
        ensures
            file@.path == path@,
            file@.source == source@,
    {
        Arc::new(File { path: String::from_str(path), source: String::from_str(source) })
    }

    /// The path of the file.
    pub fn path(&self) -> (path: &str)
        ensures
            path@ == self@.path,
    {
        self.path.as_str()
    }

    /// The text of the file.
    pub fn source(&self) -> (source: &str)
        ensures
            source@ == self@.source,
            byte_length(source@) <= isize::MAX,
    {
        proof {
            use_type_invariant(self);
        }
        self.source.as_str()
    }

    /// Line and column, both counted from 1, of the byte `offset` of the
    /// text, or `None` where the text has fewer than `offset` bytes.
    ///
    /// The characters that start before `offset` are read in order: a line
    /// feed begins the next line at column 1, any other character moves one
    /// column on.
    pub fn line_column(&self, offset: usize) -> (position: Option<(usize, usize)>)
        ensures
            position is Some <==> offset <= byte_length(self@.source),
            position matches Some(at) ==> at.0 == line_at(self@.source, offset as int) && at.1
                == column_at(self@.source, offset as int),
            offset == 0 ==> position == Some((1usize, 1usize)),
    {
        let source = self.source();
        let total = source.as_bytes().len();
        if offset > total {
            return None;
        }
        let ghost chars = source@;
        let mut rest = source.chars();
        let mut index: usize = 0;
        let mut line: usize = 1;
        let mut column: usize = 1;
        let ghost mut count: int = 0;
        proof {
            assert(chars.take(0) == Seq::<char>::empty());
            assert(chars.skip(0) == chars);
        }
        loop
            invariant
                0 <= count <= chars.len(),
                rest.remaining() == chars.skip(count),
                rest.obeys_prophetic_iter_laws(),
                index == start_of(chars, count),
                count > 0 ==> start_of(chars, count - 1) < offset,
                line == line_of(chars.take(count)),
                column == column_of(chars.take(count)),
                offset <= total == byte_length(chars) <= isize::MAX,
            ensures
                is_cut(chars, offset as int, count),
            decreases chars.len() - count,
        {
            if index >= offset {
                break ;
            }
            proof {
                assert(chars.take(chars.len() as int) == chars);
                lemma_position_bound(chars.take(count));
                lemma_length_le_byte_length(chars);
            }
            match rest.next() {
                None => {
                    break ;
                },
                Some(c) => {
                    proof {
                        lemma_start_of_next(chars, count);
                        lemma_position_step(chars, count);
                        assert(chars.skip(count).drop_first() == chars.skip(count + 1));
                        lemma_start_of_monotone(chars, count + 1, chars.len() as int);
                    }
                    if c == '\n' {
                        line += 1;
                        column = 1;
                    } else {
                        column += 1;
                    }
                    index += utf8_length(c);
                    proof {
                        count = count + 1;
                    }
                },
            }
        }
        proof {
            lemma_cut_is_chars_before(chars, offset as int, count);
            lemma_origin(chars);
        }
        Some((line, column))
    }
}

/// What a [`Location`] is: a file and a byte offset into its text.
pub struct LocationView {
    pub file: FileView,
    pub offset: nat,
}

impl LocationView {
    /// The offset lies within the text, or at its end.
    pub open spec fn valid(self) -> bool {
        self.offset <= byte_length(self.file.source)
    }

    /// One-based line of the location.
    pub open spec fn line(self) -> nat {
        line_at(self.file.source, self.offset as int)
    }

    /// One-based column of the location.
    pub open spec fn column(self) -> nat {
        column_at(self.file.source, self.offset as int)
    }

    /// The line of the text that the location lies in, or `None` where the
    /// text has no line with the location's line number: at the end of a
    /// text that is empty or ends in a line feed.
    pub open spec fn snippet(self) -> Option<Seq<char>> {
        nth_line(self.file.source, (self.line() - 1) as nat)
    }

    /// The location as text: path, line and column, with a colon between
    /// them.
    pub open spec fn text(self) -> Seq<char> {
        self.file.path + seq![':'] + decimal(self.line()) + seq![':'] + decimal(self.column())
    }
}

/// A place in a file: a byte offset that lies within the file's text, or at
/// its end.
#[derive(Debug, PartialEq, Eq)]
pub struct Location {
    file: Arc<File>,
    offset: usize,
}

impl View for Location {
    type V = LocationView;

    closed spec fn view(&self) -> LocationView {
        LocationView { file: self.file@, offset: self.offset as nat }
    }
}

impl Clone for Location {
    fn clone(&self) -> (copy: Location)
        ensures
            copy@ == self@,
    {
        proof {
            use_type_invariant(self);
        }
        Location { file: self.file.clone(), offset: self.offset }
    }
}

impl Location {
    #[verifier::type_invariant]
    spec fn in_bounds(self) -> bool {
        self.offset <= byte_length(self.file@.source)
    }

    /// The location at byte `offset` of `file`, for an offset that is known
    /// to lie within the text or at its end.
    pub fn new(file: Arc<File>, offset: usize) -> (location: Location)
        requires
            offset <= byte_length(file@.source),
        ensures
            location@.file == file@,
            location@.offset == offset,
            location@.valid(),
    {
        Location { file, offset }
    }

    /// The location at byte `offset` of `file`, or `None` where the text
    /// has fewer than `offset` bytes.
    pub fn try_new(file: Arc<File>, offset: usize) -> (location: Option<Location>)
        ensures
            location is Some <==> offset <= byte_length(file@.source),
            location matches Some(place) ==> place@.file == file@ && place@.offset == offset
                && place@.valid(),
    {
        if offset > file.source().as_bytes().len() {
            None
        } else {
            Some(Location { file, offset })
        }
    }

    /// The file that the location lies in.
    pub fn file(&self) -> (file: Arc<File>)
        ensures
            file@ == self@.file,
    {
        self.file.clone()
    }

    /// The byte offset of the location in the text of its file.
    pub fn offset(&self) -> (offset: usize)
        ensures
            offset == self@.offset,
            self@.valid(),
    {
        proof {
            use_type_invariant(self);
        }
        self.offset
    }

    /// Line and column of the location, both counted from 1.
    pub fn line_column(&self) -> (position: (usize, usize))
        ensures
            position.0 == self@.line(),
            position.1 == self@.column(),
    {
        proof {
            use_type_invariant(self);
        }
        match self.file.line_column(self.offset) {
            Some(position) => position,
            None => {
                proof {
                    assert(false);
                }
                (1, 1)
            },
        }
    }

    /// The line of the text that the location lies in, or `None` where the
    /// text has no line with the location's line number.
    pub fn snippet(&self) -> (line: Option<&str>)
        ensures
            line is Some <==> self@.snippet() is Some,
            line matches Some(text) ==> Some(text@) == self@.snippet(),
    {
        let (line, _) = self.line_column();
        line_of_text(self.file.source(), line - 1)
    }

    /// The location as text: path, line and column, with a colon between
    /// them.
    pub fn to_string(&self) -> (text: String)
        ensures
            text@ == self@.text(),
    {
        let (line, column) = self.line_column();
        let mut text = String::from_str(self.file.path());
        proof {
            reveal_strlit(":");
        }
        text.append(":");
        push_decimal(&mut text, line);
        text.append(":");
        push_decimal(&mut text, column);
        text
    }
}

} // verus!
