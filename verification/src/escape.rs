//! Escape sequences in rendered text, and what is left of a text when they
//! are taken out.
//!
//! An escape sequence begins with the escape character and ends with the
//! next `m`.

use crate::file::LocationView;
use crate::render::{
    block, flatten, header, headline, label_decoration, layout, lemma_plain_is_stripped, pointer,
    showable, visible, Piece,
};
use crate::report::{ReportView, Severity};
use crate::snippet::{lemma_line_end_bounds, line_end, line_start, nth_line};
use crate::styles::{Decoration, Styles};
use crate::text::{decimal, lemma_decimal_digits};
use vstd::prelude::*;

verus! {

/// Whether, after `text`, an escape sequence has begun and not ended;
/// `inside` says whether one had before `text`.
pub open spec fn ends_inside(text: Seq<char>, inside: bool) -> bool
    decreases text.len(),
{
    if text.len() == 0 {
        inside
    } else if inside {
        ends_inside(text.drop_first(), text[0] != 'm')
    } else {
        ends_inside(text.drop_first(), text[0] == '\x1b')
    }
}

/// `text` without the characters of escape sequences; `inside` says whether
/// an escape sequence had begun before `text`.
pub open spec fn strip(text: Seq<char>, inside: bool) -> Seq<char>
    decreases text.len(),
{
    if text.len() == 0 {
        Seq::empty()
    } else if inside {
        strip(text.drop_first(), text[0] != 'm')
    } else if text[0] == '\x1b' {
        strip(text.drop_first(), true)
    } else {
        seq![text[0]] + strip(text.drop_first(), false)
    }
}

/// `text` with every escape sequence taken out.
pub open spec fn without_escapes(text: Seq<char>) -> Seq<char> {
    strip(text, false)
}

/// `text` holds no escape character.
pub open spec fn escape_free(text: Seq<char>) -> bool {
    forall|i: int| 0 <= i < text.len() ==> text[i] != '\x1b'
}

/// `code` is nothing, or one escape sequence and nothing else.
pub open spec fn is_code(code: Seq<char>) -> bool {
    code.len() == 0 || (code.len() >= 2 && code[0] == '\x1b' && code.last() == 'm' && forall|
        i: int,
    |
        0 < i < code.len() - 1 ==> code[i] != 'm')
}

/// The texts of `report` hold no escape character: neither its message nor,
/// where it has a location, the path and the text of the file.
pub open spec fn report_escape_free(report: ReportView) -> bool {
    &&& escape_free(report.message)
    &&& report.location matches Some(place) ==> escape_free(place.file.path) && escape_free(
        place.file.source,
    )
}

/// Every text piece is free of escape characters, and every code piece is
/// nothing or one escape sequence.
pub open spec fn well_formed(pieces: Seq<Piece>) -> bool {
    forall|i: int|
        0 <= i < pieces.len() ==> match #[trigger] pieces[i] {
            Piece::Code(code) => is_code(code),
            Piece::Text(text) => escape_free(text),
        }
}

/// Stripping a text in two parts: the second part goes on where the first
/// ended.
pub proof fn lemma_strip_concat(first: Seq<char>, second: Seq<char>, inside: bool)
    ensures
        strip(first + second, inside) == strip(first, inside) + strip(
            second,
            ends_inside(first, inside),
        ),
        ends_inside(first + second, inside) == ends_inside(second, ends_inside(first, inside)),
    decreases first.len(),
{
    if first.len() == 0 {
        assert(first + second == second);
    } else {
        let next = if inside {
            first[0] != 'm'
        } else {
            first[0] == '\x1b'
        };
        assert((first + second).drop_first() == first.drop_first() + second);
        assert((first + second)[0] == first[0]);
        lemma_strip_concat(first.drop_first(), second, next);
        if !inside && first[0] != '\x1b' {
            assert(seq![first[0]] + (strip(first.drop_first(), false) + strip(
                second,
                ends_inside(first.drop_first(), false),
            )) == seq![first[0]] + strip(first.drop_first(), false) + strip(
                second,
                ends_inside(first.drop_first(), false),
            ));
        }
    }
}

/// A text without an escape character is left as it is.
pub proof fn lemma_strip_text(text: Seq<char>)
    requires
        escape_free(text),
    ensures
        strip(text, false) == text,
        !ends_inside(text, false),
    decreases text.len(),
{
    if text.len() > 0 {
        let rest = text.drop_first();
        assert forall|i: int| 0 <= i < rest.len() implies rest[i] != '\x1b' by {
            assert(rest[i] == text[i + 1]);
        }
        lemma_strip_text(rest);
        assert(seq![text[0]] + rest == text);
    }
}

/// Inside an escape sequence, everything up to the first `m` is taken out.
proof fn lemma_strip_inside(code: Seq<char>)
    requires
        code.len() >= 1,
        code.last() == 'm',
        forall|i: int| 0 <= i < code.len() - 1 ==> code[i] != 'm',
    ensures
        strip(code, true) == Seq::<char>::empty(),
        !ends_inside(code, true),
    decreases code.len(),
{
    let rest = code.drop_first();
    if code.len() > 1 {
        assert(code[0] != 'm');
        assert(rest.last() == code.last());
        assert forall|i: int| 0 <= i < rest.len() - 1 implies rest[i] != 'm' by {
            assert(rest[i] == code[i + 1]);
        }
        lemma_strip_inside(rest);
    } else {
        assert(code[0] == code.last());
        assert(strip(rest, false) == Seq::<char>::empty());
        assert(!ends_inside(rest, false));
    }
}

/// Nothing is left of a code.
pub proof fn lemma_strip_code(code: Seq<char>)
    requires
        is_code(code),
    ensures
        strip(code, false) == Seq::<char>::empty(),
        !ends_inside(code, false),
{
    if code.len() > 0 {
        let rest = code.drop_first();
        assert(rest.last() == code.last());
        assert forall|i: int| 0 <= i < rest.len() - 1 implies rest[i] != 'm' by {
            assert(rest[i] == code[i + 1]);
        }
        lemma_strip_inside(rest);
    }
}

/// What opens and what closes a decoration is nothing, or one escape
/// sequence.
pub proof fn lemma_decoration_codes(decoration: Decoration)
    ensures
        is_code(decoration.opening()),
        is_code(decoration.closing()),
{
}

/// Of well-formed pieces, what is left without escape sequences is what is
/// seen.
pub proof fn lemma_strip_pieces(pieces: Seq<Piece>)
    requires
        well_formed(pieces),
    ensures
        without_escapes(flatten(pieces)) == visible(pieces),
        !ends_inside(flatten(pieces), false),
    decreases pieces.len(),
{
    if pieces.len() > 0 {
        let front = pieces.drop_last();
        assert forall|i: int| 0 <= i < front.len() implies match #[trigger] front[i] {
            Piece::Code(code) => is_code(code),
            Piece::Text(text) => escape_free(text),
        } by {
            assert(front[i] == pieces[i]);
        }
        lemma_strip_pieces(front);
        lemma_strip_concat(flatten(front), pieces.last().chars(), false);
        match pieces.last() {
            Piece::Code(code) => {
                lemma_strip_code(code);
                assert(visible(front) + Seq::<char>::empty() == visible(front));
            },
            Piece::Text(text) => {
                lemma_strip_text(text);
            },
        }
    }
}

/// Well-formed pieces, one sequence after another, are well-formed.
pub proof fn lemma_well_formed_concat(first: Seq<Piece>, second: Seq<Piece>)
    requires
        well_formed(first),
        well_formed(second),
    ensures
        well_formed(first + second),
{
    assert forall|i: int| 0 <= i < (first + second).len() implies match #[trigger] (first
        + second)[i] {
        Piece::Code(code) => is_code(code),
        Piece::Text(text) => escape_free(text),
    } by {
        if i < first.len() {
            assert((first + second)[i] == first[i]);
        } else {
            assert((first + second)[i] == second[i - first.len()]);
        }
    }
}

/// A line of a text holds no character that the text does not hold.
pub proof fn lemma_line_escape_free(chars: Seq<char>, index: nat)
    requires
        escape_free(chars),
        nth_line(chars, index) is Some,
    ensures
        escape_free(nth_line(chars, index).unwrap()),
{
    let start = line_start(chars, index).unwrap();
    lemma_line_start_bounds(chars, index);
    lemma_line_end_bounds(chars, start);
    let end = line_end(chars, start);
    let whole = chars.subrange(start, end);
    let line = nth_line(chars, index).unwrap();
    assert forall|i: int| 0 <= i < line.len() implies line[i] != '\x1b' by {
        assert(line[i] == whole[i]);
        assert(whole[i] == chars[start + i]);
    }
}

/// A line begins within the text, or at its end.
pub proof fn lemma_line_start_bounds(chars: Seq<char>, index: nat)
    requires
        line_start(chars, index) is Some,
    ensures
        0 <= line_start(chars, index).unwrap() <= chars.len(),
    decreases index,
{
    if index > 0 {
        lemma_line_start_bounds(chars, (index - 1) as nat);
        lemma_line_end_bounds(chars, line_start(chars, (index - 1) as nat).unwrap());
    }
}

/// The label of a severity holds no escape character.
pub proof fn lemma_label_escape_free(severity: Severity)
    ensures
        escape_free(severity.label_spec()),
{
    reveal_strlit("note");
    reveal_strlit("warning");
    reveal_strlit("error");
    reveal_strlit("bug");
}

/// The text of a location holds no escape character, if the path holds
/// none.
pub proof fn lemma_place_escape_free(place: LocationView)
    requires
        escape_free(place.file.path),
    ensures
        escape_free(place.text() + seq![' ']),
{
    lemma_decimal_digits(place.line());
    lemma_decimal_digits(place.column());
}

/// The pieces of the block of a report whose texts hold no escape character
/// are well-formed.
pub proof fn lemma_block_well_formed(styles: Styles, report: ReportView)
    requires
        showable(report),
        report_escape_free(report),
    ensures
        well_formed(block(styles, report)),
{
    let middle = headline(styles, report.severity, report.message);
    lemma_label_escape_free(report.severity);
    lemma_decoration_codes(label_decoration(styles, report.severity));
    lemma_decoration_codes(styles.colon);
    lemma_decoration_codes(styles.message);
    lemma_decoration_codes(styles.location);
    lemma_decoration_codes(styles.snippet);
    lemma_decoration_codes(styles.cursor);
    assert(well_formed(middle));
    match report.location {
        Some(place) => {
            let line = place.snippet().unwrap();
            lemma_place_escape_free(place);
            lemma_line_escape_free(place.file.source, (place.line() - 1) as nat);
            let first = header(styles, place);
            let last = pointer(styles, line, place.column());
            assert(well_formed(first));
            assert(well_formed(last));
            lemma_well_formed_concat(first, middle);
            lemma_well_formed_concat(first + middle, last);
        },
        None => {},
    }
}

/// The pieces rendered for reports whose texts hold no escape character are
/// well-formed.
pub proof fn lemma_layout_well_formed(styles: Styles, reports: Seq<ReportView>)
    requires
        forall|i: int| 0 <= i < reports.len() ==> showable(#[trigger] reports[i]),
        forall|i: int| 0 <= i < reports.len() ==> report_escape_free(#[trigger] reports[i]),
    ensures
        well_formed(layout(styles, reports)),
    decreases reports.len(),
{
    if reports.len() > 0 {
        let front = reports.drop_last();
        assert forall|i: int| 0 <= i < front.len() implies showable(#[trigger] front[i]) by {
            assert(front[i] == reports[i]);
        }
        assert forall|i: int| 0 <= i < front.len() implies report_escape_free(
            #[trigger] front[i],
        ) by {
            assert(front[i] == reports[i]);
        }
        lemma_layout_well_formed(styles, front);
        lemma_block_well_formed(styles, reports.last());
        lemma_well_formed_concat(layout(styles, front), block(styles, reports.last()));
    }
}

/// Rendering with no decoration gives the text that rendering with any
/// decorations gives, once its escape sequences are taken out, for reports
/// that can be rendered and whose own texts hold no escape character.
pub proof fn lemma_plain_is_styled_without_escapes(styles: Styles, reports: Seq<ReportView>)
    requires
        forall|i: int| 0 <= i < reports.len() ==> showable(#[trigger] reports[i]),
        forall|i: int| 0 <= i < reports.len() ==> report_escape_free(#[trigger] reports[i]),
    ensures
        without_escapes(flatten(layout(styles, reports))) == flatten(
            layout(Styles::plain_spec(), reports),
        ),
{
    lemma_layout_well_formed(styles, reports);
    lemma_strip_pieces(layout(styles, reports));
    lemma_plain_is_stripped(styles, reports);
}

} // verus!
