//! Laying reports out as text.
//!
//! What is rendered is a sequence of pieces, each either an escape sequence
//! that decorates or text that is seen. The rendered text is all pieces in
//! order; what a reader sees on a terminal is the text pieces alone.

use crate::file::{Location, LocationView};
use crate::report::{Report, ReportView, Severity};
use crate::styles::{Decoration, Styles};
use crate::text::{push_carets, run};
use crate::width::{
    columns_before, display_width, lemma_single_width_columns, marker_width, push_cursor_padding,
};
use vstd::prelude::*;

verus! {

/// A piece of what is rendered.
pub enum Piece {
    /// An escape sequence: it changes how what follows is shown, and is not
    /// itself seen.
    Code(Seq<char>),
    /// Text that is seen.
    Text(Seq<char>),
}

impl Piece {
    /// The characters of the piece.
    pub open spec fn chars(self) -> Seq<char> {
        match self {
            Piece::Code(chars) => chars,
            Piece::Text(chars) => chars,
        }
    }

    /// The characters of the piece that are seen.
    pub open spec fn seen(self) -> Seq<char> {
        match self {
            Piece::Code(_) => Seq::empty(),
            Piece::Text(chars) => chars,
        }
    }
}

/// All characters of `pieces`, in order.
pub open spec fn flatten(pieces: Seq<Piece>) -> Seq<char>
    decreases pieces.len(),
{
    if pieces.len() == 0 {
        Seq::empty()
    } else {
        flatten(pieces.drop_last()) + pieces.last().chars()
    }
}

/// The characters of `pieces` that are seen, in order: `pieces` with every
/// escape sequence taken out.
pub open spec fn visible(pieces: Seq<Piece>) -> Seq<char>
    decreases pieces.len(),
{
    if pieces.len() == 0 {
        Seq::empty()
    } else {
        visible(pieces.drop_last()) + pieces.last().seen()
    }
}

/// `text` in the decoration `decoration`.
pub open spec fn decorated(decoration: Decoration, text: Seq<char>) -> Seq<Piece> {
    seq![Piece::Code(decoration.opening()), Piece::Text(text), Piece::Code(decoration.closing())]
}

/// The decoration of the label of a report of the given severity.
pub open spec fn label_decoration(styles: Styles, severity: Severity) -> Decoration {
    match severity {
        Severity::Note => styles.note,
        Severity::Warning => styles.warning,
        Severity::Error => styles.error,
        Severity::Bug => styles.bug,
    }
}

/// The header of a report at `place`: path, line and column, then a space.
pub open spec fn header(styles: Styles, place: LocationView) -> Seq<Piece> {
    decorated(styles.location, place.text() + seq![' '])
}

/// The line that every report has: the label of its severity, a colon and a
/// space, and the message, each in its decoration, then a line feed.
pub open spec fn headline(styles: Styles, severity: Severity, message: Seq<char>) -> Seq<Piece> {
    decorated(label_decoration(styles, severity), severity.label_spec()) + decorated(
        styles.colon,
        seq![':', ' '],
    ) + decorated(styles.message, message) + seq![Piece::Text(seq!['\n'])]
}

/// The two lines that show where a report points: `line`, and under it the
/// marker, moved right by the columns that the characters before the
/// one-based `column` take.
pub open spec fn pointer(styles: Styles, line: Seq<char>, column: nat) -> Seq<Piece> {
    seq![
        Piece::Code(styles.snippet.opening()),
        Piece::Text(line + seq!['\n']),
        Piece::Code(styles.snippet.closing()),
        Piece::Text(run(' ', columns_before(line, (column - 1) as nat))),
        Piece::Code(styles.cursor.opening()),
        Piece::Text(run('^', marker_width(line, (column - 1) as nat))),
        Piece::Code(styles.cursor.closing()),
        Piece::Text(seq!['\n']),
    ]
}

/// What is rendered for one report: with a location the header, the
/// headline, the snippet and the cursor under it; without one the headline
/// alone.
pub open spec fn block(styles: Styles, report: ReportView) -> Seq<Piece> {
    match report.location {
        Some(place) => header(styles, place) + headline(styles, report.severity, report.message)
            + pointer(styles, place.snippet().unwrap(), place.column()),
        None => headline(styles, report.severity, report.message),
    }
}

/// What is rendered for `reports`: the block of each, in the order of the
/// reports.
pub open spec fn layout(styles: Styles, reports: Seq<ReportView>) -> Seq<Piece>
    decreases reports.len(),
{
    if reports.len() == 0 {
        Seq::empty()
    } else {
        layout(styles, reports.drop_last()) + block(styles, reports.last())
    }
}

/// The report can be rendered: where it has a location, the text of the
/// file has the line that the location lies in.
pub open spec fn showable(report: ReportView) -> bool {
    report.location matches Some(place) ==> place.snippet() is Some
}

/// All characters of two sequences of pieces are those of the first, then
/// those of the second.
pub proof fn lemma_flatten_concat(first: Seq<Piece>, second: Seq<Piece>)
    ensures
        flatten(first + second) == flatten(first) + flatten(second),
    decreases second.len(),
{
    if second.len() == 0 {
        assert(first + second == first);
    } else {
        lemma_flatten_concat(first, second.drop_last());
        assert((first + second).drop_last() == first + second.drop_last());
        assert((first + second).last() == second.last());
    }
}

/// What is seen of two sequences of pieces is what is seen of the first,
/// then what is seen of the second.
pub proof fn lemma_visible_concat(first: Seq<Piece>, second: Seq<Piece>)
    ensures
        visible(first + second) == visible(first) + visible(second),
    decreases second.len(),
{
    if second.len() == 0 {
        assert(first + second == first);
    } else {
        lemma_visible_concat(first, second.drop_last());
        assert((first + second).drop_last() == first + second.drop_last());
        assert((first + second).last() == second.last());
    }
}

/// A single piece flattens to its characters.
pub proof fn lemma_flatten_one(piece: Piece)
    ensures
        flatten(seq![piece]) == piece.chars(),
        visible(seq![piece]) == piece.seen(),
{
    assert(seq![piece].drop_last() == Seq::<Piece>::empty());
    assert(seq![piece].last() == piece);
    assert(flatten(seq![piece]) == flatten(Seq::<Piece>::empty()) + piece.chars());
    assert(visible(seq![piece]) == visible(Seq::<Piece>::empty()) + piece.seen());
}

/// A decorated text flattens to its opening, the text and its closing, and
/// shows the text alone.
pub proof fn lemma_decorated(decoration: Decoration, text: Seq<char>)
    ensures
        flatten(decorated(decoration, text)) == decoration.opening() + text + decoration.closing(),
        visible(decorated(decoration, text)) == text,
{
    let open = Piece::Code(decoration.opening());
    let body = Piece::Text(text);
    let close = Piece::Code(decoration.closing());
    assert(decorated(decoration, text) == seq![open] + seq![body] + seq![close]);
    lemma_flatten_one(open);
    lemma_flatten_one(body);
    lemma_flatten_one(close);
    lemma_flatten_concat(seq![open], seq![body]);
    lemma_flatten_concat(seq![open] + seq![body], seq![close]);
    lemma_visible_concat(seq![open], seq![body]);
    lemma_visible_concat(seq![open] + seq![body], seq![close]);
    assert(Seq::<char>::empty() + text + Seq::<char>::empty() == text);
}

/// The header flattens to the decorated place, and shows the place.
pub proof fn lemma_header(styles: Styles, place: LocationView)
    ensures
        flatten(header(styles, place)) == styles.location.opening() + (place.text() + seq![' '])
            + styles.location.closing(),
        visible(header(styles, place)) == place.text() + seq![' '],
{
    lemma_decorated(styles.location, place.text() + seq![' ']);
}

/// The headline flattens to its three decorated parts and a line feed, and
/// shows label, separator, message and line feed.
pub proof fn lemma_headline(styles: Styles, severity: Severity, message: Seq<char>)
    ensures
        flatten(headline(styles, severity, message)) == flatten(
            decorated(label_decoration(styles, severity), severity.label_spec()),
        ) + flatten(decorated(styles.colon, seq![':', ' '])) + flatten(
            decorated(styles.message, message),
        ) + seq!['\n'],
        visible(headline(styles, severity, message)) == severity.label_spec() + seq![':', ' ']
            + message + seq!['\n'],
{
    let label = decorated(label_decoration(styles, severity), severity.label_spec());
    let colon = decorated(styles.colon, seq![':', ' ']);
    let body = decorated(styles.message, message);
    let end = Piece::Text(seq!['\n']);
    lemma_flatten_concat(label, colon);
    lemma_flatten_concat(label + colon, body);
    lemma_flatten_concat(label + colon + body, seq![end]);
    lemma_visible_concat(label, colon);
    lemma_visible_concat(label + colon, body);
    lemma_visible_concat(label + colon + body, seq![end]);
    lemma_flatten_one(end);
    lemma_decorated(label_decoration(styles, severity), severity.label_spec());
    lemma_decorated(styles.colon, seq![':', ' ']);
    lemma_decorated(styles.message, message);
}

/// The snippet and the cursor line flatten to the line in its decoration,
/// the spaces, and the marker in its decoration; they show the line, and
/// under it the spaces and the marker.
pub proof fn lemma_pointer(styles: Styles, line: Seq<char>, column: nat)
    ensures
        flatten(pointer(styles, line, column)) == styles.snippet.opening() + (line + seq!['\n'])
            + styles.snippet.closing() + run(' ', columns_before(line, (column - 1) as nat))
            + styles.cursor.opening() + run('^', marker_width(line, (column - 1) as nat))
            + styles.cursor.closing() + seq!['\n'],
        visible(pointer(styles, line, column)) == line + seq!['\n'] + run(
            ' ',
            columns_before(line, (column - 1) as nat),
        ) + run('^', marker_width(line, (column - 1) as nat)) + seq!['\n'],
{
    let parts = pointer(styles, line, column);
    let columns = columns_before(line, (column - 1) as nat);
    let width = marker_width(line, (column - 1) as nat);
    assert forall|count: int| 0 < count <= parts.len() implies #[trigger] flatten(
        parts.take(count),
    ) == flatten(parts.take(count - 1)) + parts[count - 1].chars() && visible(parts.take(count))
        == visible(parts.take(count - 1)) + parts[count - 1].seen() by {
        assert(parts.take(count).drop_last() == parts.take(count - 1));
        assert(parts.take(count).last() == parts[count - 1]);
    }
    assert(parts.take(8) == parts);
    assert(flatten(parts.take(0)) == Seq::<char>::empty());
    assert(visible(parts.take(0)) == Seq::<char>::empty());
    assert(flatten(parts.take(1)) =~= styles.snippet.opening());
    assert(flatten(parts.take(2)) =~= flatten(parts.take(1)) + (line + seq!['\n']));
    assert(flatten(parts.take(3)) =~= flatten(parts.take(2)) + styles.snippet.closing());
    assert(flatten(parts.take(4)) =~= flatten(parts.take(3)) + run(' ', columns));
    assert(flatten(parts.take(5)) =~= flatten(parts.take(4)) + styles.cursor.opening());
    assert(flatten(parts.take(6)) =~= flatten(parts.take(5)) + run('^', width));
    assert(flatten(parts.take(7)) =~= flatten(parts.take(6)) + styles.cursor.closing());
    assert(flatten(parts.take(8)) =~= flatten(parts.take(7)) + seq!['\n']);
    assert(visible(parts.take(1)) =~= Seq::<char>::empty());
    assert(visible(parts.take(2)) =~= line + seq!['\n']);
    assert(visible(parts.take(3)) =~= visible(parts.take(2)));
    assert(visible(parts.take(4)) =~= visible(parts.take(3)) + run(' ', columns));
    assert(visible(parts.take(5)) =~= visible(parts.take(4)));
    assert(visible(parts.take(6)) =~= visible(parts.take(5)) + run('^', width));
    assert(visible(parts.take(7)) =~= visible(parts.take(6)));
    assert(visible(parts.take(8)) =~= visible(parts.take(7)) + seq!['\n']);
}

/// Appends `text` in the decoration `decoration` to `out`.
pub fn push_decorated(out: &mut String, decoration: Decoration, text: &str)
    ensures
        final(out)@ == old(out)@ + flatten(decorated(decoration, text@)),
{
    decoration.open(out);
    out.append(text);
    decoration.close(out);
    proof {
        lemma_decorated(decoration, text@);
        assert(out@ =~= old(out)@ + (decoration.opening() + text@ + decoration.closing()));
    }
}

/// The decoration of the label of a report of the given severity.
pub fn label_style(styles: &Styles, severity: Severity) -> (decoration: Decoration)
    ensures
        decoration == label_decoration(*styles, severity),
{
    match severity {
        Severity::Note => styles.note,
        Severity::Warning => styles.warning,
        Severity::Error => styles.error,
        Severity::Bug => styles.bug,
    }
}

/// Appends the header of a report at `place` to `out`.
pub fn push_header(out: &mut String, styles: &Styles, place: &Location)
    ensures
        final(out)@ == old(out)@ + flatten(header(*styles, place@)),
{
    let mut text = place.to_string();
    proof {
        reveal_strlit(" ");
    }
    text.append(" ");
    proof {
        assert(text@ =~= place@.text() + seq![' ']);
    }
    push_decorated(out, styles.location, text.as_str());
}

/// Appends the headline of a report to `out`.
pub fn push_headline(out: &mut String, styles: &Styles, severity: Severity, message: &str)
    ensures
        final(out)@ == old(out)@ + flatten(headline(*styles, severity, message@)),
{
    proof {
        reveal_strlit(": ");
        reveal_strlit("\n");
        assert(": "@ =~= seq![':', ' ']);
        assert("\n"@ =~= seq!['\n']);
    }
    push_decorated(out, label_style(styles, severity), severity.label());
    push_decorated(out, styles.colon, ": ");
    push_decorated(out, styles.message, message);
    out.append("\n");
    proof {
        lemma_headline(*styles, severity, message@);
        assert(out@ =~= old(out)@ + (flatten(
            decorated(label_decoration(*styles, severity), severity.label_spec()),
        ) + flatten(decorated(styles.colon, seq![':', ' '])) + flatten(
            decorated(styles.message, message@),
        ) + seq!['\n']));
    }
}

/// Appends to `out` the snippet `line` and, under it, the cursor at the
/// one-based `column`.
pub fn push_pointer(out: &mut String, styles: &Styles, line: &str, column: usize)
    requires
        column >= 1,
    ensures
        final(out)@ == old(out)@ + flatten(pointer(*styles, line@, column as nat)),
{
    proof {
        reveal_strlit("\n");
        assert("\n"@ =~= seq!['\n']);
    }
    styles.snippet.open(out);
    out.append(line);
    out.append("\n");
    styles.snippet.close(out);
    let marker = push_cursor_padding(out, line, column - 1);
    styles.cursor.open(out);
    push_carets(out, marker);
    styles.cursor.close(out);
    out.append("\n");
    proof {
        lemma_pointer(*styles, line@, column as nat);
        assert(out@ =~= old(out)@ + (styles.snippet.opening() + (line@ + seq!['\n'])
            + styles.snippet.closing() + run(' ', columns_before(line@, (column - 1) as nat))
            + styles.cursor.opening() + run('^', marker_width(line@, (column - 1) as nat))
            + styles.cursor.closing() + seq!['\n']));
    }
}

/// Appends to `out` what is rendered for `report`.
pub fn push_report(out: &mut String, styles: &Styles, report: &Report)
    requires
        showable(report@),
    ensures
        final(out)@ == old(out)@ + flatten(block(*styles, report@)),
{
    match &report.location {
        Some(place) => {
            let (_, column) = place.line_column();
            match place.snippet() {
                Some(line) => {
                    push_header(out, styles, place);
                    push_headline(out, styles, report.severity, report.message.as_str());
                    push_pointer(out, styles, line, column);
                    proof {
                        let first = header(*styles, place@);
                        let second = headline(*styles, report@.severity, report@.message);
                        let third = pointer(*styles, line@, column as nat);
                        lemma_flatten_concat(first, second);
                        lemma_flatten_concat(first + second, third);
                        assert(out@ =~= old(out)@ + (flatten(first) + flatten(second) + flatten(
                            third,
                        )));
                    }
                },
                None => {
                    proof {
                        assert(false);
                    }
                },
            }
        },
        None => {
            push_headline(out, styles, report.severity, report.message.as_str());
        },
    }
}

/// What each of `reports` is, in their order.
pub open spec fn views_of(reports: Seq<Report>) -> Seq<ReportView> {
    reports.map_values(|report: Report| report@)
}

/// What a [`Renderer`] is: the decorations and the reports, in the order in
/// which they are rendered.
pub struct RendererView {
    pub styles: Styles,
    pub reports: Seq<ReportView>,
}

impl RendererView {
    /// Every report can be rendered.
    pub open spec fn renderable(self) -> bool {
        forall|i: int| 0 <= i < self.reports.len() ==> showable(#[trigger] self.reports[i])
    }

    /// The pieces that are rendered.
    pub open spec fn pieces(self) -> Seq<Piece> {
        layout(self.styles, self.reports)
    }

    /// The text that is rendered.
    pub open spec fn text(self) -> Seq<char> {
        flatten(self.pieces())
    }
}

/// Reports and the decorations to render them with.
#[derive(Clone, Copy, Debug, PartialEq, Eq)]
pub struct Renderer<'a> {
    styles: &'a Styles,
    reports: &'a [Report],
}

impl<'a> View for Renderer<'a> {
    type V = RendererView;

    closed spec fn view(&self) -> RendererView {
        RendererView { styles: *self.styles, reports: views_of(self.reports@) }
    }
}

/// `core::slice::from_ref` makes of a reference a slice of length one that
/// holds the value referred to.
pub assume_specification<T>[ core::slice::from_ref::<T> ](s: &T) -> (slice: &[T])
    ensures
        slice@ == seq![*s],
;

impl<'a> Renderer<'a> {
    /// A renderer of `reports`, in their order, with the decorations
    /// `styles`.
    pub fn new(styles: &'a Styles, reports: &'a [Report]) -> (renderer: Renderer<'a>)
        ensures
            renderer@.styles == *styles,
            renderer@.reports == views_of(reports@),
    {
        Renderer { styles, reports }
    }

    /// Whether every report can be rendered: whether, for each report with
    /// a location, the text of the file has the line that the location lies
    /// in.
    pub fn renderable(&self) -> (yes: bool)
        ensures
            yes == self@.renderable(),
    {
        let mut index: usize = 0;
        while index < self.reports.len()
            invariant
                index <= self.reports@.len(),
                forall|i: int| 0 <= i < index ==> showable(#[trigger] self@.reports[i]),
            decreases self.reports@.len() - index,
        {
            let report = &self.reports[index];
            if let Some(place) = &report.location {
                if place.snippet().is_none() {
                    assert(!showable(self@.reports[index as int]));
                    return false;
                }
            }
            index += 1;
        }
        true
    }

    /// The rendered text: for each report, in order, its block.
    ///
    /// A report can only be rendered if the text of its file has the line
    /// that its location lies in.
    pub fn to_string(&self) -> (text: String)
        requires
            self@.renderable(),
        ensures
            text@ == self@.text(),
    {
        let mut out = String::new();
        let mut index: usize = 0;
        let ghost views = self@.reports;
        while index < self.reports.len()
            invariant
                index <= self.reports@.len(),
                views == self@.reports,
                self@.renderable(),
                out@ == flatten(layout(*self.styles, views.take(index as int))),
            decreases self.reports@.len() - index,
        {
            let ghost before = out@;
            assert(showable(self@.reports[index as int]));
            push_report(&mut out, self.styles, &self.reports[index]);
            proof {
                let next = views.take(index + 1);
                assert(next.drop_last() == views.take(index as int));
                assert(next.last() == views[index as int]);
                lemma_flatten_concat(
                    layout(*self.styles, views.take(index as int)),
                    block(*self.styles, views[index as int]),
                );
            }
            index += 1;
        }
        proof {
            assert(views.take(index as int) == views);
        }
        out
    }

    /// The rendered text, or `None` where a report cannot be rendered.
    pub fn try_to_string(&self) -> (text: Option<String>)
        ensures
            text is Some <==> self@.renderable(),
            text matches Some(rendered) ==> rendered@ == self@.text(),
    {
        if self.renderable() {
            Some(self.to_string())
        } else {
            None
        }
    }
}

impl Report {
    /// A renderer of this report alone.
    pub fn render<'a>(&'a self, styles: &'a Styles) -> (renderer: Renderer<'a>)
        ensures
            renderer@.styles == *styles,
            renderer@.reports == seq![self@],
    {
        let renderer = Renderer::new(styles, core::slice::from_ref(self));
        proof {
            assert(views_of(seq![*self]) =~= seq![self@]);
        }
        renderer
    }
}

/// What is seen of a report without a location is its headline alone:
/// label, separator and message on one line. No header, snippet or cursor is
/// rendered for it.
pub proof fn lemma_block_without_location(styles: Styles, report: ReportView)
    requires
        report.location is None,
    ensures
        block(styles, report) == headline(styles, report.severity, report.message),
        visible(block(styles, report)) == report.severity.label_spec() + seq![':', ' ']
            + report.message + seq!['\n'],
{
    lemma_headline(styles, report.severity, report.message);
}

/// What is seen of a report with a location is, in this order: the header
/// with path, line and column; the headline with label, separator and
/// message; the line of the source; and under it the spaces and the marker
/// of the cursor.
pub proof fn lemma_block_with_location(styles: Styles, report: ReportView)
    requires
        report.location is Some,
    ensures
        block(styles, report) == header(styles, report.location.unwrap()) + headline(
            styles,
            report.severity,
            report.message,
        ) + pointer(
            styles,
            report.location.unwrap().snippet().unwrap(),
            report.location.unwrap().column(),
        ),
        visible(block(styles, report)) == ({
            let place = report.location.unwrap();
            let line = place.snippet().unwrap();
            let index = (place.column() - 1) as nat;
            place.text() + seq![' '] + (report.severity.label_spec() + seq![':', ' ']
                + report.message + seq!['\n']) + (line + seq!['\n'] + run(
                ' ',
                columns_before(line, index),
            ) + run('^', marker_width(line, index)) + seq!['\n'])
        }),
{
    let place = report.location.unwrap();
    let first = header(styles, place);
    let second = headline(styles, report.severity, report.message);
    let third = pointer(styles, place.snippet().unwrap(), place.column());
    lemma_header(styles, place);
    lemma_headline(styles, report.severity, report.message);
    lemma_pointer(styles, place.snippet().unwrap(), place.column());
    lemma_visible_concat(first, second);
    lemma_visible_concat(first + second, third);
}

/// Under a line whose characters before the cursor are each one column
/// wide, the marker stands after exactly `column - 1` spaces.
pub proof fn lemma_pointer_single_width(styles: Styles, line: Seq<char>, column: nat)
    requires
        1 <= column <= line.len() + 1,
        forall|i: int| 0 <= i < column - 1 ==> #[trigger] display_width(line[i]) == Some(1usize),
    ensures
        visible(pointer(styles, line, column)) == line + seq!['\n'] + run(' ', (column - 1) as nat)
            + run('^', marker_width(line, (column - 1) as nat)) + seq!['\n'],
{
    lemma_pointer(styles, line, column);
    lemma_single_width_columns(line, (column - 1) as nat);
}

/// With no decoration for any role, nothing but text is rendered: the
/// rendered block holds no escape sequence.
pub proof fn lemma_plain_block(report: ReportView)
    ensures
        flatten(block(Styles::plain_spec(), report)) == visible(
            block(Styles::plain_spec(), report),
        ),
{
    let plain = Styles::plain_spec();
    lemma_headline(plain, report.severity, report.message);
    lemma_decorated(label_decoration(plain, report.severity), report.severity.label_spec());
    lemma_decorated(plain.colon, seq![':', ' ']);
    lemma_decorated(plain.message, report.message);
    assert(label_decoration(plain, report.severity) == Decoration::Plain);
    assert(flatten(headline(plain, report.severity, report.message)) =~= visible(
        headline(plain, report.severity, report.message),
    ));
    match report.location {
        Some(place) => {
            let line = place.snippet().unwrap();
            let first = header(plain, place);
            let second = headline(plain, report.severity, report.message);
            let third = pointer(plain, line, place.column());
            lemma_header(plain, place);
            lemma_pointer(plain, line, place.column());
            assert(flatten(first) =~= visible(first));
            assert(flatten(third) =~= visible(third));
            lemma_flatten_concat(first, second);
            lemma_flatten_concat(first + second, third);
            lemma_visible_concat(first, second);
            lemma_visible_concat(first + second, third);
        },
        None => {},
    }
}

/// What is seen of a block does not depend on the decorations.
pub proof fn lemma_block_visible_any_styles(styles: Styles, other: Styles, report: ReportView)
    ensures
        visible(block(styles, report)) == visible(block(other, report)),
{
    lemma_headline(styles, report.severity, report.message);
    lemma_headline(other, report.severity, report.message);
    match report.location {
        Some(place) => {
            lemma_block_with_location(styles, report);
            lemma_block_with_location(other, report);
        },
        None => {},
    }
}

/// Rendering with no decoration gives the text that rendering with any
/// decorations gives once every escape sequence is taken out of it.
pub proof fn lemma_plain_is_stripped(styles: Styles, reports: Seq<ReportView>)
    ensures
        flatten(layout(Styles::plain_spec(), reports)) == visible(layout(styles, reports)),
    decreases reports.len(),
{
    if reports.len() > 0 {
        let plain = Styles::plain_spec();
        lemma_plain_is_stripped(styles, reports.drop_last());
        lemma_plain_block(reports.last());
        lemma_block_visible_any_styles(plain, styles, reports.last());
        lemma_flatten_concat(layout(plain, reports.drop_last()), block(plain, reports.last()));
        lemma_visible_concat(layout(styles, reports.drop_last()), block(styles, reports.last()));
    }
}

} // verus!
