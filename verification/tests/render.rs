use reporting::render::{label_style, push_decorated, push_header, push_headline, push_pointer, push_report};
use reporting::{Color, Decoration, File, Location, Renderer, Report, Severity, Styles};

const RESET: &str = "\x1b[0m";

fn strip_escapes(text: &str) -> String {
    let mut out = String::new();
    let mut chars = text.chars();
    while let Some(c) = chars.next() {
        if c == '\x1b' {
            for d in chars.by_ref() {
                if d == 'm' {
                    break;
                }
            }
        } else {
            out.push(c);
        }
    }
    out
}

fn package_reports() -> Vec<Report> {
    let file = File::new("test.txt", "import stds;");
    vec![
        Report::error(&format!("Could not find package `{}`", "stds"))
            .location(Some(Location::new(file.clone(), 7))),
        Report::note("Perhaps you meant `std`?"),
    ]
}

#[test]
fn end_to_end_plain() {
    let reports = package_reports();
    let styles = Styles::plain();
    let text = Renderer::new(&styles, &reports).to_string();
    assert_eq!(
        text,
        "test.txt:1:8 error: Could not find package `stds`\n\
         import stds;\n       ^\n\
         note: Perhaps you meant `std`?\n"
    );
}

#[test]
fn end_to_end_styled() {
    let reports = package_reports();
    let styles = Styles::styled();
    let text = Renderer::new(&styles, &reports).to_string();
    let expected = String::new()
        + "\x1b[97mtest.txt:1:8 \x1b[0m"
        + "\x1b[91merror\x1b[0m\x1b[90m: \x1b[0m\x1b[97mCould not find package `stds`\x1b[0m\n"
        + "import stds;\n"
        + "       \x1b[92m^\x1b[0m\n"
        + "\x1b[96mnote\x1b[0m\x1b[90m: \x1b[0m\x1b[97mPerhaps you meant `std`?\x1b[0m\n";
    assert_eq!(text, expected);
    assert!(text.starts_with("\x1b[97mtest.txt:1:8 "));
}

#[test]
fn plain_is_styled_without_escapes() {
    let file = File::new("a.txt", "one\ntw\u{4e16}o\r\nthree");
    let mixed = Styles {
        location: Decoration::Foreground(Color::Blue),
        bug: Decoration::Plain,
        error: Decoration::Foreground(Color::Red),
        warning: Decoration::Foreground(Color::Yellow),
        note: Decoration::Plain,
        colon: Decoration::Plain,
        message: Decoration::Foreground(Color::White),
        snippet: Decoration::Foreground(Color::BrightBlack),
        cursor: Decoration::Foreground(Color::Magenta),
    };
    let mut reports = package_reports();
    for offset in 0..=file.source().len() {
        reports.push(Report::warning("w").location(Location::try_new(file.clone(), offset)));
        reports.push(Report::bug("").location(Location::try_new(file.clone(), offset)));
    }
    reports.push(Report::new(Severity::Error, "no place"));
    let plain = Styles::plain();
    let expected = Renderer::new(&plain, &reports).to_string();
    assert!(!expected.contains('\x1b'));
    for styles in [Styles::styled(), mixed] {
        let renderer = Renderer::new(&styles, &reports);
        assert!(renderer.renderable());
        let text = renderer.to_string();
        assert!(text.contains('\x1b'));
        assert_eq!(strip_escapes(&text), expected);
    }
}

#[test]
fn report_without_location_has_one_line() {
    for styles in [Styles::plain(), Styles::styled()] {
        let report = Report::warning("unused variable");
        let text = strip_escapes(&report.render(&styles).to_string());
        assert_eq!(text, "warning: unused variable\n");
        assert_eq!(text.lines().count(), 1);
    }
}

#[test]
fn report_with_location_has_header_headline_snippet_and_cursor() {
    let file = File::new("lib.rs", "fn f() {\n  retrun 1;\n}\n");
    let report = Report::bug("typo").location(Some(Location::new(file.clone(), 11)));
    for styles in [Styles::plain(), Styles::styled()] {
        let text = strip_escapes(&report.render(&styles).to_string());
        assert_eq!(text, "lib.rs:2:3 bug: typo\n  retrun 1;\n  ^\n");
        let lines: Vec<&str> = text.lines().collect();
        assert_eq!(lines.len(), 3);
        assert!(lines[0].starts_with("lib.rs:2:3 "));
        assert!(lines[0].ends_with("bug: typo"));
        assert_eq!(lines[1], "  retrun 1;");
        assert_eq!(lines[2], "  ^");
    }
}

#[test]
fn reports_keep_their_order() {
    let reports = vec![
        Report::note("first"),
        Report::bug("second"),
        Report::warning("third"),
        Report::error("fourth"),
        Report::note("fifth"),
    ];
    let styles = Styles::plain();
    assert_eq!(
        Renderer::new(&styles, &reports).to_string(),
        "note: first\nbug: second\nwarning: third\nerror: fourth\nnote: fifth\n"
    );
    assert_eq!(Renderer::new(&styles, &[]).to_string(), "");
    assert_eq!(Renderer::new(&Styles::styled(), &[]).to_string(), "");
}

#[test]
fn cursor_after_single_width_characters() {
    let source = "let answer = 42;";
    let file = File::new("x", source);
    let styles = Styles::plain();
    for offset in 0..source.len() {
        let place = Location::new(file.clone(), offset);
        let (_, column) = place.line_column();
        let text = Report::note("n").location(Some(place)).render(&styles).to_string();
        let cursor = text.lines().nth(2).unwrap();
        assert_eq!(cursor, format!("{}^", " ".repeat(column - 1)));
    }
}

#[test]
fn cursor_under_wide_and_zero_width_characters() {
    // '世' and '界' are two columns wide; U+0301 is a combining mark of width 0.
    let source = "a\u{4e16}\u{754c}e\u{301}z";
    let file = File::new("w", source);
    let styles = Styles::plain();
    let cursor_at = |offset: usize| {
        let report = Report::note("n").location(Some(Location::new(file.clone(), offset)));
        report.render(&styles).to_string().lines().nth(2).unwrap().to_string()
    };
    assert_eq!(cursor_at(0), "^");
    assert_eq!(cursor_at(1), " ^^");
    assert_eq!(cursor_at(4), "   ^^");
    assert_eq!(cursor_at(7), "     ^");
    // the combining mark: no column of its own, yet a marker of one column
    assert_eq!(cursor_at(8), "      ^");
    assert_eq!(cursor_at(10), "      ^");
    // past the last character
    assert_eq!(cursor_at(11), "       ^");
}

#[test]
fn cursor_counts_a_control_character_as_one_column() {
    let file = File::new("t", "\ta\u{7}b");
    let styles = Styles::plain();
    let cursor_at = |offset: usize| {
        let report = Report::note("n").location(Some(Location::new(file.clone(), offset)));
        report.render(&styles).to_string().lines().nth(2).unwrap().to_string()
    };
    assert_eq!(cursor_at(0), "^");
    assert_eq!(cursor_at(1), " ^");
    assert_eq!(cursor_at(2), "  ^");
    assert_eq!(cursor_at(3), "   ^");
}

#[test]
fn cursor_at_the_end_of_a_line_and_of_the_file() {
    let file = File::new("e", "ab\ncd");
    let styles = Styles::plain();
    let at = |offset: usize| {
        Report::error("e").location(Some(Location::new(file.clone(), offset))).render(&styles).to_string()
    };
    // at the line feed that ends the first line
    assert_eq!(at(2), "e:1:3 error: e\nab\n  ^\n");
    // at the end of the file
    assert_eq!(at(5), "e:2:3 error: e\ncd\n  ^\n");
}

#[test]
fn cursor_in_a_line_that_ends_with_carriage_return_and_line_feed() {
    let file = File::new("c", "ab\r\ncd\r\n");
    let styles = Styles::plain();
    let at = |offset: usize| {
        Report::error("e").location(Some(Location::new(file.clone(), offset))).render(&styles).to_string()
    };
    assert_eq!(at(1), "c:1:2 error: e\nab\n ^\n");
    assert_eq!(at(2), "c:1:3 error: e\nab\n  ^\n");
    assert_eq!(at(3), "c:1:4 error: e\nab\n  ^\n");
    assert_eq!(at(4), "c:2:1 error: e\ncd\n^\n");
}

#[test]
fn a_location_after_the_last_line_cannot_be_rendered() {
    let styles = Styles::styled();
    for source in ["", "abc\n", "\n", "a\r\n"] {
        let file = File::new("f", source);
        let place = Location::new(file.clone(), source.len());
        assert_eq!(place.snippet(), None);
        let reports = [Report::note("fine"), Report::error("eof").location(Some(place))];
        assert!(!Renderer::new(&styles, &reports).renderable());
        assert!(Renderer::new(&styles, &reports[..1]).renderable());
    }
    for source in ["a", "abc\nd", "\n\n", "a\r"] {
        let file = File::new("f", source);
        for offset in 0..=source.len() {
            let place = Location::new(file.clone(), offset);
            let expected = source.len() > 0 && (offset < source.len() || !source.ends_with('\n'));
            assert_eq!(place.snippet().is_some(), expected, "{source:?} at {offset}");
            let reports = [Report::error("e").location(Some(place))];
            assert_eq!(Renderer::new(&styles, &reports).renderable(), expected);
        }
    }
}

#[test]
fn snippet_is_the_line_of_the_location() {
    let source = "first\nsecond\r\n\nfourth";
    let file = File::new("s", source);
    for offset in 0..=source.len() {
        let place = Location::new(file.clone(), offset);
        let (line, _) = place.line_column();
        assert_eq!(place.snippet(), source.lines().nth(line - 1), "at {offset}");
    }
}

#[test]
fn empty_message_and_odd_characters_are_kept() {
    let styles = Styles::plain();
    assert_eq!(Report::error("").render(&styles).to_string(), "error: \n");
    assert_eq!(
        Report::note("two\nlines: \u{4e16}\u{754c}").render(&styles).to_string(),
        "note: two\nlines: \u{4e16}\u{754c}\n"
    );
    let file = File::new("na\u{ef}ve path.txt", "x");
    let report = Report::bug("b").location(Some(Location::new(file.clone(), 0)));
    assert_eq!(report.render(&styles).to_string(), "na\u{ef}ve path.txt:1:1 bug: b\nx\n^\n");
}

#[test]
fn every_severity_has_its_label_and_decoration() {
    let styles = Styles::styled();
    let cases = [
        (Report::bug("m"), "\x1b[91mbug\x1b[0m"),
        (Report::error("m"), "\x1b[91merror\x1b[0m"),
        (Report::warning("m"), "\x1b[93mwarning\x1b[0m"),
        (Report::note("m"), "\x1b[96mnote\x1b[0m"),
    ];
    for (report, label) in cases {
        let text = report.render(&styles).to_string();
        assert_eq!(text, format!("{label}\x1b[90m: \x1b[0m\x1b[97mm\x1b[0m\n"));
    }
    assert_eq!(label_style(&styles, Severity::Bug), styles.bug);
    assert_eq!(label_style(&styles, Severity::Error), styles.error);
    assert_eq!(label_style(&styles, Severity::Warning), styles.warning);
    assert_eq!(label_style(&styles, Severity::Note), styles.note);
}

#[test]
fn pieces_of_a_block() {
    let styles = Styles::styled();
    let mut out = String::from("> ");
    push_decorated(&mut out, Decoration::Foreground(Color::Green), "ok");
    assert_eq!(out, "> \x1b[32mok\x1b[0m");
    push_decorated(&mut out, Decoration::Plain, "!");
    assert_eq!(out, "> \x1b[32mok\x1b[0m!");

    let file = File::new("p.txt", "a\nbc");
    let place = Location::new(file.clone(), 3);
    let mut out = String::new();
    push_header(&mut out, &styles, &place);
    assert_eq!(out, "\x1b[97mp.txt:2:2 \x1b[0m");

    let mut out = String::new();
    push_headline(&mut out, &Styles::plain(), Severity::Warning, "careful");
    assert_eq!(out, "warning: careful\n");

    let mut out = String::new();
    push_pointer(&mut out, &styles, "bc", 2);
    assert_eq!(out, "bc\n \x1b[92m^\x1b[0m\n");
    let mut out = String::new();
    push_pointer(&mut out, &styles, "bc", 9);
    assert_eq!(out, "bc\n  \x1b[92m^\x1b[0m\n");

    let mut out = String::from("x");
    push_report(&mut out, &Styles::plain(), &Report::note("n").location(Some(place)));
    assert_eq!(out, "xp.txt:2:2 note: n\nbc\n ^\n");
    assert!(out.contains(RESET) == false);
}

#[test]
fn renderer_of_a_single_report_is_that_of_a_slice_of_one() {
    let styles = Styles::styled();
    let report = Report::error("alone");
    let single = report.render(&styles);
    let slice = [report.clone()];
    assert_eq!(single, Renderer::new(&styles, &slice));
    assert_eq!(single.to_string(), Renderer::new(&styles, &slice).to_string());
    assert_eq!(single.clone(), single);
}
