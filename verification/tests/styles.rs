use reporting::{Color, Decoration, Styles};

const COLORS: [(Color, anstyle::AnsiColor); 16] = [
    (Color::Black, anstyle::AnsiColor::Black),
    (Color::Red, anstyle::AnsiColor::Red),
    (Color::Green, anstyle::AnsiColor::Green),
    (Color::Yellow, anstyle::AnsiColor::Yellow),
    (Color::Blue, anstyle::AnsiColor::Blue),
    (Color::Magenta, anstyle::AnsiColor::Magenta),
    (Color::Cyan, anstyle::AnsiColor::Cyan),
    (Color::White, anstyle::AnsiColor::White),
    (Color::BrightBlack, anstyle::AnsiColor::BrightBlack),
    (Color::BrightRed, anstyle::AnsiColor::BrightRed),
    (Color::BrightGreen, anstyle::AnsiColor::BrightGreen),
    (Color::BrightYellow, anstyle::AnsiColor::BrightYellow),
    (Color::BrightBlue, anstyle::AnsiColor::BrightBlue),
    (Color::BrightMagenta, anstyle::AnsiColor::BrightMagenta),
    (Color::BrightCyan, anstyle::AnsiColor::BrightCyan),
    (Color::BrightWhite, anstyle::AnsiColor::BrightWhite),
];

fn opened(decoration: Decoration) -> String {
    let mut out = String::new();
    decoration.open(&mut out);
    out
}

fn closed(decoration: Decoration) -> String {
    let mut out = String::new();
    decoration.close(&mut out);
    out
}

#[test]
fn color_indexes_are_the_palette_places() {
    for (place, (color, ansi)) in COLORS.iter().enumerate() {
        assert_eq!(color.index() as usize, place);
        assert_eq!(anstyle::Ansi256Color(color.index()).into_ansi(), Some(*ansi));
    }
}

#[test]
fn foreground_opens_with_the_escape_sequence_of_its_color() {
    let expected = [
        "\x1b[30m", "\x1b[31m", "\x1b[32m", "\x1b[33m", "\x1b[34m", "\x1b[35m", "\x1b[36m",
        "\x1b[37m", "\x1b[90m", "\x1b[91m", "\x1b[92m", "\x1b[93m", "\x1b[94m", "\x1b[95m",
        "\x1b[96m", "\x1b[97m",
    ];
    for ((color, ansi), sequence) in COLORS.iter().zip(expected) {
        let decoration = Decoration::Foreground(*color);
        assert_eq!(opened(decoration), sequence);
        let style = anstyle::Style::new().fg_color(Some(anstyle::Color::Ansi(*ansi)));
        assert_eq!(opened(decoration), style.render().to_string());
        assert_eq!(closed(decoration), "\x1b[0m");
        assert_eq!(closed(decoration), style.render_reset().to_string());
        assert_eq!(closed(decoration), anstyle::Reset.to_string());
    }
}

#[test]
fn plain_writes_nothing() {
    assert_eq!(opened(Decoration::Plain), "");
    assert_eq!(closed(Decoration::Plain), "");
    assert_eq!(opened(Decoration::Plain), anstyle::Style::new().render().to_string());
    assert_eq!(closed(Decoration::Plain), anstyle::Style::new().render_reset().to_string());
}

#[test]
fn open_and_close_append() {
    let mut out = String::from("before");
    Decoration::Foreground(Color::Cyan).open(&mut out);
    out.push_str("text");
    Decoration::Foreground(Color::Cyan).close(&mut out);
    Decoration::Plain.open(&mut out);
    Decoration::Plain.close(&mut out);
    assert_eq!(out, "before\x1b[36mtext\x1b[0m");
}

#[test]
fn styled_preset() {
    let styles = Styles::styled();
    assert_eq!(styles.location, Decoration::Foreground(Color::BrightWhite));
    assert_eq!(styles.bug, Decoration::Foreground(Color::BrightRed));
    assert_eq!(styles.error, Decoration::Foreground(Color::BrightRed));
    assert_eq!(styles.warning, Decoration::Foreground(Color::BrightYellow));
    assert_eq!(styles.note, Decoration::Foreground(Color::BrightCyan));
    assert_eq!(styles.colon, Decoration::Foreground(Color::BrightBlack));
    assert_eq!(styles.message, Decoration::Foreground(Color::BrightWhite));
    assert_eq!(styles.snippet, Decoration::Plain);
    assert_eq!(styles.cursor, Decoration::Foreground(Color::BrightGreen));
    assert_eq!(styles.bug, styles.error);
}

#[test]
fn plain_preset() {
    let styles = Styles::plain();
    for decoration in [
        styles.location,
        styles.bug,
        styles.error,
        styles.warning,
        styles.note,
        styles.colon,
        styles.message,
        styles.snippet,
        styles.cursor,
    ] {
        assert_eq!(decoration, Decoration::Plain);
    }
    assert_ne!(styles, Styles::styled());
    assert_eq!(styles.clone(), Styles::plain());
}
