use reporting::file::utf8_length;
use reporting::{File, Location};

#[test]
fn line_column_of_first_offset_is_origin() {
    for source in ["x", "hello\nworld", "\n", "\u{4e16}\u{754c}", "a\r\nb"] {
        let file = File::new("f", source);
        assert_eq!(file.line_column(0), Some((1, 1)));
    }
    assert_eq!(File::new("f", "").line_column(0), Some((1, 1)));
}

#[test]
fn line_column_hello_world() {
    let file = File::new("test.txt", "hello\nworld");
    assert_eq!(file.line_column(0), Some((1, 1)));
    assert_eq!(file.line_column(4), Some((1, 5)));
    assert_eq!(file.line_column(5), Some((1, 6)));
    assert_eq!(file.line_column(6), Some((2, 1)));
    assert_eq!(file.line_column(10), Some((2, 5)));
    assert_eq!(file.line_column(11), Some((2, 6)));
    let (line1, column1) = Location::new(file.clone(), 0).line_column();
    let (line2, column2) = Location::new(file.clone(), 6).line_column();
    assert_eq!((line1, column1), (1, 1));
    assert_eq!((line2, column2), (2, 1));
}

#[test]
fn line_column_is_some_up_to_the_length() {
    for source in ["", "a", "hello\nworld", "h\u{e9}llo\n\u{4e16}\u{754c}\n", "\n\n\n"] {
        let file = File::new("f", source);
        for offset in 0..=source.len() {
            assert!(file.line_column(offset).is_some(), "{source:?} at {offset}");
        }
        for offset in source.len() + 1..source.len() + 4 {
            assert_eq!(file.line_column(offset), None, "{source:?} at {offset}");
        }
        assert_eq!(file.line_column(usize::MAX), None);
    }
}

#[test]
fn line_column_never_goes_back() {
    for source in ["hello\nworld", "a\n\nb\r\nc", "h\u{e9}llo\n\u{4e16}\u{754c}\nx", "\n"] {
        let file = File::new("f", source);
        for first in 0..=source.len() {
            for second in first + 1..=source.len() {
                let a = file.line_column(first).unwrap();
                let b = file.line_column(second).unwrap();
                assert!(a <= b, "{source:?}: {first} -> {a:?}, {second} -> {b:?}");
            }
        }
    }
}

#[test]
fn line_column_counts_characters_not_bytes() {
    // 'h' 1 byte, 'é' 2 bytes, '世' 3 bytes, '😀' 4 bytes
    let source = "h\u{e9}\u{4e16}\u{1f600}x\ny";
    let file = File::new("f", source);
    assert_eq!(file.line_column(0), Some((1, 1)));
    assert_eq!(file.line_column(1), Some((1, 2)));
    // inside 'é': the character started before the offset
    assert_eq!(file.line_column(2), Some((1, 3)));
    assert_eq!(file.line_column(3), Some((1, 3)));
    assert_eq!(file.line_column(4), Some((1, 4)));
    assert_eq!(file.line_column(5), Some((1, 4)));
    assert_eq!(file.line_column(6), Some((1, 4)));
    assert_eq!(file.line_column(7), Some((1, 5)));
    assert_eq!(file.line_column(10), Some((1, 5)));
    assert_eq!(file.line_column(11), Some((1, 6)));
    assert_eq!(file.line_column(12), Some((2, 1)));
    assert_eq!(file.line_column(13), Some((2, 2)));
    assert_eq!(file.line_column(14), None);
}

#[test]
fn line_column_matches_a_scan_of_the_characters() {
    for source in ["", "abc", "a\nb\nc\n", "\u{e9}\n\u{4e16}\u{1f600}\r\n\n", "\n\n"] {
        let file = File::new("f", source);
        for offset in 0..=source.len() {
            let mut line = 1;
            let mut column = 1;
            for (index, c) in source.char_indices() {
                if index >= offset {
                    break;
                }
                if c == '\n' {
                    line += 1;
                    column = 1;
                } else {
                    column += 1;
                }
            }
            assert_eq!(file.line_column(offset), Some((line, column)));
        }
    }
}

#[test]
fn line_column_at_the_end_is_past_the_last_character() {
    assert_eq!(File::new("f", "abc").line_column(3), Some((1, 4)));
    assert_eq!(File::new("f", "abc\n").line_column(4), Some((2, 1)));
    assert_eq!(File::new("f", "abc\nde").line_column(6), Some((2, 3)));
}

#[test]
fn utf8_length_is_the_encoded_length() {
    for c in ['\0', 'a', '\u{7f}', '\u{80}', '\u{7ff}', '\u{800}', '\u{d7ff}', '\u{e000}',
        '\u{ffff}', '\u{10000}', '\u{10ffff}']
    {
        assert_eq!(utf8_length(c), c.len_utf8());
    }
}

#[test]
fn file_keeps_path_and_source() {
    let file = File::new("dir/a file.txt", " text\r\n\twith  spaces \n");
    assert_eq!(file.path(), "dir/a file.txt");
    assert_eq!(file.source(), " text\r\n\twith  spaces \n");
    let copy = File::clone(&file);
    assert_eq!(copy, *file);
}

#[test]
fn location_try_new_checks_the_bounds() {
    let file = File::new("f", "h\u{e9}");
    assert!(Location::try_new(file.clone(), 0).is_some());
    assert!(Location::try_new(file.clone(), 3).is_some());
    assert!(Location::try_new(file.clone(), 4).is_none());
    assert!(Location::try_new(file.clone(), usize::MAX).is_none());
    let place = Location::try_new(file.clone(), 2).unwrap();
    assert_eq!(place.offset(), 2);
    assert_eq!(*place.file(), *file);
    assert_eq!(place, Location::new(file.clone(), 2));
    assert_ne!(place, Location::new(file.clone(), 1));
    assert_eq!(place.clone(), place);
}

#[test]
fn location_as_text() {
    let file = File::new("src/main.rs", "fn main() {\n    let x = 1;\n}\n");
    assert_eq!(Location::new(file.clone(), 0).to_string(), "src/main.rs:1:1");
    assert_eq!(Location::new(file.clone(), 16).to_string(), "src/main.rs:2:5");
    assert_eq!(Location::new(file.clone(), 29).to_string(), "src/main.rs:4:1");
    let long = "x\n".repeat(122) + &"y".repeat(1005);
    let file = File::new("p", &long);
    assert_eq!(Location::new(file.clone(), long.len()).to_string(), "p:123:1006");
}
