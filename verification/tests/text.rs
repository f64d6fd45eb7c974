use kadr_installer::text::{decimal_string, note_lines_of, str_eq, white_space};

#[test]
fn decimal_numerals() {
    assert_eq!(decimal_string(0), "0");
    assert_eq!(decimal_string(7), "7");
    assert_eq!(decimal_string(10), "10");
    assert_eq!(decimal_string(1_234_567), "1234567");
    assert_eq!(decimal_string(u128::MAX), u128::MAX.to_string());
}

#[test]
fn string_equality() {
    assert!(str_eq("kadr.exe", "kadr.exe"));
    assert!(!str_eq("kadr.exe", "kadr.ex"));
    assert!(!str_eq("kadr.exe", "Kadr.exe"));
    assert!(str_eq("", ""));
}

#[test]
fn white_space_matches_std() {
    for u in 0u32..0x3100 {
        if let Some(c) = char::from_u32(u) {
            assert_eq!(white_space(c), c.is_whitespace(), "U+{u:04X}");
        }
    }
}

fn reference_lines(text: &str) -> Vec<String> {
    text.lines()
        .map(|l| l.trim())
        .filter(|l| !l.is_empty())
        .map(|l| l.to_owned())
        .collect()
}

#[test]
fn note_lines_are_trimmed_and_blank_ones_skipped() {
    assert_eq!(note_lines_of("  a \r\n\n b\n"), vec!["a", "b"]);
    assert_eq!(note_lines_of(""), Vec::<String>::new());
    assert_eq!(note_lines_of("\n\n  \n"), Vec::<String>::new());
    assert_eq!(note_lines_of("• one\n• two"), vec!["• one", "• two"]);
    assert_eq!(note_lines_of("\u{3000}wide\u{2003}\n\tx y\t"), vec!["wide", "x y"]);
    assert_eq!(note_lines_of("a\rb\r\n"), vec!["a\rb"]);
}

#[test]
fn note_lines_match_std_lines() {
    let samples = [
        "v1.2\n\n• Faster thumbnails\r\n• Fixed a crash \n   \n",
        "\r\n\r\nlast line without newline",
        "  \u{00A0}nbsp\u{00A0} \n\u{1680}ogham\n\u{2028}",
        "single",
        "trailing\r",
    ];
    for s in samples {
        assert_eq!(note_lines_of(s), reference_lines(s), "text = {s:?}");
    }
}
