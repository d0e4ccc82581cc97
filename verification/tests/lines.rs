use launcher::lines::parse_lines;

fn owned(lines: &[&str]) -> Vec<String> {
    lines.iter().map(|l| l.to_string()).collect()
}

#[test]
fn empty_text_has_no_lines() {
    assert_eq!(parse_lines(""), Vec::<String>::new());
}

#[test]
fn lines_end_at_line_feeds() {
    assert_eq!(parse_lines("apple\nbanana\ngrape\n"), owned(&["apple", "banana", "grape"]));
}

#[test]
fn last_line_needs_no_line_feed() {
    assert_eq!(parse_lines("apple\nbanana\ngrape"), owned(&["apple", "banana", "grape"]));
    assert_eq!(parse_lines("apple"), owned(&["apple"]));
}

#[test]
fn empty_lines_are_lines() {
    assert_eq!(parse_lines("\n"), owned(&[""]));
    assert_eq!(parse_lines("a\n\nb\n"), owned(&["a", "", "b"]));
    assert_eq!(parse_lines("\n\n"), owned(&["", ""]));
}

#[test]
fn carriage_return_before_line_feed_is_dropped() {
    assert_eq!(parse_lines("a\r\nb\r\n"), owned(&["a", "b"]));
    assert_eq!(parse_lines("\r\n"), owned(&[""]));
    assert_eq!(parse_lines("a\r\r\nb"), owned(&["a\r", "b"]));
}

#[test]
fn other_carriage_returns_stay() {
    assert_eq!(parse_lines("a\rb\n"), owned(&["a\rb"]));
    assert_eq!(parse_lines("a\r"), owned(&["a\r"]));
    assert_eq!(parse_lines("\r"), owned(&["\r"]));
    assert_eq!(parse_lines("a\n\r"), owned(&["a", "\r"]));
}

#[test]
fn text_beyond_ascii_is_kept() {
    assert_eq!(parse_lines("caf\u{e9}\n\u{65e5}\u{672c}\n"), owned(&["caf\u{e9}", "\u{65e5}\u{672c}"]));
}

#[test]
fn splits_as_the_standard_library_does() {
    let texts = ["", "\n", "a", "a\n", "a\nb", "a\r\nb\r", "\r\n\r\n", "x\r\ry\n\nz", "\r", "\n\r\n\r"];
    for text in texts.iter() {
        let expected: Vec<String> = text.lines().map(|l| l.to_string()).collect();
        assert_eq!(parse_lines(text), expected);
    }
}
