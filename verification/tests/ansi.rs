use shrike::display::ansi::strip;

#[test]
fn strip_color() {
    assert_eq!(strip("\x1b[32mhello\x1b[0m"), "hello");
}

#[test]
fn strip_bold() {
    assert_eq!(strip("\x1b[1mfoo\x1b[0m bar"), "foo bar");
}

#[test]
fn no_ansi_unchanged() {
    assert_eq!(strip("plain text"), "plain text");
}
