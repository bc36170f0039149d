use shrike::display::rolling::{wrap, RollingDisplay, MAX_LINES};

#[test]
fn wrap_into_pieces() {
    assert_eq!(wrap("abcdefg", 3), vec!["abc", "def", "g"]);
    assert_eq!(wrap("abc", 3), vec!["abc"]);
    assert_eq!(wrap("", 3), Vec::<String>::new());
    assert_eq!(wrap("abc", 0), vec!["abc"]);
    assert_eq!(wrap("h\u{e9}llo", 2), vec!["h\u{e9}", "ll", "o"]);
}

#[test]
fn plain_output_passes_lines_through() {
    let mut d = RollingDisplay::with_width(false, 80);
    assert_eq!(d.feed("hello\x1b[32m"), "hello\x1b[32m\n");
    assert!(d.lines().is_empty());
}

#[test]
fn terminal_window_redraws() {
    let mut d = RollingDisplay::with_width(true, 80);
    let first = d.feed("one");
    assert_eq!(first, "   \x1b[1;31m│\x1b[0m one\n");
    let second = d.feed("two");
    assert_eq!(second, "\x1b[1A\x1b[J   \x1b[1;31m│\x1b[0m one\n   \x1b[1;31m│\x1b[0m two\n");
    assert_eq!(d.lines(), vec!["one", "two"]);
}

#[test]
fn terminal_window_skips_blank_and_keeps_after_cr() {
    let mut d = RollingDisplay::with_width(true, 80);
    assert_eq!(d.feed("   "), "");
    d.feed("progress 10%\rprogress 90%");
    assert_eq!(d.lines(), vec!["progress 90%"]);
}

#[test]
fn window_keeps_last_lines() {
    let mut d = RollingDisplay::with_width(true, 80);
    for i in 0..(MAX_LINES + 3) {
        d.feed(&format!("line {i}"));
    }
    let lines = d.lines();
    assert_eq!(lines.len(), MAX_LINES);
    assert_eq!(lines[0], "line 3");
    assert_eq!(lines[MAX_LINES - 1], "line 12");
}

#[test]
fn terminal_window_wraps_long_lines() {
    let mut d = RollingDisplay::with_width(true, 8);
    d.feed("abcdefg");
    assert_eq!(d.lines(), vec!["abc", "def", "g"]);
}
