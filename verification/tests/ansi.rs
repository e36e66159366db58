use afar::ansi::{AnsiHandler, LineKind, TerminalLine, DEFAULT_LINE_CAP};

fn texts(lines: &[TerminalLine]) -> Vec<String> {
    lines.iter().map(|l| l.text.clone()).collect()
}

#[test]
fn sgr_red_maps_to_err() {
    let mut h = AnsiHandler::new();
    let lines = h.feed(b"\x1b[31merror: foo\n");
    assert_eq!(lines.len(), 1);
    assert_eq!(lines[0].kind, LineKind::Error);
    assert_eq!(lines[0].text, "error: foo");
}

#[test]
fn first_non_default_colour_wins() {
    let mut h = AnsiHandler::new();
    let lines = h.feed(b"\x1b[31merror[E0277]:\x1b[0m default text\n");
    assert_eq!(lines.len(), 1);
    assert_eq!(lines[0].kind, LineKind::Error);
    assert_eq!(lines[0].text, "error[E0277]: default text");

    let lines = h.feed(b"\x1b[33mwarning\x1b[32m ok\n");
    assert_eq!(lines[0].kind, LineKind::Warn);
}

#[test]
fn osc_52_clipboard_is_dropped() {
    let mut h = AnsiHandler::new();
    let lines = h.feed(b"before\x1b]52;c;aGVsbG8=\x07after\n");
    assert_eq!(texts(&lines), vec!["beforeafter".to_string()]);
    assert!(!lines[0].text.contains("52"));
    assert_eq!(lines[0].kind, LineKind::Out);
}

#[test]
fn long_lines_are_force_split_at_64_kib() {
    let mut h = AnsiHandler::new();
    let mut input = vec![b'a'; DEFAULT_LINE_CAP + 10];
    input.push(b'\n');
    let lines = h.feed(&input);
    assert_eq!(lines.len(), 2);
    assert_eq!(lines[0].text.len(), DEFAULT_LINE_CAP);
    assert_eq!(lines[1].text.len(), 10);
}

#[test]
fn line_of_exactly_the_cap_is_not_split() {
    let mut h = AnsiHandler::with_line_cap(4);
    let lines = h.feed(b"abcd\nabcdefghij\n");
    assert_eq!(texts(&lines), vec!["abcd", "abcd", "efgh", "ij"]);
}

#[test]
fn split_lines_keep_their_colour() {
    let mut h = AnsiHandler::with_line_cap(3);
    let lines = h.feed(b"\x1b[31mabcdef\n");
    assert_eq!(texts(&lines), vec!["abc", "def"]);
    assert!(lines.iter().all(|l| l.kind == LineKind::Error));
}

#[test]
fn multibyte_characters_count_in_bytes_toward_the_cap() {
    let mut h = AnsiHandler::with_line_cap(4);
    // Each 'é' is two bytes in UTF-8.
    let lines = h.feed("ééé\n".as_bytes());
    assert_eq!(texts(&lines), vec!["éé", "é"]);
}

#[test]
fn partial_line_is_kept_across_feeds_and_flushed() {
    let mut h = AnsiHandler::new();
    assert!(h.feed(b"\x1b[32mpart").is_empty());
    let lines = h.feed(b"ial\nrest");
    assert_eq!(texts(&lines), vec!["partial"]);
    assert_eq!(lines[0].kind, LineKind::Success);
    let tail = h.flush().expect("partial line");
    assert_eq!(tail.text, "rest");
    assert_eq!(tail.kind, LineKind::Out);
    assert!(h.flush().is_none());
}

#[test]
fn escape_sequence_split_across_feeds() {
    let mut h = AnsiHandler::new();
    assert!(h.feed(b"\x1b[3").is_empty());
    let lines = h.feed(b"1mred\n");
    assert_eq!(texts(&lines), vec!["red"]);
    assert_eq!(lines[0].kind, LineKind::Error);
}

#[test]
fn carriage_return_and_line_feed_each_end_a_line() {
    let mut h = AnsiHandler::new();
    let lines = h.feed(b"one\r\ntwo\n");
    assert_eq!(texts(&lines), vec!["one", "", "two"]);
}

#[test]
fn bare_carriage_return_ends_a_line() {
    let mut h = AnsiHandler::new();
    let lines = h.feed(b"50%\r100%\n");
    assert_eq!(texts(&lines), vec!["50%", "100%"]);
}

#[test]
fn blank_lines_are_kept() {
    let mut h = AnsiHandler::new();
    let lines = h.feed(b"a\n\nb\n");
    assert_eq!(texts(&lines), vec!["a", "", "b"]);
}

#[test]
fn other_control_bytes_are_dropped() {
    let mut h = AnsiHandler::new();
    let lines = h.feed(b"a\tb\x07c\x08d\n");
    assert_eq!(texts(&lines), vec!["abcd"]);
}

#[test]
fn colour_buckets() {
    let cases: Vec<(&[u8], LineKind)> = vec![
        (b"\x1b[31mx\n", LineKind::Error),
        (b"\x1b[91mx\n", LineKind::Error),
        (b"\x1b[32mx\n", LineKind::Success),
        (b"\x1b[33mx\n", LineKind::Warn),
        (b"\x1b[34mx\n", LineKind::Info),
        (b"\x1b[36mx\n", LineKind::Info),
        (b"\x1b[96mx\n", LineKind::Info),
        (b"\x1b[37mx\n", LineKind::Out),
        (b"\x1b[35mx\n", LineKind::Out),
        (b"\x1b[39mx\n", LineKind::Out),
        (b"\x1b[1mx\n", LineKind::Out),
        (b"\x1b[38;5;1mx\n", LineKind::Error),
        (b"\x1b[38;5;10mx\n", LineKind::Success),
        (b"\x1b[38;5;196mx\n", LineKind::Error),
        (b"\x1b[38;5;226mx\n", LineKind::Warn),
        (b"\x1b[38;5;21mx\n", LineKind::Info),
        (b"\x1b[38;5;244mx\n", LineKind::Out),
        (b"\x1b[38;2;250;10;10mx\n", LineKind::Error),
        (b"\x1b[38;2;10;200;10mx\n", LineKind::Success),
        (b"\x1b[38;2;0;200;200mx\n", LineKind::Info),
        (b"\x1b[38:2::250:250:0mx\n", LineKind::Warn),
        (b"\x1b[38:5:2mx\n", LineKind::Success),
        (b"\x1b[1;31mx\n", LineKind::Error),
    ];
    for (input, kind) in cases {
        let mut h = AnsiHandler::new();
        let lines = h.feed(input);
        assert_eq!(lines.len(), 1, "input {:?}", input);
        assert_eq!(lines[0].kind, kind, "input {:?}", input);
        assert_eq!(lines[0].text, "x");
    }
}

#[test]
fn background_and_underline_colour_arguments_are_not_read_as_foreground() {
    let mut h = AnsiHandler::new();
    // 48;5;31 is a background colour: its 31 must not be read as red.
    let lines = h.feed(b"\x1b[48;5;31mx\n");
    assert_eq!(lines[0].kind, LineKind::Out);
    let lines = h.feed(b"\x1b[48;2;1;31;32;33mx\n");
    assert_eq!(lines[0].kind, LineKind::Warn);
    let lines = h.feed(b"\x1b[41mx\n");
    assert_eq!(lines[0].kind, LineKind::Out);
}

#[test]
fn private_marker_sequences_are_not_sgr() {
    let mut h = AnsiHandler::new();
    let lines = h.feed(b"\x1b[>4;2mx\n");
    assert_eq!(lines[0].kind, LineKind::Out);
}

#[test]
fn cursor_and_screen_sequences_are_dropped() {
    let mut h = AnsiHandler::new();
    let lines = h.feed(b"\x1b[2J\x1b[H\x1b[?1049hhello\x1b[K\x1b]0;title\x07\x1b]8;;http://x\x1b\\link\x1b]8;;\x1b\\\n");
    assert_eq!(texts(&lines), vec!["hellolink"]);
}

#[test]
fn colour_does_not_carry_to_the_next_line() {
    let mut h = AnsiHandler::new();
    let lines = h.feed(b"\x1b[31mred\nplain\n");
    assert_eq!(lines[0].kind, LineKind::Error);
    assert_eq!(lines[1].kind, LineKind::Out);
}

#[test]
fn handler_defaults() {
    let h = AnsiHandler::new();
    assert_eq!(h.line_cap(), 64 * 1024);
    let d = AnsiHandler::default();
    assert_eq!(d.line_cap(), DEFAULT_LINE_CAP);
    assert_eq!(AnsiHandler::with_line_cap(7).line_cap(), 7);
}

#[test]
fn flush_of_empty_handler_is_none() {
    let mut h = AnsiHandler::new();
    assert!(h.flush().is_none());
    h.feed(b"\x1b[31m");
    assert!(h.flush().is_none());
}
