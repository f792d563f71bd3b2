use hiisi::logs::{err_line, history, lines, out_line, HISTORY_LINES};

#[test]
fn lines_end_at_line_feeds() {
    assert_eq!(lines("a\nb\nc"), vec!["a", "b", "c"]);
    assert_eq!(lines("a\nb\n"), vec!["a", "b"]);
    assert_eq!(lines("one line"), vec!["one line"]);
    assert!(lines("").is_empty());
    assert_eq!(lines("\n"), vec![""]);
    assert_eq!(lines("\n\n"), vec!["", ""]);
    assert_eq!(lines("a\n\nb"), vec!["a", "", "b"]);
}

#[test]
fn a_carriage_return_before_the_line_feed_is_dropped() {
    assert_eq!(lines("a\r\nb\r\n"), vec!["a", "b"]);
    assert_eq!(lines("a\r\r\nb"), vec!["a\r", "b"]);
    assert_eq!(lines("a\rb\n"), vec!["a\rb"]);
    assert_eq!(lines("\r\n"), vec![""]);
    assert_eq!(lines("tail\r"), vec!["tail\r"]);
    assert_eq!(lines("x\n\r"), vec!["x", "\r"]);
}

#[test]
fn lines_agree_with_the_standard_library() {
    let samples = [
        "", "\n", "\r", "\r\n", "a", "a\n", "a\r\n", "a\nb", "a\r\nb\r", "\n\na\n\n",
        "\r\r\n\r", "h\u{e9}\nw\u{f6}\r\n\u{3042}", "a\n\rb\n", "no newline at all",
    ];
    for text in samples {
        let expected: Vec<String> = text.lines().map(str::to_string).collect();
        assert_eq!(lines(text), expected);
    }
}

#[test]
fn history_is_the_last_hundred_lines() {
    assert_eq!(HISTORY_LINES, 100);
    let content: String = (0..250).map(|i| format!("line {}\n", i)).collect();
    let shown = history(&content);
    assert_eq!(shown.len(), 100);
    assert_eq!(shown[0], "line 150");
    assert_eq!(shown[99], "line 249");
}

#[test]
fn a_short_log_is_shown_whole() {
    let content: String = (0..100).map(|i| format!("line {}\n", i)).collect();
    let shown = history(&content);
    assert_eq!(shown.len(), 100);
    assert_eq!(shown[0], "line 0");
    assert_eq!(history("a\nb"), vec!["a", "b"]);
    assert!(history("").is_empty());
    let content: String = (0..101).map(|i| format!("line {}\n", i)).collect();
    let shown = history(&content);
    assert_eq!(shown.len(), 100);
    assert_eq!(shown[0], "line 1");
}

#[test]
fn shown_lines_name_their_stream() {
    assert_eq!(out_line("hello"), "out: hello");
    assert_eq!(err_line("oops"), "err: oops");
}
