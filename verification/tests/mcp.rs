use shell_proxy::client::RunReport;
use shell_proxy::mcp::{
    clip, clip_notice, exec_request, file_result, format_report, read_file_answer,
    read_file_request, write_file_answer, write_file_request, Answer, MAX_TOOL_OUTPUT,
};

fn report(code: i32, error: Option<&str>, timed_out: bool) -> RunReport {
    RunReport { code, cwd: None, timed_out, error: error.map(str::to_owned) }
}

#[test]
fn tool_requests_have_a_default_timeout() {
    let r = exec_request("h".into(), "ls".into(), None, None, None);
    assert_eq!(r.timeout_ms, Some(600_000));
    assert!(r.args.is_empty());
    let r = exec_request("h".into(), "ls".into(), Some("/c".into()), Some(0), Some("s".into()));
    assert_eq!(r.timeout_ms, Some(0));
    assert_eq!(r.session.as_deref(), Some("s"));
    let r = read_file_request("h".into(), "/p", Some("s".into()));
    assert_eq!((r.command.as_str(), r.args.as_slice()), ("cat -- \"$1\"", &["/p".to_owned()][..]));
    assert_eq!((r.timeout_ms, r.session.as_deref()), (Some(600_000), Some("s")));
    let r = write_file_request("h".into(), "/p", None);
    assert_eq!(r.command, "cat > \"$1\"");
}

#[test]
fn streams_are_clipped_with_a_notice() {
    assert_eq!(clip(b"ok"), "ok");
    assert_eq!(clip(b"\xff"), "\u{fffd}");
    assert_eq!(clip(&vec![b'a'; MAX_TOOL_OUTPUT]), "a".repeat(MAX_TOOL_OUTPUT));
    assert_eq!(
        clip(&vec![b'a'; MAX_TOOL_OUTPUT + 1]),
        format!("{}\n...[truncated, 65537 bytes total]\n", "a".repeat(MAX_TOOL_OUTPUT))
    );
    assert_eq!(
        clip_notice("a\n".into(), 7),
        "a\n...[truncated, 7 bytes total]\n"
    );
}

#[test]
fn a_cut_costs_one_replacement_character() {
    // one to four bytes a character, cut at every place inside it
    for c in ['a', '\u{e9}', '\u{4f60}', '\u{1f600}'] {
        let w = c.len_utf8();
        for inside in 0..w {
            let fits = "x".repeat(MAX_TOOL_OUTPUT - inside);
            let text = format!("{fits}{c}{c}tail");
            let shown = if inside == 0 { fits } else { format!("{fits}\u{fffd}") };
            assert_eq!(
                clip(text.as_bytes()),
                format!("{shown}\n...[truncated, {} bytes total]\n", text.len())
            );
        }
    }
    let lines = format!("{}\n\u{e9}", "x".repeat(MAX_TOOL_OUTPUT - 1));
    assert_eq!(
        clip(lines.as_bytes()),
        format!("{}\n...[truncated, 65538 bytes total]\n", "x".repeat(MAX_TOOL_OUTPUT - 1))
    );
}

#[test]
fn file_tools_tell_failures() {
    assert_eq!(file_result(&report(0, None, false), b"x", b"y"), None);
    assert_eq!(
        file_result(&report(1, None, false), b"x\n", b"y").unwrap(),
        "exit_code: 1\n--- stdout ---\nx\n--- stderr ---\ny"
    );
    assert_eq!(
        file_result(&report(0, Some("down"), false), b"", b"").unwrap(),
        "error: down"
    );
    assert!(matches!(read_file_answer(&report(0, None, false), b"data", b""),
        Answer::Success(s) if s == "data"));
    assert!(matches!(read_file_answer(&report(254, Some("down"), false), b"", b""),
        Answer::Failure(s) if s == "error: down"));
    assert!(matches!(write_file_answer(&report(0, None, false), b"", "/p", 3),
        Answer::Success(s) if s == "wrote /p (3 bytes)"));
    assert!(matches!(write_file_answer(&report(2, None, false), b"no\n", "/p", 3),
        Answer::Failure(s) if s == "exit_code: 2\n--- stdout ---\n--- stderr ---\nno\n"));
}

#[test]
fn exec_answers_show_both_streams() {
    assert_eq!(
        format_report(&report(0, None, false), b"out", b""),
        "exit_code: 0\n--- stdout ---\nout\n--- stderr ---\n"
    );
    assert_eq!(
        format_report(&report(-7, Some("bad"), true), b"", b"err\n"),
        "exit_code: -7\nerror: bad\ntimed_out: true\n--- stdout ---\n--- stderr ---\nerr\n"
    );
}
