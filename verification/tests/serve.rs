use shell_proxy::proto::{ExecMessage, ExecRequest, Signal};
use shell_proxy::serve::{
    abbrev, exit_report, first_request, group_target, kill_leader_instead, route, spawn_failure,
    status_code, Collected, FirstEvent, Next, PipeCollector, Route, ServeEvent, ServeLoop,
};

fn request() -> ExecRequest {
    ExecRequest {
        host: String::new(),
        command: "true".into(),
        args: Vec::new(),
        cwd: None,
        state: None,
        session: None,
        timeout_ms: None,
    }
}

#[test]
fn the_first_frame_must_be_a_request() {
    let ev = FirstEvent::Message(ExecMessage::Exec(request()));
    assert_eq!(first_request(ev, "").unwrap().command, "true");
    let ev = FirstEvent::Message(ExecMessage::Ping);
    assert_eq!(
        first_request(ev, "Ping").unwrap_err(),
        "first frame must be Exec, got Ping"
    );
    assert_eq!(
        first_request(FirstEvent::Closed, "").unwrap_err(),
        "stdin closed before Exec frame"
    );
    assert_eq!(
        first_request(FirstEvent::Bad("x".into()), "").unwrap_err(),
        "bad Exec frame: x"
    );
    assert_eq!(
        first_request(FirstEvent::TimedOut, "").unwrap_err(),
        "timed out waiting for Exec frame"
    );
    let rep = spawn_failure("no bash");
    assert_eq!(rep.code, 254);
    assert_eq!(rep.error.as_deref(), Some("spawn bash: no bash"));
}

#[test]
fn messages_are_routed() {
    assert!(matches!(route(ExecMessage::StdinData(vec![1]), 9), Route::Stdin(d) if d == [1]));
    assert!(matches!(route(ExecMessage::StdinEof, 9), Route::StdinEof));
    assert!(matches!(route(ExecMessage::Signal(Signal::Hup), 9), Route::Signal(Signal::Hup)));
    assert!(matches!(route(ExecMessage::Ping, 9), Route::Reply(p) if p.pid == 9));
    assert!(matches!(route(ExecMessage::Exec(request()), 9), Route::Drop));
}

#[test]
fn a_timeout_terminates_then_kills() {
    let mut l = ServeLoop::new(Some(1500), 1000);
    assert_eq!(l.deadline(), Some(2500));
    let s = l.step(ServeEvent::Signal(Signal::Int), 1200);
    assert_eq!(s.kill, Some(Signal::Int));
    assert!(!l.timed_out());
    let s = l.step(ServeEvent::Deadline, 2500);
    assert_eq!(s.kill, Some(Signal::Term));
    assert!(matches!(s.next, Next::Wait));
    assert_eq!(l.deadline(), Some(7500));
    let s = l.step(ServeEvent::Deadline, 7500);
    assert_eq!(s.kill, Some(Signal::Kill));
    assert_eq!(l.deadline(), None);
    let s = l.step(ServeEvent::Exited(143), 7600);
    assert!(matches!(s.next, Next::Finish(143)));
    let rep = exit_report(l.timed_out(), 143, Some("/w".into()), None);
    assert_eq!((rep.code, rep.timed_out), (124, true));
    assert_eq!(rep.cwd.as_deref(), Some("/w"));
}

#[test]
fn without_a_timeout_nothing_is_armed() {
    for t in [None, Some(0)] {
        let mut l = ServeLoop::new(t, 5);
        assert_eq!(l.deadline(), None);
        let s = l.step(ServeEvent::Deadline, 6);
        assert!(s.kill.is_none());
        assert!(!l.timed_out());
        assert!(l.reader_open());
        l.step(ServeEvent::ReaderDone, 7);
        assert!(!l.reader_open());
        let rep = exit_report(l.timed_out(), 3, None, Some("s".into()));
        assert_eq!((rep.code, rep.timed_out), (3, false));
        assert_eq!(rep.state.as_deref(), Some("s"));
    }
    assert_eq!(ServeLoop::new(Some(u64::MAX), 5).deadline(), Some(u64::MAX));
}

#[test]
fn a_lost_peer_kills_the_group() {
    let text = |n: Next| match n {
        Next::Fail(e) => e,
        other => panic!("unexpected {other:?}"),
    };
    let mut l = ServeLoop::new(None, 0);
    let s = l.step(ServeEvent::Closed, 1);
    assert_eq!(s.kill, Some(Signal::Kill));
    assert_eq!(text(s.next), "transport closed while the command was running");
    let s = l.step(ServeEvent::Bad("x".into()), 1);
    assert_eq!(s.kill, Some(Signal::Kill));
    assert_eq!(text(s.next), "bad frame: x");
    let s = l.step(ServeEvent::WriterDone(true), 1);
    assert_eq!(s.kill, Some(Signal::Kill));
    assert_eq!(text(s.next), "daemon vanished while the command was running");
    let s = l.step(ServeEvent::WriterDone(false), 1);
    assert!(s.kill.is_none() && matches!(s.next, Next::Wait));
    let s = l.step(ServeEvent::WaitFailed("y".into()), 1);
    assert!(s.kill.is_none());
    assert_eq!(text(s.next), "wait on child: y");
}

fn collect(chunks: &[&[u8]], cap: usize) -> Collected {
    let mut c = PipeCollector::new(cap);
    for chunk in chunks {
        if c.feed(chunk) {
            break;
        }
    }
    c.finish()
}

#[test]
fn reports_end_at_the_terminator() {
    assert!(matches!(collect(&[b"/tmp\0rest"], 10), Collected::Value(s) if s == "/tmp"));
    assert!(matches!(collect(&[b"/t", b"mp", b"\0"], 4), Collected::Value(s) if s == "/tmp"));
    // end of the pipe without a terminator
    assert!(matches!(collect(&[b"/t"], 10), Collected::Value(s) if s == "/t"));
    assert!(matches!(collect(&[b"\0"], 10), Collected::Empty));
    assert!(matches!(collect(&[], 10), Collected::Empty));
    assert!(matches!(collect(&[b"\xff\0"], 10), Collected::NotUtf8));
    assert_eq!(collect(&[b"v\0"], 10).value().as_deref(), Some("v"));
    assert_eq!(collect(&[b"\xff\0"], 10).value(), None);
}

#[test]
fn reports_over_the_cap_are_dropped_however_they_are_cut() {
    for cut in 0..=6 {
        let all = b"12345\0";
        let chunks: [&[u8]; 2] = [&all[..cut], &all[cut..]];
        assert!(matches!(collect(&chunks, 4), Collected::Overflow));
        assert!(matches!(collect(&chunks, 5), Collected::Value(s) if s == "12345"));
    }
    let mut c = PipeCollector::new(1);
    assert!(!c.feed(b"ab"));
    // keep draining after an overflow
    assert!(!c.feed(b"c\0"));
    assert!(matches!(c.finish(), Collected::Overflow));
}

#[test]
fn wait_statuses_become_codes() {
    assert_eq!(status_code(Some(7), None), 7);
    assert_eq!(status_code(None, Some(9)), 137);
    assert_eq!(status_code(None, None), 255);
    assert_eq!(group_target(42), -42);
    assert!(kill_leader_instead(-1, Some(3), libc::ESRCH));
    assert!(!kill_leader_instead(-1, Some(1), libc::ESRCH));
    assert!(!kill_leader_instead(0, Some(3), libc::ESRCH));
    assert!(!kill_leader_instead(-1, None, libc::ESRCH));
}

#[test]
fn long_commands_are_cut_in_the_log() {
    assert_eq!(abbrev("ls"), "ls");
    let long = "é".repeat(200);
    let shown = abbrev(&long);
    assert_eq!(shown, format!("{}...(total 400 bytes)", "é".repeat(150)));
    let odd = format!("a{}", "é".repeat(200));
    assert_eq!(abbrev(&odd), format!("a{}...(total 401 bytes)", "é".repeat(149)));
}
