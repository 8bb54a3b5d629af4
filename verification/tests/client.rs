use shell_proxy::client::{
    download_request, not_running, ping_result, read_script_file, upload_request, Attempt,
    PingReply, Reach, ReachStep, Run, RunAction, RunEvent, RunReport,
};
use shell_proxy::proto::{EventMessage, ExecMessage, ExitReport, Pong, Signal};

#[test]
fn a_running_daemon_is_used() {
    let (mut r, s) = Reach::start(true, "/run/d.sock");
    assert!(matches!(s, ReachStep::Connect));
    assert!(matches!(r.tried(Attempt::Connected, 0), ReachStep::Use));
}

#[test]
fn a_stale_socket_is_removed_and_the_daemon_started() {
    let (mut r, _) = Reach::start(true, "/run/d.sock");
    assert!(matches!(r.tried(Attempt::Refused("r".into()), 0), ReachStep::Connect));
    assert!(matches!(r.tried(Attempt::Refused("r".into()), 0), ReachStep::RemoveAndSpawn));
    assert!(matches!(r.spawned(5), ReachStep::Connect));
    assert!(matches!(r.tried(Attempt::Failed("f".into()), 10_004), ReachStep::Retry));
    match r.tried(Attempt::Refused("still".into()), 10_005) {
        ReachStep::Fail(e) => assert_eq!(
            e.brief(),
            "daemon not reachable: daemon did not come up at /run/d.sock: still"
        ),
        other => panic!("unexpected {other:?}"),
    }
}

#[test]
fn a_socket_is_kept_on_other_failures() {
    let (mut r, _) = Reach::start(true, "/run/d.sock");
    assert!(matches!(r.tried(Attempt::Failed("f".into()), 0), ReachStep::Connect));
    assert!(matches!(r.tried(Attempt::Failed("f".into()), 0), ReachStep::Spawn));
    // a pipe name is no socket file
    let (mut r, _) = Reach::start(false, r"\\.\pipe\x");
    assert!(matches!(r.tried(Attempt::Refused("f".into()), 0), ReachStep::Spawn));
}

#[test]
fn pings_are_answered_with_a_pid() {
    let pong = PingReply::Message(EventMessage::Pong(Pong { pid: 9 }));
    assert_eq!(ping_result(pong, "").unwrap(), 9);
    let other = PingReply::Message(EventMessage::Stdout(Vec::new()));
    assert_eq!(
        ping_result(other, "Stdout").unwrap_err().brief(),
        "protocol error: unexpected reply: Stdout"
    );
    assert_eq!(
        ping_result(PingReply::Closed, "None").unwrap_err().brief(),
        "protocol error: unexpected reply: None"
    );
    assert_eq!(
        ping_result(PingReply::Bad("x".into()), "").unwrap_err().brief(),
        "ipc error: x"
    );
    assert_eq!(
        ping_result(PingReply::TimedOut, "").unwrap_err().brief(),
        "ipc error: ping timed out"
    );
    assert_eq!(
        not_running("/s", "refused").brief(),
        "daemon not reachable: daemon not running at /s: refused"
    );
}

fn report() -> ExitReport {
    ExitReport {
        code: 42,
        cwd: Some("/w".into()),
        state: Some("S".into()),
        error: Some("e".into()),
        timed_out: true,
    }
}

#[test]
fn a_run_forwards_streams_and_ends_with_the_report() {
    let mut r = Run::new();
    let a = r.step(RunEvent::Stdin(vec![1, 2]), 0);
    assert!(matches!(a, RunAction::Send(ExecMessage::StdinData(d)) if d == [1, 2]));
    let a = r.step(RunEvent::Message(EventMessage::Stdout(vec![3])), 0);
    assert!(matches!(a, RunAction::Stdout(d) if d == [3]));
    let a = r.step(RunEvent::Message(EventMessage::Stderr(vec![4])), 0);
    assert!(matches!(a, RunAction::Stderr(d) if d == [4]));
    assert!(r.stdin_open());
    let a = r.step(RunEvent::StdinEnd, 0);
    assert!(matches!(a, RunAction::Send(ExecMessage::StdinEof)));
    assert!(!r.stdin_open());
    let a = r.step(RunEvent::Message(EventMessage::Pong(Pong { pid: 1 })), 0);
    assert!(matches!(a, RunAction::Nothing));
    let a = r.step(RunEvent::Message(EventMessage::Exit(report())), 0);
    match a {
        RunAction::Done(rep) => {
            assert_eq!((rep.code, rep.timed_out), (42, true));
            assert_eq!(rep.cwd.as_deref(), Some("/w"));
            assert_eq!(rep.error.as_deref(), Some("e"));
        }
        other => panic!("unexpected {other:?}"),
    }
    let rep = RunReport::from(report()).clone();
    assert_eq!(rep.code, 42);
}

#[test]
fn a_run_fails_when_the_daemon_goes_away() {
    let mut r = Run::new();
    let a = r.step(RunEvent::StdinFailed, 0);
    assert!(matches!(a, RunAction::SendIfPossible(ExecMessage::StdinEof)));
    assert!(!r.stdin_open());
    match r.step(RunEvent::Closed, 0) {
        RunAction::Fail(e) => assert_eq!(
            e.brief(),
            "daemon not reachable: daemon closed the connection before exit"
        ),
        other => panic!("unexpected {other:?}"),
    }
}

#[test]
fn two_quick_presses_force_an_exit() {
    let mut r = Run::new();
    let int = |r: &mut Run, t| r.step(RunEvent::Signal(Signal::Int), t);
    assert!(matches!(int(&mut r, 100), RunAction::Send(ExecMessage::Signal(Signal::Int))));
    assert!(matches!(int(&mut r, 1100), RunAction::Send(ExecMessage::Signal(Signal::Int))));
    let a = r.step(RunEvent::Signal(Signal::Term), 1500);
    assert!(matches!(a, RunAction::Send(ExecMessage::Signal(Signal::Term))));
    match int(&mut r, 2099) {
        RunAction::Done(rep) => {
            assert_eq!((rep.code, rep.timed_out), (130, false));
            assert!(rep.cwd.is_none() && rep.error.is_none());
        }
        other => panic!("unexpected {other:?}"),
    }
    assert!(r.signals_open());
    assert!(matches!(r.step(RunEvent::SignalsEnd, 0), RunAction::Nothing));
    assert!(!r.signals_open());
}

#[test]
fn transfers_pass_the_path_as_an_argument() {
    let r = upload_request("h".into(), "a b; rm", Some("/c".into()), Some(5));
    assert_eq!(r.command, "cat > \"$1\"");
    assert_eq!(r.args, vec!["a b; rm".to_owned()]);
    assert_eq!((r.host.as_str(), r.cwd.as_deref(), r.timeout_ms), ("h", Some("/c"), Some(5)));
    let r = download_request("h".into(), "-n", None, None);
    assert_eq!(r.command, "cat -- \"$1\"");
    assert_eq!(r.args, vec!["-n".to_owned()]);
}

#[test]
fn script_files_must_be_utf8() {
    assert_eq!(read_script_file("f", "é".as_bytes()).unwrap(), "é");
    let e = read_script_file("f.sh", b"a\xff").unwrap_err();
    assert_eq!(
        e.brief(),
        format!(
            "config error: f.sh is not valid UTF-8: {}",
            String::from_utf8(b"a\xff".to_vec()).unwrap_err()
        )
    );
}
