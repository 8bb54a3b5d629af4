use shell_proxy::console::{caught, console_event};
use shell_proxy::daemon::{
    abbreviate, can_reuse, conclude, connect_failed, handle_idle, log_line, needs_rotation,
    ActiveCount, Execution, IdleAction, Relay, RelayAction, RelayEvent, Sessions,
};
use shell_proxy::proto::{ExecMessage, ExecRequest, Signal};
use shell_proxy::remote::{ExecOutcome, InputEvent};
use shell_proxy::session::SessionId;
use shell_proxy::transport::retry_pipe;
use shell_proxy::Error;

fn request(host: &str, cwd: Option<&str>) -> ExecRequest {
    ExecRequest {
        host: host.into(),
        command: "pwd".into(),
        args: Vec::new(),
        cwd: cwd.map(str::to_owned),
        state: Some("ignored".into()),
        session: None,
        timeout_ms: Some(1),
    }
}

fn outcome(cwd: Option<&str>, state: Option<&str>) -> ExecOutcome {
    ExecOutcome {
        exit_code: 0,
        new_cwd: cwd.map(str::to_owned),
        new_state: state.map(str::to_owned),
        error: None,
        timed_out: false,
    }
}

fn id(s: &str) -> SessionId {
    SessionId::parse(s).unwrap()
}

#[test]
fn directory_and_state_persist_per_session() {
    let mut s = Sessions::new();
    let r = s.effective_request(&request("h", None), &id("a"));
    assert_eq!((r.cwd, r.state), (None, None));
    let c = conclude(&mut s, "h", &id("a"), Ok(outcome(Some("/root"), Some("X=1"))), false);
    assert_eq!(c.report.code, 0);
    assert_eq!(c.report.cwd.as_deref(), Some("/root"));
    assert!(c.report.state.is_none() && !c.evict);
    conclude(&mut s, "h", &id("b"), Ok(outcome(Some("/tmp"), None)), false);

    let r = s.effective_request(&request("h", None), &id("a"));
    assert_eq!((r.cwd.as_deref(), r.state.as_deref()), (Some("/root"), Some("X=1")));
    assert_eq!(r.timeout_ms, Some(1));
    let r = s.effective_request(&request("h", None), &id("b"));
    assert_eq!((r.cwd.as_deref(), r.state.as_deref()), (Some("/tmp"), None));
    let r = s.effective_request(&request("other", None), &id("a"));
    assert_eq!((r.cwd, r.state), (None, None));
    // a named directory wins; what is not reported stays
    let r = s.effective_request(&request("h", Some("/var")), &id("a"));
    assert_eq!((r.cwd.as_deref(), r.state.as_deref()), (Some("/var"), Some("X=1")));
    conclude(&mut s, "h", &id("a"), Ok(outcome(None, Some("Y=2"))), false);
    let r = s.effective_request(&request("h", None), &id("a"));
    assert_eq!((r.cwd.as_deref(), r.state.as_deref()), (Some("/root"), Some("Y=2")));
}

#[test]
fn a_failure_changes_nothing_and_may_evict() {
    let mut s = Sessions::new();
    conclude(&mut s, "h", &id("a"), Ok(outcome(Some("/w"), None)), false);
    let c = conclude(&mut s, "h", &id("a"), Err("gone".into()), true);
    assert_eq!(c.report.code, 254);
    assert_eq!(c.report.error.as_deref(), Some("gone"));
    assert!(c.evict);
    let c = conclude(&mut s, "h", &id("a"), Err("gone".into()), false);
    assert!(!c.evict);
    // the session outlives the connection
    let r = s.effective_request(&request("h", None), &id("a"));
    assert_eq!(r.cwd.as_deref(), Some("/w"));
    let rep = connect_failed(&Error::Connect("no route".into()));
    assert_eq!(rep.code, 254);
    assert_eq!(rep.error.as_deref(), Some("connect failed: no route"));
    assert!(can_reuse(true, false) && !can_reuse(true, true) && !can_reuse(false, false));
}

#[test]
fn only_requests_and_pings_count_while_idle() {
    assert!(matches!(handle_idle(ExecMessage::Ping, 5), IdleAction::Reply(p) if p.pid == 5));
    let m = ExecMessage::Exec(request("h", None));
    assert!(matches!(handle_idle(m, 5), IdleAction::Run(r) if r.host == "h"));
    assert!(matches!(handle_idle(ExecMessage::StdinEof, 5), IdleAction::Ignore));
    let m = ExecMessage::Signal(Signal::Int);
    assert!(matches!(handle_idle(m, 5), IdleAction::Ignore));
}

#[test]
fn a_running_command_is_relayed() {
    let mut r = Relay::new(8);
    let a = r.step(RelayEvent::Message(ExecMessage::StdinData(vec![1])));
    assert!(matches!(a, RelayAction::Stdin(d) if d == [1]));
    let a = r.step(RelayEvent::Message(ExecMessage::StdinEof));
    assert!(matches!(a, RelayAction::Forward(InputEvent::StdinEof)));
    let a = r.step(RelayEvent::Message(ExecMessage::Signal(Signal::Term)));
    assert!(matches!(a, RelayAction::Forward(InputEvent::Signal(Signal::Term))));
    let a = r.step(RelayEvent::Message(ExecMessage::Ping));
    assert!(matches!(a, RelayAction::Reply(p) if p.pid == 8));
    let a = r.step(RelayEvent::Message(ExecMessage::Exec(request("h", None))));
    assert!(matches!(a, RelayAction::CloseAndConclude(e)
        if e == "nested exec on one connection is not supported"));
    assert!(r.reader_open());
    let a = r.step(RelayEvent::ClientGone);
    assert!(matches!(a, RelayAction::Forward(InputEvent::StdinEof)));
    assert!(!r.reader_open());
    let a = r.step(RelayEvent::ClientBad("junk".into()));
    assert!(matches!(a, RelayAction::Conclude(Err(e)) if e == "junk"));
    let a = r.step(RelayEvent::InputLost);
    assert!(matches!(a, RelayAction::Conclude(Err(e)) if e == "engine died unexpectedly"));
    let a = r.step(RelayEvent::Engine(Ok(outcome(None, None))));
    assert!(matches!(a, RelayAction::Conclude(Ok(o)) if o.exit_code == 0));
    let a = r.step(RelayEvent::Engine(Err(Error::Remote("x".into()))));
    assert!(matches!(a, RelayAction::Conclude(Err(e)) if e == "remote exec failed: x"));
}

#[test]
fn the_last_connection_arms_the_idle_timer() {
    let mut n = ActiveCount::new();
    assert_eq!(n.idle_deadline(Some(2), 100), Some(2100));
    assert_eq!(n.idle_deadline(None, 100), None);
    n.acquire();
    n.acquire();
    assert_eq!(n.active(), 2);
    assert_eq!(n.idle_deadline(Some(2), 100), None);
    assert!(!n.release());
    assert!(n.release());
    assert_eq!(n.idle_deadline(Some(u64::MAX), 100), Some(u64::MAX));
}

#[test]
fn executions_are_logged() {
    assert_eq!(abbreviate("a \"b\"\n"), r#""a \"b\"\n""#);
    let long = "x".repeat(301);
    assert_eq!(
        abbreviate(&long),
        format!("\"{}\"...(total 301 bytes)", "x".repeat(300))
    );
    let x = Execution {
        session: "default".into(),
        cwd: None,
        code: -1,
        millis: 12,
        stdout_bytes: 3,
        stderr_bytes: 0,
    };
    assert_eq!(
        log_line("h", "ls", &x),
        "exec host=h session=default cwd=~ rc=-1 dur=12ms out=3B err=0B cmd=\"ls\""
    );
    let y = Execution { cwd: Some("/w".into()), ..x };
    assert!(log_line("h", "ls", &y).contains(" cwd=/w rc="));
    assert!(!needs_rotation(10 * 1024 * 1024));
    assert!(needs_rotation(10 * 1024 * 1024 + 1));
}

#[test]
fn platform_events_are_mapped() {
    assert_eq!(caught(15), Signal::Term);
    assert_eq!(caught(2), Signal::Int);
    assert_eq!(console_event(0), Some(Signal::Int));
    assert_eq!(console_event(1), Some(Signal::Int));
    assert_eq!(console_event(2), None);
    assert!(retry_pipe(Some(231), 1, 2));
    assert!(!retry_pipe(Some(231), 2, 2));
    assert!(!retry_pipe(Some(2), 1, 2));
    assert!(!retry_pipe(None, 1, 2));
}
