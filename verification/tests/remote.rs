use shell_proxy::embed::{serve_binary, Arch, ServeBinaries};
use shell_proxy::proto::{
    encode_event_frame, EventFrame, EventMessage, ExecMessage, ExitReport, Pong, Signal,
};
use shell_proxy::remote::{
    exec_status, new_nonce, nonce_text, remote_matches, same_digest, upload_result,
    ChannelMessage, ChannelOutput, Deploy, DeployAction, InputEvent, OutputEvent, RemoteRun,
    Reply, ServeLog, Stage,
};

const DIR: &str = "~/.local/share/shell-proxy";

fn bins() -> ServeBinaries {
    ServeBinaries { x86_64: b"ELF-x86".to_vec(), aarch64: Vec::new() }
}

fn reply(rc: i32, out: &[u8]) -> Reply {
    Reply { rc, out: out.to_vec(), err: b" why \n".to_vec() }
}

fn start() -> Deploy {
    let (d, a) = Deploy::start("0.3.1".into(), "00ff".into(), bins());
    assert!(matches!(a, DeployAction::Run(c) if c == "uname -m"));
    d
}

fn failure(a: DeployAction) -> String {
    match a {
        DeployAction::Fail(e) => e.brief(),
        other => panic!("unexpected {other:?}"),
    }
}

fn command(a: DeployAction) -> String {
    match a {
        DeployAction::Run(c) => c,
        other => panic!("unexpected {other:?}"),
    }
}

#[test]
fn a_present_binary_is_reused() {
    let mut d = start();
    let path = format!("{DIR}/sp-serve-0.3.1-x86_64");
    assert_eq!(command(d.replied(reply(0, b"x86_64\n"))), format!("cat {path}"));
    assert_eq!(d.binary(), b"ELF-x86");
    match d.replied(reply(0, b"ELF-x86")) {
        DeployAction::Done(p) => assert_eq!(p, path),
        other => panic!("unexpected {other:?}"),
    }
    assert_eq!(d.stage(), Stage::Over);
}

#[test]
fn a_stale_binary_is_replaced_and_verified() {
    let mut d = start();
    let path = format!("{DIR}/sp-serve-0.3.1-x86_64");
    let tmp = format!("{DIR}/.upload-00ff");
    command(d.replied(reply(0, b"amd64")));
    assert_eq!(command(d.replied(reply(0, b"old"))), format!("mkdir -p {DIR}"));
    match d.replied(reply(0, b"")) {
        DeployAction::Upload(p) => assert_eq!(p, tmp),
        other => panic!("unexpected {other:?}"),
    }
    assert_eq!(d.stage(), Stage::Upload);
    assert_eq!(command(d.uploaded(Some(0))), format!("chmod 700 {tmp}"));
    assert_eq!(command(d.replied(reply(0, b""))), format!("mv {tmp} {path}"));
    assert_eq!(command(d.replied(reply(0, b""))), format!("cat {path}"));
    match d.replied(reply(0, b"ELF-x86")) {
        DeployAction::Done(p) => assert_eq!(p, path),
        other => panic!("unexpected {other:?}"),
    }
}

#[test]
fn deployment_failures_are_told() {
    assert_eq!(
        failure(start().replied(reply(127, b""))),
        "remote exec failed: `uname -m` failed with rc=127"
    );
    assert_eq!(
        failure(start().replied(reply(0, b" riscv64\n"))),
        "remote exec failed: unsupported remote arch: riscv64"
    );
    assert_eq!(
        failure(start().replied(reply(0, b"arm64"))),
        "remote exec failed: no embedded sp-serve binary for aarch64; set SP_SERVE_AARCH64 to a \
         musl build of sp-serve and rebuild"
    );
    let mut d = start();
    d.replied(reply(0, b"x86_64"));
    d.replied(reply(1, b""));
    assert_eq!(
        failure(d.replied(reply(1, b""))),
        format!("remote exec failed: `mkdir -p {DIR}` failed with rc=1: why")
    );
    let mut d = start();
    d.replied(reply(0, b"x86_64"));
    d.replied(reply(1, b""));
    d.replied(reply(0, b""));
    assert_eq!(
        failure(d.uploaded(None)),
        format!(
            "remote exec failed: upload to {DIR}/.upload-00ff failed (status=None); is the home \
             directory writable?"
        )
    );
    let mut d = start();
    d.replied(reply(0, b"x86_64"));
    d.replied(reply(1, b""));
    d.replied(reply(0, b""));
    d.uploaded(Some(0));
    d.replied(reply(0, b""));
    d.replied(reply(0, b""));
    assert_eq!(
        failure(d.replied(reply(0, b"torn"))),
        format!("remote exec failed: deployed {DIR}/sp-serve-0.3.1-x86_64 failed checksum verification")
    );
}

#[test]
fn checksums_decide() {
    assert!(remote_matches(0, b"abc", b"abc"));
    assert!(!remote_matches(0, b"abc", b"abd"));
    assert!(!remote_matches(1, b"abc", b"abc"));
    assert!(same_digest(b"\x01", b"\x01") && !same_digest(b"\x01", b"\x02"));
}

#[test]
fn nonces_are_lower_case_hex() {
    assert_eq!(nonce_text(&[0x00, 0xab, 0x10, 0xff]), "00ab10ff");
    assert_eq!(nonce_text(&[]), "");
    let n = new_nonce();
    assert_eq!(n.len(), 32);
    assert!(n.chars().all(|c| c.is_ascii_digit() || ('a'..='f').contains(&c)));
}

#[test]
fn fixed_commands_are_collected() {
    let mut c = ChannelOutput::new();
    assert!(!c.feed(ChannelMessage::Stdout(b"a".to_vec())));
    assert!(!c.feed(ChannelMessage::Stderr(b"e".to_vec())));
    assert!(!c.feed(ChannelMessage::Other));
    assert!(!c.feed(ChannelMessage::Stdout(b"b".to_vec())));
    assert!(!c.feed(ChannelMessage::ExitStatus(2)));
    assert!(c.feed(ChannelMessage::Close));
    assert!(c.feed(ChannelMessage::Stdout(b"late".to_vec())));
    assert_eq!(c.status(), Some(2));
    let r = c.reply();
    assert_eq!((r.rc, r.out.as_slice(), r.err.as_slice()), (2, &b"ab"[..], &b"e"[..]));
    assert_eq!(ChannelOutput::new().reply().rc, 255);
    assert!(exec_status("x", &reply(0, b"")).is_ok());
    assert_eq!(
        exec_status("x", &reply(-1, b"")).unwrap_err().brief(),
        "remote exec failed: `x` failed with rc=-1: why"
    );
    assert!(upload_result("p", Some(0)).is_ok());
    assert!(upload_result("p", Some(4)).unwrap_err().brief().contains("(status=Some(4))"));
}

#[test]
fn serve_log_lines_are_assembled() {
    let mut l = ServeLog::new();
    assert!(l.feed(b"sp-serve: ex").is_empty());
    assert_eq!(
        l.feed(b"ec \r\nnext\n\xfftail "),
        vec!["sp-serve: exec".to_owned(), "next".to_owned()]
    );
    assert_eq!(l.flush().as_deref(), Some("\u{fffd}tail"));
    assert!(l.flush().is_none());
}

#[test]
fn an_execution_forwards_streams_until_the_report() {
    let mut r = RemoteRun::new();
    let wire = encode_event_frame(&EventFrame::Stdout(b"out".to_vec())).unwrap();
    assert!(r.data(&wire[..3]).unwrap().is_empty());
    let frames = r.data(&wire[3..]).unwrap();
    assert_eq!(frames.len(), 1);
    let report = ExitReport {
        code: 7,
        cwd: Some("/c".into()),
        state: Some("S".into()),
        error: None,
        timed_out: false,
    };
    let batch = r.messages(vec![
        EventMessage::Stdout(b"1".to_vec()),
        EventMessage::Pong(Pong { pid: 1 }),
        EventMessage::Stderr(b"2".to_vec()),
        EventMessage::Exit(report),
        EventMessage::Stdout(b"late".to_vec()),
    ]);
    assert!(batch.done);
    assert_eq!(batch.output.len(), 2);
    assert!(matches!(&batch.output[0], OutputEvent::Stdout(d) if d == b"1"));
    assert!(matches!(&batch.output[1], OutputEvent::Stderr(d) if d == b"2"));
    assert_eq!(r.stderr(b"x\ny"), vec!["x".to_owned()]);
    let (line, o) = r.finish();
    assert_eq!(line.as_deref(), Some("y"));
    let o = o.unwrap();
    assert_eq!((o.exit_code, o.timed_out), (7, false));
    assert_eq!(o.new_cwd.as_deref(), Some("/c"));
    assert_eq!(o.new_state.as_deref(), Some("S"));
    assert_eq!(o.error, None);
}

#[test]
fn the_reason_of_a_remote_failure_is_kept() {
    let mut r = RemoteRun::new();
    let batch = r.messages(vec![EventMessage::Exit(ExitReport::failure("spawn bash: no".into()))]);
    assert!(batch.done);
    let (_, o) = r.finish();
    let o = o.unwrap();
    assert_eq!(o.exit_code, 254);
    assert_eq!(o.error.as_deref(), Some("spawn bash: no"));
}

#[test]
fn an_execution_without_report_fails() {
    let mut r = RemoteRun::new();
    assert!(r.input_open());
    assert!(matches!(r.input(InputEvent::Stdin(vec![5])), ExecMessage::StdinData(d) if d == [5]));
    assert!(matches!(r.input(InputEvent::StdinEof), ExecMessage::StdinEof));
    assert!(matches!(
        r.input(InputEvent::Signal(Signal::Int)),
        ExecMessage::Signal(Signal::Int)
    ));
    r.input_closed();
    assert!(!r.input_open());
    r.status(1);
    let e = r.data(&[9, 0, 0, 0, 0]).unwrap_err();
    assert_eq!(e.brief(), "protocol error: bad event frame kind 0x9");
    let (line, o) = r.finish();
    assert!(line.is_none());
    assert_eq!(
        o.unwrap_err().brief(),
        "remote exec failed: sp-serve closed the channel without an exit report (exit status \
         Some(1)); see daemon log for its stderr"
    );
}

#[test]
fn architectures_are_recognized() {
    assert_eq!(Arch::parse(" x86_64\n"), Some(Arch::X86_64));
    assert_eq!(Arch::parse("amd64"), Some(Arch::X86_64));
    assert_eq!(Arch::parse("aarch64"), Some(Arch::Aarch64));
    assert_eq!(Arch::parse("arm64"), Some(Arch::Aarch64));
    assert_eq!(Arch::parse("i686"), None);
    assert_eq!(Arch::Aarch64.as_str(), "aarch64");
    assert_eq!(Arch::X86_64.env_var(), "SP_SERVE_X86_64");
    assert_eq!(serve_binary(&bins(), Arch::X86_64), Some(&b"ELF-x86"[..]));
    assert_eq!(serve_binary(&bins(), Arch::Aarch64), None);
}

#[test]
fn log_lines_do_not_depend_on_the_cut() {
    let text = b"one \ntwo\n\nthree";
    for cut in 0..=text.len() {
        let mut l = ServeLog::new();
        let mut lines = l.feed(&text[..cut]);
        lines.extend(l.feed(&text[cut..]));
        assert_eq!(lines, vec!["one".to_owned(), "two".to_owned(), String::new()]);
        assert_eq!(l.flush().as_deref(), Some("three"));
    }
}

#[test]
fn batches_may_be_cut_anywhere() {
    let messages = || {
        vec![
            EventMessage::Stdout(b"a".to_vec()),
            EventMessage::Pong(Pong { pid: 2 }),
            EventMessage::Stderr(b"b".to_vec()),
            EventMessage::Exit(ExitReport::failure("x".into())),
        ]
    };
    for cut in 0..=3 {
        let mut r = RemoteRun::new();
        let mut first = messages();
        let second = first.split_off(cut);
        let a = r.messages(first);
        assert!(!a.done);
        let b = r.messages(second);
        assert!(b.done);
        let all: Vec<OutputEvent> = a.output.into_iter().chain(b.output).collect();
        assert_eq!(all.len(), 2);
        assert!(matches!(&all[0], OutputEvent::Stdout(d) if d == b"a"));
        assert!(matches!(&all[1], OutputEvent::Stderr(d) if d == b"b"));
    }
}
