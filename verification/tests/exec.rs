use shell_proxy::exec::{
    kill_group, run_command, signal_exit_code, signal_spec, to_exit_code, upload_command,
    upload_script_result, Engine, EngineEvent, ExitSig, Order,
};
use shell_proxy::proto::Signal;
use shell_proxy::remote::{InputEvent, OutputEvent};

fn marker(cwd: &str) -> Vec<u8> {
    let b64 = base64_simd::STANDARD.encode_to_string(cwd.as_bytes());
    format!("\x1cSPM:n:{b64}\x1c").into_bytes()
}

#[test]
fn a_command_runs_to_its_marker_and_status() {
    let mut e = Engine::new("n", Some(60_000), 100);
    assert_eq!(e.deadline(), Some(60_100));
    let f = e.step(EngineEvent::Stdout(b"\x1cSPPG:n:77\x1chi".to_vec()), 110);
    assert!(matches!(f.output, Some(OutputEvent::Stdout(d)) if d == b"hi"));
    let f = e.step(EngineEvent::Stderr(b"oops".to_vec()), 111);
    assert!(matches!(f.output, Some(OutputEvent::Stderr(d)) if d == b"oops"));
    let f = e.step(EngineEvent::Input(InputEvent::Stdin(vec![1])), 112);
    assert!(matches!(f.order, Some(Order::Data(d)) if d == [1]));
    let f = e.step(EngineEvent::Input(InputEvent::StdinEof), 113);
    assert!(matches!(f.order, Some(Order::Eof)));
    assert!(e.input_open());
    let f = e.step(EngineEvent::Input(InputEvent::Signal(Signal::Int)), 114);
    assert!(matches!(f.order, Some(Order::KillGroup(77, Signal::Int))));
    let f = e.step(EngineEvent::Eof, 115);
    assert!(!f.done);
    let f = e.step(EngineEvent::Stdout(marker("/tmp")), 116);
    assert!(f.output.is_none());
    e.step(EngineEvent::Exit(3), 117);
    assert_eq!(e.drain_at(), Some(2117));
    let f = e.step(EngineEvent::Eof, 118);
    assert!(f.done);
    let (rest, o) = e.finish();
    assert!(rest.is_none());
    assert_eq!((o.exit_code, o.timed_out), (3, false));
    assert_eq!(o.new_cwd.as_deref(), Some("/tmp"));
}

#[test]
fn a_timeout_kills_and_decides_the_code() {
    let mut e = Engine::new("n", Some(10), 0);
    let f = e.step(EngineEvent::Deadline, 10);
    assert!(matches!(f.order, Some(Order::Signal(Signal::Kill))));
    assert_eq!(e.deadline(), None);
    assert_eq!(e.drain_at(), Some(2010));
    e.step(EngineEvent::Exit(0), 20);
    let f = e.step(EngineEvent::Drained, 2020);
    assert!(f.done);
    let (_, o) = e.finish();
    assert_eq!((o.exit_code, o.timed_out), (124, true));
    assert!(o.new_cwd.is_none());
}

#[test]
fn a_closed_channel_without_status_is_255() {
    let mut e = Engine::new("n", None, 0);
    let f = e.step(EngineEvent::Stdout(b"x\x1cSP".to_vec()), 1);
    assert!(matches!(f.output, Some(OutputEvent::Stdout(d)) if d == b"x"));
    e.step(EngineEvent::InputClosed, 2);
    assert!(!e.input_open());
    let f = e.step(EngineEvent::Closed, 3);
    assert!(f.done);
    let (rest, o) = e.finish();
    assert!(matches!(rest, Some(OutputEvent::Stdout(d)) if d == b"\x1cSP"));
    assert_eq!(o.exit_code, 255);
}

#[test]
fn a_fatal_signal_is_reported() {
    let mut e = Engine::new("n", None, 0);
    let f = e.step(EngineEvent::ExitSignal(ExitSig::Term, "killed".into()), 5);
    assert!(matches!(f.output, Some(OutputEvent::Stderr(d)) if d == b"killed"));
    let f = e.step(EngineEvent::ExitSignal(ExitSig::Kill, String::new()), 6);
    assert!(f.output.is_none());
    e.step(EngineEvent::Closed, 7);
    assert_eq!(e.finish().1.exit_code, 137);
}

#[test]
fn codes_and_commands_are_as_documented() {
    assert_eq!(signal_exit_code(ExitSig::Hup), 129);
    assert_eq!(signal_exit_code(ExitSig::Int), 130);
    assert_eq!(signal_exit_code(ExitSig::Quit), 131);
    assert_eq!(signal_exit_code(ExitSig::Abrt), 134);
    assert_eq!(signal_exit_code(ExitSig::Kill), 137);
    assert_eq!(signal_exit_code(ExitSig::Alrm), 142);
    assert_eq!(signal_exit_code(ExitSig::Term), 143);
    assert_eq!(signal_exit_code(ExitSig::Ill), 132);
    assert_eq!(signal_exit_code(ExitSig::Fpe), 136);
    assert_eq!(signal_exit_code(ExitSig::Usr1), 138);
    assert_eq!(signal_exit_code(ExitSig::Segv), 139);
    assert_eq!(signal_exit_code(ExitSig::custom("USR2")), 140);
    assert_eq!(signal_exit_code(ExitSig::Pipe), 141);
    assert_eq!(signal_exit_code(ExitSig::custom("ODD")), 128);
    assert_eq!(to_exit_code(127), 127);
    assert_eq!(to_exit_code(u32::MAX), 255);
    assert_eq!(
        kill_group(42, signal_spec(Signal::Term)),
        "bash -c 'kill -TERM -42; echo kill_rc=$?; ps -o pid,ppid,pgid,sid,comm -g 42 2>&1'"
    );
    assert_eq!(signal_spec(Signal::Hup), "HUP");
    assert_eq!(upload_command("ab"), "cat > /tmp/.sp-ab.sh");
    assert_eq!(run_command("ab"), "bash /tmp/.sp-ab.sh");
    assert!(upload_script_result(Some(0)).is_ok());
    assert_eq!(
        upload_script_result(Some(1)).unwrap_err().brief(),
        "remote exec failed: script upload failed (status=Some(1)); is /tmp writable on the \
         remote host?"
    );
    assert!(upload_script_result(None).unwrap_err().brief().contains("(status=None)"));
    assert!(upload_script_result(Some(u32::MAX)).unwrap_err().brief().contains("Some(255)"));
}
