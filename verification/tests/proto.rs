use shell_proxy::frame::MAX_PAYLOAD;
use shell_proxy::proto::{
    encode_event_frame, encode_exec_frame, read_event_frame, read_exec_frame, truncate_utf8,
    write_event_frame, write_exec_frame, Error, EventDecoder, EventFrame, EventKind, ExecFrame,
    ExecKind, ExecRequest, ExitReport, Signal, INTERNAL_ERROR_CODE, TIMEOUT_EXIT_CODE,
};

fn field<'a>(v: &'a serde_json::Value, name: &str) -> &'a serde_json::Value {
    v.get(name).expect("field present")
}

fn text(s: &str) -> serde_json::Value {
    serde_json::Value::String(s.to_owned())
}

/// The JSON of an object with the given fields.
fn object(fields: &[(&str, serde_json::Value)]) -> Vec<u8> {
    let mut m = serde_json::Map::new();
    for (k, v) in fields {
        m.insert((*k).to_owned(), v.clone());
    }
    serde_json::to_vec(&serde_json::Value::Object(m)).unwrap()
}

#[test]
fn lib_roundtrip_all_frames() {
    let request = object(&[
        ("host", text("ls")),
        ("command", text("echo 'a'")),
        ("args", serde_json::Value::Array(vec![text("x y")])),
        ("cwd", text("/tmp")),
        ("timeout_ms", serde_json::Value::from(5000u64)),
    ]);
    let signal = serde_json::to_vec(&text(Signal::Int.as_str())).unwrap();
    let frames = vec![
        ExecFrame::Exec(request),
        ExecFrame::StdinData(vec![0, 255, 10]),
        ExecFrame::StdinEof,
        ExecFrame::Signal(signal),
        ExecFrame::Ping,
    ];
    let mut buf = Vec::new();
    for f in &frames {
        write_exec_frame(&mut buf, f).unwrap();
    }
    let mut pos = 0;
    for f in &frames {
        let (got, n) = read_exec_frame(&buf[pos..]).unwrap().unwrap();
        pos += n;
        match (f, &got) {
            (ExecFrame::Exec(a), ExecFrame::Exec(b)) => {
                let a: serde_json::Value = serde_json::from_slice(a).unwrap();
                let b: serde_json::Value = serde_json::from_slice(b).unwrap();
                assert_eq!(field(&a, "command"), field(&b, "command"));
                assert_eq!(field(&b, "command"), &text("echo 'a'"));
                assert_eq!(field(&a, "timeout_ms"), field(&b, "timeout_ms"));
            }
            (ExecFrame::StdinData(a), ExecFrame::StdinData(b)) => assert_eq!(a, b),
            (ExecFrame::Signal(a), ExecFrame::Signal(b)) => assert_eq!(a, b),
            (ExecFrame::StdinEof, ExecFrame::StdinEof) | (ExecFrame::Ping, ExecFrame::Ping) => {}
            (a, b) => panic!("frame kind mismatch: {a:?} vs {b:?}"),
        }
    }
    assert!(read_exec_frame(&buf[pos..]).unwrap().is_none());
}

#[test]
fn lib_exit_report_roundtrip() {
    let report = object(&[
        ("code", serde_json::Value::from(130)),
        ("cwd", text("/r")),
        ("error", serde_json::Value::Null),
        ("timed_out", serde_json::Value::Bool(false)),
    ]);
    let mut buf = Vec::new();
    write_event_frame(&mut buf, &EventFrame::Exit(report)).unwrap();
    match read_event_frame(&buf).unwrap().unwrap() {
        (EventFrame::Exit(r), n) => {
            assert_eq!(n, buf.len());
            let r: serde_json::Value = serde_json::from_slice(&r).unwrap();
            assert_eq!(field(&r, "code"), &serde_json::Value::from(130));
            assert_eq!(field(&r, "cwd"), &text("/r"));
        }
        _ => panic!("wrong frame"),
    }
}

#[test]
fn decoder_handles_split_and_joined_frames() {
    let a = encode_event_frame(&EventFrame::Stdout(b"hello".to_vec())).unwrap();
    let b = encode_event_frame(&EventFrame::Stderr(b"world".to_vec())).unwrap();
    let mut wire = a.clone();
    wire.extend_from_slice(&b);

    let mut dec = EventDecoder::new();
    // byte-by-byte: every split point must work
    let mut frames = Vec::new();
    for byte in &wire {
        frames.extend(dec.push(&[*byte]).unwrap());
    }
    assert_eq!(frames.len(), 2);
    match (&frames[0], &frames[1]) {
        (EventFrame::Stdout(x), EventFrame::Stderr(y)) => {
            assert_eq!(x, b"hello");
            assert_eq!(y, b"world");
        }
        _ => panic!("wrong frames"),
    }
}

#[test]
fn decoder_rejects_oversized_frames() {
    let mut dec = EventDecoder::new();
    let mut hdr = vec![0x81];
    let too_large = u32::try_from(MAX_PAYLOAD).unwrap() + 1;
    hdr.extend_from_slice(&too_large.to_le_bytes());
    assert!(dec.push(&hdr).is_err());
}

#[test]
fn truncate_utf8_cuts_on_char_boundaries() {
    // 2 ASCII + one 3-byte char; max lands inside the multibyte char.
    let s = "ab你cd";
    assert_eq!(truncate_utf8(s, 10), s);
    assert_eq!(truncate_utf8(s, 4), "ab"); // byte 4 is mid-char, falls back to 2
    assert_eq!(truncate_utf8(s, 5), "ab你");
    assert_eq!(truncate_utf8(s, 0), "");
    assert_eq!(truncate_utf8("abc", 3), "abc");
}

#[test]
fn exit_codes_fit_u8() {
    assert!(u8::try_from(INTERNAL_ERROR_CODE).is_ok());
    assert!(u8::try_from(TIMEOUT_EXIT_CODE).is_ok());
}

#[test]
fn frames_have_the_documented_layout() {
    let bytes = encode_exec_frame(&ExecFrame::StdinData(vec![7, 8])).unwrap();
    assert_eq!(bytes, vec![2, 2, 0, 0, 0, 7, 8]);
    let big = encode_event_frame(&EventFrame::Stdout(vec![0; 0x01_0203])).unwrap();
    assert_eq!(&big[..5], &[0x81, 0x03, 0x02, 0x01, 0x00]);
    assert_eq!(encode_exec_frame(&ExecFrame::Ping).unwrap(), vec![5, 0, 0, 0, 0]);
    assert_eq!(encode_exec_frame(&ExecFrame::StdinEof).unwrap(), vec![3, 0, 0, 0, 0]);
}

#[test]
fn every_cut_of_a_stream_gives_the_same_frames() {
    let mut wire = Vec::new();
    write_event_frame(&mut wire, &EventFrame::Stdout(b"one".to_vec())).unwrap();
    write_event_frame(&mut wire, &EventFrame::Exit(b"{}".to_vec())).unwrap();
    write_event_frame(&mut wire, &EventFrame::Stderr(Vec::new())).unwrap();
    for cut in 0..=wire.len() {
        let mut dec = EventDecoder::new();
        let mut frames = dec.push(&wire[..cut]).unwrap();
        frames.extend(dec.push(&wire[cut..]).unwrap());
        assert_eq!(frames.len(), 3);
        assert!(matches!(&frames[0], EventFrame::Stdout(d) if d == b"one"));
        assert!(matches!(&frames[1], EventFrame::Exit(d) if d == b"{}"));
        assert!(matches!(&frames[2], EventFrame::Stderr(d) if d.is_empty()));
    }
}

#[test]
fn every_cut_of_a_refused_stream_is_refused_alike() {
    let mut wire = encode_event_frame(&EventFrame::Stdout(b"ok".to_vec())).unwrap();
    wire.extend(encode_event_frame(&EventFrame::Stderr(b"!".to_vec())).unwrap());
    wire.extend_from_slice(&[0x7f, 0, 0, 0, 0, 1, 2]);
    let refused = EventDecoder::new().push(&wire).unwrap_err().message();
    for cut in 0..=wire.len() {
        let mut dec = EventDecoder::new();
        let (mut out, mut error) = (Vec::new(), None);
        for part in [&wire[..cut], &wire[cut..]] {
            if error.is_none() {
                match dec.push(part) {
                    Ok(v) => out.extend(v),
                    Err(e) => error = Some(e.message()),
                }
            }
        }
        assert_eq!(error.as_deref(), Some(refused.as_str()));
        assert!(out.len() <= 2);
        if let Some(first) = out.first() {
            assert!(matches!(first, EventFrame::Stdout(d) if d == b"ok"));
        }
        if let Some(second) = out.get(1) {
            assert!(matches!(second, EventFrame::Stderr(d) if d == b"!"));
        }
    }
}

#[test]
fn decoder_errors_tell_what_is_wrong() {
    let mut dec = EventDecoder::new();
    let e = dec.push(&[0x01, 0, 0, 0, 0]).unwrap_err();
    assert_eq!(e.message(), "protocol error: bad event frame kind 0x1");
    let mut dec = EventDecoder::new();
    let e = dec.push(&[0x81, 1, 0, 0, 1]).unwrap_err();
    assert_eq!(e.message(), "protocol error: frame too large: 16777217");
}

#[test]
fn reading_judges_kind_length_and_end() {
    assert!(read_exec_frame(&[]).unwrap().is_none());
    assert!(read_exec_frame(&[1, 0, 0, 0]).unwrap().is_none());
    let e = read_exec_frame(&[0x7f, 0, 0, 0, 0xff]).unwrap_err();
    assert_eq!(e.message(), "protocol error: bad exec frame kind 0x7f");
    let e = read_event_frame(&[0x85, 0, 0, 0, 0]).unwrap_err();
    assert_eq!(e.message(), "protocol error: bad event frame kind 0x85");
    let e = read_exec_frame(&[5, 0, 0, 0, 0xff]).unwrap_err();
    assert_eq!(e.message(), "protocol error: frame too large: 4278190080");
    let e = read_exec_frame(&[2, 2, 0, 0, 0, 9]).unwrap_err();
    assert!(matches!(&e, Error::Io(_)));
    assert_eq!(e.message(), "io error: early eof");
    assert_eq!(Error::Json("x".into()).message(), "serialization error: x");
    assert_eq!(
        Error::bad_payload("eof").message(),
        "protocol error: bad frame payload: eof"
    );
}

#[test]
fn kinds_and_signals_have_their_numbers() {
    assert_eq!(ExecKind::Signal.code(), 4);
    assert_eq!(EventKind::Pong.code(), 0x84);
    assert_eq!(ExecKind::try_from(1).unwrap(), ExecKind::Exec);
    assert_eq!(Signal::Int.as_raw(), 2);
    assert_eq!(Signal::Term.as_raw(), 15);
    assert_eq!(Signal::Kill.as_raw(), 9);
    assert_eq!(Signal::Hup.as_raw(), 1);
    // the numbers that kill(2) takes
    assert_eq!(Signal::Int.as_raw(), libc::SIGINT);
    assert_eq!(Signal::Term.as_raw(), libc::SIGTERM);
    assert_eq!(Signal::Kill.as_raw(), libc::SIGKILL);
    assert_eq!(Signal::Hup.as_raw(), libc::SIGHUP);
    assert_eq!(Signal::Term.as_str(), "term");
    assert_eq!(Signal::Kill.as_str(), "kill");
    assert_eq!(Signal::Hup.as_str(), "hup");
}

#[test]
fn requests_and_reports_copy_whole() {
    let req = ExecRequest {
        host: "h".into(),
        command: "c".into(),
        args: vec!["a".into(), "b".into()],
        cwd: Some("/x".into()),
        state: None,
        session: Some("s".into()),
        timeout_ms: Some(3),
    };
    let copy = req.clone();
    assert_eq!(copy.args, req.args);
    assert_eq!(copy.session.as_deref(), Some("s"));
    let rep = ExitReport::failure("boom".into());
    let copy = rep.clone();
    assert_eq!(copy.code, 254);
    assert_eq!(copy.error.as_deref(), Some("boom"));
    assert!(!copy.timed_out);
}
