use shell_proxy::ipc::{
    json, read_client_frame, read_frame, write_daemon_frame, write_frame, ClientFrame, ClientKind,
    DaemonFrame, DaemonType, Signal,
};

#[test]
fn ipc_roundtrip_all_frames() {
    let mut m = serde_json::Map::new();
    m.insert("host".into(), serde_json::Value::String("ls".into()));
    m.insert("args".into(), serde_json::Value::Array(vec!["x y".into()]));
    m.insert("cwd".into(), serde_json::Value::String("/tmp".into()));
    m.insert("command".into(), serde_json::Value::String("echo 'a'".into()));
    m.insert("timeout_ms".into(), serde_json::Value::from(5000u64));
    let request = serde_json::to_vec(&serde_json::Value::Object(m)).unwrap();
    let signal =
        serde_json::to_vec(&serde_json::Value::String(Signal::Int.as_str().into())).unwrap();
    let frames = vec![
        ClientFrame::Exec(request),
        ClientFrame::StdinData(vec![0, 255, 10]),
        ClientFrame::StdinEof,
        ClientFrame::Signal(signal),
        ClientFrame::Ping,
    ];
    let mut buf = Vec::new();
    for f in &frames {
        write_frame(&mut buf, f).unwrap();
    }
    let mut pos = 0;
    for f in &frames {
        let (got, n) = read_client_frame(&buf[pos..]).unwrap().unwrap();
        pos += n;
        match (f, &got) {
            (ClientFrame::Exec(a), ClientFrame::Exec(b)) => {
                let a: serde_json::Value = serde_json::from_slice(a).unwrap();
                let b: serde_json::Value = serde_json::from_slice(b).unwrap();
                assert_eq!(a.get("command"), b.get("command"));
                assert_eq!(a.get("timeout_ms"), b.get("timeout_ms"));
                assert_eq!(a, b);
            }
            (ClientFrame::StdinData(a), ClientFrame::StdinData(b)) => assert_eq!(a, b),
            (ClientFrame::Signal(a), ClientFrame::Signal(b)) => assert_eq!(a, b),
            (ClientFrame::StdinEof, ClientFrame::StdinEof)
            | (ClientFrame::Ping, ClientFrame::Ping) => {}
            (a, b) => panic!("frame kind mismatch: {a:?} vs {b:?}"),
        }
    }
    assert!(read_client_frame(&buf[pos..]).unwrap().is_none());
}

#[test]
fn ipc_exit_report_roundtrip() {
    let mut m = serde_json::Map::new();
    m.insert("code".into(), serde_json::Value::from(130));
    m.insert("cwd".into(), serde_json::Value::String("/r".into()));
    m.insert("error".into(), serde_json::Value::Null);
    m.insert("timed_out".into(), serde_json::Value::Bool(false));
    let report = serde_json::to_vec(&serde_json::Value::Object(m)).unwrap();
    let mut buf = Vec::new();
    write_daemon_frame(&mut buf, &DaemonFrame::Exit(report)).unwrap();
    match read_frame(&buf).unwrap().unwrap() {
        (DaemonFrame::Exit(r), _) => {
            let r: serde_json::Value = serde_json::from_slice(&r).unwrap();
            assert_eq!(r.get("code"), Some(&serde_json::Value::from(130)));
            assert_eq!(r.get("cwd"), Some(&serde_json::Value::String("/r".into())));
        }
        _ => panic!("wrong frame"),
    }
}

#[test]
fn ipc_errors_tell_what_is_wrong() {
    let e = read_client_frame(&[9, 0, 0, 0, 0]).unwrap_err();
    assert_eq!(e.brief(), "protocol error: bad client frame kind 0x9");
    let e = read_frame(&[1, 0, 0, 0, 0]).unwrap_err();
    assert_eq!(e.brief(), "protocol error: bad daemon frame kind 0x1");
    let e = read_frame(&[0x81, 1, 0, 0, 1]).unwrap_err();
    assert_eq!(e.brief(), "protocol error: frame too large: 16777217");
    let e = read_frame(&[0x81, 1, 0, 0, 0]).unwrap_err();
    assert_eq!(e.brief(), "io error: early eof");
    assert!(read_frame(&[0x81, 1]).unwrap().is_none());
    let parsed = serde_json::from_slice::<serde_json::Value>(b"{").map_err(|e| e.to_string());
    let e = json(parsed).unwrap_err();
    assert!(e.brief().starts_with("protocol error: bad frame payload: EOF while parsing"));
    assert_eq!(json(Ok(7)).unwrap(), 7);
    assert_eq!(ClientKind::Ping.code(), 5);
    assert_eq!(DaemonType::Stderr.code(), 0x82);
}
