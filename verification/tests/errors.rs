use shell_proxy::proto;
use shell_proxy::Error;

#[test]
fn errors_are_brief() {
    let s = || "x".to_owned();
    let all = [
        (Error::Io(s()), "io error: x"),
        (Error::Json(s()), "serialization error: x"),
        (Error::Ssh(s()), "ssh error: x"),
        (Error::Config(s()), "config error: x"),
        (
            Error::Resolve { host: "h\"".to_owned(), reason: s() },
            "ssh config resolve failed for host \"h\\\"\": x",
        ),
        (Error::HostKey(s()), "host key verification failed: x"),
        (Error::Auth(s()), "authentication failed: x"),
        (Error::Connect(s()), "connect failed: x"),
        (Error::Remote(s()), "remote exec failed: x"),
        (Error::Ipc(s()), "ipc error: x"),
        (Error::Daemon(s()), "daemon not reachable: x"),
        (Error::Protocol(s()), "protocol error: x"),
        (Error::TimedOut, "command timed out"),
    ];
    for (e, text) in all {
        assert_eq!(e.brief(), text);
    }
}

#[test]
fn protocol_errors_are_taken_over() {
    let e = Error::from_proto(proto::Error::Protocol("p".to_owned()));
    assert_eq!(e.brief(), "protocol error: p");
    let e = Error::from_proto(proto::Error::Io("i".to_owned()));
    assert_eq!(e.brief(), "io error: i");
    let e = Error::from_proto(proto::Error::Json("j".to_owned()));
    assert_eq!(e.brief(), "serialization error: j");
}
