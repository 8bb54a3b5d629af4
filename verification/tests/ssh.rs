use shell_proxy::ssh::{
    check_server_key, connect_error, proxy_shell, transport, usable_files, uses_sha512, Auth,
    ConnectFailure, KeyCheck, NextIdentity, Transport, Tried,
};
use shell_proxy::ssh_config::ResolvedHost;

fn host() -> ResolvedHost {
    ResolvedHost {
        hostname: "srv".into(),
        port: 2022,
        user: "u".into(),
        identity_files: Vec::new(),
        known_hosts_files: Vec::new(),
        proxy_command: None,
        connect_timeout: None,
        strict_host_keys: true,
    }
}

#[test]
fn placeholders_and_missing_files_are_skipped() {
    let files = vec!["/dev/null".to_owned(), "/a".to_owned(), "/b".to_owned()];
    assert_eq!(
        usable_files(&files, &vec![true, false, true]),
        vec!["/b".to_owned()]
    );
}

#[test]
fn host_keys_are_judged_by_the_first_file_that_knows() {
    let files = vec!["/a".to_owned(), "/b".to_owned()];
    let check = |c: Vec<KeyCheck>, strict| check_server_key("srv", 22, &files, &c, strict);
    assert!(check(vec![KeyCheck::Unknown, KeyCheck::Known], true).is_none());
    assert!(check(vec![KeyCheck::Known, KeyCheck::Changed(1)], true).is_none());
    assert_eq!(
        check(vec![KeyCheck::Unknown, KeyCheck::Changed(4)], false).unwrap(),
        "host key of srv:22 changed (/b line 4); remove the stale entry or verify the server"
    );
    assert_eq!(
        check(vec![KeyCheck::Failed, KeyCheck::Known], true).unwrap(),
        "host key of srv:22 changed (/a line ?); remove the stale entry or verify the server"
    );
    assert_eq!(
        check(vec![KeyCheck::Unknown, KeyCheck::Unknown], true).unwrap(),
        "host key of srv:22 not found in /a, /b; connect once with `ssh srv true` to record it"
    );
    assert!(check(vec![KeyCheck::Unknown, KeyCheck::Unknown], false).is_none());
    assert!(check_server_key("srv", 22, &Vec::new(), &Vec::new(), true).is_none());
}

#[test]
fn the_transport_is_the_proxy_or_tcp() {
    match transport(&host()) {
        Transport::Tcp { hostname, port, timeout_secs } => {
            assert_eq!((hostname.as_str(), port, timeout_secs), ("srv", 2022, 15));
        }
        other => panic!("unexpected {other:?}"),
    }
    let quick = ResolvedHost { connect_timeout: Some(3), ..host() };
    assert!(matches!(transport(&quick), Transport::Tcp { timeout_secs: 3, .. }));
    let proxied = ResolvedHost { proxy_command: Some("nc srv 2022".into()), ..host() };
    assert!(matches!(transport(&proxied), Transport::Proxy(c) if c == "nc srv 2022"));
    assert_eq!(proxy_shell(false), ("sh", "-c"));
    assert_eq!(proxy_shell(true), ("cmd", "/C"));
}

#[test]
fn connection_failures_are_told() {
    let e = connect_error(ConnectFailure::Proxy { cmd: "a \"b\"".into(), reason: "no".into() });
    assert_eq!(e.brief(), "connect failed: proxycommand \"a \\\"b\\\"\": no");
    let e = connect_error(ConnectFailure::TcpTimeout { hostname: "h".into(), port: 1 });
    assert_eq!(e.brief(), "connect failed: connect to (\"h\", 1) timed out");
    let e = connect_error(ConnectFailure::Tcp {
        hostname: "h".into(),
        port: 1,
        reason: "refused".into(),
    });
    assert_eq!(e.brief(), "connect failed: connect to (\"h\", 1): refused");
    let e = connect_error(ConnectFailure::Handshake {
        rejected: Some("bad key".into()),
        reason: "x".into(),
    });
    assert_eq!(e.brief(), "host key verification failed: bad key");
    let e = connect_error(ConnectFailure::Handshake { rejected: None, reason: "x".into() });
    assert_eq!(e.brief(), "connect failed: x");
}

#[test]
fn the_agent_is_asked_before_the_files() {
    let files = vec!["k1".to_owned(), "k2".to_owned(), "k3".to_owned()];
    let mut a = Auth::new(1, &files);
    assert!(matches!(a.next(), NextIdentity::Agent(0)));
    a.record(Tried::Rejected);
    assert!(matches!(a.next(), NextIdentity::File(f) if f == "k1"));
    a.record(Tried::Encrypted);
    a.record(Tried::Unusable);
    assert!(matches!(a.next(), NextIdentity::File(f) if f == "k3"));
    a.record(Tried::Rejected);
    assert!(matches!(a.next(), NextIdentity::Nothing));
    assert!(!a.accepted());
    assert_eq!(
        a.failure("u", "h").brief(),
        "authentication failed: no auth method succeeded for u@h; agent tried, keys: \
         k1: encrypted, add it to ssh-agent; k3: rejected"
    );

    assert!(uses_sha512(true) && !uses_sha512(false));

    let mut a = Auth::new(0, &files);
    a.record(Tried::Accepted);
    assert!(a.accepted());
    assert!(matches!(a.next(), NextIdentity::Nothing));
    assert_eq!(
        Auth::new(0, &Vec::new()).failure("u", "h").brief(),
        "authentication failed: no auth method succeeded for u@h; agent tried, keys: none usable"
    );
}
