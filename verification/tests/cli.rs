use shell_proxy::cli::{
    build_command, command_request, doctor_request, exit_with, join_command, status_line,
    timeout_ms,
};
use shell_proxy::client::{is_bare_word, shell_quote, RunReport};
use shell_proxy::daemon::{conclude, Sessions};
use shell_proxy::remote::ExecOutcome;
use shell_proxy::serve::{exit_report, spawn_failure};
use shell_proxy::session::SessionId;

#[test]
fn single_arg_is_verbatim() {
    // Quoting a lone arg would turn the whole line into one command name.
    assert_eq!(
        join_command(&["echo $X | grep 3".into()]),
        "echo $X | grep 3"
    );
    assert_eq!(join_command(&["ls".into()]), "ls");
}

#[test]
fn joins_multiple_quoted_args() {
    assert_eq!(join_command(&["ls".into(), "-alF".into()]), "ls -alF");
    assert_eq!(join_command(&["echo".into(), "a b".into()]), "echo 'a b'");
}

#[test]
fn quotes_embedded_quotes() {
    assert_eq!(
        join_command(&["echo".into(), "it's".into()]),
        "echo 'it'\\''s'"
    );
}

#[test]
fn words_are_quoted_only_when_needed() {
    assert!(is_bare_word("a-Z_0@%+=:,./"));
    assert!(!is_bare_word(""));
    assert!(!is_bare_word("a*"));
    assert_eq!(shell_quote(""), "''");
    assert_eq!(shell_quote("~"), "'~'");
    assert_eq!(shell_quote("x=1"), "x=1");
    assert_eq!(join_command(&["printf".into(), "".into()]), "printf ''");
    assert_eq!(join_command(&[]), "");
}

#[test]
fn the_command_comes_from_file_args_or_stdin() {
    let words = vec!["a b".to_owned(), "c".to_owned()];
    let (text, args) = build_command(Some("echo $1".into()), &words, None).unwrap();
    assert_eq!((text.as_str(), args), ("echo $1", words.clone()));
    let (text, args) = build_command(None, &words, Some("ignored".into())).unwrap();
    assert_eq!((text.as_str(), args.len()), ("'a b' c", 0));
    let lone = vec!["a | b".to_owned()];
    let (text, args) = build_command(None, &lone, None).unwrap();
    assert_eq!((text.as_str(), args.len()), ("a | b", 0));
    let (text, args) = build_command(None, &Vec::new(), Some("ls\n".into())).unwrap();
    assert_eq!((text.as_str(), args.len()), ("ls\n", 0));
    assert!(build_command(None, &Vec::new(), Some(String::new())).is_none());
    assert!(build_command(None, &Vec::new(), None).is_none());
}

#[test]
fn timeouts_are_seconds_on_the_command_line() {
    assert_eq!(timeout_ms(60), 60_000);
    assert_eq!(timeout_ms(0), 0);
    assert_eq!(timeout_ms(u64::MAX), u64::MAX);
    let r = command_request("h".into(), "c".into(), vec!["x".into()], None, None, Some(2));
    assert_eq!(r.timeout_ms, Some(2000));
    assert_eq!(r.args, vec!["x".to_owned()]);
    assert!(r.state.is_none());
    let d = doctor_request("h".into(), &Some("/w".into()), Some("s".into()));
    assert_eq!(d.timeout_ms, Some(30_000));
    assert_eq!(d.cwd.as_deref(), Some("/w"));
    assert_eq!(d.session.as_deref(), Some("s"));
    assert_eq!(
        d.command,
        r#"echo "os: $(uname -srm)"; echo "bash: $(bash --version | head -1)"; echo "home: $HOME"; echo "cwd: $PWD""#
    );
}

#[test]
fn reports_become_exit_codes() {
    let rep = |code, timed_out, error: Option<&str>| RunReport {
        code,
        cwd: None,
        timed_out,
        error: error.map(str::to_owned),
    };
    assert_eq!(exit_with(&rep(42, false, None)), (vec![], 42));
    assert_eq!(exit_with(&rep(256, false, None)), (vec![], 254));
    assert_eq!(exit_with(&rep(-1, false, None)), (vec![], 254));
    assert_eq!(
        exit_with(&rep(254, false, Some("no route"))),
        (vec!["sp: no route".to_owned()], 254)
    );
    assert_eq!(
        exit_with(&rep(0, true, Some("x"))),
        (vec!["sp: x".to_owned(), "sp: command timed out".to_owned()], 124)
    );
    assert_eq!(status_line(12), "daemon running (pid 12)");
}

#[test]
fn exit_codes_arrive() {
    for (timed_out, code, want) in [(false, 0, 0), (false, 42, 42), (false, 255, 255), (true, 143, 124)] {
        let rep = exit_report(timed_out, code, None, None);
        let outcome = ExecOutcome {
            exit_code: rep.code,
            new_cwd: rep.cwd,
            new_state: rep.state,
            error: rep.error,
            timed_out: rep.timed_out,
        };
        let mut sessions = Sessions::new();
        let done = conclude(&mut sessions, "h", &SessionId::default(), Ok(outcome), false);
        assert_eq!(exit_with(&RunReport::from(done.report)).1, want);
    }
    let failed = spawn_failure("no memory");
    let outcome = ExecOutcome {
        exit_code: failed.code,
        new_cwd: failed.cwd,
        new_state: failed.state,
        error: failed.error,
        timed_out: failed.timed_out,
    };
    let mut sessions = Sessions::new();
    let done = conclude(&mut sessions, "h", &SessionId::default(), Ok(outcome), false);
    assert_eq!(
        exit_with(&RunReport::from(done.report)),
        (vec!["sp: spawn bash: no memory".to_owned()], 254)
    );
    let lost = conclude(&mut sessions, "h", &SessionId::default(), Err("lost".into()), true);
    assert_eq!(exit_with(&RunReport::from(lost.report)).1, 254);
}
