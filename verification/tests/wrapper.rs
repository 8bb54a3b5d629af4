use shell_proxy::child::{mem_files, spawn_plan, ChildFds};
use shell_proxy::daemon::Sessions;
use shell_proxy::proto::ExecRequest;
use shell_proxy::session::SessionId;
use shell_proxy::wrapper::{rc_body, wrapper_body};

#[test]
fn bodies_reference_the_given_fds() {
    let rc = rc_body(7);
    assert!(rc.starts_with("exec 2>&7\n"));
    assert!(rc.contains(". /etc/bash.bashrc"));
    assert!(rc.contains(". ~/.bashrc"));

    let w = wrapper_body(9, 10, 12, 11);
    assert!(w.contains("eval \"$(cat /dev/fd/9)\""));
    assert!(w.contains("eval \"$(cat /dev/fd/10)\""));
    assert!(w.contains(">&11"));
    assert!(w.contains(">&12"));
    // traps must pin 128+signum exit codes
    assert!(w.contains("trap 'exit 130' INT"));
    assert!(w.contains("trap 'exit 143' TERM"));
    assert!(w.contains("trap 'exit 129' HUP"));
    // errexit must be off before the reports run
    let rc_capture = w.find("__sp_rc=$?").expect("rc captured");
    let report = w.find("printf '%s\\0' \"$PWD\"").expect("pwd report");
    assert!(
        w[rc_capture..report].contains("set +e"),
        "set +e must sit between rc capture and the reports"
    );
    // exit status propagation last
    assert!(w.ends_with("exit \"$__sp_rc\"\n"));
}

#[test]
fn state_restores_after_cd_and_before_command() {
    let w = wrapper_body(9, 10, 12, 11);
    let cd = w.find("cd -- \"$SP_CWD\"").expect("cd present");
    let restore = w.find("/dev/fd/10").expect("restore present");
    let cmd = w.find("/dev/fd/9").expect("command present");
    assert!(cd < restore && restore < cmd);
}

#[test]
fn state_dump_excludes_sp_and_pwd() {
    let w = wrapper_body(9, 10, 12, 11);
    let unset = w.find("unset SP_CWD PWD").expect("unset present");
    let dump = w.find("declare -p").expect("dump present");
    assert!(unset < dump);
    // OLDPWD is not excluded: cd - across commands depends on it
    assert!(!w.contains("OLDPWD"));
}

#[test]
fn reports_end_with_nul_terminator() {
    // A surviving background job holds the report pipes open, so serve
    // must rely on the terminator, not EOF, to know a report is complete.
    let w = wrapper_body(9, 10, 12, 11);
    assert!(w.contains("printf '%s\\0' \"$PWD\" >&11"));
    assert!(w.contains("umask -p; printf '\\0'; } >&12"));
}

#[test]
fn bodies_are_the_whole_texts() {
    assert_eq!(
        rc_body(-3),
        "exec 2>&-3\n[ -r /etc/bash.bashrc ] && . /etc/bash.bashrc || :\n\
         [ -r ~/.bashrc ] && . ~/.bashrc || :\n"
    );
    assert_eq!(
        wrapper_body(3, 4, 5, 6),
        "if [ -n \"${SP_CWD:-}\" ]; then\n  cd -- \"$SP_CWD\" || { printf 'sp: cannot cd to %s, \
         using HOME\\n' \"$SP_CWD\" >&2; cd; }\nfi\ntrap 'exit 130' INT\ntrap 'exit 143' TERM\n\
         trap 'exit 129' HUP\n{ eval \"$(cat /dev/fd/4)\"; } 2>/dev/null\n\
         eval \"$(cat /dev/fd/3)\"\n__sp_rc=$?\nset +e\nprintf '%s\\0' \"$PWD\" >&6\n\
         exec 2>/dev/null\nunset SP_CWD PWD\n{ declare -p; declare -f; alias; shopt -p; set +o; \
         umask -p; printf '\\0'; } >&5\nexit \"$__sp_rc\"\n"
    );
}

fn request() -> ExecRequest {
    ExecRequest {
        host: "h".into(),
        command: "echo $1".into(),
        args: vec!["a b".into(), "-x".into()],
        cwd: Some("/srv".into()),
        state: Some("X=1".into()),
        session: None,
        timeout_ms: None,
    }
}

#[test]
fn the_plan_hands_everything_over_by_fd_argv_and_env() {
    let req = request();
    let fds = ChildFds {
        stdin: 10,
        stdout: 11,
        stderr: 12,
        cwd: 13,
        dump: 14,
        rc: 15,
        cmd: 16,
        restore: 17,
    };
    let p = spawn_plan(&req, fds);
    assert_eq!(p.program, "bash");
    assert_eq!(
        p.args,
        vec![
            "--noprofile".to_owned(),
            "--rcfile".to_owned(),
            "/dev/fd/15".to_owned(),
            "-i".to_owned(),
            "-c".to_owned(),
            wrapper_body(16, 17, 14, 13),
            "bash".to_owned(),
            "a b".to_owned(),
            "-x".to_owned(),
        ]
    );
    assert_eq!(p.sp_cwd.as_deref(), Some("/srv"));
    assert_eq!((p.onto_stdin, p.onto_stdout), (10, 11));
    assert_eq!(p.blocking, vec![10, 11, 12, 13, 14]);
    assert_eq!(p.inherited, vec![15, 16, 17, 12, 13, 14]);

    let m = mem_files(&req, 12);
    assert_eq!(m.rc, rc_body(12).into_bytes());
    assert_eq!(m.cmd, b"echo $1");
    assert_eq!(m.state, b"X=1");
    // what a command dumped is what the next one of its session restores
    let mut sessions = Sessions::new();
    let id = SessionId::default();
    sessions.remember("h", &id, &None, &Some("declare -x Y=\"2\"\n".to_owned()));
    let next = sessions.effective_request(&request(), &id);
    assert_eq!(mem_files(&next, 12).state, b"declare -x Y=\"2\"\n");
    let bare = ExecRequest { state: None, ..request() };
    assert!(mem_files(&bare, 12).state.is_empty());
}
