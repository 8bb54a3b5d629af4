use shell_proxy::path::{is_absolute, join_path};
use shell_proxy::ssh_config::{
    default_identity_files, expand_proxy_command, expand_tilde, fallback, parse_ssh_g_output, resolve, run_ssh_g, split_values, unquote, Environment, SshGReply,
};

fn env() -> Environment {
    Environment {
        user: Some("me".into()),
        username: None,
        home: Some("/home/me".into()),
        windows: false,
    }
}

#[test]
fn parse_basic() {
    let text = "\
host ls
hostname 192.168.10.171
user root
port 22
proxycommand none
identityfile C:\\Users\\x\\.ssh\\id_rsa
identityfile C:\\Users\\x\\.ssh\\id_ed25519
userknownhostsfile C:\\Users\\x\\.ssh\\known_hosts
globalknownhostsfile C:\\ProgramData\\ssh\\ssh_known_hosts
";
    let r = parse_ssh_g_output("ls", text, &env()).unwrap();
    assert_eq!(r.hostname, "192.168.10.171");
    assert_eq!(r.user, "root");
    assert_eq!(r.port, 22);
    assert!(r.proxy_command.is_none());
    assert_eq!(r.identity_files.len(), 2);
    assert_eq!(r.known_hosts_files.len(), 2);
}

#[test]
fn parse_quoted_and_jump() {
    let text = "\
host j
hostname \"ex ample.com\"
port 2222
user u1
proxyjump bastion
identityfile \"C:/a b/id_ed25519\"
";
    let r = parse_ssh_g_output("j", text, &env()).unwrap();
    assert_eq!(r.hostname, "ex ample.com");
    assert_eq!(r.port, 2222);
    assert_eq!(
        r.proxy_command.as_deref(),
        Some("ssh -W [ex ample.com]:2222 bastion")
    );
    assert_eq!(r.identity_files[0], "C:/a b/id_ed25519");
}

#[test]
fn parse_connecttimeout() {
    let mk = |text: &str| format!("host x\nhostname h\nconnecttimeout {text}\n");
    assert_eq!(
        parse_ssh_g_output("x", &mk("10"), &env()).unwrap().connect_timeout,
        Some(10)
    );
    // 0 = system default in ssh, mapped to our own default
    assert_eq!(
        parse_ssh_g_output("x", &mk("0"), &env()).unwrap().connect_timeout,
        None
    );
    assert_eq!(
        parse_ssh_g_output("x", &mk("junk"), &env())
            .unwrap()
            .connect_timeout,
        None
    );
}

#[test]
fn expand_tokens() {
    assert_eq!(
        expand_proxy_command("connect -H 1 %h %p", "h1", 22),
        "connect -H 1 h1 22"
    );
}

#[test]
fn tokens_are_replaced_in_turn() {
    assert_eq!(expand_proxy_command("%n:%p %%h", "h", 7), "h:7 %h");
    assert_eq!(expand_proxy_command("nc -X 5", "h", 7), "nc -X 5");
    assert_eq!(expand_proxy_command("%h", "%p", 7), "7");
}

#[test]
fn defaults_fill_what_the_output_leaves_out() {
    let r = parse_ssh_g_output("x", "hostname h\r\nport 99999\nlonely\n", &env()).unwrap();
    assert_eq!(r.hostname, "h");
    assert_eq!(r.port, 22);
    assert_eq!(r.user, "me");
    assert_eq!(
        r.identity_files,
        vec![
            "/home/me/.ssh/id_ed25519".to_owned(),
            "/home/me/.ssh/id_ecdsa".to_owned(),
            "/home/me/.ssh/id_rsa".to_owned(),
        ]
    );
    assert_eq!(r.identity_files, default_identity_files(&env()));
    assert_eq!(r.known_hosts_files, vec!["/home/me/.ssh/known_hosts".to_owned()]);
    assert!(r.strict_host_keys);
    assert_eq!(r.connect_timeout, None);
}

#[test]
fn later_lines_win_and_lists_grow() {
    let text = "hostname a\nhostname b\nproxycommand 'nc %h'\nproxyjump j\n\
                userknownhostsfile ~/k1 \"/a b/k2\"\nglobalknownhostsfile /g\n\
                stricthostkeychecking accept-new";
    let r = parse_ssh_g_output("x", text, &env()).unwrap();
    assert_eq!(r.hostname, "b");
    assert_eq!(r.proxy_command.as_deref(), Some("nc b"));
    assert_eq!(
        r.known_hosts_files,
        vec!["/home/me/k1".to_owned(), "/a b/k2".to_owned(), "/g".to_owned()]
    );
    assert!(!r.strict_host_keys);
}

#[test]
fn values_are_unquoted_and_split() {
    assert_eq!(unquote("  'a b' "), "a b");
    assert_eq!(unquote("\"x"), "\"x");
    assert_eq!(unquote("\""), "\"");
    assert_eq!(unquote("''"), "");
    assert_eq!(
        split_values(" a  \"b c\" 'd\"e'f "),
        vec!["a".to_owned(), "b c".to_owned(), "'d\"e'f".to_owned()]
    );
    assert!(split_values("  ").is_empty());
    assert_eq!(split_values("\"open end"), vec!["\"open end".to_owned()]);
}

#[test]
fn tilde_and_paths_join() {
    assert_eq!(expand_tilde("~/x", &env()), "/home/me/x");
    assert_eq!(expand_tilde("~x", &env()), "~x");
    assert_eq!(expand_tilde("~/x", &Environment { home: None, ..env() }), "~/x");
    assert_eq!(join_path(false, "/a/", "b"), "/a/b");
    assert_eq!(join_path(false, "", ".ssh"), ".ssh");
    assert_eq!(join_path(false, "/a", "/b"), "/b");
    assert_eq!(join_path(false, r"a\", "b"), r"a\/b");
    assert!(is_absolute(false, "/a") && !is_absolute(false, "C:/a"));
}

#[test]
fn windows_paths_join() {
    assert_eq!(join_path(true, r"C:\a", "b"), r"C:\a\b");
    assert_eq!(join_path(true, "C:/a/", "b"), "C:/a/b");
    assert_eq!(join_path(true, "C:", "b"), "C:b");
    assert_eq!(join_path(true, "", ".ssh"), ".ssh");
    assert_eq!(join_path(true, r"C:\a", "D:b"), "D:b");
    assert_eq!(join_path(true, r"C:\a", "/b"), "C:/b");
    assert_eq!(join_path(true, r"\\srv\home\a", r"\b"), r"\\srv\home\b");
    assert_eq!(join_path(true, "a", r"\\srv\home"), r"\\srv\home");
    assert!(is_absolute(true, r"C:\a") && is_absolute(true, "//srv/home"));
    assert!(!is_absolute(true, "/a") && !is_absolute(true, "//srv"));
    let home = Environment { home: Some(r"C:\Users\me".into()), windows: true, ..env() };
    assert_eq!(expand_tilde("~/.ssh/k", &home), r"C:\Users\me\.ssh/k");
    assert_eq!(
        fallback("h", &home).known_hosts_files,
        vec![r"C:\Users\me\.ssh\known_hosts".to_owned()]
    );
}

#[test]
fn verbatim_paths_are_resolved_when_joined() {
    let join = |base: &str, rest: &str| join_path(true, base, rest);
    assert_eq!(join(r"\\?\C:\a", "b/../c"), r"\\?\C:\a\c");
    assert_eq!(join(r"\\?\C:\a", "b"), r"\\?\C:\a\b");
    assert_eq!(join(r"\\?\C:\a\", r"./b\c/"), r"\\?\C:\a\b\c");
    assert_eq!(join(r"\\?\C:\a", "../../.."), r"\\?\C:\");
    assert_eq!(join(r"\\?\C:", "b"), r"\\?\C:\b");
    assert_eq!(join(r"\\?\C:", ".."), r"\\?\C:");
    assert_eq!(join(r"\\?\C:/a/b", "c"), r"\\?\C:\a/b\c");
    assert_eq!(join(r"\\?\C:\a\..", "../b"), r"\\?\C:\a\..\b");
    assert_eq!(join(r"\\?\C:\a", "/b"), r"\\?\C:\b");
    assert_eq!(join(r"\\?\UNC\srv\home\a", r"\b"), r"\\?\UNC\srv\home\b");
    assert_eq!(join(r"\\?\pics\a", "..\\b"), r"\\?\pics\b");
    assert_eq!(join(r"\\?\C:\a", r"\\?\D:\b"), r"\\?\D:\b");
    assert_eq!(join(r"\\?\C:\a", ""), r"\\?\C:\a\");
    // the others keep what they are given
    assert_eq!(join(r"C:\a", "b/../c"), r"C:\a\b/../c");
    assert_eq!(join(r"\\.\COM42\a", r"\b"), r"\\.\COM42\b");
    assert!(is_absolute(true, r"\\?\C:") && is_absolute(true, r"\\.\COM42"));
}

#[test]
fn the_proxy_command_of_a_host_is_expanded() {
    let proxy = |lines: &str| {
        let text = format!("{lines}hostname h\nport 22\n");
        parse_ssh_g_output("x", &text, &env()).unwrap().proxy_command
    };
    assert_eq!(proxy("proxycommand nc %h %p\n").as_deref(), Some("nc h 22"));
    assert_eq!(proxy("proxyjump bastion\n").as_deref(), Some("ssh -W [h]:22 bastion"));
    assert_eq!(proxy("proxyjump gw.%n\n").as_deref(), Some("ssh -W [h]:22 gw.h"));
    assert_eq!(proxy(""), None);
}

#[test]
fn unusable_replies_fall_back_to_a_direct_connection() {
    let e = run_ssh_g("h", &SshGReply::TimedOut, &env()).unwrap_err();
    assert_eq!(
        e.brief(),
        "ssh config resolve failed for host \"h\": ssh -G timed out"
    );
    let e = run_ssh_g("h", &SshGReply::CannotRun("gone".into()), &env()).unwrap_err();
    assert!(e.brief().ends_with(": cannot run ssh: gone"));
    let reply = SshGReply::Failed("exit status: 255".into(), b"bad \xff".to_vec());
    let e = run_ssh_g("h", &reply, &env()).unwrap_err();
    assert!(e.brief().ends_with(": ssh -G exited with exit status: 255: bad \u{fffd}"));
    let (r, why) = resolve("h", &SshGReply::Output(b"user u\n".to_vec()), &env());
    assert!(why.unwrap().brief().ends_with(": ssh -G output has no hostname"));
    assert_eq!(r.hostname, "h");
    assert_eq!(r.user, "me");
    let (r, why) = resolve("h", &SshGReply::Output(b"hostname z\n".to_vec()), &env());
    assert!(why.is_none());
    assert_eq!(r.hostname, "z");
    let nobody = Environment { user: None, username: None, home: None, windows: false };
    let r = fallback("h", &nobody);
    assert_eq!(r.user, "root");
    assert_eq!(r.known_hosts_files, vec![".ssh/known_hosts".to_owned()]);
    let windows = Environment { username: Some("w".into()), ..nobody };
    assert_eq!(fallback("h", &windows).user, "w");
}
