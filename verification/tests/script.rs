use shell_proxy::script::{build, remote_script_path, sq_escape, sq_quote, ScriptSpec};

fn spec<'a>(command: &'a str) -> ScriptSpec<'a> {
    ScriptSpec {
        command,
        args: &[],
        cwd: None,
        nonce_hex: "ab12",
    }
}

#[test]
fn escape_single_quotes() {
    assert_eq!(sq_escape("a'b"), r"a'\''b");
    assert_eq!(sq_escape("''"), r"'\'''\''");
}

#[test]
fn build_contains_all_layers() {
    let s = build(&spec("echo 'hi'"));
    assert!(s.starts_with("rm -f -- \"$0\""));
    // inner is sq-escaped once for the -c argument
    assert!(s.contains("-i -c 'echo '\\''hi'\\''\n"));
    assert!(s.contains("4>&2 3<<'__SP_ab12__' 2>/dev/null"));
    assert!(s.contains(". /etc/bash.bashrc"));
    assert!(s.contains(". ~/.bashrc"));
    assert!(s.ends_with("__SP_ab12__\n"));
    // marker printf, escaped for the -c embedding
    assert!(s.contains(r"printf '\''\034SPM:ab12:%s\034'\''"));
    assert!(s.contains("exec 2>/dev/null\nexit $__sp_rc\n' 4>&2"));
}

#[test]
fn build_cwd_and_args() {
    let args = vec!["a b".to_owned(), "c".to_owned()];
    let s = build(&ScriptSpec {
        command: "echo $1",
        args: &args,
        cwd: Some("/ro'ot"),
        nonce_hex: "ff",
    });
    // the cd line inside inner carries one escape level, which is then
    // escaped again when inner is embedded into the -c argument
    assert!(s.contains("-c 'if ! cd -- '\\''/ro'\\''\\'\\'''\\''ot'\\'';"));
    assert!(s.contains("set -- '\\''a b'\\'' '\\''c'\\''"));
}

#[test]
fn build_is_the_whole_script() {
    let s = build(&spec("ls"));
    assert_eq!(
        s,
        "rm -f -- \"$0\" 2>/dev/null || :\n\
         exec bash --noprofile --rcfile /dev/fd/3 -i -c 'ls\n\
         __sp_rc=$?\n\
         printf '\\''\\034SPM:ab12:%s\\034'\\'' \"$(printf %s \"$PWD\" | base64 | tr -d '\\''\\n'\\'')\"\n\
         exec 2>/dev/null\n\
         exit $__sp_rc\n\
         ' 4>&2 3<<'__SP_ab12__' 2>/dev/null\n\
         exec 2>&4\n\
         [ -r /etc/bash.bashrc ] && . /etc/bash.bashrc || :\n\
         [ -r ~/.bashrc ] && . ~/.bashrc || :\n\
         __SP_ab12__\n"
    );
}

#[test]
fn script_paths_carry_the_nonce() {
    assert_eq!(remote_script_path("00ff"), "/tmp/.sp-00ff.sh");
    assert_eq!(sq_quote("it's"), r"'it'\''s'");
    assert_eq!(sq_quote(""), "''");
}
