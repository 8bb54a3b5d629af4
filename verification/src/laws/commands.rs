//! Commands, scripts and files: what the user asked for is what the remote bash is
//! asked to run.

use vstd::prelude::*;
use vstd::utf8::*;

use crate::proto::ExecRequest;
use crate::script::ScriptSpec;
use crate::shell::{single_quoted, words_of};
use crate::text::{opt_text, texts};

verus! {

// -- quoting ------------------------------------------------------------------------------

/// A character that means something to a shell.
pub open spec fn special(c: char) -> bool {
    ||| c == ' ' || c == '\t' || c == '\n' || c == '\r'
    ||| c == '\'' || c == '"' || c == '\\' || c == '`' || c == '$'
    ||| c == '|' || c == '&' || c == ';' || c == '<' || c == '>' || c == '(' || c == ')'
    ||| c == '*' || c == '?' || c == '[' || c == ']' || c == '{' || c == '}'
    ||| c == '~' || c == '#' || c == '!' || c == '^'
}

/// A word that is left unquoted is not empty and holds nothing that means something
/// to a shell.
pub proof fn law_bare_words_are_harmless(s: &str, r: bool)
    requires
        call_ensures(crate::client::is_bare_word, (s,), r),
        r,
    ensures
        s@.len() > 0,
        forall|i: int| 0 <= i < s@.len() ==> !special(#[trigger] s@[i]),
{
    assert forall|i: int| 0 <= i < s@.len() implies !special(#[trigger] s@[i]) by {
        assert(crate::shell::bare(s@[i]));
    }
}

/// Names of letters, digits and the signs of paths and options are left unquoted.
pub proof fn law_plain_names_stay_bare(s: &str, r: bool, q: String)
    requires
        call_ensures(crate::client::is_bare_word, (s,), r),
        call_ensures(crate::client::shell_quote, (s,), q),
        s@.len() > 0,
        forall|i: int|
            0 <= i < s@.len() ==> {
                let c = #[trigger] s@[i];
                'A' <= c <= 'Z' || 'a' <= c <= 'z' || '0' <= c <= '9' || c == '.' || c == '/' || c
                    == '_' || c == '-'
            },
    ensures
        r,
        q@ == s@,
{
    assert forall|i: int| 0 <= i < s@.len() implies crate::shell::bare(#[trigger] s@[i]) by {}
}

/// A quoted word is read back as the one word it was, whatever it holds.
pub proof fn law_quoted_words_are_read_back(s: &str, a: String, b: String)
    ensures
        call_ensures(crate::client::shell_quote, (s,), a) ==> words_of(a@) == Some(seq![s@]),
        call_ensures(crate::script::sq_quote, (s,), b) ==> words_of(b@) == Some(seq![s@]),
{
    let none = Seq::<Seq<char>>::empty();
    crate::client::lemma_shell_quoted(s@);
    crate::shell::lemma_quoted_word(s@);
    lemma_one_word(crate::client::shell_quoted(s@), s@);
    lemma_one_word(single_quoted(s@), s@);
}

proof fn lemma_one_word(q: Seq<char>, s: Seq<char>)
    requires
        crate::shell::reads_as(q, s),
    ensures
        words_of(q) == Some(seq![s]),
{
    let qs = seq![q];
    let ws = seq![s];
    assert(crate::shell::all_read_as(qs, ws));
    crate::shell::lemma_joined_words(Seq::empty(), qs, ws);
    assert(crate::text::joined(qs, " "@) == q);
    assert(Seq::<Seq<char>>::empty() + ws =~= ws);
}

/// Escaping for single quotes changes the single quotes only, and those into the
/// four characters that close, write and open again.
pub proof fn law_escaping_touches_quotes_only(s: &str, r: String)
    requires
        call_ensures(crate::script::sq_escape, (s,), r),
    ensures
        !s@.contains('\'') ==> r@ == s@,
        s@ == seq!['\''] ==> r@ == seq!['\'', '\\', '\'', '\''],
{
    if !s@.contains('\'') {
        lemma_nothing_to_escape(s@);
    }
    if s@ == seq!['\''] {
        assert(s@.drop_last() =~= Seq::empty());
        assert(s@.last() == '\'');
        assert(crate::shell::sq_escaped(s@.drop_last()) =~= Seq::empty());
        assert(r@ =~= seq!['\'', '\\', '\'', '\'']);
    }
}

proof fn lemma_nothing_to_escape(s: Seq<char>)
    requires
        !s.contains('\''),
    ensures
        crate::shell::sq_escaped(s) == s,
    decreases s.len(),
{
    if s.len() > 0 {
        assert(s.contains(s.last()));
        assert forall|c: char| s.drop_last().contains(c) implies s.contains(c) by {
            let i = choose|i: int| 0 <= i < s.drop_last().len() && s.drop_last()[i] == c;
            assert(s[i] == c);
        }
        lemma_nothing_to_escape(s.drop_last());
        assert(s.drop_last() + seq![s.last()] =~= s);
        assert(crate::shell::sq_escaped(s) =~= s);
    } else {
        assert(crate::shell::sq_escaped(s) =~= s);
    }
}

// -- the command line ---------------------------------------------------------------------

/// One argument is the command line; of several, the remote bash reads the same
/// words.
pub proof fn law_arguments_reach_bash(args: &[String], r: String)
    requires
        call_ensures(crate::cli::join_command, (args,), r),
    ensures
        args@.len() == 1 ==> r@ == args@[0]@,
        args@.len() != 1 ==> words_of(r@) == Some(texts(args@)),
{
    assert(texts(args@).len() == args@.len());
    if args@.len() == 1 {
        assert(texts(args@)[0] == args@[0]@);
    } else {
        crate::cli::law_arguments_stay_words(texts(args@));
    }
}

/// What is run: a script file with the arguments as its positional ones; else the
/// arguments, one as a command line and several as words; else a script on stdin;
/// else nothing.
pub proof fn law_what_is_run(
    file: Option<String>,
    cmd: &Vec<String>,
    piped: Option<String>,
    r: Option<(String, Vec<String>)>,
)
    requires
        call_ensures(crate::cli::build_command, (file, cmd, piped), r),
    ensures
        file matches Some(f) ==> (r matches Some((text, args)) && text@ == f@ && args@.len()
            == cmd@.len() && forall|i: int|
            0 <= i < cmd@.len() ==> #[trigger] args@[i]@ == cmd@[i]@),
        file is None && cmd@.len() == 1 ==> (r matches Some((text, args)) && text@ == cmd@[0]@
            && args@.len() == 0),
        file is None && cmd@.len() > 1 ==> (r matches Some((text, args)) && words_of(text@) == Some(
            texts(cmd@),
        ) && args@.len() == 0),
        file is None && cmd@.len() == 0 ==> match piped {
            Some(s) => if s@.len() > 0 {
                r matches Some((text, args)) && text@ == s@ && args@.len() == 0
            } else {
                r is None
            },
            None => r is None,
        },
{
    let t = texts(cmd@);
    assert(t.len() == cmd@.len());
    if let Some((_, args)) = r {
        assert(texts(args@).len() == args@.len());
        if file is Some {
            super::forwarding::lemma_same_texts(args@, cmd@);
        }
    }
    if cmd@.len() == 1 {
        assert(t[0] == cmd@[0]@);
    } else if cmd@.len() > 1 {
        crate::cli::law_arguments_stay_words(t);
    }
}

/// A script file is run as it is written.
pub proof fn law_script_files_are_read_whole(
    path: &str,
    bytes: &[u8],
    r: Result<String, crate::Error>,
)
    requires
        call_ensures(crate::client::read_script_file, (path, bytes), r),
    ensures
        r is Ok <==> valid_utf8(bytes@),
        r matches Ok(s) ==> encode_utf8(s@) == bytes@,
{
    if valid_utf8(bytes@) {
        decode_utf8_encode_utf8(bytes@);
    }
}

// -- requests -----------------------------------------------------------------------------

/// The request for a command holds what was given, and the timeout in milliseconds.
pub proof fn law_command_requests(
    host: String,
    command: String,
    args: Vec<String>,
    cwd: Option<String>,
    session: Option<String>,
    secs: Option<u64>,
    r: ExecRequest,
)
    requires
        call_ensures(
            crate::cli::command_request,
            (host, command, args, cwd, session, secs),
            r,
        ),
    ensures
        r.host@ == host@,
        r.command@ == command@,
        r.args@.len() == args@.len(),
        forall|i: int| 0 <= i < args@.len() ==> #[trigger] r.args@[i]@ == args@[i]@,
        opt_text(r.cwd) == opt_text(cwd),
        opt_text(r.session) == opt_text(session),
        r.state is None,
        secs is None ==> r.timeout_ms is None,
        secs matches Some(s) ==> r.timeout_ms == Some(
            (if s <= 18446744073709551 {
                (s * 1000) as u64
            } else {
                u64::MAX
            }),
        ),
{
    super::forwarding::lemma_same_texts(r.args@, args@);
}

/// An upload writes its stdin to exactly the remote path it was given, which
/// travels as the one argument; a download prints exactly that file.
pub proof fn law_transfer_requests(
    host: String,
    remote: &str,
    cwd: Option<String>,
    timeout: Option<u64>,
    up: ExecRequest,
    down: ExecRequest,
)
    ensures
        call_ensures(crate::client::upload_request, (host, remote, cwd, timeout), up) ==> {
            &&& up.command@ == "cat > \"$1\""@
            &&& up.args@.len() == 1 && up.args@[0]@ == remote@
            &&& up.host@ == host@
            &&& opt_text(up.cwd) == opt_text(cwd)
            &&& up.timeout_ms == timeout
            &&& up.state is None && up.session is None
        },
        call_ensures(crate::client::download_request, (host, remote, cwd, timeout), down) ==> {
            &&& down.command@ == "cat -- \"$1\""@
            &&& down.args@.len() == 1 && down.args@[0]@ == remote@
            &&& down.host@ == host@
            &&& opt_text(down.cwd) == opt_text(cwd)
            &&& down.timeout_ms == timeout
            &&& down.state is None && down.session is None
        },
{
    lemma_one_text(up.args@, remote@);
    lemma_one_text(down.args@, remote@);
}

/// A list of one text.
pub proof fn lemma_one_text(a: Seq<String>, t: Seq<char>)
    ensures
        texts(a) == seq![t] ==> a.len() == 1 && a[0]@ == t,
        texts(a) == Seq::<Seq<char>>::empty() ==> a.len() == 0,
{
    assert(texts(a).len() == a.len());
    if a.len() == 1 {
        assert(texts(a)[0] == a[0]@);
    }
}

/// The tools ask for the command or the file they were given, with ten minutes where
/// nothing else is said.
pub proof fn law_tool_requests(
    host: String,
    command: String,
    path: &str,
    cwd: Option<String>,
    timeout: Option<u64>,
    session: Option<String>,
    x: ExecRequest,
    rd: ExecRequest,
    wr: ExecRequest,
)
    ensures
        call_ensures(
            crate::mcp::exec_request,
            (host, command, cwd, timeout, session),
            x,
        ) ==> {
            &&& x.host@ == host@
            &&& x.command@ == command@
            &&& x.args@.len() == 0
            &&& opt_text(x.cwd) == opt_text(cwd)
            &&& opt_text(x.session) == opt_text(session)
            &&& x.state is None
            &&& x.timeout_ms == Some(
                (match timeout {
                    Some(t) => t,
                    None => 600000u64,
                }),
            )
        },
        call_ensures(crate::mcp::read_file_request, (host, path, session), rd) ==> {
            &&& rd.host@ == host@
            &&& rd.command@ == "cat -- \"$1\""@
            &&& rd.args@.len() == 1 && rd.args@[0]@ == path@
            &&& rd.cwd is None && rd.state is None
            &&& opt_text(rd.session) == opt_text(session)
            &&& rd.timeout_ms == Some(600000u64)
        },
        call_ensures(crate::mcp::write_file_request, (host, path, session), wr) ==> {
            &&& wr.host@ == host@
            &&& wr.command@ == "cat > \"$1\""@
            &&& wr.args@.len() == 1 && wr.args@[0]@ == path@
            &&& wr.cwd is None && wr.state is None
            &&& opt_text(wr.session) == opt_text(session)
            &&& wr.timeout_ms == Some(600000u64)
        },
{
    lemma_one_text(x.args@, path@);
    lemma_one_text(rd.args@, path@);
    lemma_one_text(wr.args@, path@);
}

/// `doctor` asks the host, in the directory and the session it was given, for the
/// system, the shell, the home and the directory.
pub proof fn law_doctor_requests(
    host: String,
    cwd: &Option<String>,
    session: Option<String>,
    r: ExecRequest,
)
    requires
        call_ensures(crate::cli::doctor_request, (host, cwd, session), r),
    ensures
        r.host@ == host@,
        opt_text(r.cwd) == opt_text(*cwd),
        opt_text(r.session) == opt_text(session),
        r.args@.len() == 0,
        r.state is None,
        r.timeout_ms == Some(30000u64),
        r.command@
            == "echo \"os: $(uname -srm)\"; echo \"bash: $(bash --version | head -1)\"; echo \"home: $HOME\"; echo \"cwd: $PWD\""@,
{
    lemma_one_text(r.args@, Seq::empty());
}

// -- the uploaded script --------------------------------------------------------------------

/// The uploaded script hands one quoted text to an interactive bash. That text
/// holds the command as it is, followed by the capture of its status; in front of it
/// stands, when there are arguments, a line that bash reads as `set --` and exactly
/// those arguments, and nothing else but the change into the directory, when there
/// is one. The message with the directory carries the nonce, and the status comes
/// last.
pub proof fn law_scripts_run_the_command(spec: &ScriptSpec<'_>, r: String)
    requires
        call_ensures(crate::script::build, (spec,), r),
    ensures
        exists|outer: Seq<char>, inner: Seq<char>, rest: Seq<char>, cd: Seq<char>, set: Seq<char>|
            {
                &&& #[trigger] (outer + single_quoted(inner) + rest) == r@
                &&& #[trigger] (cd + set) + spec.command@ + "\n__sp_rc=$?\nprintf '\\034SPM:"@
                    + spec.nonce_hex@
                    + ":%s\\034' \"$(printf %s \"$PWD\" | base64 | tr -d '\\n')\"\nexec 2>/dev/null\nexit $__sp_rc\n"@
                    == inner
                &&& outer
                    == "rm -f -- \"$0\" 2>/dev/null || :\nexec bash --noprofile --rcfile /dev/fd/3 -i -c "@
                &&& rest == " 4>&2 3<<'"@ + ("__SP_"@ + spec.nonce_hex@ + "__"@)
                    + "' 2>/dev/null\nexec 2>&4\n[ -r /etc/bash.bashrc ] && . /etc/bash.bashrc || :\n[ -r ~/.bashrc ] && . ~/.bashrc || :\n"@
                    + ("__SP_"@ + spec.nonce_hex@ + "__"@) + "\n"@
                &&& match spec.cwd {
                    Some(d) => exists|e: Seq<char>|
                        {
                            &&& single_quoted(d@) == #[trigger] (seq!['\''] + e) + seq!['\'']
                            &&& cd == "if ! cd -- "@ + (single_quoted(d@)
                                + "; then printf 'sp: cannot cd to "@ + e
                                + ", using $HOME\\n' >&2; cd -- ~; fi\n"@)
                        },
                    None => cd.len() == 0,
                }
                &&& if spec.args@.len() == 0 {
                    set.len() == 0
                } else {
                    set.len() > 0 && set.last() == '\n' && words_of(set.drop_last()) == Some(
                        seq!["set"@, "--"@] + texts(spec.args@),
                    )
                }
            },
{
    let args = texts(spec.args@);
    assert(args.len() == spec.args@.len());
    let cwd = crate::text::opt_str(spec.cwd);
    let nonce = spec.nonce_hex@;
    let inner = crate::script::inner_script(spec.command@, args, cwd, nonce);
    let cd = crate::script::cd_line(cwd);
    let set = crate::script::set_line(args);
    let outer =
        "rm -f -- \"$0\" 2>/dev/null || :\nexec bash --noprofile --rcfile /dev/fd/3 -i -c "@;
    let rest = " 4>&2 3<<'"@ + crate::script::delimiter(nonce)
        + "' 2>/dev/null\nexec 2>&4\n[ -r /etc/bash.bashrc ] && . /etc/bash.bashrc || :\n[ -r ~/.bashrc ] && . ~/.bashrc || :\n"@
        + crate::script::delimiter(nonce) + "\n"@;
    assert(outer + single_quoted(inner) + rest =~= r@);
    reveal_strlit("\n");
    reveal_strlit("__sp_rc=$?\nprintf '\\034SPM:");
    reveal_strlit("\n__sp_rc=$?\nprintf '\\034SPM:");
    assert("\n"@ + "__sp_rc=$?\nprintf '\\034SPM:"@ =~= "\n__sp_rc=$?\nprintf '\\034SPM:"@);
    assert((cd + set) + spec.command@ + "\n__sp_rc=$?\nprintf '\\034SPM:"@ + nonce
        + ":%s\\034' \"$(printf %s \"$PWD\" | base64 | tr -d '\\n')\"\nexec 2>/dev/null\nexit $__sp_rc\n"@
        =~= inner);
    if let Some(d) = spec.cwd {
        let e = crate::shell::sq_escaped(d@);
        reveal_strlit("if ! cd -- '");
        reveal_strlit("if ! cd -- ");
        reveal_strlit("'");
        reveal_strlit("'; then printf 'sp: cannot cd to ");
        reveal_strlit("; then printf 'sp: cannot cd to ");
        assert("'; then printf 'sp: cannot cd to "@ =~= "'"@
            + "; then printf 'sp: cannot cd to "@);
        assert(single_quoted(d@) =~= (seq!['\''] + e) + seq!['\'']);
        assert(cd =~= "if ! cd -- "@ + (single_quoted(d@) + "; then printf 'sp: cannot cd to "@ + e
            + ", using $HOME\\n' >&2; cd -- ~; fi\n"@));
    }
    if args.len() > 0 {
        crate::script::law_arguments_survive_quoting(args);
        assert(set.drop_last() =~= crate::script::set_command(args));
    }
}

/// The script file of an execution is named by its nonce alone.
pub proof fn law_script_paths(nonce: &str, r: String)
    requires
        call_ensures(crate::script::remote_script_path, (nonce,), r),
    ensures
        r@ == "/tmp/.sp-"@ + nonce@ + ".sh"@,
{
}

} // verus!
