//! Remote wrapper script generation.
//!
//! Per command one bash script is uploaded to the remote host and run with
//! `bash <path>`. The script:
//!
//! 1. deletes itself first (the fd stays readable on Linux, so crashes leave no leftovers);
//! 2. execs an interactive bash (`-i`) so `~/.bashrc` is loaded with aliases and functions
//!    available; the rcfile trick (`/dev/fd/3` + `4>&2` + `2>/dev/null`) swallows the two
//!    job-control warnings interactive bash prints on a non-tty while keeping real stderr intact
//!    (restored by the rcfile before sourcing);
//! 3. cds to the persisted cwd, runs the user command, then prints a `<marker><base64 cwd><marker>`
//!    trailer on stdout and exits with the user command's exit status (forwarded natively via the
//!    SSH exit-status message).
//!
//! The final `exec 2>/dev/null` silences the `exit` line interactive bash prints
//! when the *wrapper* runs the exit builtin.

use vstd::prelude::*;

use crate::text::join_strings;

verus! {

/// Start of the cwd marker, followed by the nonce and a colon.
pub const MARKER_PREFIX: &'static str = "\x1cSPM:";

/// Start of the process group message, followed by the nonce and a colon.
pub const PGID_PREFIX: &'static str = "\x1cSPPG:";

/// Terminator of both control messages.
pub const MARKER_SUFFIX: &'static str = "\x1c";

/// Inputs for building one remote wrapper script.
#[derive(Debug, Clone)]
pub struct ScriptSpec<'a> {
    /// User command text, executed verbatim as bash script lines.
    pub command: &'a str,
    /// Positional arguments (`$1..`) for the command, file mode mainly.
    pub args: &'a [String],
    /// Directory to cd into before running; `None` keeps the session default.
    pub cwd: Option<&'a str>,
    /// Per-command random hex nonce, used in the marker and remote file name.
    pub nonce_hex: &'a str,
}

/// Remote path the wrapper script is uploaded to.
pub open spec fn script_path(nonce: Seq<char>) -> Seq<char> {
    "/tmp/.sp-"@ + nonce + ".sh"@
}

/// The texts in single quotes.
pub open spec fn all_quoted(args: Seq<Seq<char>>) -> Seq<Seq<char>> {
    args.map_values(|a: Seq<char>| crate::shell::single_quoted(a))
}

/// The line that changes into the starting directory.
pub open spec fn cd_line(cwd: Option<Seq<char>>) -> Seq<char> {
    match cwd {
        Some(d) => {
            let e = crate::shell::sq_escaped(d);
            "if ! cd -- '"@ + e + "'; then printf 'sp: cannot cd to "@ + e
                + ", using $HOME\\n' >&2; cd -- ~; fi\n"@
        },
        None => Seq::empty(),
    }
}

/// The command that sets the positional arguments.
pub open spec fn set_command(args: Seq<Seq<char>>) -> Seq<char> {
    "set -- "@ + crate::text::joined(all_quoted(args), " "@)
}

/// The line that sets the positional arguments.
pub open spec fn set_line(args: Seq<Seq<char>>) -> Seq<char> {
    if args.len() == 0 {
        Seq::empty()
    } else {
        set_command(args) + "\n"@
    }
}

/// The lines that report the directory and the exit status.
pub open spec fn trailer(nonce: Seq<char>) -> Seq<char> {
    "__sp_rc=$?\nprintf '\\034SPM:"@ + nonce
        + ":%s\\034' \"$(printf %s \"$PWD\" | base64 | tr -d '\\n')\"\nexec 2>/dev/null\nexit $__sp_rc\n"@
}

/// What the interactive bash runs.
pub open spec fn inner_script(
    command: Seq<char>,
    args: Seq<Seq<char>>,
    cwd: Option<Seq<char>>,
    nonce: Seq<char>,
) -> Seq<char> {
    cd_line(cwd) + set_line(args) + command + "\n"@ + trailer(nonce)
}

/// End marker of the embedded rcfile.
pub open spec fn delimiter(nonce: Seq<char>) -> Seq<char> {
    "__SP_"@ + nonce + "__"@
}

/// The whole wrapper script around what the interactive bash runs.
pub open spec fn outer_script(inner: Seq<char>, nonce: Seq<char>) -> Seq<char> {
    "rm -f -- \"$0\" 2>/dev/null || :\nexec bash --noprofile --rcfile /dev/fd/3 -i -c "@
        + crate::shell::single_quoted(inner) + " 4>&2 3<<'"@ + delimiter(nonce)
        + "' 2>/dev/null\nexec 2>&4\n[ -r /etc/bash.bashrc ] && . /etc/bash.bashrc || :\n[ -r ~/.bashrc ] && . ~/.bashrc || :\n"@
        + delimiter(nonce) + "\n"@
}

/// Remote path the wrapper script is uploaded to.
pub fn remote_script_path(nonce_hex: &str) -> (r: String)
    ensures
        r@ == script_path(nonce_hex@),
{
    let mut s = "/tmp/.sp-".to_owned();
    s.append(nonce_hex);
    s.append(".sh");
    s
}

/// POSIX single-quote escape for embedding text inside `'...'` in bash.
pub fn sq_escape(s: &str) -> (r: String)
    ensures
        r@ == crate::shell::sq_escaped(s@),
{
    let mut out = String::new();
    assert(out@ =~= Seq::<char>::empty());
    assert(s@.take(0) =~= Seq::<char>::empty());
    for c in it: s.chars()
        invariant
            it.seq() == s@,
            out@ == crate::shell::sq_escaped(s@.take(it.index())),
    {
        assert(s@.take(it.index() + 1).drop_last() =~= s@.take(it.index()));
        assert(s@.take(it.index() + 1).last() == c);
        if c == '\'' {
            let ghost before = out@;
            out.push('\'');
            out.push('\\');
            out.push('\'');
            out.push('\'');
            assert(out@ =~= before + crate::shell::sq_piece(c));
        } else {
            let ghost before = out@;
            out.push(c);
            assert(out@ =~= before + crate::shell::sq_piece(c));
        }
    }
    assert(s@.take(s@.len() as int) =~= s@);
    out
}

/// The text in single quotes.
pub fn sq_quote(s: &str) -> (r: String)
    ensures
        r@ == crate::shell::single_quoted(s@),
{
    let mut out = "'".to_owned();
    out.append(sq_escape(s).as_str());
    out.append("'");
    out
}

fn quote_all(args: &[String]) -> (r: Vec<String>)
    ensures
        crate::text::texts(r@) == all_quoted(crate::text::texts(args@)),
{
    let mut out: Vec<String> = Vec::new();
    let mut i: usize = 0;
    let ghost all = all_quoted(crate::text::texts(args@));
    while i < args.len()
        invariant
            i <= args@.len(),
            all == all_quoted(crate::text::texts(args@)),
            crate::text::texts(out@) == all.take(i as int),
        decreases args@.len() - i,
    {
        let ghost before = out@;
        out.push(sq_quote(args[i].as_str()));
        proof {
            crate::text::lemma_texts_push(before, out@.last());
            assert(crate::text::texts(out@) =~= all.take(i + 1));
        }
        i = i + 1;
    }
    assert(all.take(args@.len() as int) =~= all);
    out
}

/// Build the full wrapper script uploaded to the remote host.
pub fn build(spec: &ScriptSpec<'_>) -> (r: String)
    ensures
        r@ == outer_script(
            inner_script(
                spec.command@,
                crate::text::texts(spec.args@),
                crate::text::opt_str(spec.cwd),
                spec.nonce_hex@,
            ),
            spec.nonce_hex@,
        ),
{
    let nonce = spec.nonce_hex;
    let mut delim = "__SP_".to_owned();
    delim.append(nonce);
    delim.append("__");

    let mut inner = String::new();
    assert(inner@ =~= Seq::<char>::empty());
    if let Some(cwd) = spec.cwd {
        let e = sq_escape(cwd);
        inner = "if ! cd -- '".to_owned();
        inner.append(e.as_str());
        inner.append("'; then printf 'sp: cannot cd to ");
        inner.append(e.as_str());
        inner.append(", using $HOME\\n' >&2; cd -- ~; fi\n");
    }
    assert(inner@ == cd_line(crate::text::opt_str(spec.cwd)));
    let ghost cd = inner@;
    assert(cd + Seq::<char>::empty() =~= cd);
    if spec.args.len() > 0 {
        let quoted = quote_all(spec.args);
        let mut line = "set -- ".to_owned();
        line.append(join_strings(&quoted, " ").as_str());
        line.append("\n");
        inner.append(line.as_str());
    }
    inner.append(spec.command);
    inner.append("\n");
    // Capture rc before anything else runs; the marker goes to stdout and is
    // stripped client-side. `exec 2>/dev/null` before `exit` hides the "exit"
    // line interactive bash prints to stderr for its own exit builtin.
    let mut tail = "__sp_rc=$?\nprintf '\\034SPM:".to_owned();
    tail.append(nonce);
    tail.append(
        ":%s\\034' \"$(printf %s \"$PWD\" | base64 | tr -d '\\n')\"\nexec 2>/dev/null\nexit $__sp_rc\n",
    );
    inner.append(tail.as_str());

    let mut out =
        "rm -f -- \"$0\" 2>/dev/null || :\nexec bash --noprofile --rcfile /dev/fd/3 -i -c ".to_owned();
    out.append(sq_quote(inner.as_str()).as_str());
    out.append(" 4>&2 3<<'");
    out.append(delim.as_str());
    out.append(
        "' 2>/dev/null\nexec 2>&4\n[ -r /etc/bash.bashrc ] && . /etc/bash.bashrc || :\n[ -r ~/.bashrc ] && . ~/.bashrc || :\n",
    );
    out.append(delim.as_str());
    out.append("\n");
    out
}

/// The positional arguments reach the remote bash unchanged: it reads the `set`
/// command as the words `set`, `--` and the arguments, whatever they hold.
pub proof fn law_arguments_survive_quoting(args: Seq<Seq<char>>)
    ensures
        crate::shell::words_of(set_command(args)) == Some(seq!["set"@, "--"@] + args),
{
    reveal_strlit("set -- ");
    reveal_strlit("set");
    reveal_strlit("--");
    let q = crate::text::joined(all_quoted(args), " "@);
    let t = set_command(args);
    let none = Seq::<Seq<char>>::empty();
    let first = "--"@ + (seq![' '] + q);
    assert(t =~= "set"@ + (seq![' '] + first));
    crate::shell::lemma_bare_word("set"@);
    crate::shell::lemma_bare_word("--"@);
    crate::shell::lemma_word_then_space("set"@, "set"@, none, first);
    crate::shell::lemma_word_then_space("--"@, "--"@, none.push("set"@), q);
    let two = none.push("set"@).push("--"@);
    assert(two =~= seq!["set"@, "--"@]);
    assert forall|i: int| 0 <= i < args.len() implies crate::shell::reads_as(
        #[trigger] all_quoted(args)[i],
        args[i],
    ) by {
        crate::shell::lemma_quoted_word(args[i]);
    }
    crate::shell::lemma_joined_words(two, all_quoted(args), args);
}

} // verus!
