//! Static bash wrapper pieces.
//!
//! Everything dynamic (command text, cwd, shell state, args) reaches bash
//! through inherited fds, environment variables or argv - never through string
//! interpolation into shell syntax, so there is no escaping layer to get wrong.
//!
//! The report/dump pipe fds are inherited by everything the command spawns, so
//! a surviving background job (`nohup foo &`) holds their write ends open and
//! EOF never arrives; both reports therefore end with a NUL terminator, which
//! serve treats as the completion signal instead of EOF.

use vstd::prelude::*;

use crate::text::push_int;

verus! {

/// Text of the rcfile that restores stderr from the given fd.
pub open spec fn rc_text(stderr_fd: int) -> Seq<char> {
    "exec 2>&"@ + crate::text::dec_int(stderr_fd)
        + "\n[ -r /etc/bash.bashrc ] && . /etc/bash.bashrc || :\n[ -r ~/.bashrc ] && . ~/.bashrc || :\n"@
}

/// rcfile body read by `bash -i` at startup.
///
/// The child starts with stderr redirected to /dev/null so the job-control
/// warnings interactive bash prints on a non-tty (`cannot set terminal process
/// group`, `no job control in this shell`) are swallowed; the first rcfile
/// line restores stderr to the real pipe (`stderr_fd`), then the system and
/// user bashrc are sourced like a normal interactive shell would.
pub fn rc_body(stderr_fd: i32) -> (r: String)
    ensures
        r@ == rc_text(stderr_fd as int),
{
    let mut s = "exec 2>&".to_owned();
    push_int(&mut s, stderr_fd as i64);
    s.append(
        "\n[ -r /etc/bash.bashrc ] && . /etc/bash.bashrc || :\n[ -r ~/.bashrc ] && . ~/.bashrc || :\n",
    );
    s
}

/// The start of the wrapper: change into the starting directory, pin the exit
/// status on signals.
pub open spec fn wrapper_start() -> Seq<char> {
    "if [ -n \"${SP_CWD:-}\" ]; then\n  cd -- \"$SP_CWD\" || { printf 'sp: cannot cd to %s, using HOME\\n' \"$SP_CWD\" >&2; cd; }\nfi\ntrap 'exit 130' INT\ntrap 'exit 143' TERM\ntrap 'exit 129' HUP\n"@
}

/// The persisted state is restored, its errors suppressed.
pub open spec fn restore_step(restore_fd: int) -> Seq<char> {
    "{ eval \"$(cat /dev/fd/"@ + crate::text::dec_int(restore_fd) + ")\"; } 2>/dev/null\n"@
}

/// The command runs in this shell; its status is captured and errexit dropped.
pub open spec fn command_step(cmd_fd: int) -> Seq<char> {
    "eval \"$(cat /dev/fd/"@ + crate::text::dec_int(cmd_fd) + ")\"\n__sp_rc=$?\nset +e\n"@
}

/// The final directory is reported, terminated by a NUL.
pub open spec fn report_step(pwd_fd: int) -> Seq<char> {
    "printf '%s\\0' \"$PWD\" >&"@ + crate::text::dec_int(pwd_fd) + "\n"@
}

/// The shell state without `SP_CWD` and `PWD` is dumped, terminated by a NUL.
pub open spec fn dump_step(dump_fd: int) -> Seq<char> {
    "exec 2>/dev/null\nunset SP_CWD PWD\n{ declare -p; declare -f; alias; shopt -p; set +o; umask -p; printf '\\0'; } >&"@
        + crate::text::dec_int(dump_fd) + "\n"@
}

/// Text of the wrapper around a command, for the given fds: the state is restored
/// after the change of directory and before the command, both reports follow the
/// command, and its status comes last.
pub open spec fn wrapper_text(
    cmd_fd: int,
    restore_fd: int,
    dump_fd: int,
    pwd_fd: int,
) -> Seq<char> {
    wrapper_start() + restore_step(restore_fd) + command_step(cmd_fd) + report_step(pwd_fd)
        + dump_step(dump_fd) + "exit \"$__sp_rc\"\n"@
}

/// The `-c` body of the interactive bash running the user command.
///
/// - `$1..` are the user's positional args (argv after the `-c` string);
/// - `SP_CWD` (env) selects the starting directory;
/// - the persisted shell state is read verbatim from `restore_fd` and eval'd after the cd: it must
///   override bashrc settings, and a restored OLDPWD only survives if no cd follows it. Empty
///   content is a no-op eval. Restore errors (readonly vars like BASH_VERSINFO refuse reassignment)
///   are suppressed - the dump is best-effort state, not a contract;
/// - the command text is read verbatim from `cmd_fd` and `eval`ed in this shell, so `sp cd ...`
///   mutates the working directory we report;
/// - after the command, the final `$PWD` is written to `pwd_fd` and the state dump to `dump_fd`
///   (both out of band, stdout stays byte-clean; both NUL-terminated - bash data can never contain
///   NUL, and a background job surviving the command holds the pipe write ends open, so serve must
///   not wait for EOF), and the command's exit status is propagated. SP_CWD (daemon-provided, stale
///   after a user `--cwd`) and PWD (owned by the cd mechanism; restoring a stale string would
///   desync `$PWD` from the real directory) are kept out of the dump; OLDPWD stays so `cd -` works
///   across commands;
/// - the dump is all builtins, no fork: declare/alias/shopt/set/umask read in-memory tables, and
///   `declare -p` output is one safely quoted line per variable, so it round-trips through eval as
///   data, not syntax;
/// - errexit is dropped right after the command: a restored `set -e` plus a failing command would
///   abort the wrapper before the cwd report and state dump run;
/// - the traps pin the exit status to 128+signum when a group-wide signal (sent by serve on local
///   Ctrl+C / timeout) also hits this bash.
pub fn wrapper_body(cmd_fd: i32, restore_fd: i32, dump_fd: i32, pwd_fd: i32) -> (r: String)
    ensures
        r@ == wrapper_text(cmd_fd as int, restore_fd as int, dump_fd as int, pwd_fd as int),
{
    let mut s =
        "if [ -n \"${SP_CWD:-}\" ]; then\n  cd -- \"$SP_CWD\" || { printf 'sp: cannot cd to %s, using HOME\\n' \"$SP_CWD\" >&2; cd; }\nfi\ntrap 'exit 130' INT\ntrap 'exit 143' TERM\ntrap 'exit 129' HUP\n".to_owned();
    s.append("{ eval \"$(cat /dev/fd/");
    push_int(&mut s, restore_fd as i64);
    s.append(")\"; } 2>/dev/null\n");
    assert(s@ =~= wrapper_start() + restore_step(restore_fd as int));
    let ghost restored = s@;
    s.append("eval \"$(cat /dev/fd/");
    push_int(&mut s, cmd_fd as i64);
    s.append(")\"\n__sp_rc=$?\nset +e\n");
    assert(s@ =~= restored + command_step(cmd_fd as int));
    let ghost run = s@;
    s.append("printf '%s\\0' \"$PWD\" >&");
    push_int(&mut s, pwd_fd as i64);
    s.append("\n");
    assert(s@ =~= run + report_step(pwd_fd as int));
    let ghost reported = s@;
    s.append(
        "exec 2>/dev/null\nunset SP_CWD PWD\n{ declare -p; declare -f; alias; shopt -p; set +o; umask -p; printf '\\0'; } >&",
    );
    push_int(&mut s, dump_fd as i64);
    s.append("\n");
    assert(s@ =~= reported + dump_step(dump_fd as int));
    s.append("exit \"$__sp_rc\"\n");
    s
}

} // verus!
