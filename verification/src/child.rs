//! Plan for spawning the interactive bash that runs one user command.
//!
//! File descriptor layout of the child:
//!
//! | fd | target | source |
//! |----|--------|--------|
//! | 0  | user stdin forwarding | pipe from serve |
//! | 1  | user stdout | pipe to serve |
//! | 2  | /dev/null until the rcfile restores it | real stderr pipe, inherited |
//! | N  | rcfile memfd (`--rcfile /dev/fd/N`) | serve |
//! | M  | command text memfd (`eval "$(cat /dev/fd/M)"`) | serve |
//! | R  | shell state restore memfd (`eval "$(cat /dev/fd/R)"`) | serve |
//! | K  | cwd report (`printf %s "$PWD" >&K`) | pipe to serve |
//! | D  | shell state dump (`{ declare -p; ... } >&D`) | pipe to serve |
//!
//! All dynamic content travels through inherited fds/argv/env, so no string
//! the user controls is ever parsed as shell syntax by our layer. The child is
//! made a session leader (`setsid`) so its process group id equals its pid and
//! serve can signal the whole group with `kill(-pgid, ...)`.

use vstd::prelude::*;
use vstd::utf8::*;

use crate::proto::ExecRequest;
use crate::text::{copy_opt, copy_strings, push_int};
use crate::wrapper::{rc_body, wrapper_body};

verus! {

/// Environment variable that carries the starting directory.
pub const CWD_VAR: &'static str = "SP_CWD";

/// The child's ends of the pipes and its memory files.
#[derive(Debug, Clone, Copy)]
pub struct ChildFds {
    /// Read end of the stdin pipe.
    pub stdin: i32,
    /// Write end of the stdout pipe.
    pub stdout: i32,
    /// Write end of the stderr pipe.
    pub stderr: i32,
    /// Write end of the cwd report pipe.
    pub cwd: i32,
    /// Write end of the state dump pipe.
    pub dump: i32,
    /// rcfile memory file.
    pub rc: i32,
    /// Command text memory file.
    pub cmd: i32,
    /// Shell state memory file.
    pub restore: i32,
}

/// Contents of the memory files.
#[derive(Debug)]
pub struct MemFiles {
    pub rc: Vec<u8>,
    pub cmd: Vec<u8>,
    /// Empty when no state exists - the wrapper's eval of "" is a no-op.
    pub state: Vec<u8>,
}

/// How to start bash.
#[derive(Debug)]
pub struct SpawnPlan {
    pub program: String,
    pub args: Vec<String>,
    /// Value of [`CWD_VAR`] in the child's environment; unset when `None`.
    pub sp_cwd: Option<String>,
    /// Descriptors to duplicate onto stdin and stdout, in order.
    pub onto_stdin: i32,
    pub onto_stdout: i32,
    /// Pipe ends to switch to blocking mode. The flag lives on the shared open
    /// file description, and a blocking program dies with EAGAIN once the pipe
    /// fills; the parent's ends are separate descriptions.
    pub blocking: Vec<i32>,
    /// Descriptors that survive exec.
    pub inherited: Vec<i32>,
}

/// `/dev/fd/` and the number.
pub open spec fn fd_path(fd: int) -> Seq<char> {
    "/dev/fd/"@ + crate::text::dec_int(fd)
}

/// The arguments of bash in front of the user's positional ones. They depend on
/// the descriptors alone.
pub open spec fn fixed_args(f: ChildFds) -> Seq<Seq<char>> {
    seq![
        "--noprofile"@,
        "--rcfile"@,
        fd_path(f.rc as int),
        "-i"@,
        "-c"@,
        crate::wrapper::wrapper_text(
            f.cmd as int,
            f.restore as int,
            f.dump as int,
            f.cwd as int,
        ),
        // $0 named bash so error messages match a plain bash session.
        "bash"@,
    ]
}

/// Content of the memory file with the shell state to restore.
pub open spec fn state_file(req: crate::proto::RequestView) -> Seq<u8> {
    encode_utf8(
        (match req.state {
            Some(s) => s,
            None => Seq::empty(),
        }),
    )
}

/// Contents of the memory files for a request whose stderr pipe is `stderr_fd`.
pub fn mem_files(req: &ExecRequest, stderr_fd: i32) -> (r: MemFiles)
    ensures
        r.rc@ == encode_utf8(crate::wrapper::rc_text(stderr_fd as int)),
        r.cmd@ == encode_utf8(req@.command),
        r.state@ == state_file(req@),
{
    let state = match &req.state {
        Some(s) => s.as_str().as_bytes_vec(),
        None => {
            let v: Vec<u8> = Vec::new();
            assert(v@ =~= encode_utf8(Seq::empty()));
            v
        },
    };
    MemFiles {
        rc: rc_body(stderr_fd).as_str().as_bytes_vec(),
        cmd: req.command.as_str().as_bytes_vec(),
        state,
    }
}

/// How to start bash for one request.
pub fn spawn_plan(req: &ExecRequest, fds: ChildFds) -> (r: SpawnPlan)
    ensures
        r.program@ == "bash"@,
        crate::text::texts(r.args@) == fixed_args(fds) + req@.args,
        crate::text::opt_text(r.sp_cwd) == req@.cwd,
        r.onto_stdin == fds.stdin,
        r.onto_stdout == fds.stdout,
        r.blocking@ == seq![fds.stdin, fds.stdout, fds.stderr, fds.cwd, fds.dump],
        r.inherited@ == seq![fds.rc, fds.cmd, fds.restore, fds.stderr, fds.cwd, fds.dump],
{
    let mut rc_path = "/dev/fd/".to_owned();
    push_int(&mut rc_path, fds.rc as i64);
    let mut args: Vec<String> = vec![
        "--noprofile".to_owned(),
        "--rcfile".to_owned(),
        rc_path,
        "-i".to_owned(),
        "-c".to_owned(),
        wrapper_body(fds.cmd, fds.restore, fds.dump, fds.cwd),
        "bash".to_owned(),
    ];
    assert(crate::text::texts(args@) =~= fixed_args(fds));
    let mut rest = copy_strings(&req.args);
    let ghost head = args@;
    let ghost tail = rest@;
    args.append(&mut rest);
    assert(args@ =~= head + tail);
    assert(crate::text::texts(args@) =~= crate::text::texts(head) + crate::text::texts(tail));
    SpawnPlan {
        program: "bash".to_owned(),
        args,
        sp_cwd: copy_opt(&req.cwd),
        onto_stdin: fds.stdin,
        onto_stdout: fds.stdout,
        blocking: vec![fds.stdin, fds.stdout, fds.stderr, fds.cwd, fds.dump],
        inherited: vec![fds.rc, fds.cmd, fds.restore, fds.stderr, fds.cwd, fds.dump],
    }
}

/// The shell state that a command leaves behind is what the next command of its
/// session restores: the dump that the remote server reports comes back, byte for
/// byte, in the file that the next shell evaluates between the change of directory
/// and the command.
pub proof fn law_dumped_state_is_restored(
    m: Map<crate::daemon::SessionKey, crate::daemon::ShellState>,
    k: crate::daemon::SessionKey,
    timed_out: bool,
    code: i32,
    cwd: Option<Seq<char>>,
    dump: Seq<char>,
    next: crate::proto::RequestView,
    fds: ChildFds,
)
    ensures
        ({
            let rep = crate::serve::final_report(timed_out, code, cwd, Some(dump));
            let o = crate::remote::outcome_of(rep);
            let kept = crate::daemon::remembered(m, k, o.new_cwd, o.new_state);
            let sent = crate::daemon::effective(next, crate::daemon::state_of(kept, k));
            &&& state_file(sent) == encode_utf8(dump)
            &&& crate::text::begins_with(
                fixed_args(fds)[5],
                crate::wrapper::wrapper_start() + crate::wrapper::restore_step(
                    fds.restore as int,
                ) + crate::wrapper::command_step(fds.cmd as int),
            )
        }),
{
    let start = crate::wrapper::wrapper_start() + crate::wrapper::restore_step(
        fds.restore as int,
    ) + crate::wrapper::command_step(fds.cmd as int);
    assert(fixed_args(fds)[5].take(start.len() as int) =~= start);
}

} // verus!
