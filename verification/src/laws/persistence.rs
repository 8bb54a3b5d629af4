//! Directory and shell state: what a command leaves behind is where the next one
//! of its session begins.

use vstd::prelude::*;
use vstd::utf8::*;

use crate::child::{ChildFds, MemFiles, SpawnPlan};
use crate::daemon::{Conclusion, Sessions};
use crate::proto::{ExecRequest, ExitReport};
use crate::remote::{ExecOutcome, RemoteRun};
use crate::serve::{Collected, PipeCollector};
use crate::session::SessionId;
use crate::text::opt_text;

verus! {

/// The final report carries what the command left behind, whatever its end: the
/// directory and the state are those handed in, and only a timeout changes the
/// code.
pub proof fn law_report_carries_everything(
    timed_out: bool,
    code: i32,
    cwd: Option<String>,
    state: Option<String>,
    rep: ExitReport,
)
    requires
        call_ensures(crate::serve::exit_report, (timed_out, code, cwd, state), rep),
    ensures
        opt_text(rep.cwd) == opt_text(cwd),
        opt_text(rep.state) == opt_text(state),
        rep.error is None,
        rep.timed_out == timed_out,
        rep.code == if timed_out {
            124i32
        } else {
            code
        },
{
}

/// A request reaches the remote host with the host, the command, the arguments,
/// the session and the timeout it was made with, whatever its session remembers.
pub proof fn law_request_stays_the_same(
    sessions: &Sessions,
    req: &ExecRequest,
    id: &SessionId,
    r: ExecRequest,
)
    requires
        call_ensures(Sessions::effective_request, (sessions, req, id), r),
    ensures
        r.host@ == req.host@,
        r.command@ == req.command@,
        r.args@.len() == req.args@.len(),
        forall|i: int| 0 <= i < req.args@.len() ==> #[trigger] r.args@[i]@ == req.args@[i]@,
        opt_text(r.session) == opt_text(req.session),
        r.timeout_ms == req.timeout_ms,
        // a directory that the request names is kept
        req.cwd is Some ==> opt_text(r.cwd) == opt_text(req.cwd),
{
    super::forwarding::lemma_same_texts(r.args@, req.args@);
}

/// With its directory and state put back, the request that is sent is the request
/// that was made.
pub proof fn law_only_directory_and_state_are_filled_in(
    req: crate::proto::RequestView,
    s: crate::daemon::ShellState,
)
    ensures
        (crate::proto::RequestView {
            cwd: req.cwd,
            state: req.state,
            ..crate::daemon::effective(req, s)
        }) == req,
{
}

/// A session that has run nothing adds nothing.
pub proof fn law_new_sessions_are_blank(
    sessions: Sessions,
    req: &ExecRequest,
    id: &SessionId,
    r: ExecRequest,
)
    requires
        call_ensures(Sessions::new, (), sessions),
        call_ensures(Sessions::effective_request, (&sessions, req, id), r),
    ensures
        opt_text(r.cwd) == opt_text(req.cwd),
        r.state is None,
{
}

/// From the end of one command to the start of the next: the directory that the
/// remote server reported is where the next command of the session starts when it
/// names none, and the state that it reported is what it restores. The client is
/// told the same directory, the code and the timeout.
pub proof fn law_directory_and_state_persist(
    timed_out: bool,
    code: i32,
    cwd: Option<String>,
    state: Option<String>,
    rep: ExitReport,
    run: RemoteRun,
    line: Option<String>,
    o: ExecOutcome,
    sessions: &mut Sessions,
    id: &SessionId,
    closed: bool,
    c: Conclusion,
    after: &Sessions,
    req: &ExecRequest,
    r: ExecRequest,
)
    requires
        call_ensures(crate::serve::exit_report, (timed_out, code, cwd, state), rep),
        run@.report == Some(rep@),
        call_ensures(RemoteRun::finish, (run,), (line, Ok::<_, crate::Error>(o))),
        exists|host: &str|
            host@ == req.host@ && #[trigger] call_ensures(
                crate::daemon::conclude,
                (sessions, host, id, Ok::<_, String>(o), closed),
                c,
            ),
        after@ == final(sessions)@,
        call_ensures(Sessions::effective_request, (after, req, id), r),
    ensures
        cwd is Some && req.cwd is None ==> opt_text(r.cwd) == opt_text(cwd),
        state is Some ==> opt_text(r.state) == opt_text(state),
        opt_text(c.report.cwd) == opt_text(cwd),
        c.report.timed_out == timed_out,
        !timed_out ==> c.report.code == code,
        timed_out ==> c.report.code == 124,
        c.report.error is None,
        !c.evict,
{
}

/// What a command does not report stays as it was, and so does every other session
/// and every session of another host.
pub proof fn law_the_rest_stays(
    sessions: &mut Sessions,
    host: &str,
    id: &SessionId,
    cwd: &Option<String>,
    state: &Option<String>,
    before: &Sessions,
    after: &Sessions,
    req: &ExecRequest,
    other: &SessionId,
    r0: ExecRequest,
    r1: ExecRequest,
)
    requires
        call_ensures(Sessions::remember, (sessions, host, id, cwd, state), ()),
        before@ == old(sessions)@,
        after@ == final(sessions)@,
        call_ensures(Sessions::effective_request, (before, req, other), r0),
        call_ensures(Sessions::effective_request, (after, req, other), r1),
    ensures
        // another session
        req.host@ != host@ || other@ != id@ ==> opt_text(r1.cwd) == opt_text(r0.cwd) && opt_text(
            r1.state,
        ) == opt_text(r0.state),
        // the same one, of what was not reported
        cwd is None ==> opt_text(r1.cwd) == opt_text(r0.cwd),
        state is None ==> opt_text(r1.state) == opt_text(r0.state),
        // the same one, of what was
        req.host@ == host@ && other@ == id@ && cwd is Some && req.cwd is None ==> opt_text(r1.cwd)
            == opt_text(*cwd),
        req.host@ == host@ && other@ == id@ && state is Some ==> opt_text(r1.state) == opt_text(
            *state,
        ),
{
}

/// A failed execution changes no session, is told with its reason and 254, and
/// costs the connection exactly when that is closed.
pub proof fn law_failure_changes_nothing(
    sessions: &mut Sessions,
    host: &str,
    id: &SessionId,
    why: String,
    closed: bool,
    c: Conclusion,
)
    requires
        call_ensures(
            crate::daemon::conclude,
            (sessions, host, id, Err::<ExecOutcome, String>(why), closed),
            c,
        ),
    ensures
        final(sessions)@ == old(sessions)@,
        c.evict == closed,
        c.report.code == 254,
        c.report.error matches Some(e) && e@ == why@,
        c.report.cwd is None,
        !c.report.timed_out,
{
}

/// An outcome is told to the client as it is and remembered; the connection stays.
pub proof fn law_outcome_is_told(
    sessions: &mut Sessions,
    host: &str,
    id: &SessionId,
    o: ExecOutcome,
    closed: bool,
    c: Conclusion,
)
    requires
        call_ensures(
            crate::daemon::conclude,
            (sessions, host, id, Ok::<ExecOutcome, String>(o), closed),
            c,
        ),
    ensures
        c.report.code == o.exit_code,
        opt_text(c.report.cwd) == opt_text(o.new_cwd),
        opt_text(c.report.error) == opt_text(o.error),
        c.report.state is None,
        c.report.timed_out == o.timed_out,
        !c.evict,
{
}

// -- the next shell -----------------------------------------------------------------------

/// The shell is given the command and the state to restore as they are, and an
/// empty state when there is none.
pub proof fn law_shell_gets_command_and_state(
    req: &ExecRequest,
    fd: i32,
    m: MemFiles,
    rc: String,
)
    requires
        call_ensures(crate::child::mem_files, (req, fd), m),
        call_ensures(crate::wrapper::rc_body, (fd,), rc),
    ensures
        m.rc@ == encode_utf8(rc@),
        m.cmd@ == encode_utf8(req.command@),
        req.state matches Some(s) ==> m.state@ == encode_utf8(s@),
        req.state is None ==> m.state@.len() == 0,
{
}

/// bash is started with the request's arguments as its positional ones, in order,
/// and with the request's directory; it reads the files it is given, and the pipes
/// stand where they belong.
pub proof fn law_shell_gets_the_arguments(req: &ExecRequest, fds: ChildFds, p: SpawnPlan)
    requires
        call_ensures(crate::child::spawn_plan, (req, fds), p),
    ensures
        p.program@ == "bash"@,
        p.args@.len() == 7 + req.args@.len(),
        p.args@[0]@ == "--noprofile"@,
        p.args@[1]@ == "--rcfile"@,
        p.args@[2]@ == "/dev/fd/"@ + crate::text::dec_int(fds.rc as int),
        p.args@[3]@ == "-i"@,
        p.args@[4]@ == "-c"@,
        p.args@[6]@ == "bash"@,
        forall|i: int| 0 <= i < req.args@.len() ==> p.args@[7 + i]@ == #[trigger] req.args@[i]@,
        opt_text(p.sp_cwd) == opt_text(req.cwd),
        p.onto_stdin == fds.stdin,
        p.onto_stdout == fds.stdout,
        p.blocking@.to_set() == set![fds.stdin, fds.stdout, fds.stderr, fds.cwd, fds.dump],
        p.inherited@.to_set() == set![
            fds.rc,
            fds.cmd,
            fds.restore,
            fds.stderr,
            fds.cwd,
            fds.dump,
        ],
{
    let t = crate::text::texts(p.args@);
    let fixed = crate::child::fixed_args(fds);
    let rest = crate::text::texts(req.args@);
    assert(t.len() == p.args@.len());
    assert(rest.len() == req.args@.len());
    assert forall|i: int| 0 <= i < 7 implies p.args@[i]@ == fixed[i] by {
        assert(t[i] == p.args@[i]@);
    }
    assert forall|i: int| 0 <= i < req.args@.len() implies p.args@[7 + i]@
        == #[trigger] req.args@[i]@ by {
        assert(t[7 + i] == p.args@[7 + i]@);
        assert(t[7 + i] == rest[i]);
    }
    lemma_set_of_five(p.blocking@, fds.stdin, fds.stdout, fds.stderr, fds.cwd, fds.dump);
    let six = p.inherited@;
    assert(six.drop_last() =~= seq![fds.rc, fds.cmd, fds.restore, fds.stderr, fds.cwd]);
    lemma_set_of_five(six.drop_last(), fds.rc, fds.cmd, fds.restore, fds.stderr, fds.cwd);
    assert forall|x: i32| six.to_set().contains(x) == set![
        fds.rc,
        fds.cmd,
        fds.restore,
        fds.stderr,
        fds.cwd,
        fds.dump,
    ].contains(x) by {
        if six.contains(x) {
            let i = choose|i: int| 0 <= i < six.len() && six[i] == x;
        }
        assert(six[0] == fds.rc && six[1] == fds.cmd && six[2] == fds.restore && six[3]
            == fds.stderr && six[4] == fds.cwd && six[5] == fds.dump);
    }
    assert(six.to_set() =~= set![
        fds.rc,
        fds.cmd,
        fds.restore,
        fds.stderr,
        fds.cwd,
        fds.dump,
    ]);
}

proof fn lemma_set_of_five(s: Seq<i32>, a: i32, b: i32, c: i32, d: i32, e: i32)
    requires
        s == seq![a, b, c, d, e],
    ensures
        s.to_set() == set![a, b, c, d, e],
{
    assert forall|x: i32| s.to_set().contains(x) == set![a, b, c, d, e].contains(x) by {
        if s.contains(x) {
            let i = choose|i: int| 0 <= i < s.len() && s[i] == x;
        }
        assert(s[0] == a && s[1] == b && s[2] == c && s[3] == d && s[4] == e);
    }
    assert(s.to_set() =~= set![a, b, c, d, e]);
}

/// The shell that is started changes into the directory, restores the state from the file
/// it was given for that, runs the command from its own, reports the directory and the
/// state to the pipes it was given, each terminated by a NUL, and leaves with the status of
/// the command; a signal to the group leaves it with 128 and the number. The first file it
/// reads puts its stderr in place and then reads the start files of the system and the
/// user.
pub proof fn law_shell_uses_its_descriptors(fds: ChildFds, w: String, rc: String)
    requires
        call_ensures(
            crate::wrapper::wrapper_body,
            (fds.cmd, fds.restore, fds.dump, fds.cwd),
            w,
        ),
        call_ensures(crate::wrapper::rc_body, (fds.stderr,), rc),
    ensures
        ({
            let cd = "if [ -n \"${SP_CWD:-}\" ]; then\n  cd -- \"$SP_CWD\" || { printf 'sp: cannot cd to %s, using HOME\\n' \"$SP_CWD\" >&2; cd; }\nfi\n"@;
            let traps = "trap 'exit 130' INT\ntrap 'exit 143' TERM\ntrap 'exit 129' HUP\n"@;
            let restore = "{ eval \"$(cat /dev/fd/"@ + crate::text::dec_int(fds.restore as int)
                + ")\"; } 2>/dev/null\n"@;
            let command = "eval \"$(cat /dev/fd/"@ + crate::text::dec_int(fds.cmd as int) + ")\"\n"@;
            let status = "__sp_rc=$?\nset +e\n"@;
            let directory = "printf '%s\\0' \"$PWD\" >&"@ + crate::text::dec_int(fds.cwd as int)
                + "\n"@;
            let dump = "exec 2>/dev/null\nunset SP_CWD PWD\n{ declare -p; declare -f; alias; shopt -p; set +o; umask -p; printf '\\0'; } >&"@
                + crate::text::dec_int(fds.dump as int) + "\n"@;
            let leave = "exit \"$__sp_rc\"\n"@;
            &&& w@ == cd + traps + restore + command + status + directory + dump + leave
            &&& rc@ == "exec 2>&"@ + crate::text::dec_int(fds.stderr as int) + "\n"@
                + "[ -r /etc/bash.bashrc ] && . /etc/bash.bashrc || :\n"@
                + "[ -r ~/.bashrc ] && . ~/.bashrc || :\n"@
        }),
{
    reveal_strlit("if [ -n \"${SP_CWD:-}\" ]; then\n  cd -- \"$SP_CWD\" || { printf 'sp: cannot cd to %s, using HOME\\n' \"$SP_CWD\" >&2; cd; }\nfi\n");
    reveal_strlit("trap 'exit 130' INT\ntrap 'exit 143' TERM\ntrap 'exit 129' HUP\n");
    reveal_strlit("if [ -n \"${SP_CWD:-}\" ]; then\n  cd -- \"$SP_CWD\" || { printf 'sp: cannot cd to %s, using HOME\\n' \"$SP_CWD\" >&2; cd; }\nfi\ntrap 'exit 130' INT\ntrap 'exit 143' TERM\ntrap 'exit 129' HUP\n");
    reveal_strlit(")\"\n__sp_rc=$?\nset +e\n");
    reveal_strlit(")\"\n");
    reveal_strlit("__sp_rc=$?\nset +e\n");
    reveal_strlit("\n");
    reveal_strlit("\n[ -r /etc/bash.bashrc ] && . /etc/bash.bashrc || :\n[ -r ~/.bashrc ] && . ~/.bashrc || :\n");
    reveal_strlit("[ -r /etc/bash.bashrc ] && . /etc/bash.bashrc || :\n");
    reveal_strlit("[ -r ~/.bashrc ] && . ~/.bashrc || :\n");
    let cd = "if [ -n \"${SP_CWD:-}\" ]; then\n  cd -- \"$SP_CWD\" || { printf 'sp: cannot cd to %s, using HOME\\n' \"$SP_CWD\" >&2; cd; }\nfi\n"@;
    let traps = "trap 'exit 130' INT\ntrap 'exit 143' TERM\ntrap 'exit 129' HUP\n"@;
    assert(crate::wrapper::wrapper_start() =~= cd + traps);
    let command = "eval \"$(cat /dev/fd/"@ + crate::text::dec_int(fds.cmd as int) + ")\"\n"@;
    assert(crate::wrapper::command_step(fds.cmd as int) =~= command + "__sp_rc=$?\nset +e\n"@);
    let head = cd + traps + crate::wrapper::restore_step(fds.restore as int);
    assert(head + crate::wrapper::command_step(fds.cmd as int) =~= head + command
        + "__sp_rc=$?\nset +e\n"@);
    let files = "\n"@ + "[ -r /etc/bash.bashrc ] && . /etc/bash.bashrc || :\n"@
        + "[ -r ~/.bashrc ] && . ~/.bashrc || :\n"@;
    assert("\n[ -r /etc/bash.bashrc ] && . /etc/bash.bashrc || :\n[ -r ~/.bashrc ] && . ~/.bashrc || :\n"@
        =~= files);
    let start = "exec 2>&"@ + crate::text::dec_int(fds.stderr as int);
    assert(start + files =~= start + "\n"@ + "[ -r /etc/bash.bashrc ] && . /etc/bash.bashrc || :\n"@
        + "[ -r ~/.bashrc ] && . ~/.bashrc || :\n"@);
}

// -- reading the reports ------------------------------------------------------------------

/// A report that arrives in one piece, terminated by a NUL, is the text in front of
/// the NUL, whatever follows.
pub proof fn law_report_is_read(
    cap: usize,
    start: PipeCollector,
    pipe: &mut PipeCollector,
    chunk: &[u8],
    stop: bool,
    end: PipeCollector,
    got: Collected,
    value: Option<String>,
    text: Seq<char>,
    rest: Seq<u8>,
)
    requires
        call_ensures(PipeCollector::new, (cap,), start),
        old(pipe)@ == start@,
        call_ensures(PipeCollector::feed, (pipe, chunk), stop),
        end@ == final(pipe)@,
        call_ensures(PipeCollector::finish, (end,), got),
        call_ensures(Collected::value, (got,), value),
        chunk@ == encode_utf8(text) + seq![0u8] + rest,
        forall|i: int| 0 <= i < encode_utf8(text).len() ==> #[trigger] encode_utf8(text)[i] != 0,
        0 < encode_utf8(text).len() <= cap,
    ensures
        stop,
        value matches Some(s) && s@ == text,
{
    let b = encode_utf8(text);
    let n = b.len() as int;
    assert forall|i: int| 0 <= i < n implies chunk@[i] != 0 by {
        assert(chunk@[i] == b[i]);
    }
    assert(chunk@[n] == 0);
    crate::text::lemma_first_index_unique(chunk@, 0u8, n);
    assert(Seq::<u8>::empty() + chunk@.take(n) =~= b);
    encode_utf8_valid_utf8(text);
    encode_utf8_decode_utf8(text);
}

/// However a report is cut into chunks, it is the text in front of the first NUL;
/// one over its cap is none.
pub proof fn law_reports_are_read(
    cap: nat,
    chunks: Seq<Seq<u8>>,
    text: Seq<char>,
    rest: Seq<u8>,
)
    requires
        crate::proto::whole(chunks) == encode_utf8(text) + seq![0u8] + rest,
        forall|i: int| 0 <= i < encode_utf8(text).len() ==> #[trigger] encode_utf8(text)[i] != 0,
        0 < encode_utf8(text).len(),
    ensures
        ({
            let got = crate::serve::collector_report(
                crate::serve::collected_all(crate::serve::collector(cap), chunks),
            );
            &&& encode_utf8(text).len() <= cap ==> got == crate::serve::PipeReport::Value(text)
            &&& encode_utf8(text).len() > cap ==> got is Overflow
        }),
{
    let b = encode_utf8(text);
    let n = b.len() as int;
    let all = crate::proto::whole(chunks);
    crate::serve::law_report_is_chunk_independent(cap, chunks);
    assert forall|i: int| 0 <= i < n implies all[i] != 0 by {
        assert(all[i] == b[i]);
    }
    assert(all[n] == 0);
    crate::text::lemma_first_index_unique(all, 0u8, n);
    assert(all.take(n) =~= b);
    encode_utf8_valid_utf8(text);
    encode_utf8_decode_utf8(text);
}

/// A report in parts: without its NUL the parts are put together and reading goes on; past
/// the cap nothing is reported; the NUL ends it, at whatever place; and what follows the
/// end changes nothing.
pub proof fn law_report_parts(
    pipe: &mut PipeCollector,
    chunk: &[u8],
    stop: bool,
    before: Collected,
    after: Collected,
    value: Option<String>,
    k: int,
    text: Seq<char>,
)
    requires
        call_ensures(PipeCollector::feed, (pipe, chunk), stop),
        call_ensures(PipeCollector::finish, (*old(pipe),), before),
        call_ensures(PipeCollector::finish, (*final(pipe),), after),
        call_ensures(Collected::value, (after,), value),
        0 <= k <= chunk@.len(),
        forall|i: int| 0 <= i < k ==> #[trigger] chunk@[i] != 0,
        k < chunk@.len() ==> chunk@[k] == 0,
    ensures
        ({
            let all = old(pipe)@.buf + chunk@.take(k);
            let over = old(pipe)@.done || old(pipe)@.overflow;
            &&& over ==> stop == old(pipe)@.done && after@ == before@
            &&& !over ==> {
                &&& stop <==> k < chunk@.len()
                &&& all.len() > old(pipe)@.cap ==> after is Overflow && value is None
                &&& all.len() == 0 ==> after is Empty && value is None
                &&& all.len() <= old(pipe)@.cap ==> final(pipe)@.buf == all
                    && !final(pipe)@.overflow
                &&& 0 < all.len() <= old(pipe)@.cap && all == encode_utf8(text) ==> (
                value matches Some(s) && s@ == text)
                &&& 0 < all.len() <= old(pipe)@.cap && !valid_utf8(all) ==> after is NotUtf8
                    && value is None
                &&& final(pipe)@.done == stop && final(pipe)@.cap == old(pipe)@.cap
            }
        }),
{
    crate::text::lemma_first_index_unique(chunk@, 0u8, k);
    encode_utf8_valid_utf8(text);
    encode_utf8_decode_utf8(text);
    assert(opt_text(value) is None <==> value is None);
}

} // verus!
