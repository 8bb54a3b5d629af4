//! Endings: exit codes, timeouts and signals.

use vstd::prelude::*;
use vstd::utf8::*;

use crate::client::{Run, RunAction, RunEvent, RunReport};
use crate::exec::{Effect, Engine, EngineEvent, ExecOutcome, ExitSig, Order};
use crate::proto::{EventMessage, ExecMessage, ExitReport, Signal};
use crate::remote::OutputEvent;
use crate::serve::{Next, ServeEvent, ServeLoop, ServeStep};
use crate::text::{opt_text, texts};

verus! {

/// A point in time some milliseconds later, as far as the clock goes.
pub open spec fn after(now: u64, ms: u64) -> u64 {
    if now + ms <= u64::MAX {
        (now + ms) as u64
    } else {
        u64::MAX
    }
}

// -- codes --------------------------------------------------------------------------------

/// The code of a child is its own, or 128 and the signal that ended it; 255 when
/// neither is known.
pub proof fn law_codes_of_children(code: Option<i32>, signal: Option<i32>, r: i32)
    requires
        call_ensures(crate::serve::status_code, (code, signal), r),
        signal matches Some(s) ==> s <= i32::MAX - 128,
    ensures
        code matches Some(c) ==> r == c,
        code is None && signal is Some ==> r == signal->0 + 128,
        code is None && signal is None ==> r == 255,
{
}

/// The code of an SSH exit status is the status, and of a signal 128 and its number.
pub proof fn law_codes_of_channels(status: u32, a: i32, sig: ExitSig, b: i32)
    ensures
        call_ensures(crate::exec::to_exit_code, (status,), a) && status <= i32::MAX ==> a == status,
        call_ensures(crate::exec::to_exit_code, (status,), a) && status > i32::MAX ==> a == 255,
        call_ensures(crate::exec::signal_exit_code, (sig,), b) ==> b == match sig {
            ExitSig::Hup => 129i32,
            ExitSig::Int => 130,
            ExitSig::Quit => 131,
            ExitSig::Ill => 132,
            ExitSig::Abrt => 134,
            ExitSig::Fpe => 136,
            ExitSig::Kill => 137,
            ExitSig::Usr1 => 138,
            ExitSig::Segv => 139,
            ExitSig::Usr2 => 140,
            ExitSig::Pipe => 141,
            ExitSig::Alrm => 142,
            ExitSig::Term => 143,
            ExitSig::Other => 128,
        },
{
}

/// A report reaches the caller of a run whole.
pub proof fn law_run_ends_with_the_report(run: &mut Run, rep: ExitReport, now: u64, r: RunAction)
    requires
        call_ensures(Run::step, (run, RunEvent::Message(EventMessage::Exit(rep)), now), r),
    ensures
        r matches RunAction::Done(x) && {
            &&& x.code == rep.code
            &&& opt_text(x.cwd) == opt_text(rep.cwd)
            &&& opt_text(x.error) == opt_text(rep.error)
            &&& x.timed_out == rep.timed_out
        },
{
}

/// The process leaves with the code of the command; with 124 after a timeout; with
/// 254 for a code that no process can have. The reason of a failure and a timeout
/// are told, and nothing else is.
pub proof fn law_process_codes(report: &RunReport, r: (Vec<String>, u8))
    requires
        call_ensures(crate::cli::exit_with, (report,), r),
    ensures
        report.timed_out ==> r.1 == 124,
        !report.timed_out && 0 <= report.code <= 255 ==> r.1 as int == report.code,
        !report.timed_out && !(0 <= report.code <= 255) ==> r.1 == 254,
        r.0@.len() == (if report.error is Some {
            1int
        } else {
            0
        }) + (if report.timed_out {
            1int
        } else {
            0
        }),
        report.error matches Some(e) ==> r.0@[0]@ == "sp: "@ + e@,
        report.timed_out ==> r.0@.last()@ == "sp: command timed out"@,
{
    let t = texts(r.0@);
    assert(t.len() == r.0@.len());
    if report.error is Some {
        assert(t[0] == r.0@[0]@);
    }
    if report.timed_out {
        assert(t.last() == r.0@.last()@);
    }
}

/// From the end of the child to the code of `sp`: the command's code arrives as it
/// is, 128 and the signal for one that a signal ended, 124 after a timeout.
pub proof fn law_codes_arrive(
    exit: Option<i32>,
    signal: Option<i32>,
    timed_out: bool,
    cwd: Option<String>,
    state: Option<String>,
    code: i32,
    rep: ExitReport,
    run: &mut Run,
    now: u64,
    report: RunReport,
    r: (Vec<String>, u8),
)
    requires
        exit matches Some(c) ==> 0 <= c <= 255,
        signal matches Some(s) ==> 0 < s <= 127,
        call_ensures(crate::serve::status_code, (exit, signal), code),
        call_ensures(crate::serve::exit_report, (timed_out, code, cwd, state), rep),
        call_ensures(
            Run::step,
            (run, RunEvent::Message(EventMessage::Exit(rep)), now),
            RunAction::Done(report),
        ),
        call_ensures(crate::cli::exit_with, (&report,), r),
    ensures
        timed_out ==> r.1 == 124,
        !timed_out ==> r.1 as int == match exit {
            Some(c) => c as int,
            None => match signal {
                Some(s) => 128 + s,
                None => 255,
            },
        },
{
}

/// Failures of the server, the daemon and the connection are reports with 254 and
/// their reason.
pub proof fn law_failure_reports(
    why: &str,
    text: String,
    e: &crate::Error,
    shown: String,
    a: ExitReport,
    b: ExitReport,
    c: ExitReport,
)
    ensures
        call_ensures(crate::serve::spawn_failure, (why,), a) ==> a.code == 254 && (a.error matches Some(
            x,
        ) && x@ == "spawn bash: "@ + why@) && a.cwd is None && a.state is None && !a.timed_out,
        call_ensures(ExitReport::failure, (text,), b) ==> b.code == 254 && (b.error matches Some(x)
            && x@ == text@) && b.cwd is None && b.state is None && !b.timed_out,
        call_ensures(crate::Error::brief, (e,), shown) && call_ensures(
            crate::daemon::connect_failed,
            (e,),
            c,
        ) ==> c.code == 254 && (c.error matches Some(x) && x@ == shown@) && c.cwd is None
            && c.state is None && !c.timed_out,
{
}

// -- the remote server's clock and signals --------------------------------------------------

/// Only a timeout above zero arms a deadline, and exactly that long after the start.
pub proof fn law_deadline_is_the_timeout(
    timeout: Option<u64>,
    now: u64,
    l: ServeLoop,
    d: Option<u64>,
    t: bool,
)
    requires
        call_ensures(ServeLoop::new, (timeout, now), l),
        call_ensures(ServeLoop::deadline, (&l,), d),
        call_ensures(ServeLoop::timed_out, (&l,), t),
    ensures
        d == match timeout {
            Some(ms) => if ms > 0 {
                Some(after(now, ms))
            } else {
                None
            },
            None => None,
        },
        !t,
{
}

/// A deadline that passes sends TERM and marks the timeout; five seconds later KILL;
/// then nothing more. Without one nothing happens.
pub proof fn law_deadlines_end_the_command(
    l: &mut ServeLoop,
    now: u64,
    r: ServeStep,
    next: &ServeLoop,
    d: Option<u64>,
    t: bool,
)
    requires
        old(l)@.wf(),
        call_ensures(ServeLoop::step, (l, ServeEvent::Deadline, now), r),
        next@ == final(l)@,
        call_ensures(ServeLoop::deadline, (next,), d),
        call_ensures(ServeLoop::timed_out, (next,), t),
    ensures
        r.next is Wait,
        old(l)@.kill_at is None && old(l)@.term_at is Some ==> r.kill == Some(Signal::Term) && t && d
            == Some(after(now, 5000)),
        old(l)@.kill_at is Some ==> r.kill == Some(Signal::Kill) && t && d is None,
        old(l)@.kill_at is None && old(l)@.term_at is None ==> r.kill is None && final(l)@ == old(l)@,
{
}

/// Every signal goes to the whole group as it is; the end of the child ends the
/// command with its code; a lost or talking-nonsense peer kills the group and ends
/// all; nothing else does.
pub proof fn law_events_of_the_server(
    l: &mut ServeLoop,
    s: Signal,
    code: i32,
    text: String,
    now: u64,
    r: ServeStep,
)
    requires
        old(l)@.wf(),
    ensures
        call_ensures(ServeLoop::step, (l, ServeEvent::Signal(s), now), r) ==> r.kill == Some(s)
            && r.next is Wait && final(l)@ == old(l)@,
        call_ensures(ServeLoop::step, (l, ServeEvent::Exited(code), now), r) ==> r.kill is None && (
        r.next matches Next::Finish(c) && c == code) && final(l)@ == old(l)@,
        call_ensures(ServeLoop::step, (l, ServeEvent::Closed, now), r) ==> r.kill == Some(
            Signal::Kill,
        ) && (r.next matches Next::Fail(e) && e@
            == "transport closed while the command was running"@),
        call_ensures(ServeLoop::step, (l, ServeEvent::Bad(text), now), r) ==> r.kill == Some(
            Signal::Kill,
        ) && (r.next matches Next::Fail(e) && e@ == "bad frame: "@ + text@),
        call_ensures(ServeLoop::step, (l, ServeEvent::WriterDone(true), now), r) ==> r.kill == Some(
            Signal::Kill,
        ) && (r.next matches Next::Fail(e) && e@
            == "daemon vanished while the command was running"@),
        call_ensures(ServeLoop::step, (l, ServeEvent::WriterDone(false), now), r) ==> r.kill is None
            && r.next is Wait && final(l)@ == old(l)@,
        call_ensures(ServeLoop::step, (l, ServeEvent::WaitFailed(text), now), r) ==> r.kill is None
            && (r.next matches Next::Fail(e) && e@ == "wait on child: "@ + text@),
        call_ensures(ServeLoop::step, (l, ServeEvent::ReaderDone, now), r) ==> r.kill is None
            && r.next is Wait && !final(l)@.reader_open && final(l)@.deadline() == old(l)@.deadline()
            && final(l)@.timed_out == old(l)@.timed_out,
{
}

/// The group is addressed by its negated number, and its leader alone only when the
/// group is gone.
pub proof fn law_groups_are_addressed(
    pgid: i32,
    t: i32,
    result: i32,
    errno: Option<i32>,
    esrch: i32,
    alone: bool,
)
    ensures
        pgid > i32::MIN && call_ensures(crate::serve::group_target, (pgid,), t) ==> t + pgid == 0,
        call_ensures(crate::serve::kill_leader_instead, (result, errno, esrch), alone) ==> (alone
            <==> (result < 0 && errno == Some(esrch))),
{
}

// -- execution without the remote server ----------------------------------------------------

/// A status or a signal of the channel is the code of the execution, and starts the
/// two seconds of draining; the message of a signal is told on stderr.
pub proof fn law_engine_endings(
    engine: &mut Engine,
    status: u32,
    sig: ExitSig,
    text: String,
    now: u64,
    r: Effect,
    code: i32,
    sig_code: i32,
)
    requires
        call_ensures(crate::exec::to_exit_code, (status,), code),
        call_ensures(crate::exec::signal_exit_code, (sig,), sig_code),
    ensures
        call_ensures(Engine::step, (engine, EngineEvent::Exit(status), now), r) ==> {
            &&& final(engine)@.exit == Some(code)
            &&& final(engine)@.drain_at == Some(after(now, 2000) as nat)
            &&& final(engine)@.timed_out == old(engine)@.timed_out
            &&& !r.done && r.output is None && r.order is None
        },
        call_ensures(Engine::step, (engine, EngineEvent::ExitSignal(sig, text), now), r) ==> {
            &&& final(engine)@.exit == Some(sig_code)
            &&& final(engine)@.drain_at == Some(after(now, 2000) as nat)
            &&& final(engine)@.timed_out == old(engine)@.timed_out
            &&& !r.done && r.order is None
            &&& text@.len() == 0 ==> r.output is None
            &&& text@.len() > 0 ==> (r.output matches Some(OutputEvent::Stderr(d)) && d@
                == encode_utf8(text@))
        },
        call_ensures(Engine::step, (engine, EngineEvent::Eof, now), r) ==> {
            &&& r.done == (old(engine)@.exit is Some)
            &&& final(engine)@ == old(engine)@
        },
        call_ensures(Engine::step, (engine, EngineEvent::Closed, now), r) ==> {
            &&& r.done
            &&& final(engine)@.exit == if old(engine)@.exit is Some {
                old(engine)@.exit
            } else {
                Some(255i32)
            }
            &&& final(engine)@.timed_out == old(engine)@.timed_out
        },
        call_ensures(Engine::step, (engine, EngineEvent::Drained, now), r) ==> r.done
            && final(engine)@ == old(engine)@,
        call_ensures(Engine::step, (engine, EngineEvent::InputClosed, now), r) ==> !r.done
            && !final(engine)@.input_open && final(engine)@.exit == old(engine)@.exit
            && final(engine)@.timed_out == old(engine)@.timed_out,
        call_ensures(Engine::step, (engine, EngineEvent::Deadline, now), r) ==> {
            &&& final(engine)@.timed_out
            &&& final(engine)@.drain_at == Some(after(now, 2000) as nat)
            &&& !r.done && r.output is None
            &&& match old(engine)@.pgid {
                Some(g) => r.order matches Some(Order::KillGroup(p, s)) && p == g && s
                    == Signal::Kill,
                None => r.order matches Some(Order::Signal(s)) && s == Signal::Kill,
            }
        },
{
}

/// The engine of a new execution waits as long as the timeout says, for input and
/// for output, and knows nothing yet.
pub proof fn law_engine_starts(
    nonce: &str,
    timeout: Option<u64>,
    now: u64,
    e: Engine,
    d: Option<u64>,
    dr: Option<u64>,
    open: bool,
)
    requires
        call_ensures(Engine::new, (nonce, timeout, now), e),
        call_ensures(Engine::deadline, (&e,), d),
        call_ensures(Engine::drain_at, (&e,), dr),
        call_ensures(Engine::input_open, (&e,), open),
    ensures
        timeout is None ==> d is None,
        timeout matches Some(ms) ==> d == Some(after(now, ms)),
        dr is None,
        open,
        e@.exit is None,
        !e@.timed_out,
        e@.pgid is None,
{
}

/// The outcome of an execution: 124 after a timeout, else the code it ended with,
/// else 255; the directory that its message carried; and no byte of output is held
/// back.
pub proof fn law_engine_outcome(e: Engine, r: (Option<OutputEvent>, ExecOutcome))
    requires
        e@.filter.wf(),
        call_ensures(Engine::finish, (e,), r),
    ensures
        r.1.exit_code == if e@.timed_out {
            124i32
        } else {
            match e@.exit {
                Some(c) => c,
                None => 255,
            }
        },
        r.1.timed_out == e@.timed_out,
        opt_text(r.1.new_cwd) == e@.filter.cwd,
        e@.filter.pending.len() == 0 ==> r.0 is None,
        e@.filter.pending.len() > 0 ==> (r.0 matches Some(OutputEvent::Stdout(d)) && d@
            == e@.filter.pending),
{
}

/// The process group is learnt from the first message in the output that names it, and
/// stays what it was then, whatever comes later.
pub proof fn law_groups_are_learnt_once(
    engine: &mut Engine,
    ev: EngineEvent,
    now: u64,
    r: Effect,
    d: Vec<u8>,
    data: Seq<u8>,
    group: u32,
)
    requires
        old(engine)@.filter.wf(),
        call_ensures(Engine::step, (engine, ev, now), r),
    ensures
        old(engine)@.pgid is Some ==> final(engine)@.pgid == old(engine)@.pgid,
        !(ev is Stdout) ==> final(engine)@.pgid == old(engine)@.pgid,
        ev == EngineEvent::Stdout(d) && old(engine)@.pgid is None && !old(engine)@.filter.finished
            && old(engine)@.filter.pending.len() == 0 && crate::marker::plain_head(
            old(engine)@.filter.cwd_head,
        ) && crate::marker::plain_head(old(engine)@.filter.pgid_head) && (forall|i: int|
            0 <= i < data.len() ==> #[trigger] data[i] != 0x1c) && d@ == data
            + old(engine)@.filter.pgid_head + encode_utf8(crate::text::dec_nat(group as nat))
            + seq![0x1cu8] ==> final(engine)@.pgid == Some(group) && (data.len() > 0 ==> (
        r.output matches Some(OutputEvent::Stdout(x)) && x@ == data)) && (data.len() == 0
            ==> r.output is None),
{
    let v = old(engine)@.filter;
    let none = Seq::<u8>::empty();
    if ev == EngineEvent::Stdout(d) && old(engine)@.pgid is None && !v.finished && v.pending.len()
        == 0 && crate::marker::plain_head(v.cwd_head) && crate::marker::plain_head(v.pgid_head) && (
    forall|i: int| 0 <= i < data.len() ==> #[trigger] data[i] != 0x1c) && d@ == data + v.pgid_head
        + encode_utf8(crate::text::dec_nat(group as nat)) + seq![0x1cu8] {
        crate::laws::wire::lemma_no_header(v, data);
        crate::marker::law_pgid_message_is_stripped(v, data, group, none);
        let w = crate::marker::FilterView { pgid: Some(group), ..v };
        crate::marker::law_data_without_control_bytes(w, none);
        assert(d@ + none =~= d@);
        assert(data + none =~= data);
    }
}

// -- the user's signals ---------------------------------------------------------------------

/// A signal of the user is sent to the daemon; only Ctrl+C pressed again within a
/// second ends the run here, with 130.
pub proof fn law_user_signals(run: &mut Run, s: Signal, now: u64, r: RunAction)
    requires
        call_ensures(Run::step, (run, RunEvent::Signal(s), now), r),
    ensures
        ({
            let again = s == Signal::Int && match old(run)@.last_int {
                Some(t) => now < t + 1000,
                None => false,
            };
            &&& !again ==> (r matches RunAction::Send(ExecMessage::Signal(x)) && x == s)
            &&& again ==> (r matches RunAction::Done(x) && x.code == 130 && x.error is None
                && x.cwd is None && !x.timed_out)
            &&& !again && s == Signal::Int ==> final(run)@.last_int == Some(now as nat)
            &&& s != Signal::Int ==> final(run)@ == old(run)@
        }),
{
}

/// A run starts with its streams open and no key pressed; it fails when the daemon
/// leaves before the report; other messages and the end of the signals do nothing.
pub proof fn law_runs(run: &mut Run, p: crate::proto::Pong, now: u64, r: RunAction, fresh: Run)
    ensures
        call_ensures(Run::new, (), fresh) ==> fresh@.stdin_open && fresh@.signals_open
            && fresh@.last_int is None,
        call_ensures(Run::step, (run, RunEvent::Closed, now), r) ==> (r matches RunAction::Fail(
            crate::Error::Daemon(w),
        ) && w@ == "daemon closed the connection before exit"@),
        call_ensures(Run::step, (run, RunEvent::Message(EventMessage::Pong(p)), now), r) ==> r
            is Nothing && final(run)@ == old(run)@,
        call_ensures(Run::step, (run, RunEvent::SignalsEnd, now), r) ==> r is Nothing
            && !final(run)@.signals_open && final(run)@.stdin_open == old(run)@.stdin_open,
{
}

/// Signals keep their names and numbers everywhere.
pub proof fn law_signal_names(
    s: Signal,
    wire: &'static str,
    number: i32,
    kill: &'static str,
    caught: i32,
    c: Signal,
    event: u32,
    e: Option<Signal>,
)
    ensures
        call_ensures(Signal::as_str, (s,), wire) ==> wire@ == match s {
            Signal::Int => "int"@,
            Signal::Term => "term"@,
            Signal::Kill => "kill"@,
            Signal::Hup => "hup"@,
        },
        call_ensures(Signal::as_raw, (s,), number) ==> number == match s {
            Signal::Int => 2i32,
            Signal::Term => 15,
            Signal::Kill => 9,
            Signal::Hup => 1,
        },
        call_ensures(crate::exec::signal_spec, (s,), kill) ==> kill@ == match s {
            Signal::Int => "INT"@,
            Signal::Term => "TERM"@,
            Signal::Kill => "KILL"@,
            Signal::Hup => "HUP"@,
        },
        call_ensures(crate::console::caught, (caught,), c) ==> c == if caught == 15 {
            Signal::Term
        } else {
            Signal::Int
        },
        call_ensures(crate::console::console_event, (event,), e) ==> (e == Some(Signal::Int) <==> event
            <= 1) && (e is None <==> event > 1),
{
}

} // verus!
