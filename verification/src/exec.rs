//! Remote command execution engine for hosts that run plain bash scripts.
//!
//! One command = two SSH channels on the persistent connection:
//! 1. upload channel: `cat > /tmp/.sp-<nonce>.sh`, script bytes on stdin;
//! 2. exec channel: `bash /tmp/.sp-<nonce>.sh`, whose stdin stays free for the user's stdin
//!    forwarding.
//!
//! Completion is driven by the SSH exit-status/exit-signal message; streams are
//! drained for a grace period afterwards so tail bytes are not lost, while a
//! hung orphan (e.g. `sleep 100 &`) cannot block completion forever. The engine
//! here decides what to do with each event; the channels and timers are driven
//! around it. Times are milliseconds of a clock that does not run backwards.

use vstd::prelude::*;
use vstd::utf8::*;

use crate::error::Error;
use crate::marker::MarkerFilter;
use crate::proto::{Signal, TIMEOUT_EXIT_CODE};
use crate::remote::{InputEvent, OutputEvent};
use crate::script::remote_script_path;
use crate::text::{copy_opt, push_int, push_nat, str_eq};

verus! {

/// How long to keep draining streams after the exit status arrived.
pub const DRAIN_GRACE_MS: u64 = 2_000;

/// Exit code used when the remote side closed without reporting a status.
pub const NO_STATUS_CODE: i32 = 255;

/// Outcome of a finished execution.
#[derive(Debug)]
pub struct ExecOutcome {
    pub exit_code: i32,
    /// New persisted cwd when the wrapper marker was parsed.
    pub new_cwd: Option<String>,
    pub timed_out: bool,
}

impl Clone for ExecOutcome {
    fn clone(&self) -> (r: ExecOutcome)
        ensures
            r.exit_code == self.exit_code,
            crate::text::opt_text(r.new_cwd) == crate::text::opt_text(self.new_cwd),
            r.timed_out == self.timed_out,
    {
        ExecOutcome {
            exit_code: self.exit_code,
            new_cwd: copy_opt(&self.new_cwd),
            timed_out: self.timed_out,
        }
    }
}

// -- exit codes and signals ------------------------------------------------------------

/// Signal that ended a remote command, as the SSH server names it.
#[derive(Debug, Clone, Copy, PartialEq, Eq, Structural)]
pub enum ExitSig {
    Hup,
    Int,
    Quit,
    Ill,
    Abrt,
    Fpe,
    Kill,
    Usr1,
    Segv,
    Usr2,
    Pipe,
    Alrm,
    Term,
    /// A signal that SSH has no name for.
    Other,
}

impl ExitSig {
    /// Number of the signal on Linux; 0 for one without a name.
    pub open spec fn number(self) -> int {
        match self {
            ExitSig::Hup => 1,
            ExitSig::Int => 2,
            ExitSig::Quit => 3,
            ExitSig::Ill => 4,
            ExitSig::Abrt => 6,
            ExitSig::Fpe => 8,
            ExitSig::Kill => 9,
            ExitSig::Usr1 => 10,
            ExitSig::Segv => 11,
            ExitSig::Usr2 => 12,
            ExitSig::Pipe => 13,
            ExitSig::Alrm => 14,
            ExitSig::Term => 15,
            ExitSig::Other => 0,
        }
    }

    /// The signal of a name that the SSH library has no signal for.
    pub fn custom(name: &str) -> (r: ExitSig)
        ensures
            r == if name@ == "USR2"@ {
                ExitSig::Usr2
            } else {
                ExitSig::Other
            },
    {
        if str_eq(name, "USR2") {
            ExitSig::Usr2
        } else {
            ExitSig::Other
        }
    }
}

/// Map an SSH exit-signal to a shell-style 128+signum exit code.
pub fn signal_exit_code(sig: ExitSig) -> (r: i32)
    ensures
        r == 128 + sig.number(),
{
    let num: i32 = match sig {
        ExitSig::Hup => 1,
        ExitSig::Int => 2,
        ExitSig::Quit => 3,
        ExitSig::Ill => 4,
        ExitSig::Abrt => 6,
        ExitSig::Fpe => 8,
        ExitSig::Kill => 9,
        ExitSig::Usr1 => 10,
        ExitSig::Segv => 11,
        ExitSig::Usr2 => 12,
        ExitSig::Pipe => 13,
        ExitSig::Alrm => 14,
        ExitSig::Term => 15,
        ExitSig::Other => 0,
    };
    128 + num
}

/// The exit code for an SSH exit status.
pub open spec fn exit_code_of(exit_status: u32) -> i32 {
    if exit_status <= i32::MAX {
        exit_status as i32
    } else {
        NO_STATUS_CODE
    }
}

/// SSH exit statuses are shell exit codes (0..=255); anything else is garbage.
pub fn to_exit_code(exit_status: u32) -> (r: i32)
    ensures
        r == exit_code_of(exit_status),
{
    if exit_status <= i32::MAX as u32 {
        exit_status as i32
    } else {
        NO_STATUS_CODE
    }
}

/// The `kill(1)` name of a signal.
pub open spec fn kill_name(s: Signal) -> Seq<char> {
    match s {
        Signal::Int => "INT"@,
        Signal::Term => "TERM"@,
        Signal::Kill => "KILL"@,
        Signal::Hup => "HUP"@,
    }
}

/// The `kill(1)` name of a signal.
pub fn signal_spec(s: Signal) -> (r: &'static str)
    ensures
        r@ == kill_name(s),
{
    match s {
        Signal::Int => "INT",
        Signal::Term => "TERM",
        Signal::Kill => "KILL",
        Signal::Hup => "HUP",
    }
}

/// Command that signals a remote process group and reports its members.
pub open spec fn kill_command(pgid: nat, name: Seq<char>) -> Seq<char> {
    "bash -c 'kill -"@ + name + " -"@ + crate::text::dec_nat(pgid)
        + "; echo kill_rc=$?; ps -o pid,ppid,pgid,sid,comm -g "@ + crate::text::dec_nat(pgid)
        + " 2>&1'"@
}

/// Command that signals a remote process group. It goes through bash explicitly:
/// the login shell may be anything (e.g. fish, which rejects `;`-chained POSIX
/// syntax).
pub fn kill_group(pgid: u32, name: &str) -> (r: String)
    ensures
        r@ == kill_command(pgid as nat, name@),
{
    let mut s = "bash -c 'kill -".to_owned();
    s.append(name);
    s.append(" -");
    push_nat(&mut s, pgid as u64);
    s.append("; echo kill_rc=$?; ps -o pid,ppid,pgid,sid,comm -g ");
    push_nat(&mut s, pgid as u64);
    s.append(" 2>&1'");
    s
}

// -- the script upload --------------------------------------------------------------------

/// Command that receives the script on its stdin.
pub fn upload_command(nonce_hex: &str) -> (r: String)
    ensures
        r@ == "cat > "@ + crate::script::script_path(nonce_hex@),
{
    let mut s = "cat > ".to_owned();
    s.append(remote_script_path(nonce_hex).as_str());
    s
}

/// Command that runs the uploaded script.
pub fn run_command(nonce_hex: &str) -> (r: String)
    ensures
        r@ == "bash "@ + crate::script::script_path(nonce_hex@),
{
    let mut s = "bash ".to_owned();
    s.append(remote_script_path(nonce_hex).as_str());
    s
}

/// An optional status as shown in an error.
pub open spec fn shown_status(status: Option<i32>) -> Seq<char> {
    match status {
        Some(c) => "Some("@ + crate::text::dec_int(c as int) + ")"@,
        None => "None"@,
    }
}

/// An optional status as shown in an error.
pub fn show_status(status: Option<i32>) -> (r: String)
    ensures
        r@ == shown_status(status),
{
    match status {
        Some(c) => {
            let mut s = "Some(".to_owned();
            push_int(&mut s, c as i64);
            s.append(")");
            s
        },
        None => "None".to_owned(),
    }
}

/// Judge the upload by the exit status of its command.
pub fn upload_script_result(exit_status: Option<u32>) -> (r: Result<(), Error>)
    ensures
        match r {
            Ok(()) => exit_status == Some(0u32),
            Err(e) => {
                &&& exit_status != Some(0u32)
                &&& e@ == crate::error::ErrorView::Remote(
                    "script upload failed (status="@ + shown_status(
                        (match exit_status {
                            Some(s) => Some(exit_code_of(s)),
                            None => None,
                        }),
                    ) + "); is /tmp writable on the remote host?"@,
                )
            },
        },
{
    let status = match exit_status {
        Some(s) => Some(to_exit_code(s)),
        None => None,
    };
    if let Some(c) = status {
        if c == 0 {
            return Ok(());
        }
    }
    let mut s = "script upload failed (status=".to_owned();
    s.append(show_status(status).as_str());
    s.append("); is /tmp writable on the remote host?");
    Err(Error::Remote(s))
}

// -- the engine ----------------------------------------------------------------------------

/// What the engine waits for.
#[derive(Debug)]
pub enum EngineEvent {
    /// stdout data of the exec channel.
    Stdout(Vec<u8>),
    /// stderr data of the exec channel.
    Stderr(Vec<u8>),
    /// Exit status of the exec channel.
    Exit(u32),
    /// The remote command died of a signal.
    ExitSignal(ExitSig, String),
    /// No more data will come.
    Eof,
    /// The channel or the connection is closed.
    Closed,
    /// Something for the remote command.
    Input(InputEvent),
    /// Nothing more for the remote command.
    InputClosed,
    /// The drain grace is over.
    Drained,
    /// The timeout of the command passed.
    Deadline,
}

/// What the engine wants done on the exec channel.
#[derive(Debug)]
pub enum Order {
    /// Send data to the remote stdin.
    Data(Vec<u8>),
    /// Close the remote stdin.
    Eof,
    /// Run [`kill_group`] on a channel of its own.
    KillGroup(u32, Signal),
    /// Send a signal request.
    Signal(Signal),
}

/// What the engine wants done on the exec channel.
pub enum OrderView {
    Data(Seq<u8>),
    Eof,
    KillGroup(u32, Signal),
    Signal(Signal),
}

impl View for Order {
    type V = OrderView;

    open spec fn view(&self) -> OrderView {
        match self {
            Order::Data(d) => OrderView::Data(d@),
            Order::Eof => OrderView::Eof,
            Order::KillGroup(p, s) => OrderView::KillGroup(*p, *s),
            Order::Signal(s) => OrderView::Signal(*s),
        }
    }
}

/// State of the engine.
pub struct EngineView {
    pub filter: crate::marker::FilterView,
    pub exit: Option<i32>,
    pub timed_out: bool,
    pub input_open: bool,
    pub drain_at: Option<nat>,
    pub pgid: Option<u32>,
    pub deadline: Option<nat>,
}

/// What follows from one event.
pub struct EffectView {
    pub output: Option<crate::remote::OutputView>,
    pub order: Option<OrderView>,
    /// The execution is over.
    pub done: bool,
}

/// Nothing follows.
pub open spec fn quiet() -> EffectView {
    EffectView { output: None, order: None, done: false }
}

/// The engine before the first event.
pub open spec fn engine_started(nonce: Seq<char>, timeout_ms: Option<u64>, now: u64) -> EngineView {
    EngineView {
        filter: crate::marker::FilterView {
            cwd_head: crate::marker::head_bytes(crate::script::MARKER_PREFIX@, nonce),
            pgid_head: crate::marker::head_bytes(crate::script::PGID_PREFIX@, nonce),
            pending: Seq::empty(),
            cwd: None,
            pgid: None,
            finished: false,
        },
        exit: None,
        timed_out: false,
        input_open: true,
        drain_at: None,
        pgid: None,
        deadline: (match timeout_ms {
            Some(ms) => Some(crate::serve::later(now, ms)),
            None => None,
        }),
    }
}

/// How a signal is delivered. SSH signal requests only reach the session leader,
/// whose handling interactive bash defers, so the whole process group is killed
/// when it is known.
pub open spec fn delivery(pgid: Option<u32>, s: Signal) -> OrderView {
    match pgid {
        Some(p) => OrderView::KillGroup(p, s),
        None => OrderView::Signal(s),
    }
}

/// One event: the state after it, and what follows.
pub open spec fn engine_stepped(v: EngineView, ev: EngineEvent, now: u64) -> (
    EngineView,
    EffectView,
) {
    match ev {
        EngineEvent::Stdout(d) => {
            let (filter, out) = crate::marker::fed(v.filter, d@);
            (
                EngineView {
                    filter,
                    pgid: if v.pgid is Some {
                        v.pgid
                    } else {
                        filter.pgid
                    },
                    ..v
                },
                EffectView {
                    output: if out.len() > 0 {
                        Some(crate::remote::OutputView::Stdout(out))
                    } else {
                        None
                    },
                    ..quiet()
                },
            )
        },
        EngineEvent::Stderr(d) => (
            v,
            EffectView { output: Some(crate::remote::OutputView::Stderr(d@)), ..quiet() },
        ),
        EngineEvent::Exit(status) => (
            EngineView {
                exit: Some(exit_code_of(status)),
                drain_at: Some(crate::serve::later(now, DRAIN_GRACE_MS)),
                ..v
            },
            quiet(),
        ),
        EngineEvent::ExitSignal(sig, message) => (
            EngineView {
                exit: Some((128 + sig.number()) as i32),
                drain_at: Some(crate::serve::later(now, DRAIN_GRACE_MS)),
                ..v
            },
            EffectView {
                output: if message@.len() > 0 {
                    Some(crate::remote::OutputView::Stderr(encode_utf8(message@)))
                } else {
                    None
                },
                ..quiet()
            },
        ),
        EngineEvent::Eof => (v, EffectView { done: v.exit is Some, ..quiet() }),
        EngineEvent::Closed => (
            EngineView {
                exit: if v.exit is Some {
                    v.exit
                } else {
                    Some(NO_STATUS_CODE)
                },
                ..v
            },
            EffectView { done: true, ..quiet() },
        ),
        EngineEvent::Input(InputEvent::Stdin(d)) => (
            v,
            EffectView { order: Some(OrderView::Data(d@)), ..quiet() },
        ),
        // stdin is done, but signals may still arrive: only a closed input
        // stops listening.
        EngineEvent::Input(InputEvent::StdinEof) => (
            v,
            EffectView { order: Some(OrderView::Eof), ..quiet() },
        ),
        EngineEvent::Input(InputEvent::Signal(s)) => (
            v,
            EffectView { order: Some(delivery(v.pgid, s)), ..quiet() },
        ),
        EngineEvent::InputClosed => (EngineView { input_open: false, ..v }, quiet()),
        EngineEvent::Drained => (v, EffectView { done: true, ..quiet() }),
        EngineEvent::Deadline => (
            EngineView {
                timed_out: true,
                drain_at: Some(crate::serve::later(now, DRAIN_GRACE_MS)),
                ..v
            },
            EffectView { order: Some(delivery(v.pgid, Signal::Kill)), ..quiet() },
        ),
    }
}

/// The exit code of an execution that is over: a timeout has its own, however
/// the remote side died.
pub open spec fn final_code(v: EngineView) -> i32 {
    if v.timed_out {
        TIMEOUT_EXIT_CODE
    } else {
        match v.exit {
            Some(c) => c,
            None => NO_STATUS_CODE,
        }
    }
}

/// What follows from one event.
#[derive(Debug)]
pub struct Effect {
    /// Output for the client.
    pub output: Option<OutputEvent>,
    pub order: Option<Order>,
    /// The execution is over.
    pub done: bool,
}

impl View for Effect {
    type V = EffectView;

    open spec fn view(&self) -> EffectView {
        EffectView {
            output: (match self.output {
                Some(o) => Some(o@),
                None => None,
            }),
            order: (match self.order {
                Some(o) => Some(o@),
                None => None,
            }),
            done: self.done,
        }
    }
}

/// The engine of one execution.
#[derive(Debug)]
pub struct Engine {
    filter: MarkerFilter,
    exit: Option<i32>,
    timed_out: bool,
    input_open: bool,
    drain_at: Option<u64>,
    pgid: Option<u32>,
    deadline: Option<u64>,
}

impl View for Engine {
    type V = EngineView;

    closed spec fn view(&self) -> EngineView {
        EngineView {
            filter: self.filter@,
            exit: self.exit,
            timed_out: self.timed_out,
            input_open: self.input_open,
            drain_at: crate::text::opt_nat(self.drain_at),
            pgid: self.pgid,
            deadline: crate::text::opt_nat(self.deadline),
        }
    }
}

fn deliver(pgid: Option<u32>, s: Signal) -> (r: Order)
    ensures
        r@ == delivery(pgid, s),
{
    match pgid {
        Some(p) => Order::KillGroup(p, s),
        None => Order::Signal(s),
    }
}

fn with_order(order: Order) -> (r: Effect)
    ensures
        r@ == (EffectView { order: Some(order@), ..quiet() }),
{
    Effect { output: None, order: Some(order), done: false }
}

fn with_output(output: Option<OutputEvent>) -> (r: Effect)
    ensures
        r@ == (EffectView {
            output: (match output {
                Some(o) => Some(o@),
                None => None,
            }),
            ..quiet()
        }),
{
    Effect { output, order: None, done: false }
}

fn with_done(done: bool) -> (r: Effect)
    ensures
        r@ == (EffectView { done, ..quiet() }),
{
    Effect { output: None, order: None, done }
}

impl Engine {
    /// The engine for a script with the given nonce, started at `now`.
    pub fn new(nonce_hex: &str, timeout_ms: Option<u64>, now: u64) -> (r: Engine)
        ensures
            r@ == engine_started(nonce_hex@, timeout_ms, now),
            r@.filter.wf(),
    {
        let deadline = match timeout_ms {
            Some(ms) => Some(crate::serve::later_ms(now, ms)),
            None => None,
        };
        Engine {
            filter: MarkerFilter::new(nonce_hex),
            exit: None,
            timed_out: false,
            input_open: true,
            drain_at: None,
            pgid: None,
            deadline,
        }
    }

    /// Whether input still has to be waited for.
    pub fn input_open(&self) -> (r: bool)
        ensures
            r == self@.input_open,
    {
        self.input_open
    }

    /// When [`EngineEvent::Drained`] is due.
    pub fn drain_at(&self) -> (r: Option<u64>)
        ensures
            crate::text::opt_nat(r) == self@.drain_at,
    {
        self.drain_at
    }

    /// When [`EngineEvent::Deadline`] is due; it comes once.
    pub fn deadline(&self) -> (r: Option<u64>)
        ensures
            crate::text::opt_nat(r) == (if self@.timed_out {
                None
            } else {
                self@.deadline
            }),
    {
        if self.timed_out {
            None
        } else {
            self.deadline
        }
    }

    /// Take one event.
    pub fn step(&mut self, ev: EngineEvent, now: u64) -> (r: Effect)
        requires
            old(self)@.filter.wf(),
        ensures
            final(self)@.filter.wf(),
            (final(self)@, r@) == engine_stepped(old(self)@, ev, now),
    {
        match ev {
            EngineEvent::Stdout(d) => {
                let out = self.filter.push(&d);
                if self.pgid.is_none() {
                    self.pgid = self.filter.pgid();
                }
                if out.len() > 0 {
                    with_output(Some(OutputEvent::Stdout(out)))
                } else {
                    with_output(None)
                }
            },
            EngineEvent::Stderr(d) => with_output(Some(OutputEvent::Stderr(d))),
            EngineEvent::Exit(status) => {
                self.exit = Some(to_exit_code(status));
                self.drain_at = Some(crate::serve::later_ms(now, DRAIN_GRACE_MS));
                with_done(false)
            },
            EngineEvent::ExitSignal(sig, message) => {
                self.exit = Some(signal_exit_code(sig));
                self.drain_at = Some(crate::serve::later_ms(now, DRAIN_GRACE_MS));
                if message.as_str().is_empty() {
                    with_output(None)
                } else {
                    with_output(Some(OutputEvent::Stderr(message.as_str().as_bytes_vec())))
                }
            },
            // No more data will come; stop early once the status arrived.
            EngineEvent::Eof => with_done(self.exit.is_some()),
            // Connection closed without (or after) a status: nothing left to read.
            EngineEvent::Closed => {
                if self.exit.is_none() {
                    self.exit = Some(NO_STATUS_CODE);
                }
                with_done(true)
            },
            EngineEvent::Input(InputEvent::Stdin(d)) => with_order(Order::Data(d)),
            EngineEvent::Input(InputEvent::StdinEof) => with_order(Order::Eof),
            EngineEvent::Input(InputEvent::Signal(s)) => with_order(deliver(self.pgid, s)),
            EngineEvent::InputClosed => {
                self.input_open = false;
                with_done(false)
            },
            EngineEvent::Drained => with_done(true),
            EngineEvent::Deadline => {
                self.timed_out = true;
                self.drain_at = Some(crate::serve::later_ms(now, DRAIN_GRACE_MS));
                with_order(deliver(self.pgid, Signal::Kill))
            },
        }
    }

    /// The outcome of an execution that is over, and the output still held back.
    pub fn finish(self) -> (r: (Option<OutputEvent>, ExecOutcome))
        requires
            self@.filter.wf(),
        ensures
            match r.0 {
                Some(o) => self@.filter.pending.len() > 0 && o@
                    == crate::remote::OutputView::Stdout(self@.filter.pending),
                None => self@.filter.pending.len() == 0,
            },
            r.1.exit_code == final_code(self@),
            crate::text::opt_text(r.1.new_cwd) == self@.filter.cwd,
            r.1.timed_out == self@.timed_out,
    {
        let exit_code = if self.timed_out {
            TIMEOUT_EXIT_CODE
        } else {
            match self.exit {
                Some(c) => c,
                None => NO_STATUS_CODE,
            }
        };
        let timed_out = self.timed_out;
        let (leftover, new_cwd) = self.filter.finish();
        let output = if leftover.len() > 0 {
            Some(OutputEvent::Stdout(leftover))
        } else {
            None
        };
        (output, ExecOutcome { exit_code, new_cwd, timed_out })
    }
}

/// Completion cannot be blocked: once the status arrived or the timeout passed,
/// the end of the drain grace is set, and no event unsets it.
pub proof fn law_drain_is_bounded(v: EngineView, ev: EngineEvent, now: u64)
    ensures
        ev is Exit || ev is ExitSignal || ev is Deadline ==> engine_stepped(v, ev, now).0.drain_at
            == Some(crate::serve::later(now, DRAIN_GRACE_MS)),
        v.drain_at is Some ==> engine_stepped(v, ev, now).0.drain_at is Some,
        engine_stepped(v, EngineEvent::Drained, now).1.done,
{
}

/// A timeout decides the exit code, whatever status was or will be reported.
pub proof fn law_timeout_decides_the_code(v: EngineView, ev: EngineEvent, now: u64)
    ensures
        final_code(engine_stepped(v, EngineEvent::Deadline, now).0) == TIMEOUT_EXIT_CODE,
        v.timed_out ==> final_code(engine_stepped(v, ev, now).0) == TIMEOUT_EXIT_CODE,
{
}

/// Every signal, the one of the timeout included, goes to the whole process
/// group once that is known, and what is known stays.
pub proof fn law_signals_reach_the_group(v: EngineView, p: u32, s: Signal, ev: EngineEvent, now: u64)
    requires
        v.pgid == Some(p),
    ensures
        engine_stepped(v, EngineEvent::Input(InputEvent::Signal(s)), now).1.order == Some(
            OrderView::KillGroup(p, s),
        ),
        engine_stepped(v, EngineEvent::Deadline, now).1.order == Some(
            OrderView::KillGroup(p, Signal::Kill),
        ),
        engine_stepped(v, ev, now).0.pgid == Some(p),
{
}

} // verus!
