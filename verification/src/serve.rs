//! Decisions of sp-serve: one `Exec` request in, run it, frames out.
//!
//! serve is stateless and handles exactly one execution, then exits 0. Its own
//! stderr (diagnostics) travels as SSH extended data and lands in the daemon
//! log; only frames go to stdout. The functions here decide what to do with each
//! event; reading, writing, waiting and killing is done around them. Times are
//! milliseconds of a clock that does not run backwards.

use vstd::prelude::*;
use vstd::utf8::*;

use crate::proto::{
    truncate_utf8, ExecMessage, ExecRequest, ExitReport, Pong, Signal, TIMEOUT_EXIT_CODE,
};
use crate::text::{bytes_between, find_byte_from, push_nat, utf8_string};

verus! {

/// Give the daemon this long to send the Exec frame before giving up.
pub const EXEC_WAIT_MS: u64 = 30_000;

/// How long to keep draining child pipes after the exit status, so tail bytes
/// are not lost. A job surviving the command (`nohup ... &`) inherits the
/// pipes and never EOFs; past the grace the pumps are aborted and any further
/// output is dropped.
pub const DRAIN_GRACE_MS: u64 = 2_000;

/// Grace between the timeout TERM and the escalating KILL, so remote cleanup
/// handlers (traps, make/gradle shutdown hooks) get a chance to run.
pub const TERM_GRACE_MS: u64 = 5_000;

/// Cap for the cwd report; anything beyond a path is garbage.
pub const CWD_CAP: usize = 8 * 1024;

/// Cap for the shell state dump; a user command can build huge variables, and
/// an unbounded dump would balloon the Exit frame and daemon memory. Overflow
/// keeps the previous state and the pipe is drained, not cut, so the child's
/// exit code is untouched.
pub const STATE_CAP: usize = 256 * 1024;

// -- the first frame -----------------------------------------------------------------

/// What came in place of the first frame.
#[derive(Debug)]
pub enum FirstEvent {
    Message(ExecMessage),
    /// stdin closed.
    Closed,
    /// The frame could not be read.
    Bad(String),
    /// Nothing within [`EXEC_WAIT_MS`].
    TimedOut,
}

/// Why there is no request to run; `shown` describes a message of another kind.
pub open spec fn first_failure(ev: FirstEvent, shown: Seq<char>) -> Seq<char> {
    match ev {
        FirstEvent::Message(_) => "first frame must be Exec, got "@ + shown,
        FirstEvent::Closed => "stdin closed before Exec frame"@,
        FirstEvent::Bad(e) => "bad Exec frame: "@ + e@,
        FirstEvent::TimedOut => "timed out waiting for Exec frame"@,
    }
}

/// The request to run: the first frame must be an `Exec`. `shown` describes the
/// message for the error text.
pub fn first_request(ev: FirstEvent, shown: &str) -> (r: Result<ExecRequest, String>)
    ensures
        match r {
            Ok(req) => ev matches FirstEvent::Message(m) && m@
                == crate::proto::ExecMessageView::Exec(req@),
            Err(e) => !(ev matches FirstEvent::Message(m) && m@ is Exec) && e@ == first_failure(
                ev,
                shown@,
            ),
        },
{
    match ev {
        FirstEvent::Message(ExecMessage::Exec(req)) => Ok(req),
        FirstEvent::Message(_) => {
            let mut s = "first frame must be Exec, got ".to_owned();
            s.append(shown);
            Err(s)
        },
        FirstEvent::Closed => Err("stdin closed before Exec frame".to_owned()),
        FirstEvent::Bad(e) => {
            let mut s = "bad Exec frame: ".to_owned();
            s.append(e.as_str());
            Err(s)
        },
        FirstEvent::TimedOut => Err("timed out waiting for Exec frame".to_owned()),
    }
}

/// The report of a bash that could not be started. Spawn failures (missing bash,
/// fd exhaustion) are reported as a regular Exit frame so the client sees a clean
/// error instead of a dropped channel.
pub fn spawn_failure(reason: &str) -> (r: ExitReport)
    ensures
        r@ == crate::proto::failure_report("spawn bash: "@ + reason@),
{
    let mut s = "spawn bash: ".to_owned();
    s.append(reason);
    ExitReport::failure(s)
}

// -- routing of incoming frames -------------------------------------------------------

/// Where an incoming message goes while the command runs.
#[derive(Debug)]
pub enum Route {
    /// To the child's stdin.
    Stdin(Vec<u8>),
    /// Close the child's stdin.
    StdinEof,
    /// To the main loop.
    Signal(Signal),
    /// Answer at once.
    Reply(Pong),
    /// One exec per process; a second request is a protocol violation and is
    /// dropped.
    Drop,
}

/// Where an incoming message goes while the command runs; `pid` is serve's own.
pub fn route(m: ExecMessage, pid: u32) -> (r: Route)
    ensures
        match m {
            ExecMessage::StdinData(d) => r matches Route::Stdin(x) && x@ == d@,
            ExecMessage::StdinEof => r is StdinEof,
            ExecMessage::Signal(s) => r == Route::Signal(s),
            ExecMessage::Ping => r == Route::Reply(Pong { pid }),
            ExecMessage::Exec(_) => r is Drop,
        },
{
    match m {
        ExecMessage::StdinData(d) => Route::Stdin(d),
        ExecMessage::StdinEof => Route::StdinEof,
        ExecMessage::Signal(s) => Route::Signal(s),
        ExecMessage::Ping => Route::Reply(Pong { pid }),
        ExecMessage::Exec(_) => Route::Drop,
    }
}

// -- the main loop ---------------------------------------------------------------------

/// What the main loop waits for.
#[derive(Debug)]
pub enum ServeEvent {
    /// A signal to forward.
    Signal(Signal),
    /// Transport EOF while the command is running.
    Closed,
    /// Malformed frame on the transport.
    Bad(String),
    /// The transport reader is done.
    ReaderDone,
    /// The child exited with this code.
    Exited(i32),
    /// Waiting for the child failed.
    WaitFailed(String),
    /// The armed deadline passed.
    Deadline,
    /// The frame writer stopped; `true` when output can no longer be delivered.
    WriterDone(bool),
}

/// What happens after an event.
#[derive(Debug)]
pub enum Next {
    /// Keep waiting.
    Wait,
    /// The command is over, with this code.
    Finish(i32),
    /// Give up.
    Fail(String),
}

/// What happens after an event.
pub enum NextView {
    Wait,
    Finish(i32),
    Fail(Seq<char>),
}

impl View for Next {
    type V = NextView;

    open spec fn view(&self) -> NextView {
        match self {
            Next::Wait => NextView::Wait,
            Next::Finish(c) => NextView::Finish(*c),
            Next::Fail(e) => NextView::Fail(e@),
        }
    }
}

/// State of the main loop.
pub struct ServeView {
    /// When the command is told to terminate.
    pub term_at: Option<nat>,
    /// When the command is killed, after it was told to terminate.
    pub kill_at: Option<nat>,
    /// The command ran into its timeout.
    pub timed_out: bool,
    /// The transport reader is still there.
    pub reader_open: bool,
}

impl ServeView {
    /// Invariant: the kill is armed only after the termination.
    pub open spec fn wf(self) -> bool {
        &&& self.kill_at is Some ==> self.timed_out && self.term_at is None
        &&& self.timed_out ==> self.term_at is None
    }

    /// The deadline the loop waits for.
    pub open spec fn deadline(self) -> Option<nat> {
        if self.kill_at is Some {
            self.kill_at
        } else {
            self.term_at
        }
    }
}

/// A point in time some milliseconds later, as far as the clock goes.
pub open spec fn later(now: u64, ms: u64) -> nat {
    if now + ms <= u64::MAX {
        (now + ms) as nat
    } else {
        u64::MAX as nat
    }
}

/// The loop before the first event: a timeout of zero is none.
pub open spec fn started(timeout_ms: Option<u64>, now: u64) -> ServeView {
    ServeView {
        term_at: (match timeout_ms {
            Some(ms) => if ms > 0 {
                Some(later(now, ms))
            } else {
                None
            },
            None => None,
        }),
        kill_at: None,
        timed_out: false,
        reader_open: true,
    }
}

/// One event: the state after it, the signal for the whole process group, and
/// what happens next.
pub open spec fn stepped(v: ServeView, ev: ServeEvent, now: u64) -> (
    ServeView,
    Option<Signal>,
    NextView,
) {
    match ev {
        ServeEvent::Signal(s) => (v, Some(s), NextView::Wait),
        ServeEvent::Closed => (
            v,
            Some(Signal::Kill),
            NextView::Fail("transport closed while the command was running"@),
        ),
        ServeEvent::Bad(e) => (v, Some(Signal::Kill), NextView::Fail("bad frame: "@ + e@)),
        ServeEvent::ReaderDone => (
            ServeView { reader_open: false, ..v },
            None,
            NextView::Wait,
        ),
        ServeEvent::Exited(code) => (v, None, NextView::Finish(code)),
        ServeEvent::WaitFailed(e) => (v, None, NextView::Fail("wait on child: "@ + e@)),
        ServeEvent::Deadline => if v.deadline() is None {
            (v, None, NextView::Wait)
        } else if v.kill_at is None {
            (
                ServeView {
                    timed_out: true,
                    term_at: None,
                    kill_at: Some(later(now, TERM_GRACE_MS)),
                    ..v
                },
                Some(Signal::Term),
                NextView::Wait,
            )
        } else {
            (
                ServeView { timed_out: true, kill_at: None, ..v },
                Some(Signal::Kill),
                NextView::Wait,
            )
        },
        ServeEvent::WriterDone(lost) => if lost {
            (
                v,
                Some(Signal::Kill),
                NextView::Fail("daemon vanished while the command was running"@),
            )
        } else {
            (v, None, NextView::Wait)
        },
    }
}

/// What to do after one event.
#[derive(Debug)]
pub struct ServeStep {
    /// Signal for the whole process group of the child, sent first.
    pub kill: Option<Signal>,
    pub next: Next,
}

/// The main loop's state: when the command is terminated and killed.
#[derive(Debug)]
pub struct ServeLoop {
    term_at: Option<u64>,
    kill_at: Option<u64>,
    timed_out: bool,
    reader_open: bool,
}

impl View for ServeLoop {
    type V = ServeView;

    closed spec fn view(&self) -> ServeView {
        ServeView {
            term_at: crate::text::opt_nat(self.term_at),
            kill_at: crate::text::opt_nat(self.kill_at),
            timed_out: self.timed_out,
            reader_open: self.reader_open,
        }
    }
}

pub(crate) fn later_ms(now: u64, ms: u64) -> (r: u64)
    ensures
        r == later(now, ms),
{
    if now > u64::MAX - ms {
        u64::MAX
    } else {
        now + ms
    }
}

impl ServeLoop {
    /// The loop for a command started at `now`.
    pub fn new(timeout_ms: Option<u64>, now: u64) -> (r: ServeLoop)
        ensures
            r@ == started(timeout_ms, now),
            r@.wf(),
    {
        let term_at = match timeout_ms {
            Some(ms) => if ms > 0 {
                Some(later_ms(now, ms))
            } else {
                None
            },
            None => None,
        };
        ServeLoop { term_at, kill_at: None, timed_out: false, reader_open: true }
    }

    /// When [`ServeEvent::Deadline`] is due.
    pub fn deadline(&self) -> (r: Option<u64>)
        ensures
            crate::text::opt_nat(r) == self@.deadline(),
    {
        match self.kill_at {
            Some(n) => Some(n),
            None => self.term_at,
        }
    }

    /// Whether the transport reader still has to be waited for.
    pub fn reader_open(&self) -> (r: bool)
        ensures
            r == self@.reader_open,
    {
        self.reader_open
    }

    /// Whether the command ran into its timeout.
    pub fn timed_out(&self) -> (r: bool)
        ensures
            r == self@.timed_out,
    {
        self.timed_out
    }

    /// Take one event.
    pub fn step(&mut self, ev: ServeEvent, now: u64) -> (r: ServeStep)
        requires
            old(self)@.wf(),
        ensures
            final(self)@.wf(),
            (final(self)@, r.kill, r.next@) == stepped(old(self)@, ev, now),
    {
        match ev {
            ServeEvent::Signal(s) => ServeStep { kill: Some(s), next: Next::Wait },
            // Transport gone: the daemon will not send anything anymore. Kill
            // the group like the writer-failure path does - the child runs in
            // its own session and would otherwise survive as an orphan.
            ServeEvent::Closed => ServeStep {
                kill: Some(Signal::Kill),
                next: Next::Fail("transport closed while the command was running".to_owned()),
            },
            ServeEvent::Bad(e) => {
                let mut s = "bad frame: ".to_owned();
                s.append(e.as_str());
                ServeStep { kill: Some(Signal::Kill), next: Next::Fail(s) }
            },
            // The child exit decides the rest.
            ServeEvent::ReaderDone => {
                self.reader_open = false;
                ServeStep { kill: None, next: Next::Wait }
            },
            ServeEvent::Exited(code) => ServeStep { kill: None, next: Next::Finish(code) },
            ServeEvent::WaitFailed(e) => {
                let mut s = "wait on child: ".to_owned();
                s.append(e.as_str());
                ServeStep { kill: None, next: Next::Fail(s) }
            },
            ServeEvent::Deadline => {
                if self.kill_at.is_none() && self.term_at.is_none() {
                    ServeStep { kill: None, next: Next::Wait }
                } else if self.kill_at.is_none() {
                    // TERM first so traps and cleanup handlers run; escalate to
                    // KILL after the grace period (like `timeout -k`).
                    self.timed_out = true;
                    self.term_at = None;
                    self.kill_at = Some(later_ms(now, TERM_GRACE_MS));
                    ServeStep { kill: Some(Signal::Term), next: Next::Wait }
                } else {
                    self.timed_out = true;
                    self.kill_at = None;
                    ServeStep { kill: Some(Signal::Kill), next: Next::Wait }
                }
            },
            ServeEvent::WriterDone(lost) => {
                if lost {
                    ServeStep {
                        kill: Some(Signal::Kill),
                        next: Next::Fail(
                            "daemon vanished while the command was running".to_owned(),
                        ),
                    }
                } else {
                    ServeStep { kill: None, next: Next::Wait }
                }
            },
        }
    }
}

/// A command with a timeout is first told to terminate and, if it is still there
/// after the grace, killed; no further timer follows, and the timeout is recorded
/// from the first step on.
pub proof fn law_timeout_terminates_then_kills(ms: u64, t0: u64, t1: u64, t2: u64)
    requires
        ms > 0,
    ensures
        started(Some(ms), t0).deadline() == Some(later(t0, ms)),
        ({
            let (v1, k1, n1) = stepped(started(Some(ms), t0), ServeEvent::Deadline, t1);
            let (v2, k2, n2) = stepped(v1, ServeEvent::Deadline, t2);
            &&& k1 == Some(Signal::Term) && n1 is Wait && v1.timed_out
            &&& v1.deadline() == Some(later(t1, TERM_GRACE_MS))
            &&& k2 == Some(Signal::Kill) && n2 is Wait && v2.timed_out
            &&& v2.deadline() is None
        }),
{
}

/// Without a timeout, or with a zero one, no deadline is ever armed and nothing
/// times out, whatever happens.
pub proof fn law_no_timeout_no_deadline(v: ServeView, ev: ServeEvent, now: u64)
    requires
        v.deadline() is None,
        !v.timed_out,
    ensures
        started(None, now).deadline() is None,
        started(Some(0), now).deadline() is None,
        stepped(v, ev, now).0.deadline() is None,
        !stepped(v, ev, now).0.timed_out,
{
}

/// A timeout is never forgotten.
pub proof fn law_timed_out_stays(v: ServeView, ev: ServeEvent, now: u64)
    requires
        v.wf(),
        v.timed_out,
    ensures
        stepped(v, ev, now).0.timed_out,
        stepped(v, ev, now).0.wf(),
{
}

/// When serve gives up because its peer is gone or talks nonsense, the process
/// group is killed: no orphan survives.
pub proof fn law_lost_peer_kills_the_group(v: ServeView, ev: ServeEvent, now: u64)
    requires
        ev is Closed || ev is Bad || ev == ServeEvent::WriterDone(true),
    ensures
        stepped(v, ev, now).1 == Some(Signal::Kill),
        stepped(v, ev, now).2 is Fail,
{
}

// -- the report --------------------------------------------------------------------------

/// The final report of a command: a timeout has its own exit code, however the
/// command died.
pub open spec fn final_report(
    timed_out: bool,
    code: i32,
    cwd: Option<Seq<char>>,
    state: Option<Seq<char>>,
) -> crate::proto::ReportView {
    crate::proto::ReportView {
        code: if timed_out {
            TIMEOUT_EXIT_CODE
        } else {
            code
        },
        cwd,
        state,
        error: None,
        timed_out,
    }
}

/// The final report of a command.
pub fn exit_report(
    timed_out: bool,
    code: i32,
    cwd: Option<String>,
    state: Option<String>,
) -> (r: ExitReport)
    ensures
        r@ == final_report(
            timed_out,
            code,
            crate::text::opt_text(cwd),
            crate::text::opt_text(state),
        ),
{
    let code = if timed_out {
        TIMEOUT_EXIT_CODE
    } else {
        code
    };
    ExitReport { code, cwd, state, error: None, timed_out }
}

/// Exit code from a wait status: normal code, or 128+signum like a shell.
pub fn status_code(code: Option<i32>, signal: Option<i32>) -> (r: i32)
    requires
        signal matches Some(s) ==> s <= i32::MAX - 128,
    ensures
        r == (match code {
            Some(c) => c as int,
            None => match signal {
                Some(s) => 128 + s,
                None => 255,
            },
        }),
{
    match code {
        Some(c) => c,
        None => match signal {
            Some(s) => 128 + s,
            None => 255,
        },
    }
}

/// The pid argument that addresses the whole process group.
pub fn group_target(pgid: i32) -> (r: i32)
    requires
        pgid > i32::MIN,
    ensures
        r == -pgid,
{
    -pgid
}

/// Whether the leader alone has to be signalled, because the group is gone:
/// given the result of the group kill, the error number after it, and the
/// platform's number for "no such process".
pub fn kill_leader_instead(result: i32, errno: Option<i32>, esrch: i32) -> (r: bool)
    ensures
        r == (result < 0 && errno == Some(esrch)),
{
    match errno {
        Some(e) => result < 0 && e == esrch,
        None => false,
    }
}

// -- out-of-band reports -------------------------------------------------------------------

/// State of a report that is being read.
pub struct CollectorView {
    pub cap: nat,
    /// The bytes read so far; of no interest after an overflow.
    pub buf: Seq<u8>,
    /// The report is longer than the cap.
    pub overflow: bool,
    /// The terminator was met.
    pub done: bool,
}

/// What a report says.
pub enum PipeReport {
    Value(Seq<char>),
    Empty,
    Overflow,
    NotUtf8,
}

/// The bytes of a report: everything up to the first NUL.
pub open spec fn report_bytes(stream: Seq<u8>) -> Seq<u8> {
    stream.take(crate::text::first_index(stream, 0u8))
}

/// What a report says, given all bytes of its pipe: nothing when it is empty,
/// over the cap or not UTF-8.
pub open spec fn pipe_report(stream: Seq<u8>, cap: nat) -> PipeReport {
    let b = report_bytes(stream);
    if b.len() > cap {
        PipeReport::Overflow
    } else if b.len() == 0 {
        PipeReport::Empty
    } else if valid_utf8(b) {
        PipeReport::Value(decode_utf8(b))
    } else {
        PipeReport::NotUtf8
    }
}

/// A report before the first byte.
pub open spec fn collector(cap: nat) -> CollectorView {
    CollectorView { cap, buf: Seq::empty(), overflow: false, done: false }
}

/// A report after one more chunk of its pipe.
pub open spec fn collected(v: CollectorView, chunk: Seq<u8>) -> CollectorView {
    if v.done || v.overflow {
        v
    } else {
        let k = crate::text::first_index(chunk, 0u8);
        let buf = v.buf + chunk.take(k);
        CollectorView { buf, overflow: buf.len() > v.cap, done: k < chunk.len(), ..v }
    }
}

/// A report after several chunks of its pipe.
pub open spec fn collected_all(v: CollectorView, chunks: Seq<Seq<u8>>) -> CollectorView
    decreases chunks.len(),
{
    if chunks.len() == 0 {
        v
    } else {
        collected_all(collected(v, chunks[0]), chunks.skip(1))
    }
}

/// What the report read so far says.
pub open spec fn collector_report(v: CollectorView) -> PipeReport {
    if v.overflow {
        PipeReport::Overflow
    } else if v.buf.len() == 0 {
        PipeReport::Empty
    } else if valid_utf8(v.buf) {
        PipeReport::Value(decode_utf8(v.buf))
    } else {
        PipeReport::NotUtf8
    }
}

/// A report as read from its pipe.
#[derive(Debug)]
pub enum Collected {
    /// The value reported.
    Value(String),
    /// Nothing was reported.
    Empty,
    /// The report is over its cap; the previous value stays.
    Overflow,
    /// The report is not UTF-8; the previous value stays.
    NotUtf8,
}

impl View for Collected {
    type V = PipeReport;

    open spec fn view(&self) -> PipeReport {
        match self {
            Collected::Value(s) => PipeReport::Value(s@),
            Collected::Empty => PipeReport::Empty,
            Collected::Overflow => PipeReport::Overflow,
            Collected::NotUtf8 => PipeReport::NotUtf8,
        }
    }
}

impl Collected {
    /// The value to update with, if there is one.
    pub fn value(self) -> (r: Option<String>)
        ensures
            crate::text::opt_text(r) == (match self@ {
                PipeReport::Value(s) => Some(s),
                _ => None,
            }),
    {
        match self {
            Collected::Value(s) => Some(s),
            _ => None,
        }
    }
}

/// Reads an out-of-band report pipe to its NUL terminator.
///
/// The wrapper ends both reports with a NUL byte (bash data can never contain
/// one), so a surviving background job holding the write end open cannot stall
/// the read: the terminator, not EOF, is the completion signal. EOF without a
/// terminator (the wrapper `exec`ed away or was killed) still yields whatever
/// bytes arrived. On overflow the pipe is still drained to EOF so a mid-write
/// wrapper never sees EPIPE - the child must keep its real exit code.
#[derive(Debug)]
pub struct PipeCollector {
    cap: usize,
    buf: Vec<u8>,
    overflow: bool,
    done: bool,
}

impl View for PipeCollector {
    type V = CollectorView;

    closed spec fn view(&self) -> CollectorView {
        CollectorView {
            cap: self.cap as nat,
            buf: self.buf@,
            overflow: self.overflow,
            done: self.done,
        }
    }
}

impl PipeCollector {
    pub fn new(cap: usize) -> (r: PipeCollector)
        ensures
            r@ == collector(cap as nat),
    {
        let r = PipeCollector { cap, buf: Vec::new(), overflow: false, done: false };
        assert(r@.buf =~= Seq::<u8>::empty());
        r
    }

    /// Take one chunk of the pipe; `true` when reading may stop.
    pub fn feed(&mut self, chunk: &[u8]) -> (r: bool)
        ensures
            final(self)@ == collected(old(self)@, chunk@),
            r == final(self)@.done,
    {
        if !self.done && !self.overflow {
            assert(chunk@.skip(0) =~= chunk@);
            let k = find_byte_from(chunk, 0, 0);
            let head = bytes_between(chunk, 0, k);
            assert(head@ =~= chunk@.take(k as int));
            self.buf.extend_from_slice(&head);
            assert(self.buf@ =~= old(self)@.buf + chunk@.take(k as int));
            self.overflow = self.buf.len() > self.cap;
            self.done = k < chunk.len();
        }
        self.done
    }

    /// What the report says, once it is terminated or its pipe ended.
    pub fn finish(self) -> (r: Collected)
        ensures
            r@ == collector_report(self@),
    {
        if self.overflow {
            return Collected::Overflow;
        }
        if self.buf.len() == 0 {
            return Collected::Empty;
        }
        match utf8_string(self.buf) {
            Ok(s) => Collected::Value(s),
            Err(_) => Collected::NotUtf8,
        }
    }
}

/// How the pipe's bytes are cut into chunks makes no difference to the report,
/// and neither does anything behind the terminator.
pub proof fn law_report_is_chunk_independent(cap: nat, chunks: Seq<Seq<u8>>)
    ensures
        collector_report(collected_all(collector(cap), chunks)) == pipe_report(
            crate::proto::whole(chunks),
            cap,
        ),
{
    assert(Seq::<u8>::empty() + crate::proto::whole(chunks) =~= crate::proto::whole(chunks));
    assert forall|i: int| 0 <= i < Seq::<u8>::empty().len() implies Seq::<u8>::empty()[i]
        != 0 by {}
    lemma_collected_all(collector(cap), chunks);
}

proof fn lemma_collected_all(v: CollectorView, chunks: Seq<Seq<u8>>)
    requires
        !v.done,
        !v.overflow,
        v.buf.len() <= v.cap,
        forall|i: int| 0 <= i < v.buf.len() ==> v.buf[i] != 0,
    ensures
        collector_report(collected_all(v, chunks)) == pipe_report(
            v.buf + crate::proto::whole(chunks),
            v.cap,
        ),
    decreases chunks.len(),
{
    let all = v.buf + crate::proto::whole(chunks);
    if chunks.len() == 0 {
        assert(all =~= v.buf);
        crate::text::lemma_first_index_unique(all, 0u8, all.len() as int);
        assert(report_bytes(all) =~= v.buf);
    } else {
        let c = chunks[0];
        let more = crate::proto::whole(chunks.skip(1));
        let k = crate::text::first_index(c, 0u8);
        crate::text::lemma_first_index(c, 0u8);
        let v2 = collected(v, c);
        assert(all =~= v.buf + c + more);
        if k < c.len() {
            let n = v.buf.len() + k;
            assert forall|i: int| 0 <= i < n implies all[i] != 0 by {
                if i >= v.buf.len() {
                    assert(all[i] == c[i - v.buf.len()]);
                }
            }
            assert(all[n] == c[k]);
            crate::text::lemma_first_index_unique(all, 0u8, n);
            assert(report_bytes(all) =~= v2.buf);
            lemma_collected_settled(v2, chunks.skip(1));
        } else {
            assert(c.take(k) =~= c);
            if v2.overflow {
                lemma_collected_settled(v2, chunks.skip(1));
                crate::text::lemma_first_index(all, 0u8);
                let f = crate::text::first_index(all, 0u8);
                if f < v2.buf.len() {
                    assert(all[f] == v2.buf[f]);
                    if f >= v.buf.len() {
                        assert(all[f] == c[f - v.buf.len()]);
                    }
                }
            } else {
                assert forall|i: int| 0 <= i < v2.buf.len() implies v2.buf[i] != 0 by {
                    if i >= v.buf.len() {
                        assert(v2.buf[i] == c[i - v.buf.len()]);
                    }
                }
                assert(v2.buf + more =~= all);
                lemma_collected_all(v2, chunks.skip(1));
            }
        }
    }
}

proof fn lemma_collected_settled(v: CollectorView, chunks: Seq<Seq<u8>>)
    requires
        v.done || v.overflow,
    ensures
        collected_all(v, chunks) == v,
    decreases chunks.len(),
{
    if chunks.len() > 0 {
        lemma_collected_settled(v, chunks.skip(1));
    }
}

// -- log lines -----------------------------------------------------------------------------

/// Longest part of a command text shown in the log, in bytes.
pub const ABBREV_MAX: usize = 300;

/// A command text as shown in the log: cut when it is long.
pub open spec fn abbreviated(s: Seq<char>) -> Seq<char> {
    let n = encode_utf8(s).len();
    if n <= ABBREV_MAX {
        s
    } else {
        crate::text::utf8_prefix(s, ABBREV_MAX as nat) + "...(total "@ + crate::text::dec_nat(n)
            + " bytes)"@
    }
}

/// A command text as shown in the log.
pub fn abbrev(s: &str) -> (r: String)
    ensures
        r@ == abbreviated(s@),
{
    let n = s.as_bytes().len();
    if n <= ABBREV_MAX {
        s.to_owned()
    } else {
        let mut out = truncate_utf8(s, ABBREV_MAX).to_owned();
        out.append("...(total ");
        push_nat(&mut out, n as u64);
        out.append(" bytes)");
        out
    }
}

} // verus!
