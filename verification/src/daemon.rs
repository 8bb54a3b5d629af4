//! The resident daemon: owns persistent SSH connections per host, deploys
//! `sp-serve`, keeps cwd and shell state per session, streams output back over
//! IPC and logs every execution. Connections, sockets and timers are driven
//! around the decisions made here.

use vstd::prelude::*;
use vstd::utf8::*;

use crate::error::Error;
use crate::proto::{truncate_utf8, ExecMessage, ExecRequest, ExitReport, Pong, Signal};
use crate::remote::{ExecOutcome, InputEvent};
use crate::session::SessionId;
use crate::text::{copy_opt, debug_string, push_int, push_nat, str_eq};

verus! {

/// Log files above this size are rotated to `.old` at daemon startup.
pub const ROTATE_BYTES: u64 = 10 * 1024 * 1024;

/// Whether a log file of this size is rotated.
pub fn needs_rotation(size: u64) -> (r: bool)
    ensures
        r == (size > 10 * 1024 * 1024),
{
    size > ROTATE_BYTES
}

// -- session state ---------------------------------------------------------------------------

/// What a session remembers between commands.
pub struct ShellState {
    pub cwd: Option<Seq<char>>,
    pub state: Option<Seq<char>>,
}

/// A session that has run nothing yet.
pub open spec fn initial_state() -> ShellState {
    ShellState { cwd: None, state: None }
}

/// A session, by its host and its name.
pub struct SessionKey {
    pub host: Seq<char>,
    pub session: Seq<char>,
}

struct Entry {
    host: String,
    session: String,
    cwd: Option<String>,
    state: Option<String>,
}

impl Entry {
    spec fn key(self) -> SessionKey {
        SessionKey { host: self.host@, session: self.session@ }
    }

    spec fn value(self) -> ShellState {
        ShellState {
            cwd: crate::text::opt_text(self.cwd),
            state: crate::text::opt_text(self.state),
        }
    }
}

/// The persisted shell state of every session. It lives as long as the daemon: a
/// lost connection does not touch it.
pub struct Sessions {
    entries: Vec<Entry>,
}

/// The entry of a session, or the number of entries.
spec fn find_entry(s: Seq<Entry>, k: SessionKey) -> int
    decreases s.len(),
{
    if s.len() == 0 || s[0].key() == k {
        0
    } else {
        1 + find_entry(s.skip(1), k)
    }
}

proof fn lemma_find_entry(s: Seq<Entry>, k: SessionKey, i: int)
    requires
        0 <= i <= s.len(),
        forall|j: int| 0 <= j < i ==> s[j].key() != k,
        i < s.len() ==> s[i].key() == k,
    ensures
        find_entry(s, k) == i,
    decreases s.len(),
{
    if s.len() > 0 && s[0].key() != k {
        assert forall|j: int| 0 <= j < i - 1 implies s.skip(1)[j].key() != k by {
            assert(s.skip(1)[j] == s[j + 1]);
        }
        lemma_find_entry(s.skip(1), k, i - 1);
    }
}

proof fn lemma_found_entry(s: Seq<Entry>, k: SessionKey)
    ensures
        0 <= find_entry(s, k) <= s.len(),
        find_entry(s, k) < s.len() ==> s[find_entry(s, k)].key() == k,
        forall|j: int| 0 <= j < find_entry(s, k) ==> s[j].key() != k,
    decreases s.len(),
{
    if s.len() > 0 && s[0].key() != k {
        lemma_found_entry(s.skip(1), k);
        assert forall|j: int| 0 <= j < find_entry(s, k) implies s[j].key() != k by {
            if j > 0 {
                assert(s[j] == s.skip(1)[j - 1]);
            }
        }
    }
}

impl View for Sessions {
    type V = Map<SessionKey, ShellState>;

    closed spec fn view(&self) -> Map<SessionKey, ShellState> {
        Map::new(
            |k: SessionKey| find_entry(self.entries@, k) < self.entries@.len(),
            |k: SessionKey| self.entries@[find_entry(self.entries@, k)].value(),
        )
    }
}

impl Sessions {
    /// No session remembers anything.
    pub fn new() -> (r: Sessions)
        ensures
            r@ == Map::<SessionKey, ShellState>::empty(),
    {
        let r = Sessions { entries: Vec::new() };
        assert(r@ =~= Map::<SessionKey, ShellState>::empty());
        r
    }

    fn find(&self, host: &str, session: &SessionId) -> (r: usize)
        ensures
            r == find_entry(
                self.entries@,
                SessionKey { host: host@, session: session@ },
            ),
            r <= self.entries@.len(),
    {
        let ghost k = SessionKey { host: host@, session: session@ };
        let mut i: usize = 0;
        while i < self.entries.len()
            invariant
                i <= self.entries@.len(),
                k == (SessionKey { host: host@, session: session@ }),
                forall|j: int| 0 <= j < i ==> self.entries@[j].key() != k,
            decreases self.entries@.len() - i,
        {
            let e = &self.entries[i];
            if str_eq(e.host.as_str(), host) && str_eq(e.session.as_str(), session.as_str()) {
                proof {
                    lemma_find_entry(self.entries@, k, i as int);
                }
                return i;
            }
            i = i + 1;
        }
        proof {
            lemma_find_entry(self.entries@, k, i as int);
        }
        i
    }

    /// The request as it is sent to the host: the session's directory stands in
    /// where the request names none, and its shell state is restored.
    pub fn effective_request(&self, req: &ExecRequest, session: &SessionId) -> (r: ExecRequest)
        ensures
            r@ == effective(
                req@,
                state_of(self@, SessionKey { host: req@.host, session: session@ }),
            ),
    {
        let i = self.find(req.host.as_str(), session);
        let mut r = req.clone();
        if i < self.entries.len() {
            if r.cwd.is_none() {
                r.cwd = copy_opt(&self.entries[i].cwd);
            }
            r.state = copy_opt(&self.entries[i].state);
        } else {
            r.state = None;
        }
        r
    }

    /// Remember what a command left behind; what it did not report stays.
    pub fn remember(
        &mut self,
        host: &str,
        session: &SessionId,
        cwd: &Option<String>,
        state: &Option<String>,
    )
        ensures
            final(self)@ == remembered(
                old(self)@,
                SessionKey { host: host@, session: session@ },
                crate::text::opt_text(*cwd),
                crate::text::opt_text(*state),
            ),
    {
        let ghost key = SessionKey { host: host@, session: session@ };
        let ghost before = self.entries@;
        let i = self.find(host, session);
        if i == self.entries.len() {
            self.entries.push(
                Entry {
                    host: host.to_owned(),
                    session: session.as_str().to_owned(),
                    cwd: None,
                    state: None,
                },
            );
        }
        let ghost grown = self.entries@;
        proof {
            lemma_found_entry(before, key);
            assert(grown[i as int].key() == key);
            lemma_find_entry(grown, key, i as int);
        }
        let mut e = self.entries.remove(i);
        if cwd.is_some() {
            e.cwd = copy_opt(cwd);
        }
        if state.is_some() {
            e.state = copy_opt(state);
        }
        self.entries.insert(i, e);
        proof {
            let after = self.entries@;
            assert(after =~= grown.update(i as int, e));
            let want = remembered(
                old(self)@,
                key,
                crate::text::opt_text(*cwd),
                crate::text::opt_text(*state),
            );
            assert forall|k: SessionKey| #[trigger] find_entry(after, k) == (if k == key {
                i as int
            } else if find_entry(before, k) < before.len() {
                find_entry(before, k)
            } else {
                after.len() as int
            }) by {
                lemma_found_entry(before, k);
                let f = find_entry(before, k);
                if k == key {
                    assert forall|j: int| 0 <= j < i implies after[j].key() != k by {
                        assert(after[j] == before[j]);
                    }
                    lemma_find_entry(after, k, i as int);
                } else if f < before.len() {
                    assert forall|j: int| 0 <= j < f implies after[j].key() != k by {
                        assert(after[j].key() == before[j].key());
                    }
                    assert(after[f].key() == before[f].key());
                    lemma_find_entry(after, k, f);
                } else {
                    assert forall|j: int| 0 <= j < after.len() implies after[j].key() != k by {
                        assert(after[j].key() == grown[j].key());
                    }
                    lemma_find_entry(after, k, after.len() as int);
                }
            }
            assert forall|k: SessionKey| #[trigger] self@.contains_key(k) == want.contains_key(
                k,
            ) by {
                assert(find_entry(after, k) == find_entry(after, k));
                lemma_found_entry(before, k);
            }
            assert forall|k: SessionKey| #[trigger] self@.contains_key(k) implies self@[k]
                == want[k] by {
                assert(find_entry(after, k) == find_entry(after, k));
                lemma_found_entry(before, k);
                if k != key {
                    assert(after[find_entry(before, k)] == before[find_entry(before, k)]);
                }
            }
            assert(self@ =~= want);
        }
    }
}

/// What a session remembers: nothing before its first command.
pub open spec fn state_of(m: Map<SessionKey, ShellState>, k: SessionKey) -> ShellState {
    if m.contains_key(k) {
        m[k]
    } else {
        initial_state()
    }
}

/// All sessions after a command of one of them reported this.
pub open spec fn remembered(
    m: Map<SessionKey, ShellState>,
    k: SessionKey,
    cwd: Option<Seq<char>>,
    state: Option<Seq<char>>,
) -> Map<SessionKey, ShellState> {
    m.insert(k, updated(state_of(m, k), cwd, state))
}

/// A request with what its session remembers filled in.
pub open spec fn effective(
    req: crate::proto::RequestView,
    s: ShellState,
) -> crate::proto::RequestView {
    crate::proto::RequestView {
        cwd: if req.cwd is Some {
            req.cwd
        } else {
            s.cwd
        },
        state: s.state,
        ..req
    }
}

/// What a session remembers after a command reported this.
pub open spec fn updated(
    s: ShellState,
    cwd: Option<Seq<char>>,
    state: Option<Seq<char>>,
) -> ShellState {
    ShellState {
        cwd: if cwd is Some {
            cwd
        } else {
            s.cwd
        },
        state: if state is Some {
            state
        } else {
            s.state
        },
    }
}

/// What one command of a session reported.
pub struct Left {
    pub key: SessionKey,
    pub cwd: Option<Seq<char>>,
    pub state: Option<Seq<char>>,
}

/// All sessions after some commands.
pub open spec fn after_commands(m: Map<SessionKey, ShellState>, h: Seq<Left>) -> Map<
    SessionKey,
    ShellState,
>
    decreases h.len(),
{
    if h.len() == 0 {
        m
    } else {
        let l = h.last();
        remembered(after_commands(m, h.drop_last()), l.key, l.cwd, l.state)
    }
}

/// The directory and the shell state persist: a command that names no directory
/// starts where the last command of its session that reported one ended, and with
/// the state of the last that reported one, whatever other sessions did meanwhile.
pub proof fn law_state_persists(
    m: Map<SessionKey, ShellState>,
    before: Seq<Left>,
    l: Left,
    since: Seq<Left>,
    req: crate::proto::RequestView,
)
    requires
        req.cwd is None,
    ensures
        ({
            let s = state_of(after_commands(m, before + seq![l] + since), l.key);
            &&& l.cwd is Some && (forall|i: int|
                0 <= i < since.len() && (#[trigger] since[i]).key == l.key ==> since[i].cwd is None)
                ==> effective(req, s).cwd == l.cwd
            &&& l.state is Some && (forall|i: int|
                0 <= i < since.len() && (#[trigger] since[i]).key == l.key ==> since[i].state
                    is None) ==> effective(req, s).state == l.state
        }),
    decreases since.len(),
{
    let h = before + seq![l] + since;
    if since.len() == 0 {
        assert(h =~= (before + seq![l]));
        assert(h.last() == l);
    } else {
        law_state_persists(m, before, l, since.drop_last(), req);
        assert(h.drop_last() =~= before + seq![l] + since.drop_last());
        assert(h.last() == since.last());
        assert(since.last() == since[since.len() - 1]);
        assert forall|i: int| 0 <= i < since.drop_last().len() implies (
        #[trigger] since.drop_last()[i]) == since[i] by {}
    }
}

/// Sessions are independent: the commands of the others leave what a session
/// remembers as it is.
pub proof fn law_sessions_are_independent(
    m: Map<SessionKey, ShellState>,
    h: Seq<Left>,
    k: SessionKey,
)
    requires
        forall|i: int| 0 <= i < h.len() ==> (#[trigger] h[i]).key != k,
    ensures
        state_of(after_commands(m, h), k) == state_of(m, k),
    decreases h.len(),
{
    if h.len() > 0 {
        assert forall|i: int| 0 <= i < h.drop_last().len() implies (
        #[trigger] h.drop_last()[i]).key != k by {
            assert(h.drop_last()[i] == h[i]);
        }
        law_sessions_are_independent(m, h.drop_last(), k);
        assert(h.last() == h[h.len() - 1]);
    }
}

/// The directory a client is told is where the next command of its session starts.
pub proof fn law_reported_directory_is_kept(
    m: Map<SessionKey, ShellState>,
    k: SessionKey,
    o: crate::remote::OutcomeView,
    req: crate::proto::RequestView,
)
    requires
        o.new_cwd is Some,
        req.cwd is None,
    ensures
        effective(req, state_of(remembered(m, k, o.new_cwd, o.new_state), k)).cwd
            == success_report(o).cwd,
{
}

/// A directory named by the request wins over the remembered one.
pub proof fn law_named_directory_wins(
    s: ShellState,
    cwd: Seq<char>,
    req: crate::proto::RequestView,
)
    requires
        req.cwd == Some(cwd),
    ensures
        effective(req, s).cwd == Some(cwd),
{
}

// -- connections --------------------------------------------------------------------------------

/// Whether the connection of a host can be used: it exists and is open. Otherwise
/// a new one is made.
pub fn can_reuse(known: bool, closed: bool) -> (r: bool)
    ensures
        r == (known && !closed),
{
    known && !closed
}

/// What to do with a message while no command runs on the connection.
#[derive(Debug)]
pub enum IdleAction {
    Reply(Pong),
    /// Run the request; the connection is closed after it. One exec per
    /// connection: stdin forwarding interleaves with the engine.
    Run(ExecRequest),
    /// Stdin/signal frames outside an execution are meaningless.
    Ignore,
}

/// What to do with a message while no command runs; `pid` is the daemon's own.
pub fn handle_idle(m: ExecMessage, pid: u32) -> (r: IdleAction)
    ensures
        match m {
            ExecMessage::Ping => r == IdleAction::Reply(Pong { pid }),
            ExecMessage::Exec(req) => r == IdleAction::Run(req),
            _ => r is Ignore,
        },
{
    match m {
        ExecMessage::Ping => IdleAction::Reply(Pong { pid }),
        ExecMessage::Exec(req) => IdleAction::Run(req),
        _ => IdleAction::Ignore,
    }
}

// -- one execution ---------------------------------------------------------------------------------

/// What happens while a command runs.
#[derive(Debug)]
pub enum RelayEvent {
    /// A message from the client.
    Message(ExecMessage),
    /// The client closed the connection.
    ClientGone,
    /// The client's frames cannot be read.
    ClientBad(String),
    /// The engine does not take input any more.
    InputLost,
    /// The engine is done.
    Engine(Result<ExecOutcome, Error>),
}

/// What the daemon does.
#[derive(Debug)]
pub enum RelayAction {
    /// Hand stdin data to the engine; when it does not take it, that is
    /// [`RelayEvent::InputLost`].
    Stdin(Vec<u8>),
    /// Hand something else to the engine, if it takes it.
    Forward(InputEvent),
    Reply(Pong),
    /// The command is over.
    Conclude(Result<ExecOutcome, String>),
    /// Close the remote stdin, then the command is over.
    CloseAndConclude(String),
}

/// What the daemon does.
pub enum RelayActionView {
    Stdin(Seq<u8>),
    Forward(crate::remote::InputView),
    Reply(Pong),
    Succeed(crate::remote::OutcomeView),
    Fail(Seq<char>),
    CloseAndFail(Seq<char>),
}

impl View for RelayAction {
    type V = RelayActionView;

    open spec fn view(&self) -> RelayActionView {
        match self {
            RelayAction::Stdin(d) => RelayActionView::Stdin(d@),
            RelayAction::Forward(ev) => RelayActionView::Forward(ev@),
            RelayAction::Reply(p) => RelayActionView::Reply(*p),
            RelayAction::Conclude(Ok(o)) => RelayActionView::Succeed(o@),
            RelayAction::Conclude(Err(e)) => RelayActionView::Fail(e@),
            RelayAction::CloseAndConclude(e) => RelayActionView::CloseAndFail(e@),
        }
    }
}

/// One event while a command runs: whether the client is still read after it, and
/// what the daemon does.
pub open spec fn relayed(reader_open: bool, ev: RelayEvent, pid: u32) -> (
    bool,
    RelayActionView,
) {
    match ev {
        RelayEvent::Message(ExecMessage::StdinData(d)) => (
            reader_open,
            RelayActionView::Stdin(d@),
        ),
        RelayEvent::Message(ExecMessage::StdinEof) => (
            reader_open,
            RelayActionView::Forward(crate::remote::InputView::StdinEof),
        ),
        RelayEvent::Message(ExecMessage::Signal(s)) => (
            reader_open,
            RelayActionView::Forward(crate::remote::InputView::Signal(s)),
        ),
        RelayEvent::Message(ExecMessage::Ping) => (
            reader_open,
            RelayActionView::Reply(Pong { pid }),
        ),
        RelayEvent::Message(ExecMessage::Exec(_)) => (
            reader_open,
            RelayActionView::CloseAndFail("nested exec on one connection is not supported"@),
        ),
        RelayEvent::ClientGone => (
            false,
            RelayActionView::Forward(crate::remote::InputView::StdinEof),
        ),
        RelayEvent::ClientBad(e) => (reader_open, RelayActionView::Fail(e@)),
        RelayEvent::InputLost => (
            reader_open,
            RelayActionView::Fail("engine died unexpectedly"@),
        ),
        RelayEvent::Engine(Ok(o)) => (reader_open, RelayActionView::Succeed(o@)),
        RelayEvent::Engine(Err(e)) => (reader_open, RelayActionView::Fail(e@.text())),
    }
}

/// Relays between a client and the engine while a command runs.
#[derive(Debug)]
pub struct Relay {
    reader_open: bool,
    pid: u32,
}

impl Relay {
    /// Whether the client is still read.
    pub closed spec fn open(&self) -> bool {
        self.reader_open
    }

    /// The daemon's own pid.
    pub closed spec fn own_pid(&self) -> u32 {
        self.pid
    }

    pub fn new(pid: u32) -> (r: Relay)
        ensures
            r.open(),
            r.own_pid() == pid,
    {
        Relay { reader_open: true, pid }
    }

    /// Whether the client still has to be read.
    pub fn reader_open(&self) -> (r: bool)
        ensures
            r == self.open(),
    {
        self.reader_open
    }

    /// Take one event.
    pub fn step(&mut self, ev: RelayEvent) -> (r: RelayAction)
        ensures
            final(self).own_pid() == old(self).own_pid(),
            (final(self).open(), r@) == relayed(old(self).open(), ev, old(self).own_pid()),
    {
        match ev {
            RelayEvent::Message(ExecMessage::StdinData(d)) => RelayAction::Stdin(d),
            RelayEvent::Message(ExecMessage::StdinEof) => RelayAction::Forward(
                InputEvent::StdinEof,
            ),
            RelayEvent::Message(ExecMessage::Signal(s)) => RelayAction::Forward(
                InputEvent::Signal(s),
            ),
            RelayEvent::Message(ExecMessage::Ping) => RelayAction::Reply(Pong { pid: self.pid }),
            RelayEvent::Message(ExecMessage::Exec(_)) => RelayAction::CloseAndConclude(
                "nested exec on one connection is not supported".to_owned(),
            ),
            // Client vanished; give the remote side EOF, not a kill, and let it
            // finish (cwd still updates). Polling an EOF stream again would
            // busy-loop.
            RelayEvent::ClientGone => {
                self.reader_open = false;
                RelayAction::Forward(InputEvent::StdinEof)
            },
            RelayEvent::ClientBad(e) => RelayAction::Conclude(Err(e)),
            RelayEvent::InputLost => RelayAction::Conclude(
                Err("engine died unexpectedly".to_owned()),
            ),
            RelayEvent::Engine(Ok(o)) => RelayAction::Conclude(Ok(o)),
            RelayEvent::Engine(Err(e)) => RelayAction::Conclude(Err(e.brief())),
        }
    }
}

/// A vanished client does not kill its command: the command is given the end of
/// its input and runs on.
pub proof fn law_vanished_client_lets_the_command_finish(open: bool, pid: u32)
    ensures
        relayed(open, RelayEvent::ClientGone, pid) == (
            false,
            RelayActionView::Forward(crate::remote::InputView::StdinEof),
        ),
{
}

// -- the report ---------------------------------------------------------------------------------------

/// The report for the client of an execution that came to an end. Why it failed on
/// the remote side is passed on; the shell state stays with the daemon.
pub open spec fn success_report(o: crate::remote::OutcomeView) -> crate::proto::ReportView {
    crate::proto::ReportView {
        code: o.exit_code,
        cwd: o.new_cwd,
        state: None,
        error: o.error,
        timed_out: o.timed_out,
    }
}

/// The end of an execution.
#[derive(Debug)]
pub struct Conclusion {
    /// The report for the client.
    pub report: ExitReport,
    /// Drop the connection. A dead one cannot be retried transparently (forwarded
    /// stdin is gone); the next command reconnects on its own.
    pub evict: bool,
}

/// Conclude an execution: remember what it left behind, report it, and tell
/// whether its connection is lost.
pub fn conclude(
    sessions: &mut Sessions,
    host: &str,
    session: &SessionId,
    outcome: Result<ExecOutcome, String>,
    conn_closed: bool,
) -> (r: Conclusion)
    ensures
        match outcome {
            Ok(o) => {
                &&& r.report@ == success_report(o@)
                &&& !r.evict
                &&& final(sessions)@ == remembered(
                    old(sessions)@,
                    SessionKey { host: host@, session: session@ },
                    o@.new_cwd,
                    o@.new_state,
                )
            },
            Err(e) => {
                &&& r.report@ == crate::proto::failure_report(e@)
                &&& r.evict == conn_closed
                &&& final(sessions)@ == old(sessions)@
            },
        },
{
    match outcome {
        Ok(o) => {
            sessions.remember(host, session, &o.new_cwd, &o.new_state);
            let report = ExitReport {
                code: o.exit_code,
                cwd: o.new_cwd,
                state: None,
                error: o.error,
                timed_out: o.timed_out,
            };
            Conclusion { report, evict: false }
        },
        Err(e) => Conclusion { report: ExitReport::failure(e), evict: conn_closed },
    }
}

/// The report of a host that could not be reached.
pub fn connect_failed(e: &Error) -> (r: ExitReport)
    ensures
        r@ == crate::proto::failure_report(e@.text()),
{
    ExitReport::failure(e.brief())
}

// -- idling -----------------------------------------------------------------------------------------

/// Counts live connections.
#[derive(Debug)]
pub struct ActiveCount {
    active: usize,
}

impl View for ActiveCount {
    type V = nat;

    closed spec fn view(&self) -> nat {
        self.active as nat
    }
}

impl ActiveCount {
    pub fn new() -> (r: ActiveCount)
        ensures
            r@ == 0,
    {
        ActiveCount { active: 0 }
    }

    /// How many connections are live.
    pub fn active(&self) -> (r: usize)
        ensures
            r == self@,
    {
        self.active
    }

    /// A connection begins.
    pub fn acquire(&mut self)
        requires
            old(self)@ < usize::MAX,
        ensures
            final(self)@ == old(self)@ + 1,
    {
        self.active = self.active + 1;
    }

    /// A connection ends; `true` when it was the last one, so that the idle timer
    /// can be armed again.
    pub fn release(&mut self) -> (r: bool)
        requires
            old(self)@ > 0,
        ensures
            final(self)@ == old(self)@ - 1,
            r == (final(self)@ == 0),
    {
        self.active = self.active - 1;
        self.active == 0
    }

    /// When the daemon exits for lack of work: after the idle time, counted from
    /// now, while no connection is live.
    pub fn idle_deadline(&self, idle_secs: Option<u64>, now: u64) -> (r: Option<u64>)
        ensures
            crate::text::opt_nat(r) == (match idle_secs {
                Some(s) => if self@ == 0 {
                    Some(
                        crate::serve::later(
                            now,
                            if s * 1000 <= u64::MAX {
                                (s * 1000) as u64
                            } else {
                                u64::MAX
                            },
                        ),
                    )
                } else {
                    None
                },
                None => None,
            }),
    {
        match idle_secs {
            Some(s) => if self.active == 0 {
                let ms = if s <= u64::MAX / 1000 {
                    s * 1000
                } else {
                    u64::MAX
                };
                Some(crate::serve::later_ms(now, ms))
            } else {
                None
            },
            None => None,
        }
    }
}

// -- logging ------------------------------------------------------------------------------------------

/// A command text as shown in the log: quoted, and cut when it is long.
pub open spec fn abbreviated(s: Seq<char>) -> Seq<char> {
    let n = encode_utf8(s).len();
    if n <= 300 {
        crate::text::debug_text(s)
    } else {
        crate::text::debug_text(crate::text::utf8_prefix(s, 300)) + "...(total "@
            + crate::text::dec_nat(n) + " bytes)"@
    }
}

/// A command text as shown in the log.
pub fn abbreviate(s: &str) -> (r: String)
    ensures
        r@ == abbreviated(s@),
{
    let n = s.as_bytes().len();
    if n <= 300 {
        debug_string(s)
    } else {
        let mut out = debug_string(truncate_utf8(s, 300));
        out.append("...(total ");
        push_nat(&mut out, n as u64);
        out.append(" bytes)");
        out
    }
}

/// What the log says of an execution.
#[derive(Debug)]
pub struct Execution {
    pub session: String,
    /// Directory the command started in.
    pub cwd: Option<String>,
    pub code: i32,
    pub millis: u64,
    pub stdout_bytes: u64,
    pub stderr_bytes: u64,
}

/// The log line of an execution.
pub open spec fn log_text(host: Seq<char>, command: Seq<char>, x: Execution) -> Seq<char> {
    "exec host="@ + host + " session="@ + x.session@ + " cwd="@ + (match x.cwd {
        Some(c) => c@,
        None => "~"@,
    }) + " rc="@ + crate::text::dec_int(x.code as int) + " dur="@ + crate::text::dec_nat(
        x.millis as nat,
    ) + "ms out="@ + crate::text::dec_nat(x.stdout_bytes as nat) + "B err="@
        + crate::text::dec_nat(x.stderr_bytes as nat) + "B cmd="@ + abbreviated(command)
}

/// The log line of an execution.
pub fn log_line(host: &str, command: &str, x: &Execution) -> (r: String)
    ensures
        r@ == log_text(host@, command@, *x),
{
    let mut s = "exec host=".to_owned();
    s.append(host);
    s.append(" session=");
    s.append(x.session.as_str());
    s.append(" cwd=");
    match &x.cwd {
        Some(c) => {
            s.append(c.as_str());
        },
        None => {
            s.append("~");
        },
    }
    s.append(" rc=");
    push_int(&mut s, x.code as i64);
    s.append(" dur=");
    push_nat(&mut s, x.millis);
    s.append("ms out=");
    push_nat(&mut s, x.stdout_bytes);
    s.append("B err=");
    push_nat(&mut s, x.stderr_bytes);
    s.append("B cmd=");
    s.append(abbreviate(command).as_str());
    s
}

} // verus!
