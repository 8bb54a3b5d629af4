//! Client side: connect to the daemon (spawning it when absent), run one
//! command and pump stdin/stdout/stderr/signals. The streams are driven around
//! the decisions made here. Times are milliseconds of a clock that does not run
//! backwards.

use vstd::prelude::*;
use vstd::utf8::*;

use crate::error::Error;
use crate::proto::{EventMessage, ExecMessage, ExecRequest, ExitReport, Signal};
use crate::script::sq_quote;
use crate::text::{bytes_owned, copy_opt, str_chars, utf8_string};

verus! {

/// Two Ctrl+C presses within this window force a local exit (130). The daemon
/// may be wedged and unable to relay the remote exit code; a healthy flow
/// reports it before a human can press twice.
pub const FORCE_EXIT_WINDOW_MS: u64 = 1_000;

/// How long a spawned daemon may take to come up.
pub const SPAWN_WAIT_MS: u64 = 10_000;

/// Pause between two attempts to reach a spawned daemon.
pub const RETRY_MS: u64 = 100;

/// How long a ping may take.
pub const PING_WAIT_MS: u64 = 3_000;

/// Exit code of a forced local exit.
pub const FORCED_EXIT_CODE: i32 = 130;

// -- words and requests -------------------------------------------------------------------

/// Whether a text means the same to a shell unquoted: not empty, and of
/// characters without special meaning.
pub fn is_bare_word(s: &str) -> (r: bool)
    ensures
        r == (s@.len() > 0 && crate::shell::all_bare(s@)),
{
    if s.is_empty() {
        return false;
    }
    for c in it: s.chars()
        invariant
            it.seq() == s@,
            forall|j: int| 0 <= j < it.index() ==> crate::shell::bare(#[trigger] s@[j]),
    {
        let ok = ('A' <= c && c <= 'Z') || ('a' <= c && c <= 'z') || ('0' <= c && c <= '9') || c
            == '_' || c == '@' || c == '%' || c == '+' || c == '=' || c == ':' || c == ',' || c
            == '.' || c == '/' || c == '-';
        if !ok {
            assert(!crate::shell::bare(s@[it.index()]));
            return false;
        }
    }
    true
}

/// A word as it is written for a shell: bare when that is safe, in single quotes
/// otherwise.
pub open spec fn shell_quoted(s: Seq<char>) -> Seq<char> {
    if s.len() > 0 && crate::shell::all_bare(s) {
        s
    } else {
        crate::shell::single_quoted(s)
    }
}

/// A word as it is written for a shell.
pub fn shell_quote(s: &str) -> (r: String)
    ensures
        r@ == shell_quoted(s@),
{
    if is_bare_word(s) {
        s.to_owned()
    } else {
        sq_quote(s)
    }
}

/// Words as they are written for a shell.
pub open spec fn all_shell_quoted(args: Seq<Seq<char>>) -> Seq<Seq<char>> {
    args.map_values(|a: Seq<char>| shell_quoted(a))
}

/// A quoted word reads as the word, whatever it holds.
pub proof fn lemma_shell_quoted(s: Seq<char>)
    ensures
        crate::shell::reads_as(shell_quoted(s), s),
{
    if s.len() > 0 && crate::shell::all_bare(s) {
        crate::shell::lemma_bare_word(s);
    } else {
        crate::shell::lemma_quoted_word(s);
    }
}

/// Word boundaries survive: a shell reads quoted words joined by spaces back as
/// exactly those words.
pub proof fn law_word_boundaries_survive(args: Seq<Seq<char>>)
    ensures
        crate::shell::words_of(crate::text::joined(all_shell_quoted(args), " "@)) == Some(args),
{
    assert forall|i: int| 0 <= i < args.len() implies crate::shell::reads_as(
        #[trigger] all_shell_quoted(args)[i],
        args[i],
    ) by {
        lemma_shell_quoted(args[i]);
    }
    crate::shell::lemma_joined_words(Seq::empty(), all_shell_quoted(args), args);
    assert(Seq::<Seq<char>>::empty() + args =~= args);
}

/// The request that writes its stdin to a remote file. The path travels as an
/// argument, so no character of it is shell syntax.
pub open spec fn upload(
    host: Seq<char>,
    remote: Seq<char>,
    cwd: Option<Seq<char>>,
    timeout_ms: Option<u64>,
) -> crate::proto::RequestView {
    crate::proto::RequestView {
        host,
        command: "cat > \"$1\""@,
        args: seq![remote],
        cwd,
        state: None,
        session: None,
        timeout_ms,
    }
}

/// The request that prints a remote file.
pub open spec fn download(
    host: Seq<char>,
    remote: Seq<char>,
    cwd: Option<Seq<char>>,
    timeout_ms: Option<u64>,
) -> crate::proto::RequestView {
    crate::proto::RequestView {
        command: "cat -- \"$1\""@,
        ..upload(host, remote, cwd, timeout_ms)
    }
}

/// The request that writes its stdin to a remote file.
pub fn upload_request(
    host: String,
    remote: &str,
    cwd: Option<String>,
    timeout_ms: Option<u64>,
) -> (r: ExecRequest)
    ensures
        r@ == upload(host@, remote@, crate::text::opt_text(cwd), timeout_ms),
{
    let args = vec![remote.to_owned()];
    assert(crate::text::texts(args@) =~= seq![remote@]);
    ExecRequest {
        host,
        command: "cat > \"$1\"".to_owned(),
        args,
        cwd,
        state: None,
        session: None,
        timeout_ms,
    }
}

/// The request that prints a remote file.
pub fn download_request(
    host: String,
    remote: &str,
    cwd: Option<String>,
    timeout_ms: Option<u64>,
) -> (r: ExecRequest)
    ensures
        r@ == download(host@, remote@, crate::text::opt_text(cwd), timeout_ms),
{
    let args = vec![remote.to_owned()];
    assert(crate::text::texts(args@) =~= seq![remote@]);
    ExecRequest {
        host,
        command: "cat -- \"$1\"".to_owned(),
        args,
        cwd,
        state: None,
        session: None,
        timeout_ms,
    }
}

/// The text of a script file for `-f` execution, which must be UTF-8.
pub fn read_script_file(path: &str, bytes: &[u8]) -> (r: Result<String, Error>)
    ensures
        match r {
            Ok(s) => valid_utf8(bytes@) && s@ == decode_utf8(bytes@),
            Err(e) => !valid_utf8(bytes@) && e@ == crate::error::ErrorView::Config(
                path@ + " is not valid UTF-8: "@ + crate::text::utf8_error_text(bytes@),
            ),
        },
{
    match utf8_string(bytes_owned(bytes)) {
        Ok(s) => Ok(s),
        Err(e) => {
            let mut s = path.to_owned();
            s.append(" is not valid UTF-8: ");
            s.append(e.as_str());
            Err(Error::Config(s))
        },
    }
}

// -- reaching the daemon ---------------------------------------------------------------------

/// What to do to reach the daemon.
#[derive(Debug)]
pub enum ReachStep {
    /// Try to connect; hand the result to [`Reach::tried`].
    Connect,
    /// Use the connection just made.
    Use,
    /// Start the daemon, then hand the time to [`Reach::spawned`].
    Spawn,
    /// Remove the socket file, then as for `Spawn`.
    RemoveAndSpawn,
    /// Wait [`RETRY_MS`], then connect.
    Retry,
    Fail(Error),
}

/// What became of an attempt to connect.
#[derive(Debug)]
pub enum Attempt {
    Connected,
    /// Nobody listens at the endpoint.
    Refused(String),
    /// Any other failure.
    Failed(String),
}

/// How far reaching the daemon has come.
pub enum ReachView {
    /// The first attempt.
    First,
    /// The second attempt, on a socket file that may be stale.
    Second,
    /// The daemon is being started.
    Starting,
    /// The daemon was started and must come up by then.
    Waiting(nat),
}

/// What to do to reach the daemon.
pub enum ReachStepView {
    Connect,
    Use,
    Spawn,
    RemoveAndSpawn,
    Retry,
    Fail(crate::error::ErrorView),
}

impl View for ReachStep {
    type V = ReachStepView;

    open spec fn view(&self) -> ReachStepView {
        match self {
            ReachStep::Connect => ReachStepView::Connect,
            ReachStep::Use => ReachStepView::Use,
            ReachStep::Spawn => ReachStepView::Spawn,
            ReachStep::RemoveAndSpawn => ReachStepView::RemoveAndSpawn,
            ReachStep::Retry => ReachStepView::Retry,
            ReachStep::Fail(e) => ReachStepView::Fail(e@),
        }
    }
}

/// The error of a daemon that did not come up.
pub open spec fn not_up(path: Seq<char>, why: Seq<char>) -> crate::error::ErrorView {
    crate::error::ErrorView::Daemon("daemon did not come up at "@ + path + ": "@ + why)
}

/// The endpoint is a socket file.
pub open spec fn is_socket_file(unix: bool, path: Seq<char>) -> bool {
    unix && path.len() > 0 && path[0] == '/'
}

/// One attempt to connect: the state after it and what to do next. Only a refused
/// connection proves that the socket file is stale (bound once, no listener
/// anymore); removing it on any other error could race with a live daemon that
/// just bound its socket.
pub open spec fn reach_stepped(
    v: ReachView,
    unix: bool,
    path: Seq<char>,
    a: Attempt,
    now: u64,
) -> (ReachView, ReachStepView) {
    match (v, a) {
        (_, Attempt::Connected) => (v, ReachStepView::Use),
        (ReachView::First, _) => if is_socket_file(unix, path) {
            (ReachView::Second, ReachStepView::Connect)
        } else {
            (ReachView::Starting, ReachStepView::Spawn)
        },
        (ReachView::Second, Attempt::Refused(_)) => (
            ReachView::Starting,
            ReachStepView::RemoveAndSpawn,
        ),
        (ReachView::Second, Attempt::Failed(_)) => (ReachView::Starting, ReachStepView::Spawn),
        (ReachView::Starting, _) => (v, ReachStepView::Spawn),
        (ReachView::Waiting(deadline), Attempt::Refused(e)) => (
            v,
            if now >= deadline {
                ReachStepView::Fail(not_up(path, e@))
            } else {
                ReachStepView::Retry
            },
        ),
        (ReachView::Waiting(deadline), Attempt::Failed(e)) => (
            v,
            if now >= deadline {
                ReachStepView::Fail(not_up(path, e@))
            } else {
                ReachStepView::Retry
            },
        ),
    }
}

#[derive(Debug)]
enum ReachStage {
    First,
    Second,
    Starting,
    Waiting(u64),
}

/// Reaches the daemon, starting it if it is not running yet.
#[derive(Debug)]
pub struct Reach {
    unix: bool,
    path: String,
    stage: ReachStage,
}

impl Reach {
    /// How far it has come.
    pub closed spec fn stage(&self) -> ReachView {
        match self.stage {
            ReachStage::First => ReachView::First,
            ReachStage::Second => ReachView::Second,
            ReachStage::Starting => ReachView::Starting,
            ReachStage::Waiting(t) => ReachView::Waiting(t as nat),
        }
    }

    /// Whether the platform has socket files.
    pub closed spec fn unix(&self) -> bool {
        self.unix
    }

    /// The endpoint.
    pub closed spec fn path(&self) -> Seq<char> {
        self.path@
    }

    /// Start with an attempt to connect.
    pub fn start(unix: bool, path: &str) -> (r: (Reach, ReachStep))
        ensures
            r.0.stage() is First,
            r.0.unix() == unix,
            r.0.path() == path@,
            r.1@ is Connect,
    {
        (Reach { unix, path: path.to_owned(), stage: ReachStage::First }, ReachStep::Connect)
    }

    /// Take the result of an attempt to connect.
    pub fn tried(&mut self, a: Attempt, now: u64) -> (r: ReachStep)
        ensures
            final(self).unix() == old(self).unix(),
            final(self).path() == old(self).path(),
            (final(self).stage(), r@) == reach_stepped(
                old(self).stage(),
                old(self).unix(),
                old(self).path(),
                a,
                now,
            ),
    {
        let why = match a {
            Attempt::Connected => return ReachStep::Use,
            Attempt::Refused(e) => {
                if let ReachStage::Second = self.stage {
                    self.stage = ReachStage::Starting;
                    return ReachStep::RemoveAndSpawn;
                }
                e
            },
            Attempt::Failed(e) => e,
        };
        match self.stage {
            ReachStage::First => {
                let v = str_chars(self.path.as_str());
                if self.unix && v.len() > 0 && v[0] == '/' {
                    self.stage = ReachStage::Second;
                    ReachStep::Connect
                } else {
                    self.stage = ReachStage::Starting;
                    ReachStep::Spawn
                }
            },
            ReachStage::Second => {
                self.stage = ReachStage::Starting;
                ReachStep::Spawn
            },
            ReachStage::Starting => ReachStep::Spawn,
            ReachStage::Waiting(deadline) => {
                if now >= deadline {
                    let mut s = "daemon did not come up at ".to_owned();
                    s.append(self.path.as_str());
                    s.append(": ");
                    s.append(why.as_str());
                    ReachStep::Fail(Error::Daemon(s))
                } else {
                    ReachStep::Retry
                }
            },
        }
    }

    /// The daemon was started.
    pub fn spawned(&mut self, now: u64) -> (r: ReachStep)
        ensures
            final(self).unix() == old(self).unix(),
            final(self).path() == old(self).path(),
            final(self).stage() == ReachView::Waiting(crate::serve::later(now, SPAWN_WAIT_MS)),
            r@ is Connect,
    {
        self.stage = ReachStage::Waiting(crate::serve::later_ms(now, SPAWN_WAIT_MS));
        ReachStep::Connect
    }
}

/// The socket file of a live daemon is never removed: it is removed only after a
/// connection to it was refused.
pub proof fn law_only_stale_sockets_are_removed(
    v: ReachView,
    unix: bool,
    path: Seq<char>,
    a: Attempt,
    now: u64,
)
    ensures
        reach_stepped(v, unix, path, a, now).1 is RemoveAndSpawn ==> a is Refused,
{
}

// -- ping --------------------------------------------------------------------------------------

/// What came back on a ping.
#[derive(Debug)]
pub enum PingReply {
    Message(EventMessage),
    /// The daemon closed the connection.
    Closed,
    /// The reply could not be read.
    Bad(String),
    /// Nothing within [`PING_WAIT_MS`].
    TimedOut,
}

/// The daemon's pid, by its reply to a ping; `shown` describes a reply of another
/// kind.
pub fn ping_result(reply: PingReply, shown: &str) -> (r: Result<u32, Error>)
    ensures
        match reply {
            PingReply::Message(EventMessage::Pong(p)) => r == Ok::<u32, Error>(p.pid),
            PingReply::Message(_) | PingReply::Closed => r matches Err(e) && e@
                == crate::error::ErrorView::Protocol("unexpected reply: "@ + shown@),
            PingReply::Bad(m) => r matches Err(e) && e@ == crate::error::ErrorView::Ipc(m@),
            PingReply::TimedOut => r matches Err(e) && e@ == crate::error::ErrorView::Ipc(
                "ping timed out"@,
            ),
        },
{
    match reply {
        PingReply::Message(EventMessage::Pong(p)) => Ok(p.pid),
        PingReply::Message(_) | PingReply::Closed => {
            let mut s = "unexpected reply: ".to_owned();
            s.append(shown);
            Err(Error::Protocol(s))
        },
        PingReply::Bad(m) => Err(Error::Ipc(m)),
        PingReply::TimedOut => Err(Error::Ipc("ping timed out".to_owned())),
    }
}

/// The error of a ping to a daemon that is not running.
pub fn not_running(path: &str, reason: &str) -> (r: Error)
    ensures
        r@ == crate::error::ErrorView::Daemon(
            "daemon not running at "@ + path@ + ": "@ + reason@,
        ),
{
    let mut s = "daemon not running at ".to_owned();
    s.append(path);
    s.append(": ");
    s.append(reason);
    Error::Daemon(s)
}

// -- one run -----------------------------------------------------------------------------------

/// Result of a client-side run.
#[derive(Debug)]
pub struct RunReport {
    pub code: i32,
    pub cwd: Option<String>,
    pub timed_out: bool,
    /// Daemon/serve-side failure reason (connect, auth, deploy, ...), when the
    /// daemon reported one alongside a non-zero code.
    pub error: Option<String>,
}

impl Clone for RunReport {
    fn clone(&self) -> (r: RunReport)
        ensures
            r@ == self@,
    {
        RunReport {
            code: self.code,
            cwd: copy_opt(&self.cwd),
            timed_out: self.timed_out,
            error: copy_opt(&self.error),
        }
    }
}

/// What a run's result says.
pub struct RunReportView {
    pub code: i32,
    pub cwd: Option<Seq<char>>,
    pub timed_out: bool,
    pub error: Option<Seq<char>>,
}

impl View for RunReport {
    type V = RunReportView;

    open spec fn view(&self) -> RunReportView {
        RunReportView {
            code: self.code,
            cwd: crate::text::opt_text(self.cwd),
            timed_out: self.timed_out,
            error: crate::text::opt_text(self.error),
        }
    }
}

/// What of a report concerns the client.
pub open spec fn for_client(rep: crate::proto::ReportView) -> RunReportView {
    RunReportView {
        code: rep.code,
        cwd: rep.cwd,
        timed_out: rep.timed_out,
        error: rep.error,
    }
}

impl From<ExitReport> for RunReport {
    fn from(r: ExitReport) -> (s: RunReport) {
        RunReport { code: r.code, cwd: r.cwd, timed_out: r.timed_out, error: r.error }
    }
}

impl vstd::std_specs::convert::FromSpecImpl<ExitReport> for RunReport {
    open spec fn obeys_from_spec() -> bool {
        true
    }

    open spec fn from_spec(r: ExitReport) -> RunReport {
        RunReport { code: r.code, cwd: r.cwd, timed_out: r.timed_out, error: r.error }
    }
}

/// What the client waits for.
#[derive(Debug)]
pub enum RunEvent {
    /// Data from the local stdin.
    Stdin(Vec<u8>),
    /// The local stdin ended.
    StdinEnd,
    /// The local stdin cannot be read.
    StdinFailed,
    /// A message from the daemon.
    Message(EventMessage),
    /// The daemon closed the connection.
    Closed,
    Signal(Signal),
    /// No more signals will come.
    SignalsEnd,
}

/// What the client does.
#[derive(Debug)]
pub enum RunAction {
    /// Send a message to the daemon; a failure ends the run.
    Send(ExecMessage),
    /// Send a message to the daemon; a failure is ignored.
    SendIfPossible(ExecMessage),
    Stdout(Vec<u8>),
    Stderr(Vec<u8>),
    Nothing,
    Done(RunReport),
    Fail(Error),
}

/// What the client does.
pub enum RunActionView {
    Send(crate::proto::ExecMessageView),
    SendIfPossible(crate::proto::ExecMessageView),
    Stdout(Seq<u8>),
    Stderr(Seq<u8>),
    Nothing,
    Done(RunReportView),
    Fail(crate::error::ErrorView),
}

impl View for RunAction {
    type V = RunActionView;

    open spec fn view(&self) -> RunActionView {
        match self {
            RunAction::Send(m) => RunActionView::Send(m@),
            RunAction::SendIfPossible(m) => RunActionView::SendIfPossible(m@),
            RunAction::Stdout(d) => RunActionView::Stdout(d@),
            RunAction::Stderr(d) => RunActionView::Stderr(d@),
            RunAction::Nothing => RunActionView::Nothing,
            RunAction::Done(r) => RunActionView::Done(r@),
            RunAction::Fail(e) => RunActionView::Fail(e@),
        }
    }
}

/// State of a run.
pub struct RunView {
    pub stdin_open: bool,
    pub signals_open: bool,
    /// When Ctrl+C was last pressed.
    pub last_int: Option<nat>,
}

/// The result of a forced local exit.
pub open spec fn forced_exit() -> RunReportView {
    RunReportView { code: FORCED_EXIT_CODE, cwd: None, timed_out: false, error: None }
}

/// The previous Ctrl+C was pressed less than the window ago.
pub open spec fn pressed_twice(last: Option<nat>, now: u64) -> bool {
    match last {
        Some(t) => now - t < FORCE_EXIT_WINDOW_MS,
        None => false,
    }
}

/// One event: the state after it and what the client does.
pub open spec fn run_stepped(v: RunView, ev: RunEvent, now: u64) -> (RunView, RunActionView) {
    match ev {
        RunEvent::Stdin(d) => (
            v,
            RunActionView::Send(crate::proto::ExecMessageView::StdinData(d@)),
        ),
        RunEvent::StdinEnd => (
            RunView { stdin_open: false, ..v },
            RunActionView::Send(crate::proto::ExecMessageView::StdinEof),
        ),
        RunEvent::StdinFailed => (
            RunView { stdin_open: false, ..v },
            RunActionView::SendIfPossible(crate::proto::ExecMessageView::StdinEof),
        ),
        RunEvent::Message(EventMessage::Stdout(d)) => (v, RunActionView::Stdout(d@)),
        RunEvent::Message(EventMessage::Stderr(d)) => (v, RunActionView::Stderr(d@)),
        RunEvent::Message(EventMessage::Exit(rep)) => (
            v,
            RunActionView::Done(for_client(rep@)),
        ),
        RunEvent::Message(EventMessage::Pong(_)) => (v, RunActionView::Nothing),
        RunEvent::Closed => (
            v,
            RunActionView::Fail(
                crate::error::ErrorView::Daemon("daemon closed the connection before exit"@),
            ),
        ),
        RunEvent::Signal(Signal::Int) => if pressed_twice(v.last_int, now) {
            (v, RunActionView::Done(forced_exit()))
        } else {
            (
                RunView { last_int: Some(now as nat), ..v },
                RunActionView::Send(crate::proto::ExecMessageView::Signal(Signal::Int)),
            )
        },
        RunEvent::Signal(s) => (
            v,
            RunActionView::Send(crate::proto::ExecMessageView::Signal(s)),
        ),
        RunEvent::SignalsEnd => (RunView { signals_open: false, ..v }, RunActionView::Nothing),
    }
}

/// One run against the daemon: forwards streams and signals until the report.
#[derive(Debug)]
pub struct Run {
    stdin_open: bool,
    signals_open: bool,
    last_int: Option<u64>,
}

impl View for Run {
    type V = RunView;

    closed spec fn view(&self) -> RunView {
        RunView {
            stdin_open: self.stdin_open,
            signals_open: self.signals_open,
            last_int: crate::text::opt_nat(self.last_int),
        }
    }
}

impl Run {
    pub fn new() -> (r: Run)
        ensures
            r@ == (RunView { stdin_open: true, signals_open: true, last_int: None }),
    {
        Run { stdin_open: true, signals_open: true, last_int: None }
    }

    /// Whether stdin still has to be waited for.
    pub fn stdin_open(&self) -> (r: bool)
        ensures
            r == self@.stdin_open,
    {
        self.stdin_open
    }

    /// Whether signals still have to be waited for.
    pub fn signals_open(&self) -> (r: bool)
        ensures
            r == self@.signals_open,
    {
        self.signals_open
    }

    /// Take one event.
    pub fn step(&mut self, ev: RunEvent, now: u64) -> (r: RunAction)
        ensures
            (final(self)@, r@) == run_stepped(old(self)@, ev, now),
    {
        match ev {
            RunEvent::Stdin(d) => RunAction::Send(ExecMessage::StdinData(d)),
            RunEvent::StdinEnd => {
                self.stdin_open = false;
                RunAction::Send(ExecMessage::StdinEof)
            },
            // Unreadable stdin: tell the daemon it is done.
            RunEvent::StdinFailed => {
                self.stdin_open = false;
                RunAction::SendIfPossible(ExecMessage::StdinEof)
            },
            RunEvent::Message(EventMessage::Stdout(d)) => RunAction::Stdout(d),
            RunEvent::Message(EventMessage::Stderr(d)) => RunAction::Stderr(d),
            RunEvent::Message(EventMessage::Exit(rep)) => RunAction::Done(RunReport::from(rep)),
            RunEvent::Message(EventMessage::Pong(_)) => RunAction::Nothing,
            RunEvent::Closed => RunAction::Fail(
                Error::Daemon("daemon closed the connection before exit".to_owned()),
            ),
            RunEvent::Signal(s) => {
                if s == Signal::Int {
                    if let Some(t) = self.last_int {
                        if now < t || now - t < FORCE_EXIT_WINDOW_MS {
                            return RunAction::Done(
                                RunReport {
                                    code: FORCED_EXIT_CODE,
                                    cwd: None,
                                    timed_out: false,
                                    error: None,
                                },
                            );
                        }
                    }
                    self.last_int = Some(now);
                }
                RunAction::Send(ExecMessage::Signal(s))
            },
            RunEvent::SignalsEnd => {
                self.signals_open = false;
                RunAction::Nothing
            },
        }
    }
}

/// Exit codes pass through: the run ends with exactly the code, directory,
/// timeout mark and error that the daemon reports.
pub proof fn law_report_passes_through(v: RunView, rep: ExitReport, now: u64)
    ensures
        run_stepped(v, RunEvent::Message(EventMessage::Exit(rep)), now).1 == RunActionView::Done(
            for_client(rep@),
        ),
{
}

/// A single Ctrl+C is forwarded and only a second one within the window ends the
/// run locally; presses further apart are all forwarded.
pub proof fn law_two_presses_force_an_exit(v: RunView, t1: u64, t2: u64)
    requires
        t1 <= t2,
        !pressed_twice(v.last_int, t1),
    ensures
        ({
            let (w, a) = run_stepped(v, RunEvent::Signal(Signal::Int), t1);
            let (_, b) = run_stepped(w, RunEvent::Signal(Signal::Int), t2);
            &&& a == RunActionView::Send(crate::proto::ExecMessageView::Signal(Signal::Int))
            &&& t2 - t1 < FORCE_EXIT_WINDOW_MS ==> b == RunActionView::Done(forced_exit())
            &&& t2 - t1 >= FORCE_EXIT_WINDOW_MS ==> b == RunActionView::Send(
                crate::proto::ExecMessageView::Signal(Signal::Int),
            )
        }),
{
}

} // verus!
