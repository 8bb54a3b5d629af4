//! The service: how the daemon is reached and started, what it does between commands and
//! while one runs, when it stops, and what it writes down.

use vstd::prelude::*;
use vstd::utf8::*;

use crate::client::{Attempt, PingReply, Reach, ReachStep};
use crate::daemon::{ActiveCount, IdleAction, Relay, RelayAction, RelayEvent};
use crate::proto::{EventMessage, ExecMessage, Pong};
use crate::text::{dec_int, dec_nat, opt_text};
use crate::Error;

verus! {

// -- reaching the daemon --------------------------------------------------------------------

/// The daemon is tried before anything is started.
pub proof fn law_reach_starts(unix: bool, path: &str, r: (Reach, ReachStep))
    requires
        call_ensures(Reach::start, (unix, path), r),
    ensures
        r.1 is Connect,
        r.0.stage() is First,
        r.0.path() == path@,
        r.0.unix() == unix,
{
}

/// A connection is used as soon as there is one. A first failure is tried once more where
/// the endpoint is a socket file, and leads to a new daemon otherwise; the file is removed
/// only when the second attempt is refused. A daemon that was started is waited for until
/// its time is over, and is then told as missing with the last reason.
pub proof fn law_reach_steps(reach: &mut Reach, a: Attempt, now: u64, r: ReachStep)
    requires
        call_ensures(Reach::tried, (reach, a, now), r),
    ensures
        ({
            let socket = old(reach).unix() && old(reach).path().len() > 0 && old(reach).path()[0]
                == '/';
            &&& a is Connected <==> r is Use
            &&& a is Connected ==> final(reach).stage() == old(reach).stage()
            &&& !(a is Connected) && old(reach).stage() is First && socket ==> r is Connect
                && final(reach).stage() is Second
            &&& !(a is Connected) && old(reach).stage() is First && !socket ==> r is Spawn
                && final(reach).stage() is Starting
            &&& a is Refused && old(reach).stage() is Second ==> r is RemoveAndSpawn
                && final(reach).stage() is Starting
            &&& a is Failed && old(reach).stage() is Second ==> r is Spawn
                && final(reach).stage() is Starting
            &&& r is RemoveAndSpawn ==> a is Refused && old(reach).stage() is Second
            &&& old(reach).stage() matches crate::client::ReachView::Waiting(t) ==> {
                &&& !(a is Connected) && now < t ==> r is Retry
                &&& a matches Attempt::Refused(e) ==> now >= t ==> (r matches ReachStep::Fail(
                    Error::Daemon(w),
                ) && w@ == "daemon did not come up at "@ + old(reach).path() + ": "@ + e@)
                &&& a matches Attempt::Failed(e) ==> now >= t ==> (r matches ReachStep::Fail(
                    Error::Daemon(w),
                ) && w@ == "daemon did not come up at "@ + old(reach).path() + ": "@ + e@)
                &&& final(reach).stage() == old(reach).stage()
            }
            &&& final(reach).path() == old(reach).path()
            &&& final(reach).unix() == old(reach).unix()
        }),
{
}

/// A daemon that was started is tried at once, and for ten seconds.
pub proof fn law_started_daemons_are_awaited(reach: &mut Reach, now: u64, r: ReachStep)
    requires
        call_ensures(Reach::spawned, (reach, now), r),
        now + 10_000 <= u64::MAX,
    ensures
        r is Connect,
        final(reach).stage() == crate::client::ReachView::Waiting((now + 10_000) as nat),
        final(reach).path() == old(reach).path(),
{
}

/// A ping is answered with the pid of the daemon; anything else is an error that says what
/// came instead.
pub proof fn law_pings(
    reply: PingReply,
    shown: &str,
    r: Result<u32, Error>,
    path: &str,
    why: &str,
    e: Error,
    pid: u32,
    line: String,
)
    requires
        call_ensures(crate::client::ping_result, (reply, shown), r),
        call_ensures(crate::client::not_running, (path, why), e),
        call_ensures(crate::cli::status_line, (pid,), line),
    ensures
        r matches Ok(n) ==> reply == PingReply::Message(EventMessage::Pong(Pong { pid: n })),
        reply matches PingReply::Message(m) ==> {
            &&& m matches EventMessage::Pong(p) ==> r == Ok::<u32, Error>(p.pid)
            &&& !(m is Pong) ==> (r matches Err(Error::Protocol(w)) && w@ == "unexpected reply: "@
                + shown@)
        },
        reply is Closed ==> (r matches Err(Error::Protocol(w)) && w@ == "unexpected reply: "@
            + shown@),
        reply matches PingReply::Bad(m) ==> (r matches Err(Error::Ipc(w)) && w@ == m@),
        reply is TimedOut ==> (r matches Err(Error::Ipc(w)) && w@ == "ping timed out"@),
        e matches Error::Daemon(w) && w@ == "daemon not running at "@ + path@ + ": "@ + why@,
        line@ == "daemon running (pid "@ + dec_nat(pid as nat) + ")"@,
{
}

// -- the daemon -----------------------------------------------------------------------------

/// Between commands a ping is answered with the daemon's pid, a request is run as it came,
/// and input is ignored.
pub proof fn law_idle_messages(m: ExecMessage, pid: u32, r: IdleAction)
    requires
        call_ensures(crate::daemon::handle_idle, (m, pid), r),
    ensures
        m is Ping ==> r == IdleAction::Reply(Pong { pid }),
        m matches ExecMessage::Exec(req) ==> r == IdleAction::Run(req),
        m is StdinData || m is StdinEof || m is Signal ==> r is Ignore,
{
}

/// A relay reads its client until that is gone.
pub proof fn law_relays_read_the_client(
    relay: &mut Relay,
    ev: RelayEvent,
    a: RelayAction,
    before: bool,
    after: bool,
    fresh: Relay,
    first: bool,
    pid: u32,
)
    requires
        call_ensures(Relay::reader_open, (&*old(relay),), before),
        call_ensures(Relay::step, (relay, ev), a),
        call_ensures(Relay::reader_open, (&*final(relay),), after),
        call_ensures(Relay::new, (pid,), fresh),
        call_ensures(Relay::reader_open, (&fresh,), first),
    ensures
        first,
        ev is ClientGone ==> !after,
        !(ev is ClientGone) ==> after == before,
{
}

/// While a command runs: a client that is gone closes the input and no more; a second
/// request, frames that cannot be read and a lost engine end the command with the reason;
/// a ping is answered; and the engine's outcome or its error is the end.
pub proof fn law_relay_endings(relay: &mut Relay, ev: RelayEvent, a: RelayAction)
    requires
        call_ensures(Relay::step, (relay, ev), a),
    ensures
        ev is ClientGone ==> (a matches RelayAction::Forward(i) && i is StdinEof),
        ev matches RelayEvent::ClientBad(e) ==> (a matches RelayAction::Conclude(Err(w)) && w@
            == e@),
        ev is InputLost ==> (a matches RelayAction::Conclude(Err(w)) && w@
            == "engine died unexpectedly"@),
        ev matches RelayEvent::Message(ExecMessage::Exec(req)) ==> (
        a matches RelayAction::CloseAndConclude(w) && w@
            == "nested exec on one connection is not supported"@),
        ev matches RelayEvent::Message(ExecMessage::Ping) ==> a == RelayAction::Reply(
            Pong { pid: old(relay).own_pid() },
        ),
        ev matches RelayEvent::Engine(Ok(o)) ==> (a matches RelayAction::Conclude(Ok(x))
            && x.exit_code == o.exit_code && opt_text(x.new_cwd) == opt_text(o.new_cwd)
            && opt_text(x.new_state) == opt_text(o.new_state) && opt_text(x.error) == opt_text(
            o.error,
        ) && x.timed_out == o.timed_out),
        ev matches RelayEvent::Engine(Err(e)) ==> (a matches RelayAction::Conclude(Err(w)) && w@
            == e@.text()),
        final(relay).own_pid() == old(relay).own_pid(),
{
}

/// The pid that a relay answers with is the one it was made with.
pub proof fn law_relays_know_their_pid(pid: u32, relay: Relay)
    requires
        call_ensures(Relay::new, (pid,), relay),
    ensures
        relay.own_pid() == pid,
        relay.open(),
{
}

/// A connection is used again when it is known and open.
pub proof fn law_reused_connections(known: bool, closed: bool, r: bool, size: u64, old_log: bool)
    requires
        call_ensures(crate::daemon::can_reuse, (known, closed), r),
        call_ensures(crate::daemon::needs_rotation, (size,), old_log),
    ensures
        r <==> known && !closed,
        old_log <==> size > 10485760,
{
}

// -- idling ---------------------------------------------------------------------------------

/// Connections are counted: each that begins adds one, each that ends takes one away, and
/// the last is noticed.
pub proof fn law_connections_are_counted(
    c: &mut ActiveCount,
    d: &mut ActiveCount,
    last: bool,
    fresh: ActiveCount,
    n: usize,
    before: usize,
    after: usize,
    less: usize,
)
    requires
        old(c)@ < usize::MAX,
        old(d)@ > 0,
        call_ensures(ActiveCount::new, (), fresh),
        call_ensures(ActiveCount::active, (&fresh,), n),
        call_ensures(ActiveCount::active, (&*old(c),), before),
        call_ensures(ActiveCount::acquire, (c,), ()),
        call_ensures(ActiveCount::active, (&*final(c),), after),
        old(d)@ == final(c)@,
        call_ensures(ActiveCount::release, (d,), last),
        call_ensures(ActiveCount::active, (&*final(d),), less),
    ensures
        n == 0,
        after == before + 1,
        less == before,
        last <==> before == 0,
{
}

/// The daemon stops after its idle time, counted from now, only while nobody is connected
/// and only when a time is set.
pub proof fn law_idle_deadlines(
    c: &ActiveCount,
    n: usize,
    secs: Option<u64>,
    now: u64,
    r: Option<u64>,
)
    requires
        call_ensures(ActiveCount::active, (c,), n),
        call_ensures(ActiveCount::idle_deadline, (c, secs, now), r),
    ensures
        n > 0 ==> r is None,
        secs is None ==> r is None,
        n == 0 && secs is Some && now + secs->0 * 1000 <= u64::MAX ==> r == Some(
            (now + secs->0 * 1000) as u64,
        ),
        n == 0 && secs is Some && now + secs->0 * 1000 > u64::MAX ==> r == Some(u64::MAX),
{
}

/// Seconds are a thousand milliseconds each, as far as the type goes.
pub proof fn law_seconds(secs: u64, r: u64)
    requires
        call_ensures(crate::cli::timeout_ms, (secs,), r),
    ensures
        secs <= 18446744073709551 ==> r == 1000 * secs,
        secs > 18446744073709551 ==> r == u64::MAX,
{
}

// -- the log --------------------------------------------------------------------------------

/// A command up to three hundred bytes is logged whole; a longer one by the longest part
/// in front that fits, with its length.
pub proof fn law_logged_commands(s: &str, cut: &str, a: String, b: String)
    requires
        call_ensures(crate::daemon::abbreviate, (s,), a),
        call_ensures(crate::serve::abbrev, (s,), b),
        call_ensures(crate::proto::truncate_utf8, (s, 300usize), cut),
    ensures
        ({
            let n = encode_utf8(s@).len();
            &&& n <= 300 ==> a@ == crate::text::debug_text(s@) && b@ == s@
            &&& n > 300 ==> {
                let tail = "...(total "@ + dec_nat(n) + " bytes)"@;
                &&& a@ == crate::text::debug_text(cut@) + tail
                &&& b@ == cut@ + tail
                &&& encode_utf8(cut@).len() <= 300
            }
        }),
{
    let n = encode_utf8(s@).len();
    crate::text::law_utf8_prefix_is_longest(s@, 300);
    let tail = "...(total "@ + dec_nat(n) + " bytes)"@;
    if n > 300 {
        let shown = crate::text::debug_text(cut@);
        assert(shown + "...(total "@ + dec_nat(n) + " bytes)"@ =~= shown + tail);
        assert(cut@ + "...(total "@ + dec_nat(n) + " bytes)"@ =~= cut@ + tail);
    }
}

/// The log line of a command names its host, session, directory, code, time, the sizes of
/// both streams and the command.
pub proof fn law_log_lines(
    host: &str,
    command: &str,
    x: &crate::daemon::Execution,
    r: String,
    shown: String,
)
    requires
        call_ensures(crate::daemon::log_line, (host, command, x), r),
        call_ensures(crate::daemon::abbreviate, (command,), shown),
    ensures
        r@ == "exec host="@ + host@ + " session="@ + x.session@ + " cwd="@ + (match x.cwd {
            Some(c) => c@,
            None => "~"@,
        }) + " rc="@ + dec_int(x.code as int) + " dur="@ + dec_nat(x.millis as nat) + "ms out="@
            + dec_nat(x.stdout_bytes as nat) + "B err="@ + dec_nat(x.stderr_bytes as nat)
            + "B cmd="@ + shown@,
{
}

// -- what is waited for ---------------------------------------------------------------------

/// Signals and local input are waited for until they end, the peer of the server until its reader is done,
/// and input for a remote command until there is no more; nothing else ends that.
pub proof fn law_what_is_waited_for(
    run: &mut crate::client::Run,
    ev: crate::client::RunEvent,
    now: u64,
    a: crate::client::RunAction,
    before: bool,
    after: bool,
    l: &mut crate::serve::ServeLoop,
    sev: crate::serve::ServeEvent,
    step: crate::serve::ServeStep,
    sbefore: bool,
    safter: bool,
    remote: &mut crate::remote::RemoteRun,
    open: bool,
    ibefore: bool,
    iafter: bool,
)
    requires
        old(l)@.wf(),
        call_ensures(crate::client::Run::signals_open, (&*old(run),), before),
        call_ensures(crate::client::Run::step, (run, ev, now), a),
        call_ensures(crate::client::Run::signals_open, (&*final(run),), after),
        call_ensures(crate::client::Run::stdin_open, (&*old(run),), ibefore),
        call_ensures(crate::client::Run::stdin_open, (&*final(run),), iafter),
        call_ensures(crate::serve::ServeLoop::reader_open, (&*old(l),), sbefore),
        call_ensures(crate::serve::ServeLoop::step, (l, sev, now), step),
        call_ensures(crate::serve::ServeLoop::reader_open, (&*final(l),), safter),
        call_ensures(crate::remote::RemoteRun::input_closed, (remote,), ()),
        call_ensures(crate::remote::RemoteRun::input_open, (&*final(remote),), open),
    ensures
        after == (before && !(ev is SignalsEnd)),
        iafter == (ibefore && !(ev is StdinEnd) && !(ev is StdinFailed)),
        safter == (sbefore && !(sev is ReaderDone)),
        !open,
{
}

} // verus!
