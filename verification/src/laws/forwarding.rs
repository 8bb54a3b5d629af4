//! Streams and signals: what goes in at one end comes out at the other, byte for
//! byte.

use vstd::prelude::*;

use crate::client::{Run, RunAction, RunEvent};
use crate::daemon::{Relay, RelayAction, RelayEvent};
use crate::exec::{Effect, Engine, EngineEvent, Order};
use crate::proto::{
    EventDecoder, EventFrame, EventMessage, ExecFrame, ExecMessage, ExitReport, Signal,
};
use crate::remote::{Batch, InputEvent, OutputEvent, RemoteRun};
use crate::serve::Route;

verus! {

// -- output of the remote command -------------------------------------------------------

/// The messages that carry output.
pub open spec fn streams_of(ms: Seq<EventMessage>) -> Seq<EventMessage> {
    ms.filter(|m: EventMessage| m is Stdout || m is Stderr)
}

/// The two events carry the same bytes on the same stream.
pub open spec fn same_output(m: EventMessage, o: OutputEvent) -> bool {
    match m {
        EventMessage::Stdout(d) => o matches OutputEvent::Stdout(x) && x@ == d@,
        EventMessage::Stderr(d) => o matches OutputEvent::Stderr(x) && x@ == d@,
        _ => false,
    }
}

/// The command's output is forwarded whole: of the messages in front of the first
/// report, every stream message becomes one output event with all its bytes, in
/// order, and nothing else is forwarded. The run is over exactly when there is a
/// report, and keeps that report.
pub proof fn law_output_is_forwarded_whole(
    run: &mut RemoteRun,
    ms: Vec<EventMessage>,
    r: Batch,
    end: int,
)
    requires
        call_ensures(RemoteRun::messages, (run, ms), r),
        0 <= end <= ms@.len(),
        forall|i: int| 0 <= i < end ==> !(#[trigger] ms@[i] is Exit),
        end < ms@.len() ==> ms@[end] is Exit,
    ensures
        ({
            let streams = streams_of(ms@.take(end));
            &&& r.output@.len() == streams.len()
            &&& forall|i: int|
                0 <= i < streams.len() ==> same_output(#[trigger] streams[i], r.output@[i])
            &&& r.done == (end < ms@.len())
            &&& end < ms@.len() ==> final(run)@.report == Some(ms@[end]->Exit_0@)
            &&& end == ms@.len() ==> final(run)@.report is None
        }),
{
    let views = crate::remote::message_views(ms@);
    let front = ms@.take(end);
    let streams = streams_of(front);
    lemma_streams(front);
    let head = crate::remote::message_views(front);
    assert(views =~= head + views.skip(end));
    crate::remote::law_batching(head, views.skip(end));
    if end < ms@.len() {
        assert(views.skip(end)[0] == ms@[end]@);
        assert(crate::remote::batch_output(views.skip(end)) =~= Seq::empty());
        assert(crate::remote::batch_output(head) + Seq::<crate::remote::OutputView>::empty()
            =~= crate::remote::batch_output(head));
    } else {
        assert(views.skip(end) =~= Seq::empty());
        assert(head + Seq::<crate::proto::EventMessageView>::empty() =~= head);
        assert(views =~= head);
    }
    let out = crate::remote::output_views(r.output@);
    assert(out =~= crate::remote::batch_output(head));
    assert forall|i: int| 0 <= i < streams.len() implies same_output(
        #[trigger] streams[i],
        r.output@[i],
    ) by {
        assert(out[i] == r.output@[i]@);
    }
}

proof fn lemma_streams(front: Seq<EventMessage>)
    requires
        forall|i: int| 0 <= i < front.len() ==> !(#[trigger] front[i] is Exit),
    ensures
        ({
            let streams = streams_of(front);
            let out = crate::remote::batch_output(crate::remote::message_views(front));
            &&& crate::remote::batch_report(crate::remote::message_views(front)) is None
            &&& out.len() == streams.len()
            &&& forall|i: int|
                0 <= i < streams.len() ==> match #[trigger] streams[i] {
                    EventMessage::Stdout(d) => out[i] == crate::remote::OutputView::Stdout(d@),
                    EventMessage::Stderr(d) => out[i] == crate::remote::OutputView::Stderr(d@),
                    _ => false,
                }
        }),
    decreases front.len(),
{
    reveal(Seq::filter);
    let views = crate::remote::message_views(front);
    if front.len() == 0 {
        assert(views =~= Seq::empty());
    } else {
        let most = front.drop_last();
        let last = front.last();
        assert forall|i: int| 0 <= i < most.len() implies !(#[trigger] most[i] is Exit) by {
            assert(most[i] == front[i]);
        }
        assert(!(front[front.len() - 1] is Exit));
        lemma_streams(most);
        let mv = crate::remote::message_views(most);
        assert(views =~= mv + seq![last@]);
        crate::remote::law_batching(mv, seq![last@]);
        let one = seq![last@];
        assert(one.skip(1) =~= Seq::empty());
        let tail = crate::remote::batch_output(one.skip(1));
        assert(tail =~= Seq::empty());
        match last {
            EventMessage::Stdout(d) => {
                assert(crate::remote::batch_output(one)
                    =~= seq![crate::remote::OutputView::Stdout(d@)]);
            },
            EventMessage::Stderr(d) => {
                assert(crate::remote::batch_output(one)
                    =~= seq![crate::remote::OutputView::Stderr(d@)]);
            },
            _ => {
                assert(crate::remote::batch_output(one) =~= Seq::empty());
            },
        }
        let out = crate::remote::batch_output(views);
        let before = crate::remote::batch_output(mv);
        assert(crate::remote::batch_report(one.skip(1)) is None);
        assert(crate::remote::batch_report(one) is None);
        assert(out =~= before + crate::remote::batch_output(one));
        if last is Stdout || last is Stderr {
            assert(streams_of(front) =~= streams_of(most).push(last));
        } else {
            assert(streams_of(front) =~= streams_of(most));
        }
        assert forall|i: int| 0 <= i < streams_of(front).len() implies match #[trigger] streams_of(
            front,
        )[i] {
            EventMessage::Stdout(d) => out[i] == crate::remote::OutputView::Stdout(d@),
            EventMessage::Stderr(d) => out[i] == crate::remote::OutputView::Stderr(d@),
            _ => false,
        } by {
            if i < before.len() {
                assert(streams_of(front)[i] == streams_of(most)[i]);
                assert(out[i] == before[i]);
            }
        }
    }
}

/// One stream message alone is forwarded as it is.
pub proof fn law_one_message_one_event(run: &mut RemoteRun, ms: Vec<EventMessage>, r: Batch)
    requires
        call_ensures(RemoteRun::messages, (run, ms), r),
        ms@.len() == 1,
        ms@[0] is Stdout || ms@[0] is Stderr,
    ensures
        r.output@.len() == 1,
        same_output(ms@[0], r.output@[0]),
        !r.done,
{
    reveal(Seq::filter);
    law_output_is_forwarded_whole(run, ms, r, 1);
    assert(ms@.take(1) =~= ms@);
    assert(ms@.drop_last() =~= Seq::empty());
    assert(streams_of(ms@) =~= ms@);
}

/// The client hands every byte of an output message to the stream it belongs to.
pub proof fn law_client_prints_output(run: &mut Run, d: Vec<u8>, now: u64, o: RunAction, e: RunAction)
    ensures
        call_ensures(
            Run::step,
            (run, RunEvent::Message(EventMessage::Stdout(d)), now),
            o,
        ) ==> (o matches RunAction::Stdout(x) && x@ == d@) && final(run)@ == old(run)@,
        call_ensures(
            Run::step,
            (run, RunEvent::Message(EventMessage::Stderr(d)), now),
            e,
        ) ==> (e matches RunAction::Stderr(x) && x@ == d@) && final(run)@ == old(run)@,
{
}

// -- input of the remote command --------------------------------------------------------

/// The client sends every byte of its stdin, and its end, to the daemon, and stops
/// reading after the end.
pub proof fn law_client_sends_input(run: &mut Run, d: Vec<u8>, now: u64, r: RunAction)
    ensures
        call_ensures(Run::step, (run, RunEvent::Stdin(d), now), r) ==> {
            &&& r matches RunAction::Send(ExecMessage::StdinData(x)) && x@ == d@
            &&& final(run)@ == old(run)@
        },
        call_ensures(Run::step, (run, RunEvent::StdinEnd, now), r) ==> {
            &&& r matches RunAction::Send(m) && m is StdinEof
            &&& !final(run)@.stdin_open
        },
        call_ensures(Run::step, (run, RunEvent::StdinFailed, now), r) ==> {
            &&& r matches RunAction::SendIfPossible(m) && m is StdinEof
            &&& !final(run)@.stdin_open
        },
{
}

/// The daemon relays every byte of the client's stdin, its end and its signals to
/// the engine, answers pings itself, and goes on reading.
pub proof fn law_daemon_relays_input(
    relay: &mut Relay,
    d: Vec<u8>,
    s: Signal,
    r: RelayAction,
)
    ensures
        call_ensures(
            Relay::step,
            (relay, RelayEvent::Message(ExecMessage::StdinData(d))),
            r,
        ) ==> (r matches RelayAction::Stdin(x) && x@ == d@) && final(relay).open() == old(relay).open(),
        call_ensures(Relay::step, (relay, RelayEvent::Message(ExecMessage::StdinEof)), r) ==> (
        r matches RelayAction::Forward(e) && e is StdinEof) && final(relay).open() == old(relay).open(),
        call_ensures(Relay::step, (relay, RelayEvent::Message(ExecMessage::Signal(s))), r) ==> (
        r matches RelayAction::Forward(InputEvent::Signal(x)) && x == s) && final(relay).open()
            == old(relay).open(),
        call_ensures(Relay::step, (relay, RelayEvent::Message(ExecMessage::Ping)), r) ==> (
        r matches RelayAction::Reply(p) && p.pid == old(relay).own_pid()),
        call_ensures(Relay::step, (relay, RelayEvent::ClientGone), r) ==> (
        r matches RelayAction::Forward(e) && e is StdinEof) && !final(relay).open(),
{
}

/// What the engine gets goes to the remote server as it is.
pub proof fn law_engine_input_is_sent(run: &RemoteRun, d: Vec<u8>, s: Signal, m: ExecMessage)
    ensures
        call_ensures(RemoteRun::input, (run, InputEvent::Stdin(d)), m) ==> (
        m matches ExecMessage::StdinData(x) && x@ == d@),
        call_ensures(RemoteRun::input, (run, InputEvent::StdinEof), m) ==> m is StdinEof,
        call_ensures(RemoteRun::input, (run, InputEvent::Signal(s)), m) ==> m
            == ExecMessage::Signal(s),
{
}

/// The remote server hands every byte of stdin to the child, closes it at the end,
/// passes signals on, answers pings with its own pid and takes no second request.
pub proof fn law_server_routes_input(
    d: Vec<u8>,
    s: Signal,
    req: crate::proto::ExecRequest,
    pid: u32,
    r: Route,
)
    ensures
        call_ensures(crate::serve::route, (ExecMessage::StdinData(d), pid), r) ==> (
        r matches Route::Stdin(x) && x@ == d@),
        call_ensures(crate::serve::route, (ExecMessage::StdinEof, pid), r) ==> r is StdinEof,
        call_ensures(crate::serve::route, (ExecMessage::Signal(s), pid), r) ==> r
            == Route::Signal(s),
        call_ensures(crate::serve::route, (ExecMessage::Ping, pid), r) ==> (
        r matches Route::Reply(p) && p.pid == pid),
        call_ensures(crate::serve::route, (ExecMessage::Exec(req), pid), r) ==> r is Drop,
{
}

/// The first frame is the request, with all it holds.
pub proof fn law_server_takes_the_request(
    req: crate::proto::ExecRequest,
    shown: &str,
    r: Result<crate::proto::ExecRequest, String>,
)
    requires
        call_ensures(
            crate::serve::first_request,
            (crate::serve::FirstEvent::Message(ExecMessage::Exec(req)), shown),
            r,
        ),
    ensures
        r matches Ok(q) && {
            &&& q.host@ == req.host@
            &&& q.command@ == req.command@
            &&& q.args@.len() == req.args@.len()
            &&& forall|i: int| 0 <= i < req.args@.len() ==> #[trigger] q.args@[i]@ == req.args@[i]@
            &&& crate::text::opt_text(q.cwd) == crate::text::opt_text(req.cwd)
            &&& crate::text::opt_text(q.state) == crate::text::opt_text(req.state)
            &&& crate::text::opt_text(q.session) == crate::text::opt_text(req.session)
            &&& q.timeout_ms == req.timeout_ms
        },
{
    if let Ok(q) = r {
        lemma_same_texts(q.args@, req.args@);
    }
}

/// Anything but a request in the first frame is refused, and the reason says what came.
pub proof fn law_server_refuses_the_rest(
    ev: crate::serve::FirstEvent,
    shown: &str,
    r: Result<crate::proto::ExecRequest, String>,
)
    requires
        call_ensures(crate::serve::first_request, (ev, shown), r),
    ensures
        ev matches crate::serve::FirstEvent::Message(m) ==> !(m is Exec) ==> (r matches Err(w)
            && w@ == "first frame must be Exec, got "@ + shown@),
        ev is Closed ==> (r matches Err(w) && w@ == "stdin closed before Exec frame"@),
        ev matches crate::serve::FirstEvent::Bad(e) ==> (r matches Err(w) && w@
            == "bad Exec frame: "@ + e@),
        ev is TimedOut ==> (r matches Err(w) && w@ == "timed out waiting for Exec frame"@),
{
}

/// Lists of the same texts.
pub proof fn lemma_same_texts(a: Seq<String>, b: Seq<String>)
    requires
        crate::text::texts(a) == crate::text::texts(b),
    ensures
        a.len() == b.len(),
        forall|i: int| 0 <= i < b.len() ==> #[trigger] a[i]@ == b[i]@,
{
    assert(crate::text::texts(a).len() == a.len());
    assert(crate::text::texts(b).len() == b.len());
    assert forall|i: int| 0 <= i < b.len() implies #[trigger] a[i]@ == b[i]@ by {
        assert(crate::text::texts(a)[i] == a[i]@);
        assert(crate::text::texts(b)[i] == b[i]@);
    }
}

// -- execution without the remote server --------------------------------------------------

/// stderr passes through whole; stdin data, its end and signals become orders for
/// the channel, and change nothing else.
pub proof fn law_engine_forwards(engine: &mut Engine, d: Vec<u8>, s: Signal, now: u64, r: Effect)
    ensures
        call_ensures(Engine::step, (engine, EngineEvent::Stderr(d), now), r) ==> {
            &&& r.output matches Some(OutputEvent::Stderr(x)) && x@ == d@
            &&& r.order is None && !r.done
            &&& final(engine)@ == old(engine)@
        },
        call_ensures(
            Engine::step,
            (engine, EngineEvent::Input(InputEvent::Stdin(d)), now),
            r,
        ) ==> {
            &&& r.order matches Some(Order::Data(x)) && x@ == d@
            &&& r.output is None && !r.done
            &&& final(engine)@ == old(engine)@
        },
        call_ensures(
            Engine::step,
            (engine, EngineEvent::Input(InputEvent::StdinEof), now),
            r,
        ) ==> {
            &&& r.order matches Some(o) && o is Eof
            &&& r.output is None && !r.done
            &&& final(engine)@ == old(engine)@
        },
        call_ensures(
            Engine::step,
            (engine, EngineEvent::Input(InputEvent::Signal(s)), now),
            r,
        ) ==> {
            &&& match old(engine)@.pgid {
                Some(g) => r.order matches Some(Order::KillGroup(p, x)) && p == g && x == s,
                None => r.order matches Some(Order::Signal(x)) && x == s,
            }
            &&& r.output is None && !r.done
            &&& final(engine)@ == old(engine)@
        },
{
}

/// stdout without a control byte passes through whole, at once, and leaves nothing
/// behind.
pub proof fn law_engine_forwards_stdout(engine: &mut Engine, d: Vec<u8>, now: u64, r: Effect)
    requires
        call_ensures(Engine::step, (engine, EngineEvent::Stdout(d), now), r),
        old(engine)@.filter.wf(),
        !old(engine)@.filter.finished,
        old(engine)@.filter.pending.len() == 0,
        forall|i: int| 0 <= i < d@.len() ==> #[trigger] d@[i] != 0x1c,
    ensures
        d@.len() > 0 ==> (r.output matches Some(OutputEvent::Stdout(x)) && x@ == d@),
        d@.len() == 0 ==> r.output is None,
        r.order is None && !r.done,
        final(engine)@.filter.pending.len() == 0,
        final(engine)@.filter.cwd == old(engine)@.filter.cwd,
        final(engine)@.exit == old(engine)@.exit,
{
    crate::marker::law_data_without_control_bytes(old(engine)@.filter, d@);
}

// -- frames -------------------------------------------------------------------------------

/// A frame on the wire: the kind, the length of the payload in four bytes from the
/// lowest up, the payload.
pub open spec fn framed(b: Seq<u8>, kind: u8, payload: Seq<u8>) -> bool {
    &&& b.len() == 5 + payload.len()
    &&& b[0] == kind
    &&& b[1] + 256 * b[2] + 65536 * b[3] + 16777216 * b[4] == payload.len()
    &&& b.skip(5) == payload
}

proof fn lemma_wire(kind: u8, payload: Seq<u8>)
    requires
        payload.len() <= u32::MAX,
    ensures
        framed(crate::frame::wire(kind, payload), kind, payload),
{
    let b = crate::frame::wire(kind, payload);
    crate::frame::lemma_le_round_trip(payload.len());
    assert(b.skip(5) =~= payload);
}

/// The wire format of the responder's frames.
pub proof fn law_event_frames_on_the_wire(f: EventFrame, r: Result<Vec<u8>, crate::proto::Error>)
    requires
        call_ensures(crate::proto::encode_event_frame, (&f,), r),
    ensures
        ({
            let (kind, payload) = match f {
                EventFrame::Stdout(d) => (0x81u8, d@),
                EventFrame::Stderr(d) => (0x82u8, d@),
                EventFrame::Exit(d) => (0x83u8, d@),
                EventFrame::Pong(d) => (0x84u8, d@),
            };
            match r {
                Ok(b) => framed(b@, kind, payload),
                Err(e) => payload.len() > u32::MAX && (e matches crate::proto::Error::Protocol(w)
                    && w@ == "frame too large: "@ + crate::text::dec_nat(payload.len())),
            }
        }),
{
    if f@.payload().len() <= u32::MAX {
        lemma_wire(f@.kind().byte(), f@.payload());
    }
}

/// The wire format of the initiator's frames.
pub proof fn law_exec_frames_on_the_wire(f: ExecFrame, r: Result<Vec<u8>, crate::proto::Error>)
    requires
        call_ensures(crate::proto::encode_exec_frame, (&f,), r),
    ensures
        ({
            let (kind, payload) = match f {
                ExecFrame::Exec(d) => (1u8, d@),
                ExecFrame::StdinData(d) => (2u8, d@),
                ExecFrame::StdinEof => (3u8, Seq::empty()),
                ExecFrame::Signal(d) => (4u8, d@),
                ExecFrame::Ping => (5u8, Seq::empty()),
            };
            match r {
                Ok(b) => framed(b@, kind, payload),
                Err(e) => payload.len() > u32::MAX && (e matches crate::proto::Error::Protocol(w)
                    && w@ == "frame too large: "@ + crate::text::dec_nat(payload.len())),
            }
        }),
{
    if f@.payload().len() <= u32::MAX {
        lemma_wire(f@.kind().byte(), f@.payload());
    }
}

// -- the report ---------------------------------------------------------------------------

/// The outcome of a run is its report, whole.
pub proof fn law_outcome_is_the_report(
    run: RemoteRun,
    rep: ExitReport,
    r: (Option<String>, Result<crate::remote::ExecOutcome, crate::Error>),
)
    requires
        call_ensures(RemoteRun::finish, (run,), r),
        run@.report == Some(rep@),
    ensures
        r.1 matches Ok(o) && {
            &&& o.exit_code == rep.code
            &&& crate::text::opt_text(o.new_cwd) == crate::text::opt_text(rep.cwd)
            &&& crate::text::opt_text(o.new_state) == crate::text::opt_text(rep.state)
            &&& crate::text::opt_text(o.error) == crate::text::opt_text(rep.error)
            &&& o.timed_out == rep.timed_out
        },
{
}

} // verus!
