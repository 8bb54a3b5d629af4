//! Wire protocol shared by both hops of shell-proxy:
//!
//! - `sp` CLI / MCP client <-> local daemon (named pipe / unix socket)
//! - local daemon <-> remote `sp-serve` (SSH channel stdio)
//!
//! Framing: `[1-byte kind][u32 LE length][payload]`. Control payloads are JSON,
//! stream payloads are raw bytes. [`ExecFrame`] flows from the initiator,
//! [`EventFrame`] flows back. A frame holds the JSON of a control message as
//! bytes; [`ExecRequest`], [`Signal`], [`ExitReport`] and [`Pong`] are the values
//! that those bytes stand for.

use vstd::prelude::*;

use crate::frame::{cut, encode, header_len, Cut, HEADER_LEN, MAX_PAYLOAD};
use crate::text::{
    bytes_between, bytes_from, bytes_owned, copy_opt, copy_strings, fitting_prefix,
    push_hex_byte, push_nat,
};

verus! {

/// Exit code for daemon/serve-side failures before/around the command
/// (connect, auth, deploy, spawn). Shared by every hop.
pub const INTERNAL_ERROR_CODE: i32 = 254;

/// Exit code for timed-out commands, matching timeout(1).
pub const TIMEOUT_EXIT_CODE: i32 = 124;

/// Longest char-boundary-safe prefix of `s` within `max_bytes` bytes.
///
/// Plain slicing panics when the cut lands inside a multibyte char; log
/// truncation must never kill a process.
#[must_use]
pub fn truncate_utf8(s: &str, max_bytes: usize) -> (r: &str)
    ensures
        r@ == crate::text::utf8_prefix(s@, max_bytes as nat),
{
    fitting_prefix(s, max_bytes)
}

// -- errors ------------------------------------------------------------------------

/// Protocol error.
#[derive(Debug)]
pub enum Error {
    Io(String),
    Json(String),
    Protocol(String),
}

/// An error's variant and detail.
pub enum ErrorView {
    Io(Seq<char>),
    Json(Seq<char>),
    Protocol(Seq<char>),
}

impl View for Error {
    type V = ErrorView;

    open spec fn view(&self) -> ErrorView {
        match self {
            Error::Io(e) => ErrorView::Io(e@),
            Error::Json(e) => ErrorView::Json(e@),
            Error::Protocol(e) => ErrorView::Protocol(e@),
        }
    }
}

impl ErrorView {
    /// The error as shown to a user.
    pub open spec fn text(self) -> Seq<char> {
        match self {
            ErrorView::Io(e) => "io error: "@ + e,
            ErrorView::Json(e) => "serialization error: "@ + e,
            ErrorView::Protocol(e) => "protocol error: "@ + e,
        }
    }
}

impl Error {
    /// The error as shown to a user.
    pub fn message(&self) -> (r: String)
        ensures
            r@ == self@.text(),
    {
        let (head, detail) = match self {
            Error::Io(e) => ("io error: ", e),
            Error::Json(e) => ("serialization error: ", e),
            Error::Protocol(e) => ("protocol error: ", e),
        };
        let mut s = head.to_owned();
        s.append(detail.as_str());
        s
    }

    /// The error for a control payload that is not the JSON it should be.
    pub fn bad_payload(reason: &str) -> (r: Error)
        ensures
            r@ == ErrorView::Protocol("bad frame payload: "@ + reason@),
    {
        let mut s = "bad frame payload: ".to_owned();
        s.append(reason);
        Error::Protocol(s)
    }
}

/// The detail of the error for a payload over the limit.
pub open spec fn too_large(n: nat) -> ErrorView {
    ErrorView::Protocol("frame too large: "@ + crate::text::dec_nat(n))
}

/// The detail of the error for an unknown initiator frame kind.
pub open spec fn bad_exec_kind(v: u8) -> ErrorView {
    ErrorView::Protocol("bad exec frame kind "@ + crate::text::hex_byte(v))
}

/// The detail of the error for an unknown responder frame kind.
pub open spec fn bad_event_kind(v: u8) -> ErrorView {
    ErrorView::Protocol("bad event frame kind "@ + crate::text::hex_byte(v))
}

/// The error of a stream that ends inside a payload.
pub open spec fn early_eof() -> ErrorView {
    ErrorView::Io("early eof"@)
}

fn too_large_error(n: usize) -> (r: Error)
    ensures
        r@ == too_large(n as nat),
{
    let mut s = "frame too large: ".to_owned();
    push_nat(&mut s, n as u64);
    Error::Protocol(s)
}

fn bad_kind_error(head: &str, v: u8) -> (r: Error)
    ensures
        r@ == ErrorView::Protocol(head@ + crate::text::hex_byte(v)),
{
    let mut s = head.to_owned();
    push_hex_byte(&mut s, v);
    Error::Protocol(s)
}

// -- values ------------------------------------------------------------------------

/// Signals the initiator can forward to the remote process group.
#[derive(Debug, Clone, Copy, PartialEq, Eq, Structural)]
pub enum Signal {
    Int,
    Term,
    Kill,
    Hup,
}

impl Signal {
    /// Wire name of the signal.
    pub open spec fn name(self) -> Seq<char> {
        match self {
            Signal::Int => "int"@,
            Signal::Term => "term"@,
            Signal::Kill => "kill"@,
            Signal::Hup => "hup"@,
        }
    }

    /// Number of the signal.
    pub open spec fn number(self) -> i32 {
        match self {
            Signal::Int => 2,
            Signal::Term => 15,
            Signal::Kill => 9,
            Signal::Hup => 1,
        }
    }

    #[must_use]
    pub fn as_str(self) -> (r: &'static str)
        ensures
            r@ == self.name(),
    {
        match self {
            Signal::Int => "int",
            Signal::Term => "term",
            Signal::Kill => "kill",
            Signal::Hup => "hup",
        }
    }

    /// The signal number, the same on every unix platform.
    #[must_use]
    pub fn as_raw(self) -> (r: i32)
        ensures
            r == self.number(),
    {
        match self {
            Signal::Int => 2,
            Signal::Term => 15,
            Signal::Kill => 9,
            Signal::Hup => 1,
        }
    }
}

/// Request for one remote execution.
#[derive(Debug)]
pub struct ExecRequest {
    /// Host alias, resolved via the system ssh config by the daemon. Unused by
    /// `sp-serve` (the daemon picks the host).
    pub host: String,
    /// Command text, executed verbatim by bash.
    pub command: String,
    /// Positional arguments ($1..) for the command.
    pub args: Vec<String>,
    /// Starting cwd for this call; `sp-serve` cds there before running.
    pub cwd: Option<String>,
    /// Shell state to restore before the command; filled in by the daemon.
    pub state: Option<String>,
    /// Session whose persisted cwd and shell state the call uses; `None` for the
    /// default one.
    pub session: Option<String>,
    /// Kill the command after this many milliseconds; 0/None = unlimited.
    pub timeout_ms: Option<u64>,
}

/// What a request asks for.
pub struct RequestView {
    pub host: Seq<char>,
    pub command: Seq<char>,
    pub args: Seq<Seq<char>>,
    pub cwd: Option<Seq<char>>,
    pub state: Option<Seq<char>>,
    pub session: Option<Seq<char>>,
    pub timeout_ms: Option<u64>,
}

impl View for ExecRequest {
    type V = RequestView;

    open spec fn view(&self) -> RequestView {
        RequestView {
            host: self.host@,
            command: self.command@,
            args: crate::text::texts(self.args@),
            cwd: crate::text::opt_text(self.cwd),
            state: crate::text::opt_text(self.state),
            session: crate::text::opt_text(self.session),
            timeout_ms: self.timeout_ms,
        }
    }
}

impl Clone for ExecRequest {
    fn clone(&self) -> (r: ExecRequest)
        ensures
            r@ == self@,
    {
        ExecRequest {
            host: self.host.as_str().to_owned(),
            command: self.command.as_str().to_owned(),
            args: copy_strings(&self.args),
            cwd: copy_opt(&self.cwd),
            state: copy_opt(&self.state),
            session: copy_opt(&self.session),
            timeout_ms: self.timeout_ms,
        }
    }
}

/// Final report of one execution.
#[derive(Debug)]
pub struct ExitReport {
    pub code: i32,
    /// cwd after the command, when the wrapper reported it.
    pub cwd: Option<String>,
    /// Shell state after the command, when the wrapper dumped it.
    pub state: Option<String>,
    /// Daemon/serve-side failure before/while running (auth, connect, ...).
    pub error: Option<String>,
    pub timed_out: bool,
}

/// What a report says.
pub struct ReportView {
    pub code: i32,
    pub cwd: Option<Seq<char>>,
    pub state: Option<Seq<char>>,
    pub error: Option<Seq<char>>,
    pub timed_out: bool,
}

impl View for ExitReport {
    type V = ReportView;

    open spec fn view(&self) -> ReportView {
        ReportView {
            code: self.code,
            cwd: crate::text::opt_text(self.cwd),
            state: crate::text::opt_text(self.state),
            error: crate::text::opt_text(self.error),
            timed_out: self.timed_out,
        }
    }
}

impl Clone for ExitReport {
    fn clone(&self) -> (r: ExitReport)
        ensures
            r@ == self@,
    {
        ExitReport {
            code: self.code,
            cwd: copy_opt(&self.cwd),
            state: copy_opt(&self.state),
            error: copy_opt(&self.error),
            timed_out: self.timed_out,
        }
    }
}

/// The report of a failure outside the command.
pub open spec fn failure_report(error: Seq<char>) -> ReportView {
    ReportView {
        code: INTERNAL_ERROR_CODE,
        cwd: None,
        state: None,
        error: Some(error),
        timed_out: false,
    }
}

impl ExitReport {
    /// The report of a failure outside the command.
    pub fn failure(error: String) -> (r: ExitReport)
        ensures
            r@ == failure_report(error@),
    {
        ExitReport {
            code: INTERNAL_ERROR_CODE,
            cwd: None,
            state: None,
            error: Some(error),
            timed_out: false,
        }
    }
}

/// Liveness reply.
#[derive(Debug, Clone, Copy, PartialEq, Eq, Structural)]
pub struct Pong {
    pub pid: u32,
}

// -- messages ----------------------------------------------------------------------

/// One initiator frame with its control payload read.
#[derive(Debug)]
pub enum ExecMessage {
    Exec(ExecRequest),
    StdinData(Vec<u8>),
    StdinEof,
    Signal(Signal),
    Ping,
}

/// One responder frame with its control payload read.
#[derive(Debug)]
pub enum EventMessage {
    Stdout(Vec<u8>),
    Stderr(Vec<u8>),
    Exit(ExitReport),
    Pong(Pong),
}

/// The value of a control payload, given what reading it as JSON came to: a payload
/// that is not the JSON it should be is refused.
pub fn json<T>(parsed: Result<T, String>) -> (r: Result<T, Error>)
    ensures
        match parsed {
            Ok(v) => r == Ok::<T, Error>(v),
            Err(why) => r matches Err(e) && e@ == ErrorView::Protocol(
                "bad frame payload: "@ + why@,
            ),
        },
{
    match parsed {
        Ok(v) => Ok(v),
        Err(why) => Err(Error::bad_payload(why.as_str())),
    }
}

/// What an initiator message says.
pub enum ExecMessageView {
    Exec(RequestView),
    StdinData(Seq<u8>),
    StdinEof,
    Signal(Signal),
    Ping,
}

/// What a responder message says.
pub enum EventMessageView {
    Stdout(Seq<u8>),
    Stderr(Seq<u8>),
    Exit(ReportView),
    Pong(Pong),
}

impl View for ExecMessage {
    type V = ExecMessageView;

    open spec fn view(&self) -> ExecMessageView {
        match self {
            ExecMessage::Exec(r) => ExecMessageView::Exec(r@),
            ExecMessage::StdinData(d) => ExecMessageView::StdinData(d@),
            ExecMessage::StdinEof => ExecMessageView::StdinEof,
            ExecMessage::Signal(s) => ExecMessageView::Signal(*s),
            ExecMessage::Ping => ExecMessageView::Ping,
        }
    }
}

impl View for EventMessage {
    type V = EventMessageView;

    open spec fn view(&self) -> EventMessageView {
        match self {
            EventMessage::Stdout(d) => EventMessageView::Stdout(d@),
            EventMessage::Stderr(d) => EventMessageView::Stderr(d@),
            EventMessage::Exit(r) => EventMessageView::Exit(r@),
            EventMessage::Pong(p) => EventMessageView::Pong(*p),
        }
    }
}

// -- frame kinds -------------------------------------------------------------------

/// Frame kinds, initiator to responder.
#[derive(Debug, Clone, Copy, PartialEq, Eq, Structural)]
pub enum ExecKind {
    Exec,
    StdinData,
    StdinEof,
    Signal,
    Ping,
}

/// Frame kinds, responder to initiator.
#[derive(Debug, Clone, Copy, PartialEq, Eq, Structural)]
pub enum EventKind {
    Stdout,
    Stderr,
    Exit,
    Pong,
}

impl ExecKind {
    /// The kind's byte on the wire.
    pub open spec fn byte(self) -> u8 {
        match self {
            ExecKind::Exec => 1,
            ExecKind::StdinData => 2,
            ExecKind::StdinEof => 3,
            ExecKind::Signal => 4,
            ExecKind::Ping => 5,
        }
    }

    /// The kind that a byte on the wire stands for.
    pub open spec fn of(v: u8) -> Option<ExecKind> {
        if v == 1 {
            Some(ExecKind::Exec)
        } else if v == 2 {
            Some(ExecKind::StdinData)
        } else if v == 3 {
            Some(ExecKind::StdinEof)
        } else if v == 4 {
            Some(ExecKind::Signal)
        } else if v == 5 {
            Some(ExecKind::Ping)
        } else {
            None
        }
    }

    /// The kind's byte on the wire.
    pub fn code(self) -> (r: u8)
        ensures
            r == self.byte(),
    {
        match self {
            ExecKind::Exec => 1,
            ExecKind::StdinData => 2,
            ExecKind::StdinEof => 3,
            ExecKind::Signal => 4,
            ExecKind::Ping => 5,
        }
    }

    /// The kind that a byte on the wire stands for.
    pub fn try_from(v: u8) -> (r: Result<ExecKind, Error>)
        ensures
            match r {
                Ok(k) => ExecKind::of(v) == Some(k),
                Err(e) => ExecKind::of(v) is None && e@ == bad_exec_kind(v),
            },
    {
        match v {
            1 => Ok(ExecKind::Exec),
            2 => Ok(ExecKind::StdinData),
            3 => Ok(ExecKind::StdinEof),
            4 => Ok(ExecKind::Signal),
            5 => Ok(ExecKind::Ping),
            _ => Err(bad_kind_error("bad exec frame kind ", v)),
        }
    }
}

impl EventKind {
    /// The kind's byte on the wire.
    pub open spec fn byte(self) -> u8 {
        match self {
            EventKind::Stdout => 0x81,
            EventKind::Stderr => 0x82,
            EventKind::Exit => 0x83,
            EventKind::Pong => 0x84,
        }
    }

    /// The kind that a byte on the wire stands for.
    pub open spec fn of(v: u8) -> Option<EventKind> {
        if v == 0x81 {
            Some(EventKind::Stdout)
        } else if v == 0x82 {
            Some(EventKind::Stderr)
        } else if v == 0x83 {
            Some(EventKind::Exit)
        } else if v == 0x84 {
            Some(EventKind::Pong)
        } else {
            None
        }
    }

    /// The kind's byte on the wire.
    pub fn code(self) -> (r: u8)
        ensures
            r == self.byte(),
    {
        match self {
            EventKind::Stdout => 0x81,
            EventKind::Stderr => 0x82,
            EventKind::Exit => 0x83,
            EventKind::Pong => 0x84,
        }
    }

    /// The kind that a byte on the wire stands for.
    pub fn try_from(v: u8) -> (r: Result<EventKind, Error>)
        ensures
            match r {
                Ok(k) => EventKind::of(v) == Some(k),
                Err(e) => EventKind::of(v) is None && e@ == bad_event_kind(v),
            },
    {
        match v {
            0x81 => Ok(EventKind::Stdout),
            0x82 => Ok(EventKind::Stderr),
            0x83 => Ok(EventKind::Exit),
            0x84 => Ok(EventKind::Pong),
            _ => Err(bad_kind_error("bad event frame kind ", v)),
        }
    }
}

// -- frames ------------------------------------------------------------------------

/// One initiator frame. `Exec` and `Signal` hold the JSON of the request and of
/// the signal.
#[derive(Debug)]
pub enum ExecFrame {
    Exec(Vec<u8>),
    StdinData(Vec<u8>),
    StdinEof,
    Signal(Vec<u8>),
    Ping,
}

/// One responder frame. `Exit` and `Pong` hold the JSON of the report and of the
/// reply.
#[derive(Debug)]
pub enum EventFrame {
    Stdout(Vec<u8>),
    Stderr(Vec<u8>),
    Exit(Vec<u8>),
    Pong(Vec<u8>),
}

impl Clone for ExecFrame {
    fn clone(&self) -> (r: ExecFrame)
        ensures
            r@ == self@,
    {
        match self {
            ExecFrame::Exec(p) => ExecFrame::Exec(bytes_owned(p)),
            ExecFrame::StdinData(p) => ExecFrame::StdinData(bytes_owned(p)),
            ExecFrame::StdinEof => ExecFrame::StdinEof,
            ExecFrame::Signal(p) => ExecFrame::Signal(bytes_owned(p)),
            ExecFrame::Ping => ExecFrame::Ping,
        }
    }
}

impl Clone for EventFrame {
    fn clone(&self) -> (r: EventFrame)
        ensures
            r@ == self@,
    {
        match self {
            EventFrame::Stdout(p) => EventFrame::Stdout(bytes_owned(p)),
            EventFrame::Stderr(p) => EventFrame::Stderr(bytes_owned(p)),
            EventFrame::Exit(p) => EventFrame::Exit(bytes_owned(p)),
            EventFrame::Pong(p) => EventFrame::Pong(bytes_owned(p)),
        }
    }
}

/// An initiator frame's content.
pub enum ExecView {
    Exec(Seq<u8>),
    StdinData(Seq<u8>),
    StdinEof,
    Signal(Seq<u8>),
    Ping,
}

/// A responder frame's content.
pub enum EventView {
    Stdout(Seq<u8>),
    Stderr(Seq<u8>),
    Exit(Seq<u8>),
    Pong(Seq<u8>),
}

impl View for ExecFrame {
    type V = ExecView;

    open spec fn view(&self) -> ExecView {
        match self {
            ExecFrame::Exec(p) => ExecView::Exec(p@),
            ExecFrame::StdinData(p) => ExecView::StdinData(p@),
            ExecFrame::StdinEof => ExecView::StdinEof,
            ExecFrame::Signal(p) => ExecView::Signal(p@),
            ExecFrame::Ping => ExecView::Ping,
        }
    }
}

impl View for EventFrame {
    type V = EventView;

    open spec fn view(&self) -> EventView {
        match self {
            EventFrame::Stdout(p) => EventView::Stdout(p@),
            EventFrame::Stderr(p) => EventView::Stderr(p@),
            EventFrame::Exit(p) => EventView::Exit(p@),
            EventFrame::Pong(p) => EventView::Pong(p@),
        }
    }
}

impl ExecView {
    /// The frame's kind.
    pub open spec fn kind(self) -> ExecKind {
        match self {
            ExecView::Exec(_) => ExecKind::Exec,
            ExecView::StdinData(_) => ExecKind::StdinData,
            ExecView::StdinEof => ExecKind::StdinEof,
            ExecView::Signal(_) => ExecKind::Signal,
            ExecView::Ping => ExecKind::Ping,
        }
    }

    /// The frame's payload.
    pub open spec fn payload(self) -> Seq<u8> {
        match self {
            ExecView::Exec(p) => p,
            ExecView::StdinData(p) => p,
            ExecView::StdinEof => Seq::empty(),
            ExecView::Signal(p) => p,
            ExecView::Ping => Seq::empty(),
        }
    }

    /// The frame with the given kind and payload; kinds without a payload drop
    /// it.
    pub open spec fn of(kind: ExecKind, payload: Seq<u8>) -> ExecView {
        match kind {
            ExecKind::Exec => ExecView::Exec(payload),
            ExecKind::StdinData => ExecView::StdinData(payload),
            ExecKind::StdinEof => ExecView::StdinEof,
            ExecKind::Signal => ExecView::Signal(payload),
            ExecKind::Ping => ExecView::Ping,
        }
    }

    /// The frame's bytes on the wire.
    pub open spec fn bytes(self) -> Seq<u8> {
        crate::frame::wire(self.kind().byte(), self.payload())
    }
}

impl EventView {
    /// The frame's kind.
    pub open spec fn kind(self) -> EventKind {
        match self {
            EventView::Stdout(_) => EventKind::Stdout,
            EventView::Stderr(_) => EventKind::Stderr,
            EventView::Exit(_) => EventKind::Exit,
            EventView::Pong(_) => EventKind::Pong,
        }
    }

    /// The frame's payload.
    pub open spec fn payload(self) -> Seq<u8> {
        match self {
            EventView::Stdout(p) => p,
            EventView::Stderr(p) => p,
            EventView::Exit(p) => p,
            EventView::Pong(p) => p,
        }
    }

    /// The frame with the given kind and payload.
    pub open spec fn of(kind: EventKind, payload: Seq<u8>) -> EventView {
        match kind {
            EventKind::Stdout => EventView::Stdout(payload),
            EventKind::Stderr => EventView::Stderr(payload),
            EventKind::Exit => EventView::Exit(payload),
            EventKind::Pong => EventView::Pong(payload),
        }
    }

    /// The frame's bytes on the wire.
    pub open spec fn bytes(self) -> Seq<u8> {
        crate::frame::wire(self.kind().byte(), self.payload())
    }
}

/// The frame that an initiator payload makes.
pub fn decode_exec(kind: ExecKind, payload: Vec<u8>) -> (r: ExecFrame)
    ensures
        r@ == ExecView::of(kind, payload@),
{
    match kind {
        ExecKind::Exec => ExecFrame::Exec(payload),
        ExecKind::StdinData => ExecFrame::StdinData(payload),
        ExecKind::StdinEof => ExecFrame::StdinEof,
        ExecKind::Signal => ExecFrame::Signal(payload),
        ExecKind::Ping => ExecFrame::Ping,
    }
}

/// The frame that a responder payload makes.
pub fn decode_event(kind: EventKind, payload: Vec<u8>) -> (r: EventFrame)
    ensures
        r@ == EventView::of(kind, payload@),
{
    match kind {
        EventKind::Stdout => EventFrame::Stdout(payload),
        EventKind::Stderr => EventFrame::Stderr(payload),
        EventKind::Exit => EventFrame::Exit(payload),
        EventKind::Pong => EventFrame::Pong(payload),
    }
}

/// Encode a kind and a payload to wire bytes.
pub fn encode_raw(kind: u8, payload: &[u8]) -> (r: Result<Vec<u8>, Error>)
    ensures
        match r {
            Ok(v) => payload@.len() <= u32::MAX && v@ == crate::frame::wire(kind, payload@),
            Err(e) => payload@.len() > u32::MAX && e@ == too_large(payload@.len()),
        },
{
    match encode(kind, payload) {
        Some(v) => Ok(v),
        None => Err(too_large_error(payload.len())),
    }
}

/// Encode one initiator frame to wire bytes.
pub fn encode_exec_frame(frame: &ExecFrame) -> (r: Result<Vec<u8>, Error>)
    ensures
        match r {
            Ok(v) => frame@.payload().len() <= u32::MAX && v@ == frame@.bytes(),
            Err(e) => frame@.payload().len() > u32::MAX && e@ == too_large(
                frame@.payload().len(),
            ),
        },
{
    let empty: Vec<u8> = Vec::new();
    assert(empty@ =~= Seq::<u8>::empty());
    match frame {
        ExecFrame::Exec(p) => encode_raw(ExecKind::Exec.code(), p),
        ExecFrame::StdinData(p) => encode_raw(ExecKind::StdinData.code(), p),
        ExecFrame::StdinEof => encode_raw(ExecKind::StdinEof.code(), &empty),
        ExecFrame::Signal(p) => encode_raw(ExecKind::Signal.code(), p),
        ExecFrame::Ping => encode_raw(ExecKind::Ping.code(), &empty),
    }
}

/// Encode one responder frame to wire bytes.
pub fn encode_event_frame(frame: &EventFrame) -> (r: Result<Vec<u8>, Error>)
    ensures
        match r {
            Ok(v) => frame@.payload().len() <= u32::MAX && v@ == frame@.bytes(),
            Err(e) => frame@.payload().len() > u32::MAX && e@ == too_large(
                frame@.payload().len(),
            ),
        },
{
    match frame {
        EventFrame::Stdout(p) => encode_raw(EventKind::Stdout.code(), p),
        EventFrame::Stderr(p) => encode_raw(EventKind::Stderr.code(), p),
        EventFrame::Exit(p) => encode_raw(EventKind::Exit.code(), p),
        EventFrame::Pong(p) => encode_raw(EventKind::Pong.code(), p),
    }
}

/// Write one initiator frame at the end of a buffer; a frame that cannot be
/// encoded leaves it as it is.
pub fn write_exec_frame(w: &mut Vec<u8>, frame: &ExecFrame) -> (r: Result<(), Error>)
    ensures
        match r {
            Ok(()) => frame@.payload().len() <= u32::MAX && final(w)@ == old(w)@
                + frame@.bytes(),
            Err(e) => frame@.payload().len() > u32::MAX && final(w)@ == old(w)@ && e@
                == too_large(frame@.payload().len()),
        },
{
    match encode_exec_frame(frame) {
        Ok(v) => {
            w.extend_from_slice(&v);
            assert(w@ =~= old(w)@ + frame@.bytes());
            Ok(())
        },
        Err(e) => Err(e),
    }
}

/// Write one responder frame at the end of a buffer; a frame that cannot be
/// encoded leaves it as it is.
pub fn write_event_frame(w: &mut Vec<u8>, frame: &EventFrame) -> (r: Result<(), Error>)
    ensures
        match r {
            Ok(()) => frame@.payload().len() <= u32::MAX && final(w)@ == old(w)@
                + frame@.bytes(),
            Err(e) => frame@.payload().len() > u32::MAX && final(w)@ == old(w)@ && e@
                == too_large(frame@.payload().len()),
        },
{
    match encode_event_frame(frame) {
        Ok(v) => {
            w.extend_from_slice(&v);
            assert(w@ =~= old(w)@ + frame@.bytes());
            Ok(())
        },
        Err(e) => Err(e),
    }
}

// -- reading -----------------------------------------------------------------------

/// Outcome of reading one frame from the front of a byte stream.
#[verifier::reject_recursive_types(F)]
pub enum ReadView<F> {
    /// The stream ends before a whole header.
    End,
    /// A frame, and what follows it.
    Frame(F, Seq<u8>),
    /// The stream is malformed.
    Bad(ErrorView),
}

/// Reading one initiator frame: the kind is judged before the length.
pub open spec fn read_exec(s: Seq<u8>) -> ReadView<ExecView> {
    if s.len() < HEADER_LEN {
        ReadView::End
    } else {
        match ExecKind::of(s[0]) {
            None => ReadView::Bad(bad_exec_kind(s[0])),
            Some(k) => match crate::frame::front(s) {
                crate::frame::Front::TooLarge(n) => ReadView::Bad(too_large(n)),
                crate::frame::Front::Short => ReadView::Bad(early_eof()),
                crate::frame::Front::Frame(_, p, rest) => ReadView::Frame(
                    ExecView::of(k, p),
                    rest,
                ),
            },
        }
    }
}

/// Reading one responder frame: the kind is judged before the length.
pub open spec fn read_event(s: Seq<u8>) -> ReadView<EventView> {
    if s.len() < HEADER_LEN {
        ReadView::End
    } else {
        match EventKind::of(s[0]) {
            None => ReadView::Bad(bad_event_kind(s[0])),
            Some(k) => match crate::frame::front(s) {
                crate::frame::Front::TooLarge(n) => ReadView::Bad(too_large(n)),
                crate::frame::Front::Short => ReadView::Bad(early_eof()),
                crate::frame::Front::Frame(_, p, rest) => ReadView::Frame(
                    EventView::of(k, p),
                    rest,
                ),
            },
        }
    }
}

/// Judge the header of an initiator frame: its kind and how many payload bytes
/// follow.
pub fn exec_header(header: &[u8]) -> (r: Result<(ExecKind, usize), Error>)
    requires
        header@.len() == HEADER_LEN,
    ensures
        match r {
            Ok((k, n)) => {
                &&& ExecKind::of(header@[0]) == Some(k)
                &&& n == crate::frame::payload_len(header@)
                &&& n <= MAX_PAYLOAD
            },
            Err(e) => match ExecKind::of(header@[0]) {
                None => e@ == bad_exec_kind(header@[0]),
                Some(_) => crate::frame::payload_len(header@) > MAX_PAYLOAD && e@ == too_large(
                    crate::frame::payload_len(header@),
                ),
            },
        },
{
    let kind = match ExecKind::try_from(header[0]) {
        Ok(k) => k,
        Err(e) => return Err(e),
    };
    assert(header@.skip(0) =~= header@);
    let n: usize = header_len(header, 0) as usize;
    if n > MAX_PAYLOAD {
        return Err(too_large_error(n));
    }
    Ok((kind, n))
}

/// Judge the header of a responder frame: its kind and how many payload bytes
/// follow.
pub fn event_header(header: &[u8]) -> (r: Result<(EventKind, usize), Error>)
    requires
        header@.len() == HEADER_LEN,
    ensures
        match r {
            Ok((k, n)) => {
                &&& EventKind::of(header@[0]) == Some(k)
                &&& n == crate::frame::payload_len(header@)
                &&& n <= MAX_PAYLOAD
            },
            Err(e) => match EventKind::of(header@[0]) {
                None => e@ == bad_event_kind(header@[0]),
                Some(_) => crate::frame::payload_len(header@) > MAX_PAYLOAD && e@ == too_large(
                    crate::frame::payload_len(header@),
                ),
            },
        },
{
    let kind = match EventKind::try_from(header[0]) {
        Ok(k) => k,
        Err(e) => return Err(e),
    };
    assert(header@.skip(0) =~= header@);
    let n: usize = header_len(header, 0) as usize;
    if n > MAX_PAYLOAD {
        return Err(too_large_error(n));
    }
    Ok((kind, n))
}

/// Read one initiator frame from the front of a byte stream; `None` when the
/// stream ends before a whole header. The frame comes with its length.
pub fn read_exec_frame(r: &[u8]) -> (res: Result<Option<(ExecFrame, usize)>, Error>)
    ensures
        match res {
            Ok(None) => read_exec(r@) is End,
            Ok(Some((f, n))) => n <= r@.len() && read_exec(r@) == ReadView::Frame(
                f@,
                r@.skip(n as int),
            ),
            Err(e) => read_exec(r@) == ReadView::<ExecView>::Bad(e@),
        },
{
    if r.len() < HEADER_LEN {
        return Ok(None);
    }
    let header = bytes_between(r, 0, HEADER_LEN);
    assert(header@.subrange(1, 5) =~= r@.subrange(1, 5));
    let (kind, n) = match exec_header(&header) {
        Ok(x) => x,
        Err(e) => return Err(e),
    };
    assert(r@.len() == r.len());
    if r.len() - HEADER_LEN < n {
        return Err(Error::Io("early eof".to_owned()));
    }
    let payload = bytes_between(r, HEADER_LEN, HEADER_LEN + n);
    Ok(Some((decode_exec(kind, payload), HEADER_LEN + n)))
}

/// Read one responder frame from the front of a byte stream; `None` when the
/// stream ends before a whole header. The frame comes with its length.
pub fn read_event_frame(r: &[u8]) -> (res: Result<Option<(EventFrame, usize)>, Error>)
    ensures
        match res {
            Ok(None) => read_event(r@) is End,
            Ok(Some((f, n))) => n <= r@.len() && read_event(r@) == ReadView::Frame(
                f@,
                r@.skip(n as int),
            ),
            Err(e) => read_event(r@) == ReadView::<EventView>::Bad(e@),
        },
{
    if r.len() < HEADER_LEN {
        return Ok(None);
    }
    let header = bytes_between(r, 0, HEADER_LEN);
    assert(header@.subrange(1, 5) =~= r@.subrange(1, 5));
    let (kind, n) = match event_header(&header) {
        Ok(x) => x,
        Err(e) => return Err(e),
    };
    assert(r@.len() == r.len());
    if r.len() - HEADER_LEN < n {
        return Err(Error::Io("early eof".to_owned()));
    }
    let payload = bytes_between(r, HEADER_LEN, HEADER_LEN + n);
    Ok(Some((decode_event(kind, payload), HEADER_LEN + n)))
}

/// What was written comes back: reading a stream that starts with an encoded
/// initiator frame gives that frame and leaves the rest.
pub proof fn law_exec_frame_round_trip(f: ExecView, rest: Seq<u8>)
    requires
        f.payload().len() <= MAX_PAYLOAD,
    ensures
        read_exec(f.bytes() + rest) == ReadView::Frame(f, rest),
{
    crate::frame::lemma_front_of_wire(f.kind().byte(), f.payload(), rest);
}

/// What was written comes back: reading a stream that starts with an encoded
/// responder frame gives that frame and leaves the rest.
pub proof fn law_event_frame_round_trip(f: EventView, rest: Seq<u8>)
    requires
        f.payload().len() <= MAX_PAYLOAD,
    ensures
        read_event(f.bytes() + rest) == ReadView::Frame(f, rest),
{
    crate::frame::lemma_front_of_wire(f.kind().byte(), f.payload(), rest);
}

// -- incremental decoding ------------------------------------------------------------

/// Result of decoding the complete responder frames at the front of a buffer.
#[verifier::ext_equal]
pub struct Decoded {
    pub frames: Seq<EventView>,
    /// What is left in the buffer.
    pub rest: Seq<u8>,
    pub error: Option<ErrorView>,
}

/// Decode complete frames until the buffer runs short or turns out malformed;
/// the length is judged before the kind.
pub open spec fn decoded(buf: Seq<u8>) -> Decoded
    decreases buf.len(),
{
    match crate::frame::front(buf) {
        crate::frame::Front::Short => Decoded { frames: Seq::empty(), rest: buf, error: None },
        crate::frame::Front::TooLarge(n) => Decoded {
            frames: Seq::empty(),
            rest: buf,
            error: Some(too_large(n)),
        },
        crate::frame::Front::Frame(k, p, rest) => match EventKind::of(k) {
            None => Decoded {
                frames: Seq::empty(),
                rest: buf,
                error: Some(bad_event_kind(k)),
            },
            Some(kind) => preceded(EventView::of(kind, p), decoded(rest)),
        },
    }
}

/// Put a frame in front of the decoded ones.
pub open spec fn preceded(f: EventView, d: Decoded) -> Decoded {
    Decoded { frames: seq![f] + d.frames, rest: d.rest, error: d.error }
}

/// The contents of a list of frames.
pub open spec fn event_views(v: Seq<EventFrame>) -> Seq<EventView> {
    v.map_values(|f: EventFrame| f@)
}

/// Incremental decoder for a responder frame stream arriving as byte chunks
/// (SSH channel data). Feed chunks with [`EventDecoder::push`].
#[derive(Debug)]
pub struct EventDecoder {
    buf: Vec<u8>,
}

impl View for EventDecoder {
    type V = Seq<u8>;

    /// The bytes not decoded yet.
    closed spec fn view(&self) -> Seq<u8> {
        self.buf@
    }
}

impl Default for EventDecoder {
    fn default() -> (r: EventDecoder)
        ensures
            r@ == Seq::<u8>::empty(),
    {
        EventDecoder::new()
    }
}

impl EventDecoder {
    #[must_use]
    pub fn new() -> (r: EventDecoder)
        ensures
            r@ == Seq::<u8>::empty(),
    {
        let r = EventDecoder { buf: Vec::new() };
        assert(r@ =~= Seq::<u8>::empty());
        r
    }

    /// Feed one chunk; returns every frame that became complete. On an error the
    /// frames in front of it are lost and the buffer keeps the offending bytes.
    pub fn push(&mut self, chunk: &[u8]) -> (r: Result<Vec<EventFrame>, Error>)
        ensures
            final(self)@ == decoded(old(self)@ + chunk@).rest,
            match r {
                Ok(v) => decoded(old(self)@ + chunk@).error is None && event_views(v@)
                    == decoded(old(self)@ + chunk@).frames,
                Err(e) => decoded(old(self)@ + chunk@).error == Some(e@),
            },
    {
        self.buf.extend_from_slice(chunk);
        let ghost all = old(self)@ + chunk@;
        assert(self.buf@ =~= all);
        let ghost goal = decoded(all);
        let mut out: Vec<EventFrame> = Vec::new();
        let mut pos: usize = 0;
        assert(all.skip(0) =~= all);
        assert(event_views(out@) + goal.frames =~= goal.frames);
        loop
            invariant
                self.buf@ == all,
                pos <= all.len(),
                goal == decoded(all),
                all == old(self)@ + chunk@,
                goal.frames == event_views(out@) + decoded(all.skip(pos as int)).frames,
                goal.rest == decoded(all.skip(pos as int)).rest,
                goal.error == decoded(all.skip(pos as int)).error,
            decreases all.len() - pos,
        {
            let ghost before = event_views(out@);
            match cut(&self.buf, pos) {
                Cut::Short => {
                    self.buf = bytes_from(&self.buf, pos);
                    assert(before + Seq::<EventView>::empty() =~= before);
                    return Ok(out);
                },
                Cut::TooLarge(n) => {
                    self.buf = bytes_from(&self.buf, pos);
                    return Err(too_large_error(n));
                },
                Cut::Frame(k, payload, end) => match EventKind::try_from(k) {
                    Err(e) => {
                        self.buf = bytes_from(&self.buf, pos);
                        return Err(e);
                    },
                    Ok(kind) => {
                        let ghost f = EventView::of(kind, payload@);
                        let ghost tail = decoded(all.skip(end as int));
                        out.push(decode_event(kind, payload));
                        assert(event_views(out@) =~= before.push(f));
                        assert(before + (seq![f] + tail.frames) =~= before.push(f)
                            + tail.frames);
                        pos = end;
                    },
                },
            }
        }
    }
}

/// The encodings of several frames, one after the other.
pub open spec fn all_bytes(frames: Seq<EventView>) -> Seq<u8>
    decreases frames.len(),
{
    if frames.len() == 0 {
        Seq::empty()
    } else {
        frames[0].bytes() + all_bytes(frames.skip(1))
    }
}

/// Every payload is within the limit.
pub open spec fn all_fit(frames: Seq<EventView>) -> bool {
    forall|i: int| 0 <= i < frames.len() ==> (#[trigger] frames[i]).payload().len() <= MAX_PAYLOAD
}

/// Chunks put together.
pub open spec fn whole(chunks: Seq<Seq<u8>>) -> Seq<u8>
    decreases chunks.len(),
{
    if chunks.len() == 0 {
        Seq::empty()
    } else {
        chunks[0] + whole(chunks.skip(1))
    }
}

/// Feed the chunks to a decoder that holds `buf`, stopping at the first error:
/// all frames that came out, what it holds at the end, and the error.
pub open spec fn pushed(buf: Seq<u8>, chunks: Seq<Seq<u8>>) -> Decoded
    decreases chunks.len(),
{
    if chunks.len() == 0 {
        Decoded { frames: Seq::empty(), rest: buf, error: None }
    } else {
        let d = decoded(buf + chunks[0]);
        if d.error is Some {
            Decoded { frames: Seq::empty(), rest: d.rest, error: d.error }
        } else {
            let e = pushed(d.rest, chunks.skip(1));
            Decoded { frames: d.frames + e.frames, rest: e.rest, error: e.error }
        }
    }
}

/// Decoding in two parts, of any bytes: what the first leaves over goes in front of
/// the second, and what is refused stays refused whatever follows.
pub proof fn law_decoding_in_parts(a: Seq<u8>, b: Seq<u8>)
    ensures
        decoded(a).error is Some ==> decoded(a + b) == (Decoded {
            frames: decoded(a).frames,
            rest: decoded(a).rest + b,
            error: decoded(a).error,
        }),
        decoded(a).error is None ==> decoded(a + b) == (Decoded {
            frames: decoded(a).frames + decoded(decoded(a).rest + b).frames,
            rest: decoded(decoded(a).rest + b).rest,
            error: decoded(decoded(a).rest + b).error,
        }),
    decreases a.len(),
{
    crate::frame::lemma_front_stands(a, b);
    match crate::frame::front(a) {
        crate::frame::Front::Short => {
            let d = decoded(a + b);
            assert(Seq::<EventView>::empty() + d.frames =~= d.frames);
        },
        crate::frame::Front::TooLarge(n) => {},
        crate::frame::Front::Frame(k, p, rest) => {
            if let Some(kind) = EventKind::of(k) {
                law_decoding_in_parts(rest, b);
                let f = EventView::of(kind, p);
                let d = decoded(rest);
                let e = decoded(d.rest + b);
                assert(seq![f] + (d.frames + e.frames) =~= (seq![f] + d.frames) + e.frames);
            }
        },
    }
}

proof fn lemma_decoded_all(frames: Seq<EventView>)
    requires
        all_fit(frames),
    ensures
        decoded(all_bytes(frames)) == (Decoded { frames, rest: Seq::empty(), error: None }),
    decreases frames.len(),
{
    if frames.len() == 0 {
        assert(frames =~= Seq::<EventView>::empty());
    } else {
        let f = frames[0];
        let tail = frames.skip(1);
        assert forall|i: int| 0 <= i < tail.len() implies (
        #[trigger] tail[i]).payload().len() <= MAX_PAYLOAD by {
            assert(tail[i] == frames[i + 1]);
        }
        lemma_decoded_all(tail);
        crate::frame::lemma_front_of_wire(f.kind().byte(), f.payload(), all_bytes(tail));
        assert(seq![f] + tail =~= frames);
    }
}

/// However a stream is cut into chunks, the decoder gives what one pass over the
/// whole would. A stream that is refused is refused with the same error; the
/// frames that came out before are the first of the stream, and the bytes that are
/// held then begin with the offending ones.
pub proof fn law_every_stream_is_chunk_independent(chunks: Seq<Seq<u8>>)
    ensures
        decoded(whole(chunks)).error is None ==> pushed(Seq::empty(), chunks) == decoded(
            whole(chunks),
        ),
        decoded(whole(chunks)).error is Some ==> {
            &&& pushed(Seq::empty(), chunks).error == decoded(whole(chunks)).error
            &&& crate::text::begins_with(
                decoded(whole(chunks)).frames,
                pushed(Seq::empty(), chunks).frames,
            )
            &&& crate::text::begins_with(
                decoded(whole(chunks)).rest,
                pushed(Seq::empty(), chunks).rest,
            )
        },
{
    assert(Seq::<u8>::empty() + whole(chunks) =~= whole(chunks));
    lemma_pushed_is_decoded(Seq::empty(), chunks);
}

proof fn lemma_pushed_is_decoded(buf: Seq<u8>, chunks: Seq<Seq<u8>>)
    requires
        decoded(buf) == (Decoded { frames: Seq::empty(), rest: buf, error: None }),
    ensures
        ({
            let d = decoded(buf + whole(chunks));
            let p = pushed(buf, chunks);
            &&& d.error is None ==> p == d
            &&& d.error is Some ==> {
                &&& p.error == d.error
                &&& crate::text::begins_with(d.frames, p.frames)
                &&& crate::text::begins_with(d.rest, p.rest)
            }
        }),
    decreases chunks.len(),
{
    if chunks.len() == 0 {
        assert(buf + whole(chunks) =~= buf);
    } else {
        let first = buf + chunks[0];
        let more = whole(chunks.skip(1));
        assert(buf + whole(chunks) =~= first + more);
        law_decoding_in_parts(first, more);
        let d = decoded(first);
        if d.error is Some {
            let none = Seq::<EventView>::empty();
            assert(d.frames.take(0) =~= none);
            assert((d.rest + more).take(d.rest.len() as int) =~= d.rest);
        } else {
            lemma_decoded_settled(first);
            lemma_pushed_is_decoded(d.rest, chunks.skip(1));
            let e = pushed(d.rest, chunks.skip(1));
            let whole_e = decoded(d.rest + more);
            if whole_e.error is Some {
                assert((d.frames + whole_e.frames).take(
                    (d.frames.len() + e.frames.len()) as int,
                ) =~= d.frames + whole_e.frames.take(e.frames.len() as int));
            }
        }
    }
}

/// What decoding leaves over holds no further complete frame.
proof fn lemma_decoded_settled(a: Seq<u8>)
    ensures
        decoded(a).error is None ==> decoded(decoded(a).rest) == (Decoded {
            frames: Seq::empty(),
            rest: decoded(a).rest,
            error: None,
        }),
    decreases a.len(),
{
    match crate::frame::front(a) {
        crate::frame::Front::Frame(k, p, rest) => {
            if EventKind::of(k) is Some {
                lemma_decoded_settled(rest);
            }
        },
        _ => {},
    }
}

/// Frames survive any cutting of the stream: pushing the encodings of some
/// frames, cut into chunks at arbitrary places, gives back exactly those frames
/// in order, with nothing left over.
pub proof fn law_decoder_is_chunk_independent(frames: Seq<EventView>, chunks: Seq<Seq<u8>>)
    requires
        all_fit(frames),
        whole(chunks) == all_bytes(frames),
    ensures
        pushed(Seq::empty(), chunks) == (Decoded { frames, rest: Seq::empty(), error: None }),
{
    lemma_decoded_all(frames);
    assert(Seq::<u8>::empty() + whole(chunks) =~= all_bytes(frames));
    lemma_pushed_is_decoded(Seq::empty(), chunks);
}

/// A header announcing a payload over the limit is refused as soon as it is
/// complete, whatever its kind and however much follows.
pub proof fn law_oversized_frames_are_refused(buf: Seq<u8>)
    requires
        buf.len() >= HEADER_LEN,
        crate::frame::payload_len(buf) > MAX_PAYLOAD,
    ensures
        decoded(buf).error == Some(too_large(crate::frame::payload_len(buf))),
{
}

} // verus!
