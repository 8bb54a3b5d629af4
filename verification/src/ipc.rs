//! IPC between the `sp` client and the daemon.
//!
//! Transport is a windows named pipe / unix socket; messages are framed as
//! `[1-byte kind][u32 LE length][payload]`. Control payloads are JSON, stream
//! payloads are raw bytes. A frame holds the JSON of a control message as bytes;
//! [`ExecRequest`], [`Signal`], [`ExitReport`] and [`Pong`] are the values that
//! those bytes stand for.

use vstd::prelude::*;

use crate::error::Error;
use crate::frame::{encode, header_len, HEADER_LEN, MAX_PAYLOAD};
use crate::text::{bytes_between, bytes_owned, push_hex_byte, push_nat};

pub use crate::proto::{ExecRequest, ExitReport, Pong, Signal};

verus! {

/// The error for a payload over the limit.
pub open spec fn too_large(n: nat) -> crate::error::ErrorView {
    crate::error::ErrorView::Protocol("frame too large: "@ + crate::text::dec_nat(n))
}

/// The error of a stream that ends inside a payload.
pub open spec fn early_eof() -> crate::error::ErrorView {
    crate::error::ErrorView::Io("early eof"@)
}

fn too_large_error(n: usize) -> (r: Error)
    ensures
        r@ == too_large(n as nat),
{
    let mut s = "frame too large: ".to_owned();
    push_nat(&mut s, n as u64);
    Error::Protocol(s)
}

fn bad_kind_error(head: &str, v: u8) -> (r: Error)
    ensures
        r@ == crate::error::ErrorView::Protocol(head@ + crate::text::hex_byte(v)),
{
    let mut s = head.to_owned();
    push_hex_byte(&mut s, v);
    Error::Protocol(s)
}

/// The value of a control payload, given what reading it as JSON came to: a payload
/// that is not the JSON it should be is refused.
pub fn json<T>(parsed: Result<T, String>) -> (r: Result<T, Error>)
    ensures
        match parsed {
            Ok(v) => r == Ok::<T, Error>(v),
            Err(why) => r matches Err(e) && e@ == crate::error::ErrorView::Protocol(
                "bad frame payload: "@ + why@,
            ),
        },
{
    match crate::proto::json(parsed) {
        Ok(v) => Ok(v),
        Err(e) => Err(Error::from_proto(e)),
    }
}

/// Outcome of reading one frame from the front of a byte stream.
#[verifier::reject_recursive_types(F)]
pub enum ReadView<F> {
    /// The stream ends before a whole header.
    End,
    /// A frame, and what follows it.
    Frame(F, Seq<u8>),
    /// The stream is malformed.
    Bad(crate::error::ErrorView),
}

/// Write a kind and a payload at the end of a buffer; a payload too long to be
/// framed leaves it as it is.
pub fn write_raw(w: &mut Vec<u8>, kind: u8, payload: &[u8]) -> (r: Result<(), Error>)
    ensures
        match r {
            Ok(()) => payload@.len() <= u32::MAX && final(w)@ == old(w)@ + crate::frame::wire(
                kind,
                payload@,
            ),
            Err(e) => payload@.len() > u32::MAX && final(w)@ == old(w)@ && e@ == too_large(
                payload@.len(),
            ),
        },
{
    match encode(kind, payload) {
        Some(v) => {
            w.extend_from_slice(&v);
            assert(w@ =~= old(w)@ + crate::frame::wire(kind, payload@));
            Ok(())
        },
        None => Err(too_large_error(payload.len())),
    }
}

// -- client to daemon ------------------------------------------------------------------------

/// Frame kinds, client to daemon.
#[derive(Debug, Clone, Copy, PartialEq, Eq, Structural)]
pub enum ClientKind {
    Exec,
    StdinData,
    StdinEof,
    Signal,
    Ping,
}

impl ClientKind {
    /// The kind's byte on the wire.
    pub open spec fn byte(self) -> u8 {
        match self {
            ClientKind::Exec => 1,
            ClientKind::StdinData => 2,
            ClientKind::StdinEof => 3,
            ClientKind::Signal => 4,
            ClientKind::Ping => 5,
        }
    }

    /// The kind that a byte on the wire stands for.
    pub open spec fn of(v: u8) -> Option<ClientKind> {
        if v == 1 {
            Some(ClientKind::Exec)
        } else if v == 2 {
            Some(ClientKind::StdinData)
        } else if v == 3 {
            Some(ClientKind::StdinEof)
        } else if v == 4 {
            Some(ClientKind::Signal)
        } else if v == 5 {
            Some(ClientKind::Ping)
        } else {
            None
        }
    }

    /// The kind's byte on the wire.
    pub fn code(self) -> (r: u8)
        ensures
            r == self.byte(),
    {
        match self {
            ClientKind::Exec => 1,
            ClientKind::StdinData => 2,
            ClientKind::StdinEof => 3,
            ClientKind::Signal => 4,
            ClientKind::Ping => 5,
        }
    }

    /// The kind that a byte on the wire stands for.
    pub fn try_from(v: u8) -> (r: Result<ClientKind, Error>)
        ensures
            match r {
                Ok(k) => ClientKind::of(v) == Some(k),
                Err(e) => ClientKind::of(v) is None && e@ == bad_client_kind(v),
            },
    {
        match v {
            1 => Ok(ClientKind::Exec),
            2 => Ok(ClientKind::StdinData),
            3 => Ok(ClientKind::StdinEof),
            4 => Ok(ClientKind::Signal),
            5 => Ok(ClientKind::Ping),
            _ => Err(bad_kind_error("bad client frame kind ", v)),
        }
    }
}

/// The error for an unknown client frame kind.
pub open spec fn bad_client_kind(v: u8) -> crate::error::ErrorView {
    crate::error::ErrorView::Protocol("bad client frame kind "@ + crate::text::hex_byte(v))
}

/// One client frame. `Exec` and `Signal` hold the JSON of the request and of the
/// signal.
#[derive(Debug)]
pub enum ClientFrame {
    Exec(Vec<u8>),
    StdinData(Vec<u8>),
    StdinEof,
    Signal(Vec<u8>),
    Ping,
}

/// The content of a [`ClientFrame`].
pub enum ClientView {
    Exec(Seq<u8>),
    StdinData(Seq<u8>),
    StdinEof,
    Signal(Seq<u8>),
    Ping,
}

impl View for ClientFrame {
    type V = ClientView;

    open spec fn view(&self) -> ClientView {
        match self {
            ClientFrame::Exec(p) => ClientView::Exec(p@),
            ClientFrame::StdinData(p) => ClientView::StdinData(p@),
            ClientFrame::StdinEof => ClientView::StdinEof,
            ClientFrame::Signal(p) => ClientView::Signal(p@),
            ClientFrame::Ping => ClientView::Ping,
        }
    }
}

impl Clone for ClientFrame {
    fn clone(&self) -> (r: ClientFrame)
        ensures
            r@ == self@,
    {
        match self {
            ClientFrame::Exec(p) => ClientFrame::Exec(bytes_owned(p)),
            ClientFrame::StdinData(p) => ClientFrame::StdinData(bytes_owned(p)),
            ClientFrame::StdinEof => ClientFrame::StdinEof,
            ClientFrame::Signal(p) => ClientFrame::Signal(bytes_owned(p)),
            ClientFrame::Ping => ClientFrame::Ping,
        }
    }
}

impl ClientView {
    /// The frame's kind.
    pub open spec fn kind(self) -> ClientKind {
        match self {
            ClientView::Exec(_) => ClientKind::Exec,
            ClientView::StdinData(_) => ClientKind::StdinData,
            ClientView::StdinEof => ClientKind::StdinEof,
            ClientView::Signal(_) => ClientKind::Signal,
            ClientView::Ping => ClientKind::Ping,
        }
    }

    /// The frame's payload.
    pub open spec fn payload(self) -> Seq<u8> {
        match self {
            ClientView::Exec(p) => p,
            ClientView::StdinData(p) => p,
            ClientView::StdinEof => Seq::empty(),
            ClientView::Signal(p) => p,
            ClientView::Ping => Seq::empty(),
        }
    }

    /// The frame with the given kind and payload; kinds without a payload drop it.
    pub open spec fn of(kind: ClientKind, payload: Seq<u8>) -> ClientView {
        match kind {
            ClientKind::Exec => ClientView::Exec(payload),
            ClientKind::StdinData => ClientView::StdinData(payload),
            ClientKind::StdinEof => ClientView::StdinEof,
            ClientKind::Signal => ClientView::Signal(payload),
            ClientKind::Ping => ClientView::Ping,
        }
    }

    /// The frame's bytes on the wire.
    pub open spec fn bytes(self) -> Seq<u8> {
        crate::frame::wire(self.kind().byte(), self.payload())
    }
}

/// The frame that a payload makes.
pub fn decode_client(kind: ClientKind, payload: Vec<u8>) -> (r: ClientFrame)
    ensures
        r@ == ClientView::of(kind, payload@),
{
    match kind {
        ClientKind::Exec => ClientFrame::Exec(payload),
        ClientKind::StdinData => ClientFrame::StdinData(payload),
        ClientKind::StdinEof => ClientFrame::StdinEof,
        ClientKind::Signal => ClientFrame::Signal(payload),
        ClientKind::Ping => ClientFrame::Ping,
    }
}

/// Reading one frame: the kind is judged before the length.
pub open spec fn read_client(s: Seq<u8>) -> ReadView<ClientView> {
    if s.len() < HEADER_LEN {
        ReadView::End
    } else {
        match ClientKind::of(s[0]) {
            None => ReadView::Bad(bad_client_kind(s[0])),
            Some(k) => match crate::frame::front(s) {
                crate::frame::Front::TooLarge(n) => ReadView::Bad(too_large(n)),
                crate::frame::Front::Short => ReadView::Bad(early_eof()),
                crate::frame::Front::Frame(_, p, rest) => ReadView::Frame(
                    ClientView::of(k, p),
                    rest,
                ),
            },
        }
    }
}

/// Judge a frame header: the kind and how many payload bytes follow.
pub fn client_header(header: &[u8]) -> (r: Result<(ClientKind, usize), Error>)
    requires
        header@.len() == HEADER_LEN,
    ensures
        match r {
            Ok((k, n)) => {
                &&& ClientKind::of(header@[0]) == Some(k)
                &&& n == crate::frame::payload_len(header@)
                &&& n <= MAX_PAYLOAD
            },
            Err(e) => match ClientKind::of(header@[0]) {
                None => e@ == bad_client_kind(header@[0]),
                Some(_) => crate::frame::payload_len(header@) > MAX_PAYLOAD && e@ == too_large(
                    crate::frame::payload_len(header@),
                ),
            },
        },
{
    let kind = match ClientKind::try_from(header[0]) {
        Ok(k) => k,
        Err(e) => return Err(e),
    };
    assert(header@.skip(0) =~= header@);
    let n: usize = header_len(header, 0) as usize;
    if n > MAX_PAYLOAD {
        return Err(too_large_error(n));
    }
    Ok((kind, n))
}

/// Read one client frame from the front of a byte stream; `None` when the stream
/// ends before a whole header. The frame comes with its length.
pub fn read_client_frame(r: &[u8]) -> (res: Result<Option<(ClientFrame, usize)>, Error>)
    ensures
        match res {
            Ok(None) => read_client(r@) is End,
            Ok(Some((f, n))) => n <= r@.len() && read_client(r@) == ReadView::Frame(
                f@,
                r@.skip(n as int),
            ),
            Err(e) => read_client(r@) == ReadView::<ClientView>::Bad(e@),
        },
{
    if r.len() < HEADER_LEN {
        return Ok(None);
    }
    let header = bytes_between(r, 0, HEADER_LEN);
    assert(header@.subrange(1, 5) =~= r@.subrange(1, 5));
    let (kind, n) = match client_header(&header) {
        Ok(x) => x,
        Err(e) => return Err(e),
    };
    assert(r@.len() == r.len());
    if r.len() - HEADER_LEN < n {
        return Err(Error::Io("early eof".to_owned()));
    }
    let payload = bytes_between(r, HEADER_LEN, HEADER_LEN + n);
    Ok(Some((decode_client(kind, payload), HEADER_LEN + n)))
}

/// Write one client frame at the end of a buffer.
pub fn write_frame(w: &mut Vec<u8>, frame: &ClientFrame) -> (r: Result<(), Error>)
    ensures
        match r {
            Ok(()) => frame@.payload().len() <= u32::MAX && final(w)@ == old(w)@
                + frame@.bytes(),
            Err(e) => frame@.payload().len() > u32::MAX && final(w)@ == old(w)@ && e@
                == too_large(frame@.payload().len()),
        },
{
    let empty: Vec<u8> = Vec::new();
    assert(empty@ =~= Seq::<u8>::empty());
    match frame {
        ClientFrame::Exec(p) => write_raw(w, ClientKind::Exec.code(), p),
        ClientFrame::StdinData(p) => write_raw(w, ClientKind::StdinData.code(), p),
        ClientFrame::StdinEof => write_raw(w, ClientKind::StdinEof.code(), &empty),
        ClientFrame::Signal(p) => write_raw(w, ClientKind::Signal.code(), p),
        ClientFrame::Ping => write_raw(w, ClientKind::Ping.code(), &empty),
    }
}

/// What was written comes back: reading a stream that starts with an encoded
/// frame gives that frame and leaves the rest.
pub proof fn law_client_frame_round_trip(f: ClientView, rest: Seq<u8>)
    requires
        f.payload().len() <= MAX_PAYLOAD,
    ensures
        read_client(f.bytes() + rest) == ReadView::Frame(f, rest),
{
    crate::frame::lemma_front_of_wire(f.kind().byte(), f.payload(), rest);
}

// -- daemon to client ------------------------------------------------------------------------

/// Frame kinds, daemon to client.
#[derive(Debug, Clone, Copy, PartialEq, Eq, Structural)]
pub enum DaemonType {
    Stdout,
    Stderr,
    Exit,
    Pong,
}

impl DaemonType {
    /// The kind's byte on the wire.
    pub open spec fn byte(self) -> u8 {
        match self {
            DaemonType::Stdout => 0x81,
            DaemonType::Stderr => 0x82,
            DaemonType::Exit => 0x83,
            DaemonType::Pong => 0x84,
        }
    }

    /// The kind that a byte on the wire stands for.
    pub open spec fn of(v: u8) -> Option<DaemonType> {
        if v == 0x81 {
            Some(DaemonType::Stdout)
        } else if v == 0x82 {
            Some(DaemonType::Stderr)
        } else if v == 0x83 {
            Some(DaemonType::Exit)
        } else if v == 0x84 {
            Some(DaemonType::Pong)
        } else {
            None
        }
    }

    /// The kind's byte on the wire.
    pub fn code(self) -> (r: u8)
        ensures
            r == self.byte(),
    {
        match self {
            DaemonType::Stdout => 0x81,
            DaemonType::Stderr => 0x82,
            DaemonType::Exit => 0x83,
            DaemonType::Pong => 0x84,
        }
    }

    /// The kind that a byte on the wire stands for.
    pub fn try_from(v: u8) -> (r: Result<DaemonType, Error>)
        ensures
            match r {
                Ok(k) => DaemonType::of(v) == Some(k),
                Err(e) => DaemonType::of(v) is None && e@ == bad_daemon_kind(v),
            },
    {
        match v {
            0x81 => Ok(DaemonType::Stdout),
            0x82 => Ok(DaemonType::Stderr),
            0x83 => Ok(DaemonType::Exit),
            0x84 => Ok(DaemonType::Pong),
            _ => Err(bad_kind_error("bad daemon frame kind ", v)),
        }
    }
}

/// The error for an unknown daemon frame kind.
pub open spec fn bad_daemon_kind(v: u8) -> crate::error::ErrorView {
    crate::error::ErrorView::Protocol("bad daemon frame kind "@ + crate::text::hex_byte(v))
}

/// One daemon frame. `Exit` and `Pong` hold the JSON of the report and of the
/// reply.
#[derive(Debug)]
pub enum DaemonFrame {
    Stdout(Vec<u8>),
    Stderr(Vec<u8>),
    Exit(Vec<u8>),
    Pong(Vec<u8>),
}

/// The content of a [`DaemonFrame`].
pub enum DaemonView {
    Stdout(Seq<u8>),
    Stderr(Seq<u8>),
    Exit(Seq<u8>),
    Pong(Seq<u8>),
}

impl View for DaemonFrame {
    type V = DaemonView;

    open spec fn view(&self) -> DaemonView {
        match self {
            DaemonFrame::Stdout(p) => DaemonView::Stdout(p@),
            DaemonFrame::Stderr(p) => DaemonView::Stderr(p@),
            DaemonFrame::Exit(p) => DaemonView::Exit(p@),
            DaemonFrame::Pong(p) => DaemonView::Pong(p@),
        }
    }
}

impl Clone for DaemonFrame {
    fn clone(&self) -> (r: DaemonFrame)
        ensures
            r@ == self@,
    {
        match self {
            DaemonFrame::Stdout(p) => DaemonFrame::Stdout(bytes_owned(p)),
            DaemonFrame::Stderr(p) => DaemonFrame::Stderr(bytes_owned(p)),
            DaemonFrame::Exit(p) => DaemonFrame::Exit(bytes_owned(p)),
            DaemonFrame::Pong(p) => DaemonFrame::Pong(bytes_owned(p)),
        }
    }
}

impl DaemonView {
    /// The frame's kind.
    pub open spec fn kind(self) -> DaemonType {
        match self {
            DaemonView::Stdout(_) => DaemonType::Stdout,
            DaemonView::Stderr(_) => DaemonType::Stderr,
            DaemonView::Exit(_) => DaemonType::Exit,
            DaemonView::Pong(_) => DaemonType::Pong,
        }
    }

    /// The frame's payload.
    pub open spec fn payload(self) -> Seq<u8> {
        match self {
            DaemonView::Stdout(p) => p,
            DaemonView::Stderr(p) => p,
            DaemonView::Exit(p) => p,
            DaemonView::Pong(p) => p,
        }
    }

    /// The frame with the given kind and payload.
    pub open spec fn of(kind: DaemonType, payload: Seq<u8>) -> DaemonView {
        match kind {
            DaemonType::Stdout => DaemonView::Stdout(payload),
            DaemonType::Stderr => DaemonView::Stderr(payload),
            DaemonType::Exit => DaemonView::Exit(payload),
            DaemonType::Pong => DaemonView::Pong(payload),
        }
    }

    /// The frame's bytes on the wire.
    pub open spec fn bytes(self) -> Seq<u8> {
        crate::frame::wire(self.kind().byte(), self.payload())
    }
}

/// The frame that a payload makes.
pub fn decode_daemon(kind: DaemonType, payload: Vec<u8>) -> (r: DaemonFrame)
    ensures
        r@ == DaemonView::of(kind, payload@),
{
    match kind {
        DaemonType::Stdout => DaemonFrame::Stdout(payload),
        DaemonType::Stderr => DaemonFrame::Stderr(payload),
        DaemonType::Exit => DaemonFrame::Exit(payload),
        DaemonType::Pong => DaemonFrame::Pong(payload),
    }
}

/// Reading one frame: the kind is judged before the length.
pub open spec fn read_daemon(s: Seq<u8>) -> ReadView<DaemonView> {
    if s.len() < HEADER_LEN {
        ReadView::End
    } else {
        match DaemonType::of(s[0]) {
            None => ReadView::Bad(bad_daemon_kind(s[0])),
            Some(k) => match crate::frame::front(s) {
                crate::frame::Front::TooLarge(n) => ReadView::Bad(too_large(n)),
                crate::frame::Front::Short => ReadView::Bad(early_eof()),
                crate::frame::Front::Frame(_, p, rest) => ReadView::Frame(
                    DaemonView::of(k, p),
                    rest,
                ),
            },
        }
    }
}

/// Judge a frame header: the kind and how many payload bytes follow.
pub fn daemon_header(header: &[u8]) -> (r: Result<(DaemonType, usize), Error>)
    requires
        header@.len() == HEADER_LEN,
    ensures
        match r {
            Ok((k, n)) => {
                &&& DaemonType::of(header@[0]) == Some(k)
                &&& n == crate::frame::payload_len(header@)
                &&& n <= MAX_PAYLOAD
            },
            Err(e) => match DaemonType::of(header@[0]) {
                None => e@ == bad_daemon_kind(header@[0]),
                Some(_) => crate::frame::payload_len(header@) > MAX_PAYLOAD && e@ == too_large(
                    crate::frame::payload_len(header@),
                ),
            },
        },
{
    let kind = match DaemonType::try_from(header[0]) {
        Ok(k) => k,
        Err(e) => return Err(e),
    };
    assert(header@.skip(0) =~= header@);
    let n: usize = header_len(header, 0) as usize;
    if n > MAX_PAYLOAD {
        return Err(too_large_error(n));
    }
    Ok((kind, n))
}

/// Read one daemon frame from the front of a byte stream; `None` when the stream
/// ends before a whole header. The frame comes with its length.
pub fn read_frame(r: &[u8]) -> (res: Result<Option<(DaemonFrame, usize)>, Error>)
    ensures
        match res {
            Ok(None) => read_daemon(r@) is End,
            Ok(Some((f, n))) => n <= r@.len() && read_daemon(r@) == ReadView::Frame(
                f@,
                r@.skip(n as int),
            ),
            Err(e) => read_daemon(r@) == ReadView::<DaemonView>::Bad(e@),
        },
{
    if r.len() < HEADER_LEN {
        return Ok(None);
    }
    let header = bytes_between(r, 0, HEADER_LEN);
    assert(header@.subrange(1, 5) =~= r@.subrange(1, 5));
    let (kind, n) = match daemon_header(&header) {
        Ok(x) => x,
        Err(e) => return Err(e),
    };
    assert(r@.len() == r.len());
    if r.len() - HEADER_LEN < n {
        return Err(Error::Io("early eof".to_owned()));
    }
    let payload = bytes_between(r, HEADER_LEN, HEADER_LEN + n);
    Ok(Some((decode_daemon(kind, payload), HEADER_LEN + n)))
}

/// Write one daemon frame at the end of a buffer.
pub fn write_daemon_frame(w: &mut Vec<u8>, frame: &DaemonFrame) -> (r: Result<(), Error>)
    ensures
        match r {
            Ok(()) => frame@.payload().len() <= u32::MAX && final(w)@ == old(w)@
                + frame@.bytes(),
            Err(e) => frame@.payload().len() > u32::MAX && final(w)@ == old(w)@ && e@
                == too_large(frame@.payload().len()),
        },
{
    match frame {
        DaemonFrame::Stdout(p) => write_raw(w, DaemonType::Stdout.code(), p),
        DaemonFrame::Stderr(p) => write_raw(w, DaemonType::Stderr.code(), p),
        DaemonFrame::Exit(p) => write_raw(w, DaemonType::Exit.code(), p),
        DaemonFrame::Pong(p) => write_raw(w, DaemonType::Pong.code(), p),
    }
}

/// What was written comes back: reading a stream that starts with an encoded
/// frame gives that frame and leaves the rest.
pub proof fn law_daemon_frame_round_trip(f: DaemonView, rest: Seq<u8>)
    requires
        f.payload().len() <= MAX_PAYLOAD,
    ensures
        read_daemon(f.bytes() + rest) == ReadView::Frame(f, rest),
{
    crate::frame::lemma_front_of_wire(f.kind().byte(), f.payload(), rest);
}

} // verus!
