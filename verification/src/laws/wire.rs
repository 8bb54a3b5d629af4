//! The wire: what is written as a frame is read as that frame, a stream that is none is
//! refused with the reason, and the texts that travel are kept whole.

use vstd::prelude::*;
use vstd::utf8::*;

use crate::laws::deployment::hex_value;
use crate::laws::forwarding::framed;
use crate::text::{dec_nat, opt_text, texts};

verus! {

/// The largest payload that is read.
pub open spec fn most() -> nat {
    16 * 1024 * 1024
}

/// The number that the length bytes of a header hold, the lowest first.
pub open spec fn announced(b: Seq<u8>) -> nat {
    (b[1] + 256 * b[2] + 65536 * b[3] + 16777216 * b[4]) as nat
}

/// What was written behind what was there: a frame with the kind and the payload.
pub open spec fn appended(before: Seq<u8>, after: Seq<u8>, kind: u8, payload: Seq<u8>) -> bool {
    &&& after.len() == before.len() + 5 + payload.len()
    &&& after.take(before.len() as int) == before
    &&& framed(after.skip(before.len() as int), kind, payload)
}

proof fn lemma_appended(before: Seq<u8>, kind: u8, payload: Seq<u8>)
    requires
        payload.len() <= u32::MAX,
    ensures
        appended(before, before + crate::frame::wire(kind, payload), kind, payload),
{
    let b = crate::frame::wire(kind, payload);
    crate::frame::lemma_le_round_trip(payload.len());
    assert(b.skip(5) =~= payload);
    assert((before + b).skip(before.len() as int) =~= b);
    assert((before + b).take(before.len() as int) =~= before);
}

proof fn lemma_announced(b: Seq<u8>)
    requires
        b.len() >= 5,
    ensures
        crate::frame::payload_len(b) == announced(b),
{
    let h = b.subrange(1, 5);
    assert(h[0] == b[1] && h[1] == b[2] && h[2] == b[3] && h[3] == b[4]);
}

/// A kind and a payload make a frame; only a payload too long for the length bytes is
/// refused.
pub proof fn law_encoded_frames(
    kind: u8,
    payload: &[u8],
    r: Option<Vec<u8>>,
    s: Result<Vec<u8>, crate::proto::Error>,
)
    requires
        call_ensures(crate::frame::encode, (kind, payload), r),
        call_ensures(crate::proto::encode_raw, (kind, payload), s),
    ensures
        payload@.len() <= u32::MAX ==> (r matches Some(b) && framed(b@, kind, payload@)),
        payload@.len() > u32::MAX ==> r is None,
        payload@.len() <= u32::MAX ==> (s matches Ok(b) && framed(b@, kind, payload@)),
        payload@.len() > u32::MAX ==> (s matches Err(crate::proto::Error::Protocol(w)) && w@
            == "frame too large: "@ + dec_nat(payload@.len())),
{
    if payload@.len() <= u32::MAX {
        lemma_appended(Seq::empty(), kind, payload@);
        let b = crate::frame::wire(kind, payload@);
        assert(Seq::<u8>::empty() + b =~= b);
        assert(b.skip(0) =~= b);
    }
}

/// A frame goes behind what was written before; one that does not fit leaves it alone.
pub proof fn law_raw_frames(
    w: &mut Vec<u8>,
    kind: u8,
    payload: &[u8],
    r: Result<(), crate::Error>,
)
    requires
        call_ensures(crate::ipc::write_raw, (w, kind, payload), r),
    ensures
        payload@.len() <= u32::MAX ==> r is Ok && appended(old(w)@, final(w)@, kind, payload@),
        payload@.len() > u32::MAX ==> final(w)@ == old(w)@ && (r matches Err(
            crate::Error::Protocol(d),
        ) && d@ == "frame too large: "@ + dec_nat(payload@.len())),
{
    if payload@.len() <= u32::MAX {
        lemma_appended(old(w)@, kind, payload@);
    }
}

/// The length of a header is the number that its bytes hold, and a frame is cut out of a
/// buffer by it: kind, payload and where it ends.
pub proof fn law_frames_are_cut(buf: &[u8], at: usize, n: u32, r: crate::frame::Cut)
    requires
        at <= buf@.len(),
        call_ensures(crate::frame::cut, (buf, at), r),
        at + 5 <= buf@.len() ==> call_ensures(crate::frame::header_len, (buf, at), n),
    ensures
        ({
            let b = buf@.skip(at as int);
            &&& b.len() < 5 ==> r is Short
            &&& b.len() >= 5 ==> {
                &&& n == announced(b)
                &&& announced(b) > most() ==> (r matches crate::frame::Cut::TooLarge(k) && k
                    == announced(b))
                &&& announced(b) <= most() && b.len() < 5 + announced(b) ==> r is Short
                &&& announced(b) <= most() && b.len() >= 5 + announced(b) ==> (
                r matches crate::frame::Cut::Frame(kind, payload, end) && kind == b[0] && end == at
                    + 5 + announced(b) && payload@ == b.subrange(5, (5 + announced(b)) as int))
            }
        }),
{
    let b = buf@.skip(at as int);
    if b.len() >= 5 {
        lemma_announced(b);
        if let crate::frame::Cut::Frame(_, _, end) = r {
            if announced(b) <= most() && b.len() >= 5 + announced(b) {
                assert(b.skip((5 + announced(b)) as int).len() == b.len() - 5 - announced(b));
                assert(buf@.skip(end as int).len() == buf@.len() - end);
            }
        }
    }
}

// -- frames of the client --------------------------------------------------------------

/// The kind and the payload of a frame of the client.
pub open spec fn client_parts(f: crate::ipc::ClientFrame) -> (u8, Seq<u8>) {
    match f {
        crate::ipc::ClientFrame::Exec(d) => (1u8, d@),
        crate::ipc::ClientFrame::StdinData(d) => (2u8, d@),
        crate::ipc::ClientFrame::StdinEof => (3u8, Seq::<u8>::empty()),
        crate::ipc::ClientFrame::Signal(d) => (4u8, d@),
        crate::ipc::ClientFrame::Ping => (5u8, Seq::<u8>::empty()),
    }
}

/// What the client writes goes behind what was written before, as one frame.
pub proof fn law_client_frames_are_written(
    w: &mut Vec<u8>,
    f: &crate::ipc::ClientFrame,
    r: Result<(), crate::Error>,
    c: crate::ipc::ClientFrame,
)
    requires
        call_ensures(crate::ipc::write_frame, (w, f), r),
        call_ensures(crate::ipc::ClientFrame::clone, (f,), c),
    ensures
        ({
            let (kind, payload) = client_parts(*f);
            &&& payload.len() <= u32::MAX ==> r is Ok && appended(
                old(w)@,
                final(w)@,
                kind,
                payload,
            )
            &&& payload.len() > u32::MAX ==> final(w)@ == old(w)@ && (r matches Err(
                crate::Error::Protocol(d),
            ) && d@ == "frame too large: "@ + dec_nat(payload.len()))
            &&& client_parts(c) == client_parts(*f)
        }),
{
    let (kind, payload) = client_parts(*f);
    if payload.len() <= u32::MAX {
        lemma_appended(old(w)@, kind, payload);
    }
}

/// What is read of the client: the frame with the kind and the payload at the front, and how
/// long it is. A stream that ends early, an unknown kind and a payload over the limit
/// are told apart.
pub proof fn law_client_frames_are_read(
    b: &[u8],
    r: Result<Option<(crate::ipc::ClientFrame, usize)>, crate::Error>,
)
    requires
        call_ensures(crate::ipc::read_client_frame, (b,), r),
    ensures
        ({
            let known = b@[0] == 1 || b@[0] == 2 || b@[0] == 3 || b@[0] == 4 || b@[0] == 5;
            let n = announced(b@);
            &&& b@.len() < 5 ==> r == Ok::<Option<(crate::ipc::ClientFrame, usize)>, crate::Error>(None)
            &&& b@.len() >= 5 && !known ==> (r matches Err(crate::Error::Protocol(d)) && d@
                == "bad client frame kind "@ + crate::text::hex_byte(b@[0]))
            &&& b@.len() >= 5 && known && n > most() ==> (r matches Err(crate::Error::Protocol(d)) && d@
                == "frame too large: "@ + dec_nat(n))
            &&& b@.len() >= 5 && known && n <= most() && b@.len() < 5 + n ==> (r matches Err(
                crate::Error::Io(d),
            ) && d@ == "early eof"@)
            &&& b@.len() >= 5 && known && n <= most() && b@.len() >= 5 + n ==> (
            r matches Ok(Some((f, len))) && len == 5 + n && client_parts(f).0 == b@[0] && (
            f is StdinEof || f is Ping || client_parts(f).1 == b@.subrange(5, (5 + n) as int)))
        }),
{
    if b@.len() >= 5 {
        lemma_announced(b@);
        let n = announced(b@);
        if n <= most() && b@.len() >= 5 + n {
            assert(b@.skip((5 + n) as int).len() == b@.len() - 5 - n);
            if let Ok(Some((_, len))) = r {
                if len <= b@.len() {
                    assert(b@.skip(len as int).len() == b@.len() - len);
                }
            }
        }
    }
}

/// Each kind of the client has its byte, each such byte its kind, and a kind with a payload
/// makes the frame that holds it. No other byte is a kind.
pub proof fn law_client_kinds(
    k: crate::ipc::ClientKind,
    v: u8,
    r: Result<crate::ipc::ClientKind, crate::Error>,
    u: u8,
    s: Result<crate::ipc::ClientKind, crate::Error>,
    p: Vec<u8>,
    f: crate::ipc::ClientFrame,
)
    requires
        call_ensures(crate::ipc::ClientKind::code, (k,), v),
        call_ensures(crate::ipc::ClientKind::try_from, (v,), r),
        call_ensures(crate::ipc::ClientKind::try_from, (u,), s),
        call_ensures(crate::ipc::decode_client, (k, p), f),
    ensures
        r == Ok::<crate::ipc::ClientKind, crate::Error>(k),
        k is Exec ==> v == 1 && (f is Exec) && client_parts(f).1 == p@,
        k is StdinData ==> v == 2 && (f is StdinData) && client_parts(f).1 == p@,
        k is StdinEof ==> v == 3 && (f is StdinEof),
        k is Signal ==> v == 4 && (f is Signal) && client_parts(f).1 == p@,
        k is Ping ==> v == 5 && (f is Ping),
        client_parts(f).0 == v,
        s is Ok <==> (u == 1 || u == 2 || u == 3 || u == 4 || u == 5),
        s matches Err(e) ==> (e matches crate::Error::Protocol(d) && d@ == "bad client frame kind "@
            + crate::text::hex_byte(u)),
{
}

/// A header of the client tells the kind and the length, and is refused for the same reasons.
pub proof fn law_client_headers(
    b: &[u8],
    r: Result<(crate::ipc::ClientKind, usize), crate::Error>,
    k: crate::ipc::ClientKind,
    v: u8,
)
    requires
        b@.len() == 5,
        call_ensures(crate::ipc::client_header, (b,), r),
        call_ensures(crate::ipc::ClientKind::code, (k,), v),
    ensures
        ({
            let n = announced(b@);
            &&& b@[0] == v && n <= most() ==> (r matches Ok((kind, len)) && kind == k && len == n)
            &&& b@[0] == v && n > most() ==> (r matches Err(crate::Error::Protocol(d)) && d@
                == "frame too large: "@ + dec_nat(n))
            &&& !(b@[0] == 1 || b@[0] == 2 || b@[0] == 3 || b@[0] == 4 || b@[0] == 5) ==> (r matches Err(
                crate::Error::Protocol(d),
            ) && d@ == "bad client frame kind "@ + crate::text::hex_byte(b@[0]))
        }),
{
    lemma_announced(b@);
}

// -- frames of the daemon --------------------------------------------------------------

/// The kind and the payload of a frame of the daemon.
pub open spec fn daemon_parts(f: crate::ipc::DaemonFrame) -> (u8, Seq<u8>) {
    match f {
        crate::ipc::DaemonFrame::Stdout(d) => (0x81u8, d@),
        crate::ipc::DaemonFrame::Stderr(d) => (0x82u8, d@),
        crate::ipc::DaemonFrame::Exit(d) => (0x83u8, d@),
        crate::ipc::DaemonFrame::Pong(d) => (0x84u8, d@),
    }
}

/// What the daemon writes goes behind what was written before, as one frame.
pub proof fn law_daemon_frames_are_written(
    w: &mut Vec<u8>,
    f: &crate::ipc::DaemonFrame,
    r: Result<(), crate::Error>,
    c: crate::ipc::DaemonFrame,
)
    requires
        call_ensures(crate::ipc::write_daemon_frame, (w, f), r),
        call_ensures(crate::ipc::DaemonFrame::clone, (f,), c),
    ensures
        ({
            let (kind, payload) = daemon_parts(*f);
            &&& payload.len() <= u32::MAX ==> r is Ok && appended(
                old(w)@,
                final(w)@,
                kind,
                payload,
            )
            &&& payload.len() > u32::MAX ==> final(w)@ == old(w)@ && (r matches Err(
                crate::Error::Protocol(d),
            ) && d@ == "frame too large: "@ + dec_nat(payload.len()))
            &&& daemon_parts(c) == daemon_parts(*f)
        }),
{
    let (kind, payload) = daemon_parts(*f);
    if payload.len() <= u32::MAX {
        lemma_appended(old(w)@, kind, payload);
    }
}

/// What is read of the daemon: the frame with the kind and the payload at the front, and how
/// long it is. A stream that ends early, an unknown kind and a payload over the limit
/// are told apart.
pub proof fn law_daemon_frames_are_read(
    b: &[u8],
    r: Result<Option<(crate::ipc::DaemonFrame, usize)>, crate::Error>,
)
    requires
        call_ensures(crate::ipc::read_frame, (b,), r),
    ensures
        ({
            let known = b@[0] == 0x81 || b@[0] == 0x82 || b@[0] == 0x83 || b@[0] == 0x84;
            let n = announced(b@);
            &&& b@.len() < 5 ==> r == Ok::<Option<(crate::ipc::DaemonFrame, usize)>, crate::Error>(None)
            &&& b@.len() >= 5 && !known ==> (r matches Err(crate::Error::Protocol(d)) && d@
                == "bad daemon frame kind "@ + crate::text::hex_byte(b@[0]))
            &&& b@.len() >= 5 && known && n > most() ==> (r matches Err(crate::Error::Protocol(d)) && d@
                == "frame too large: "@ + dec_nat(n))
            &&& b@.len() >= 5 && known && n <= most() && b@.len() < 5 + n ==> (r matches Err(
                crate::Error::Io(d),
            ) && d@ == "early eof"@)
            &&& b@.len() >= 5 && known && n <= most() && b@.len() >= 5 + n ==> (
            r matches Ok(Some((f, len))) && len == 5 + n && daemon_parts(f).0 == b@[0]
                && daemon_parts(f).1 == b@.subrange(5, (5 + n) as int))
        }),
{
    if b@.len() >= 5 {
        lemma_announced(b@);
        let n = announced(b@);
        if n <= most() && b@.len() >= 5 + n {
            assert(b@.skip((5 + n) as int).len() == b@.len() - 5 - n);
            if let Ok(Some((_, len))) = r {
                if len <= b@.len() {
                    assert(b@.skip(len as int).len() == b@.len() - len);
                }
            }
        }
    }
}

/// Each kind of the daemon has its byte, each such byte its kind, and a kind with a payload
/// makes the frame that holds it. No other byte is a kind.
pub proof fn law_daemon_kinds(
    k: crate::ipc::DaemonType,
    v: u8,
    r: Result<crate::ipc::DaemonType, crate::Error>,
    u: u8,
    s: Result<crate::ipc::DaemonType, crate::Error>,
    p: Vec<u8>,
    f: crate::ipc::DaemonFrame,
)
    requires
        call_ensures(crate::ipc::DaemonType::code, (k,), v),
        call_ensures(crate::ipc::DaemonType::try_from, (v,), r),
        call_ensures(crate::ipc::DaemonType::try_from, (u,), s),
        call_ensures(crate::ipc::decode_daemon, (k, p), f),
    ensures
        r == Ok::<crate::ipc::DaemonType, crate::Error>(k),
        k is Stdout ==> v == 0x81 && (f is Stdout) && daemon_parts(f).1 == p@,
        k is Stderr ==> v == 0x82 && (f is Stderr) && daemon_parts(f).1 == p@,
        k is Exit ==> v == 0x83 && (f is Exit) && daemon_parts(f).1 == p@,
        k is Pong ==> v == 0x84 && (f is Pong) && daemon_parts(f).1 == p@,
        daemon_parts(f).0 == v,
        s is Ok <==> (u == 0x81 || u == 0x82 || u == 0x83 || u == 0x84),
        s matches Err(e) ==> (e matches crate::Error::Protocol(d) && d@ == "bad daemon frame kind "@
            + crate::text::hex_byte(u)),
{
}

/// A header of the daemon tells the kind and the length, and is refused for the same reasons.
pub proof fn law_daemon_headers(
    b: &[u8],
    r: Result<(crate::ipc::DaemonType, usize), crate::Error>,
    k: crate::ipc::DaemonType,
    v: u8,
)
    requires
        b@.len() == 5,
        call_ensures(crate::ipc::daemon_header, (b,), r),
        call_ensures(crate::ipc::DaemonType::code, (k,), v),
    ensures
        ({
            let n = announced(b@);
            &&& b@[0] == v && n <= most() ==> (r matches Ok((kind, len)) && kind == k && len == n)
            &&& b@[0] == v && n > most() ==> (r matches Err(crate::Error::Protocol(d)) && d@
                == "frame too large: "@ + dec_nat(n))
            &&& !(b@[0] == 0x81 || b@[0] == 0x82 || b@[0] == 0x83 || b@[0] == 0x84) ==> (r matches Err(
                crate::Error::Protocol(d),
            ) && d@ == "bad daemon frame kind "@ + crate::text::hex_byte(b@[0]))
        }),
{
    lemma_announced(b@);
}

// -- frames of the initiator -----------------------------------------------------------

/// The kind and the payload of a frame of the initiator.
pub open spec fn exec_parts(f: crate::proto::ExecFrame) -> (u8, Seq<u8>) {
    match f {
        crate::proto::ExecFrame::Exec(d) => (1u8, d@),
        crate::proto::ExecFrame::StdinData(d) => (2u8, d@),
        crate::proto::ExecFrame::StdinEof => (3u8, Seq::<u8>::empty()),
        crate::proto::ExecFrame::Signal(d) => (4u8, d@),
        crate::proto::ExecFrame::Ping => (5u8, Seq::<u8>::empty()),
    }
}

/// What the initiator writes goes behind what was written before, as one frame.
pub proof fn law_exec_frames_are_written(
    w: &mut Vec<u8>,
    f: &crate::proto::ExecFrame,
    r: Result<(), crate::proto::Error>,
    c: crate::proto::ExecFrame,
)
    requires
        call_ensures(crate::proto::write_exec_frame, (w, f), r),
        call_ensures(crate::proto::ExecFrame::clone, (f,), c),
    ensures
        ({
            let (kind, payload) = exec_parts(*f);
            &&& payload.len() <= u32::MAX ==> r is Ok && appended(
                old(w)@,
                final(w)@,
                kind,
                payload,
            )
            &&& payload.len() > u32::MAX ==> final(w)@ == old(w)@ && (r matches Err(
                crate::proto::Error::Protocol(d),
            ) && d@ == "frame too large: "@ + dec_nat(payload.len()))
            &&& exec_parts(c) == exec_parts(*f)
        }),
{
    let (kind, payload) = exec_parts(*f);
    if payload.len() <= u32::MAX {
        lemma_appended(old(w)@, kind, payload);
    }
}

/// What is read of the initiator: the frame with the kind and the payload at the front, and how
/// long it is. A stream that ends early, an unknown kind and a payload over the limit
/// are told apart.
pub proof fn law_exec_frames_are_read(
    b: &[u8],
    r: Result<Option<(crate::proto::ExecFrame, usize)>, crate::proto::Error>,
)
    requires
        call_ensures(crate::proto::read_exec_frame, (b,), r),
    ensures
        ({
            let known = b@[0] == 1 || b@[0] == 2 || b@[0] == 3 || b@[0] == 4 || b@[0] == 5;
            let n = announced(b@);
            &&& b@.len() < 5 ==> r == Ok::<Option<(crate::proto::ExecFrame, usize)>, crate::proto::Error>(None)
            &&& b@.len() >= 5 && !known ==> (r matches Err(crate::proto::Error::Protocol(d)) && d@
                == "bad exec frame kind "@ + crate::text::hex_byte(b@[0]))
            &&& b@.len() >= 5 && known && n > most() ==> (r matches Err(crate::proto::Error::Protocol(d)) && d@
                == "frame too large: "@ + dec_nat(n))
            &&& b@.len() >= 5 && known && n <= most() && b@.len() < 5 + n ==> (r matches Err(
                crate::proto::Error::Io(d),
            ) && d@ == "early eof"@)
            &&& b@.len() >= 5 && known && n <= most() && b@.len() >= 5 + n ==> (
            r matches Ok(Some((f, len))) && len == 5 + n && exec_parts(f).0 == b@[0] && (
            f is StdinEof || f is Ping || exec_parts(f).1 == b@.subrange(5, (5 + n) as int)))
        }),
{
    if b@.len() >= 5 {
        lemma_announced(b@);
        let n = announced(b@);
        if n <= most() && b@.len() >= 5 + n {
            assert(b@.skip((5 + n) as int).len() == b@.len() - 5 - n);
            if let Ok(Some((_, len))) = r {
                if len <= b@.len() {
                    assert(b@.skip(len as int).len() == b@.len() - len);
                }
            }
        }
    }
}

/// Each kind of the initiator has its byte, each such byte its kind, and a kind with a payload
/// makes the frame that holds it. No other byte is a kind.
pub proof fn law_exec_kinds(
    k: crate::proto::ExecKind,
    v: u8,
    r: Result<crate::proto::ExecKind, crate::proto::Error>,
    u: u8,
    s: Result<crate::proto::ExecKind, crate::proto::Error>,
    p: Vec<u8>,
    f: crate::proto::ExecFrame,
)
    requires
        call_ensures(crate::proto::ExecKind::code, (k,), v),
        call_ensures(crate::proto::ExecKind::try_from, (v,), r),
        call_ensures(crate::proto::ExecKind::try_from, (u,), s),
        call_ensures(crate::proto::decode_exec, (k, p), f),
    ensures
        r == Ok::<crate::proto::ExecKind, crate::proto::Error>(k),
        k is Exec ==> v == 1 && (f is Exec) && exec_parts(f).1 == p@,
        k is StdinData ==> v == 2 && (f is StdinData) && exec_parts(f).1 == p@,
        k is StdinEof ==> v == 3 && (f is StdinEof),
        k is Signal ==> v == 4 && (f is Signal) && exec_parts(f).1 == p@,
        k is Ping ==> v == 5 && (f is Ping),
        exec_parts(f).0 == v,
        s is Ok <==> (u == 1 || u == 2 || u == 3 || u == 4 || u == 5),
        s matches Err(e) ==> (e matches crate::proto::Error::Protocol(d) && d@ == "bad exec frame kind "@
            + crate::text::hex_byte(u)),
{
}

/// A header of the initiator tells the kind and the length, and is refused for the same reasons.
pub proof fn law_exec_headers(
    b: &[u8],
    r: Result<(crate::proto::ExecKind, usize), crate::proto::Error>,
    k: crate::proto::ExecKind,
    v: u8,
)
    requires
        b@.len() == 5,
        call_ensures(crate::proto::exec_header, (b,), r),
        call_ensures(crate::proto::ExecKind::code, (k,), v),
    ensures
        ({
            let n = announced(b@);
            &&& b@[0] == v && n <= most() ==> (r matches Ok((kind, len)) && kind == k && len == n)
            &&& b@[0] == v && n > most() ==> (r matches Err(crate::proto::Error::Protocol(d)) && d@
                == "frame too large: "@ + dec_nat(n))
            &&& !(b@[0] == 1 || b@[0] == 2 || b@[0] == 3 || b@[0] == 4 || b@[0] == 5) ==> (r matches Err(
                crate::proto::Error::Protocol(d),
            ) && d@ == "bad exec frame kind "@ + crate::text::hex_byte(b@[0]))
        }),
{
    lemma_announced(b@);
}

// -- frames of the responder -----------------------------------------------------------

/// The kind and the payload of a frame of the responder.
pub open spec fn event_parts(f: crate::proto::EventFrame) -> (u8, Seq<u8>) {
    match f {
        crate::proto::EventFrame::Stdout(d) => (0x81u8, d@),
        crate::proto::EventFrame::Stderr(d) => (0x82u8, d@),
        crate::proto::EventFrame::Exit(d) => (0x83u8, d@),
        crate::proto::EventFrame::Pong(d) => (0x84u8, d@),
    }
}

/// What the responder writes goes behind what was written before, as one frame.
pub proof fn law_event_frames_are_written(
    w: &mut Vec<u8>,
    f: &crate::proto::EventFrame,
    r: Result<(), crate::proto::Error>,
    c: crate::proto::EventFrame,
)
    requires
        call_ensures(crate::proto::write_event_frame, (w, f), r),
        call_ensures(crate::proto::EventFrame::clone, (f,), c),
    ensures
        ({
            let (kind, payload) = event_parts(*f);
            &&& payload.len() <= u32::MAX ==> r is Ok && appended(
                old(w)@,
                final(w)@,
                kind,
                payload,
            )
            &&& payload.len() > u32::MAX ==> final(w)@ == old(w)@ && (r matches Err(
                crate::proto::Error::Protocol(d),
            ) && d@ == "frame too large: "@ + dec_nat(payload.len()))
            &&& event_parts(c) == event_parts(*f)
        }),
{
    let (kind, payload) = event_parts(*f);
    if payload.len() <= u32::MAX {
        lemma_appended(old(w)@, kind, payload);
    }
}

/// What is read of the responder: the frame with the kind and the payload at the front, and how
/// long it is. A stream that ends early, an unknown kind and a payload over the limit
/// are told apart.
pub proof fn law_event_frames_are_read(
    b: &[u8],
    r: Result<Option<(crate::proto::EventFrame, usize)>, crate::proto::Error>,
)
    requires
        call_ensures(crate::proto::read_event_frame, (b,), r),
    ensures
        ({
            let known = b@[0] == 0x81 || b@[0] == 0x82 || b@[0] == 0x83 || b@[0] == 0x84;
            let n = announced(b@);
            &&& b@.len() < 5 ==> r == Ok::<Option<(crate::proto::EventFrame, usize)>, crate::proto::Error>(None)
            &&& b@.len() >= 5 && !known ==> (r matches Err(crate::proto::Error::Protocol(d)) && d@
                == "bad event frame kind "@ + crate::text::hex_byte(b@[0]))
            &&& b@.len() >= 5 && known && n > most() ==> (r matches Err(crate::proto::Error::Protocol(d)) && d@
                == "frame too large: "@ + dec_nat(n))
            &&& b@.len() >= 5 && known && n <= most() && b@.len() < 5 + n ==> (r matches Err(
                crate::proto::Error::Io(d),
            ) && d@ == "early eof"@)
            &&& b@.len() >= 5 && known && n <= most() && b@.len() >= 5 + n ==> (
            r matches Ok(Some((f, len))) && len == 5 + n && event_parts(f).0 == b@[0]
                && event_parts(f).1 == b@.subrange(5, (5 + n) as int))
        }),
{
    if b@.len() >= 5 {
        lemma_announced(b@);
        let n = announced(b@);
        if n <= most() && b@.len() >= 5 + n {
            assert(b@.skip((5 + n) as int).len() == b@.len() - 5 - n);
            if let Ok(Some((_, len))) = r {
                if len <= b@.len() {
                    assert(b@.skip(len as int).len() == b@.len() - len);
                }
            }
        }
    }
}

/// Each kind of the responder has its byte, each such byte its kind, and a kind with a payload
/// makes the frame that holds it. No other byte is a kind.
pub proof fn law_event_kinds(
    k: crate::proto::EventKind,
    v: u8,
    r: Result<crate::proto::EventKind, crate::proto::Error>,
    u: u8,
    s: Result<crate::proto::EventKind, crate::proto::Error>,
    p: Vec<u8>,
    f: crate::proto::EventFrame,
)
    requires
        call_ensures(crate::proto::EventKind::code, (k,), v),
        call_ensures(crate::proto::EventKind::try_from, (v,), r),
        call_ensures(crate::proto::EventKind::try_from, (u,), s),
        call_ensures(crate::proto::decode_event, (k, p), f),
    ensures
        r == Ok::<crate::proto::EventKind, crate::proto::Error>(k),
        k is Stdout ==> v == 0x81 && (f is Stdout) && event_parts(f).1 == p@,
        k is Stderr ==> v == 0x82 && (f is Stderr) && event_parts(f).1 == p@,
        k is Exit ==> v == 0x83 && (f is Exit) && event_parts(f).1 == p@,
        k is Pong ==> v == 0x84 && (f is Pong) && event_parts(f).1 == p@,
        event_parts(f).0 == v,
        s is Ok <==> (u == 0x81 || u == 0x82 || u == 0x83 || u == 0x84),
        s matches Err(e) ==> (e matches crate::proto::Error::Protocol(d) && d@ == "bad event frame kind "@
            + crate::text::hex_byte(u)),
{
}

/// A header of the responder tells the kind and the length, and is refused for the same reasons.
pub proof fn law_event_headers(
    b: &[u8],
    r: Result<(crate::proto::EventKind, usize), crate::proto::Error>,
    k: crate::proto::EventKind,
    v: u8,
)
    requires
        b@.len() == 5,
        call_ensures(crate::proto::event_header, (b,), r),
        call_ensures(crate::proto::EventKind::code, (k,), v),
    ensures
        ({
            let n = announced(b@);
            &&& b@[0] == v && n <= most() ==> (r matches Ok((kind, len)) && kind == k && len == n)
            &&& b@[0] == v && n > most() ==> (r matches Err(crate::proto::Error::Protocol(d)) && d@
                == "frame too large: "@ + dec_nat(n))
            &&& !(b@[0] == 0x81 || b@[0] == 0x82 || b@[0] == 0x83 || b@[0] == 0x84) ==> (r matches Err(
                crate::proto::Error::Protocol(d),
            ) && d@ == "bad event frame kind "@ + crate::text::hex_byte(b@[0]))
        }),
{
    lemma_announced(b@);
}

// -- streams of frames ------------------------------------------------------------------------

/// A stream is the frames, one after the other, and then the tail.
pub open spec fn streamed(b: Seq<u8>, fs: Seq<crate::proto::EventFrame>, tail: Seq<u8>) -> bool
    decreases fs.len(),
{
    if fs.len() == 0 {
        b == tail
    } else {
        let (kind, payload) = event_parts(fs[0]);
        let n = (5 + payload.len()) as int;
        &&& payload.len() <= most()
        &&& b.len() >= n
        &&& framed(b.take(n), kind, payload)
        &&& streamed(b.skip(n), fs.skip(1), tail)
    }
}

/// A tail that more bytes can make a frame.
pub open spec fn incomplete(tail: Seq<u8>) -> bool {
    tail.len() < 5 || announced(tail) <= most() && tail.len() < 5 + announced(tail)
}

proof fn lemma_streamed(b: Seq<u8>, fs: Seq<crate::proto::EventFrame>, tail: Seq<u8>)
    requires
        streamed(b, fs, tail),
    ensures
        ({
            let d = crate::proto::decoded(b);
            let t = crate::proto::decoded(tail);
            &&& d.rest == t.rest
            &&& d.error == t.error
            &&& d.frames == crate::proto::event_views(fs) + t.frames
        }),
    decreases fs.len(),
{
    let t = crate::proto::decoded(tail);
    if fs.len() == 0 {
        assert(crate::proto::event_views(fs) + t.frames =~= t.frames);
    } else {
        let (kind, payload) = event_parts(fs[0]);
        let n = (5 + payload.len()) as int;
        let h = b.take(n);
        lemma_streamed(b.skip(n), fs.skip(1), tail);
        assert(h[0] == b[0] && h[1] == b[1] && h[2] == b[2] && h[3] == b[3] && h[4] == b[4]);
        lemma_announced(b);
        assert(b.subrange(5, n) =~= h.skip(5));
        let more = crate::proto::decoded(b.skip(n));
        assert(crate::proto::decoded(b).frames =~= seq![fs[0]@] + more.frames);
        assert(crate::proto::event_views(fs) =~= seq![fs[0]@] + crate::proto::event_views(
            fs.skip(1),
        ));
    }
}

proof fn lemma_tail(tail: Seq<u8>)
    ensures
        incomplete(tail) ==> crate::proto::decoded(tail) == (crate::proto::Decoded {
            frames: Seq::empty(),
            rest: tail,
            error: None,
        }),
        tail.len() >= 5 && announced(tail) > most() ==> crate::proto::decoded(tail)
            == (crate::proto::Decoded {
            frames: Seq::empty(),
            rest: tail,
            error: Some(crate::proto::ErrorView::Protocol("frame too large: "@ + dec_nat(announced(tail)))),
        }),
        tail.len() >= 5 && announced(tail) <= most() && tail.len() >= 5 + announced(tail) && !(
        tail[0] == 0x81 || tail[0] == 0x82 || tail[0] == 0x83 || tail[0] == 0x84)
            ==> crate::proto::decoded(tail) == (crate::proto::Decoded {
            frames: Seq::empty(),
            rest: tail,
            error: Some(
                crate::proto::ErrorView::Protocol(
                    "bad event frame kind "@ + crate::text::hex_byte(tail[0]),
                ),
            ),
        }),
{
    if tail.len() >= 5 {
        lemma_announced(tail);
    }
}

/// However the bytes of some frames arrive, the frames come out once they are complete:
/// all of them, in order, with their kinds and payloads; and what is not complete waits.
pub proof fn law_decoders_give_all_frames(
    dec: &mut crate::proto::EventDecoder,
    chunk: &[u8],
    r: Result<Vec<crate::proto::EventFrame>, crate::proto::Error>,
    fs: Seq<crate::proto::EventFrame>,
    tail: Seq<u8>,
    fresh: crate::proto::EventDecoder,
)
    requires
        call_ensures(crate::proto::EventDecoder::push, (dec, chunk), r),
        call_ensures(crate::proto::EventDecoder::new, (), fresh),
        streamed(old(dec)@ + chunk@, fs, tail),
    ensures
        fresh@.len() == 0,
        final(dec)@ == tail || !incomplete(tail),
        incomplete(tail) ==> (r matches Ok(v) && v@.len() == fs.len() && forall|i: int|
            0 <= i < fs.len() ==> event_parts(#[trigger] v@[i]) == event_parts(fs[i])),
        tail.len() >= 5 && announced(tail) > most() ==> (r matches Err(
            crate::proto::Error::Protocol(w),
        ) && w@ == "frame too large: "@ + dec_nat(announced(tail))),
        tail.len() >= 5 && announced(tail) <= most() && tail.len() >= 5 + announced(tail) && !(
        tail[0] == 0x81 || tail[0] == 0x82 || tail[0] == 0x83 || tail[0] == 0x84) ==> (
        r matches Err(crate::proto::Error::Protocol(w)) && w@ == "bad event frame kind "@
            + crate::text::hex_byte(tail[0])),
{
    lemma_streamed(old(dec)@ + chunk@, fs, tail);
    lemma_tail(tail);
    if let Ok(v) = r {
        if incomplete(tail) {
            lemma_same_frames(v@, fs);
        }
    }
}

proof fn lemma_same_frames(
    v: Seq<crate::proto::EventFrame>,
    fs: Seq<crate::proto::EventFrame>,
)
    requires
        crate::proto::event_views(v) == crate::proto::event_views(fs) + Seq::<
            crate::proto::EventView,
        >::empty(),
    ensures
        v.len() == fs.len(),
        forall|i: int| 0 <= i < fs.len() ==> event_parts(#[trigger] v[i]) == event_parts(fs[i]),
{
    let a = crate::proto::event_views(v);
    let b = crate::proto::event_views(fs);
    assert(b + Seq::<crate::proto::EventView>::empty() =~= b);
    assert(a.len() == v.len() && b.len() == fs.len());
    assert forall|i: int| 0 <= i < fs.len() implies event_parts(#[trigger] v[i]) == event_parts(
        fs[i],
    ) by {
        assert(a[i] == v[i]@ && b[i] == fs[i]@);
    }
}

/// A remote run decodes what its channel brings in the same way, and nothing else of it
/// changes.
pub proof fn law_remote_data_is_decoded(
    run: &mut crate::remote::RemoteRun,
    chunk: &[u8],
    r: Result<Vec<crate::proto::EventFrame>, crate::Error>,
    fs: Seq<crate::proto::EventFrame>,
    tail: Seq<u8>,
    fresh: crate::remote::RemoteRun,
)
    requires
        call_ensures(crate::remote::RemoteRun::data, (run, chunk), r),
        call_ensures(crate::remote::RemoteRun::new, (), fresh),
        streamed(old(run)@.undecoded + chunk@, fs, tail),
    ensures
        fresh@.undecoded.len() == 0 && fresh@.log.len() == 0 && fresh@.report is None
            && fresh@.serve_status is None && fresh@.input_open,
        final(run)@.log == old(run)@.log && final(run)@.report == old(run)@.report
            && final(run)@.serve_status == old(run)@.serve_status && final(run)@.input_open
            == old(run)@.input_open,
        final(run)@.undecoded == tail || !incomplete(tail),
        incomplete(tail) ==> (r matches Ok(v) && v@.len() == fs.len() && forall|i: int|
            0 <= i < fs.len() ==> event_parts(#[trigger] v@[i]) == event_parts(fs[i])),
        tail.len() >= 5 && announced(tail) > most() ==> (r matches Err(crate::Error::Protocol(w))
            && w@ == "frame too large: "@ + dec_nat(announced(tail))),
        tail.len() >= 5 && announced(tail) <= most() && tail.len() >= 5 + announced(tail) && !(
        tail[0] == 0x81 || tail[0] == 0x82 || tail[0] == 0x83 || tail[0] == 0x84) ==> (
        r matches Err(crate::Error::Protocol(w)) && w@ == "bad event frame kind "@
            + crate::text::hex_byte(tail[0])),
{
    lemma_streamed(old(run)@.undecoded + chunk@, fs, tail);
    lemma_tail(tail);
    if let Ok(v) = r {
        if incomplete(tail) {
            lemma_same_frames(v@, fs);
        }
    }
}

// -- values ---------------------------------------------------------------------------------

/// A control payload that could be read is what it was read as; any other is refused with
/// the reason.
pub proof fn law_control_payloads<T>(
    parsed: Result<T, String>,
    r: Result<T, crate::proto::Error>,
    s: Result<T, crate::Error>,
    why: &str,
    e: crate::proto::Error,
)
    requires
        call_ensures(crate::proto::json::<T>, (parsed,), r),
        call_ensures(crate::ipc::json::<T>, (parsed,), s),
        call_ensures(crate::proto::Error::bad_payload, (why,), e),
    ensures
        parsed matches Ok(v) ==> r == Ok::<T, crate::proto::Error>(v) && s == Ok::<T, crate::Error>(
            v,
        ),
        parsed matches Err(d) ==> (r matches Err(crate::proto::Error::Protocol(w)) && w@
            == "bad frame payload: "@ + d@) && (s matches Err(crate::Error::Protocol(w)) && w@
            == "bad frame payload: "@ + d@),
        e matches crate::proto::Error::Protocol(w) && w@ == "bad frame payload: "@ + why@,
{
}

/// A protocol error is told with its kind and its detail.
pub proof fn law_protocol_messages(e: crate::proto::Error, r: String)
    requires
        call_ensures(crate::proto::Error::message, (&e,), r),
    ensures
        e matches crate::proto::Error::Io(d) ==> r@ == "io error: "@ + d@,
        e matches crate::proto::Error::Json(d) ==> r@ == "serialization error: "@ + d@,
        e matches crate::proto::Error::Protocol(d) ==> r@ == "protocol error: "@ + d@,
{
}

/// The hexadecimal text of a byte reads back as the byte, without leading zeros.
pub proof fn law_hex_bytes(s: &mut String, b: u8)
    requires
        call_ensures(crate::text::push_hex_byte, (s, b), ()),
    ensures
        ({
            let n = old(s)@.len() as int;
            let t = final(s)@;
            &&& t.take(n) == old(s)@
            &&& t[n] == '0' && t[n + 1] == 'x'
            &&& b < 16 ==> t.len() == n + 3 && hex_value(t[n + 2]) == b
            &&& b >= 16 ==> t.len() == n + 4 && hex_value(t[n + 2]) >= 1 && 0 <= hex_value(t[n + 3])
                < 16 && 16 * hex_value(t[n + 2]) + hex_value(t[n + 3]) == b
        }),
{
    let n = old(s)@.len() as int;
    assert(final(s)@.take(n) =~= old(s)@);
}

/// A text is cut to the longest part in front that fits in the bytes.
pub proof fn law_texts_are_cut(s: &str, max: usize, r: &str, k: int)
    requires
        call_ensures(crate::proto::truncate_utf8, (s, max), r),
        0 <= k <= s@.len(),
        encode_utf8(s@.take(k)).len() <= max,
    ensures
        r@.len() <= s@.len(),
        r@ == s@.take(r@.len() as int),
        encode_utf8(r@).len() <= max,
        k <= r@.len(),
{
    crate::text::law_utf8_prefix_is_longest(s@, max as nat);
}

/// White space around a text is taken off, and nothing else.
pub proof fn law_texts_are_trimmed(
    before: Seq<char>,
    text: Seq<char>,
    after: Seq<char>,
    s: &str,
    r: String,
    e: String,
)
    requires
        s@ == before + text + after,
        forall|i: int| 0 <= i < before.len() ==> crate::text::is_white(#[trigger] before[i]),
        forall|i: int| 0 <= i < after.len() ==> crate::text::is_white(#[trigger] after[i]),
        text.len() > 0,
        !crate::text::is_white(text[0]),
        !crate::text::is_white(text[text.len() - 1]),
        call_ensures(crate::text::trim_string, (s,), r),
        call_ensures(crate::text::trim_end_string, (s,), e),
    ensures
        r@ == text,
        e@ == before + text,
{
    lemma_trimmed_start(before, text + after);
    assert(before + text + after =~= before + (text + after));
    lemma_trimmed_end(text, after);
    lemma_trimmed_end(before + text, after);
    assert((before + text).last() == text[text.len() - 1]);
    lemma_trims_agree(before, text, after);
}

proof fn lemma_trimmed_start(before: Seq<char>, rest: Seq<char>)
    requires
        forall|i: int| 0 <= i < before.len() ==> crate::text::is_white(#[trigger] before[i]),
        rest.len() > 0,
        !crate::text::is_white(rest[0]),
    ensures
        crate::text::trimmed_start(before + rest) == rest,
    decreases before.len(),
{
    let t = before + rest;
    if before.len() == 0 {
        assert(t =~= rest);
    } else {
        assert(t[0] == before[0]);
        assert(t.skip(1) =~= before.skip(1) + rest);
        assert(t.drop_first() =~= before.skip(1) + rest);
        assert forall|i: int| 0 <= i < before.skip(1).len() implies crate::text::is_white(
            #[trigger] before.skip(1)[i],
        ) by {
            assert(before.skip(1)[i] == before[i + 1]);
        }
        lemma_trimmed_start(before.skip(1), rest);
    }
}

proof fn lemma_trimmed_end(rest: Seq<char>, after: Seq<char>)
    requires
        forall|i: int| 0 <= i < after.len() ==> crate::text::is_white(#[trigger] after[i]),
        rest.len() > 0,
        !crate::text::is_white(rest[rest.len() - 1]),
    ensures
        crate::text::trimmed_end(rest + after) == rest,
    decreases after.len(),
{
    let t = rest + after;
    if after.len() == 0 {
        assert(t =~= rest);
        assert(rest.last() == rest[rest.len() - 1]);
    } else {
        assert(t.last() == after[after.len() - 1]);
        assert(t.drop_last() =~= rest + after.drop_last());
        assert forall|i: int| 0 <= i < after.drop_last().len() implies crate::text::is_white(
            #[trigger] after.drop_last()[i],
        ) by {
            assert(after.drop_last()[i] == after[i]);
        }
        lemma_trimmed_end(rest, after.drop_last());
    }
}

proof fn lemma_trims_agree(before: Seq<char>, text: Seq<char>, after: Seq<char>)
    requires
        crate::text::trimmed_start(before + (text + after)) == text + after,
        crate::text::trimmed_end(text + after) == text,
        crate::text::trimmed_end(before + text + after) == before + text,
        before + text + after == before + (text + after),
        forall|i: int| 0 <= i < before.len() ==> crate::text::is_white(#[trigger] before[i]),
        text.len() > 0,
        !crate::text::is_white(text[0]),
    ensures
        crate::text::trimmed(before + text + after) == text,
{
    lemma_trimmed_start(before, text);
}

/// Texts put together with a separator: one alone is itself, and two lists are put
/// together with one separator between them.
pub proof fn law_joined_texts(
    a: &Vec<String>,
    b: &Vec<String>,
    all: &Vec<String>,
    sep: &str,
    ra: String,
    rb: String,
    rall: String,
)
    requires
        texts(all@) == texts(a@) + texts(b@),
        call_ensures(crate::text::join_strings, (a, sep), ra),
        call_ensures(crate::text::join_strings, (b, sep), rb),
        call_ensures(crate::text::join_strings, (all, sep), rall),
    ensures
        a@.len() == 0 ==> ra@.len() == 0,
        a@.len() == 1 ==> ra@ == a@[0]@,
        a@.len() > 0 && b@.len() > 0 ==> rall@ == ra@ + sep@ + rb@,
{
    let ta = texts(a@);
    assert(ta.len() == a@.len());
    if a@.len() == 1 {
        assert(ta[0] == a@[0]@);
        lemma_joined_one(ta, sep@);
    }
    if a@.len() > 0 && b@.len() > 0 {
        lemma_joined(ta, texts(b@), sep@);
    }
}

pub proof fn lemma_joined_one(a: Seq<Seq<char>>, sep: Seq<char>)
    requires
        a.len() == 1,
    ensures
        crate::text::joined(a, sep) == a[0],
{
    reveal_with_fuel(crate::text::joined, 3);
}

pub proof fn lemma_joined(a: Seq<Seq<char>>, b: Seq<Seq<char>>, sep: Seq<char>)
    requires
        a.len() > 0,
        b.len() > 0,
    ensures
        crate::text::joined(a + b, sep) == crate::text::joined(a, sep) + sep
            + crate::text::joined(b, sep),
    decreases b.len(),
{
    let all = a + b;
    assert(all.drop_last() =~= a + b.drop_last());
    assert(all.last() == b.last());
    if b.len() == 1 {
        lemma_joined_one(b, sep);
        assert(all.drop_last() =~= a);
        assert(b[0] == b.last());
    } else {
        lemma_joined(a, b.drop_last(), sep);
        let x = crate::text::joined(a, sep);
        let y = crate::text::joined(b.drop_last(), sep);
        assert(x + sep + y + sep + b.last() =~= x + sep + (y + sep + b.last()));
    }
}

/// A number is read from its digits, and from nothing with another character.
pub proof fn law_numbers_are_read(s: &[char], n: u64, max: u64, r: Option<u64>, t: String)
    requires
        call_ensures(crate::text::parse_uint, (s, max), r),
        call_ensures(crate::text::nat_string, (n,), t),
    ensures
        s@ == t@ && n <= max ==> r == Some(n),
        s@ == t@ && n > max ==> r is None,
        crate::laws::hosts::no_number(s@) || s@.len() == 0 ==> r is None,
        r matches Some(k) ==> k <= max,
{
    crate::text::lemma_dec_nat_reads_back(n as nat);
    crate::text::law_decimal_round_trip(n as nat, u64::MAX as nat);
    let d = dec_nat(n as nat);
    assert(crate::text::is_digit(d[0]));
    if crate::laws::hosts::no_number(s@) {
        crate::laws::hosts::lemma_no_number(s@, max as nat);
    }
}

// -- the markers ----------------------------------------------------------------------------

/// Data without a control byte passes the filter whole and at once, and changes nothing
/// of what it knows.
pub proof fn law_filter_passes_data(
    f: &mut crate::marker::MarkerFilter,
    data: &[u8],
    r: Vec<u8>,
    p: Option<u32>,
    fresh: crate::marker::MarkerFilter,
    nonce: &str,
    q: Option<u32>,
    end: (Vec<u8>, Option<String>),
)
    requires
        old(f)@.wf(),
        !old(f)@.finished,
        old(f)@.pending.len() == 0,
        forall|i: int| 0 <= i < data@.len() ==> #[trigger] data@[i] != 0x1c,
        call_ensures(crate::marker::MarkerFilter::push, (f, data), r),
        call_ensures(crate::marker::MarkerFilter::pgid, (&*final(f),), p),
        call_ensures(crate::marker::MarkerFilter::new, (nonce,), fresh),
        call_ensures(crate::marker::MarkerFilter::pgid, (&fresh,), q),
        call_ensures(crate::marker::MarkerFilter::finish, (fresh,), end),
    ensures
        r@ == data@,
        final(f)@ == old(f)@,
        p == old(f)@.pgid,
        fresh@.wf() && !fresh@.finished && fresh@.pending.len() == 0,
        q is None,
        end.0@.len() == 0,
        end.1 is None,
{
    crate::marker::law_data_without_control_bytes(old(f)@, data@);
    assert(opt_text(end.1) is None);
}

/// Behind the message with the directory nothing comes through any more.
pub proof fn law_finished_filters(
    f: &mut crate::marker::MarkerFilter,
    data: &[u8],
    r: Vec<u8>,
    before: (Vec<u8>, Option<String>),
    after: (Vec<u8>, Option<String>),
    p: Option<u32>,
    q: Option<u32>,
)
    requires
        old(f)@.wf(),
        old(f)@.finished,
        call_ensures(crate::marker::MarkerFilter::pgid, (&*old(f),), p),
        call_ensures(crate::marker::MarkerFilter::finish, (*old(f),), before),
        call_ensures(crate::marker::MarkerFilter::push, (f, data), r),
        call_ensures(crate::marker::MarkerFilter::pgid, (&*final(f),), q),
        call_ensures(crate::marker::MarkerFilter::finish, (*final(f),), after),
    ensures
        r@.len() == 0,
        after.0@.len() == 0,
        opt_text(after.1) == opt_text(before.1),
        q == p,
{
}

/// The two messages of a nonce: what stands in front of the directory and of the group.
pub open spec fn message_start(word: Seq<char>, nonce: Seq<char>) -> Seq<u8> {
    encode_utf8(word + nonce + seq![':'])
}

/// The message with the directory ends the output: the data in front of it comes through,
/// nothing else does, and the directory is known at the end.
pub proof fn law_filter_takes_the_directory(
    f: &mut crate::marker::MarkerFilter,
    nonce: &str,
    fresh: crate::marker::MarkerFilter,
    data: Seq<u8>,
    dir: Seq<char>,
    junk: Seq<u8>,
    chunk: &[u8],
    r: Vec<u8>,
    end: (Vec<u8>, Option<String>),
)
    requires
        call_ensures(crate::marker::MarkerFilter::new, (nonce,), fresh),
        *old(f) == fresh,
        crate::marker::plain_nonce(nonce@),
        forall|i: int| 0 <= i < data.len() ==> #[trigger] data[i] != 0x1c,
        crate::marker::base64_text(encode_utf8(dir)).len() <= 8192,
        chunk@ == data + message_start("\x1cSPM:"@, nonce@) + crate::marker::base64_text(
            encode_utf8(dir),
        ) + seq![0x1cu8] + junk,
        call_ensures(crate::marker::MarkerFilter::push, (f, chunk), r),
        call_ensures(crate::marker::MarkerFilter::finish, (*final(f),), end),
    ensures
        r@ == data,
        end.0@.len() == 0,
        opt_text(end.1) == Some(dir),
{
    lemma_no_header(old(f)@, data);
    crate::marker::law_cwd_message_is_stripped(old(f)@, data, dir, junk);
}

/// The message with the process group is taken out of the output, and the group is known.
pub proof fn law_filter_takes_the_group(
    f: &mut crate::marker::MarkerFilter,
    nonce: &str,
    fresh: crate::marker::MarkerFilter,
    data: Seq<u8>,
    group: u32,
    more: Seq<u8>,
    chunk: &[u8],
    r: Vec<u8>,
    p: Option<u32>,
    end: (Vec<u8>, Option<String>),
)
    requires
        call_ensures(crate::marker::MarkerFilter::new, (nonce,), fresh),
        *old(f) == fresh,
        crate::marker::plain_nonce(nonce@),
        forall|i: int| 0 <= i < data.len() ==> #[trigger] data[i] != 0x1c,
        forall|i: int| 0 <= i < more.len() ==> #[trigger] more[i] != 0x1c,
        chunk@ == data + message_start("\x1cSPPG:"@, nonce@) + encode_utf8(
            dec_nat(group as nat),
        ) + seq![0x1cu8] + more,
        call_ensures(crate::marker::MarkerFilter::push, (f, chunk), r),
        call_ensures(crate::marker::MarkerFilter::pgid, (&*final(f),), p),
        call_ensures(crate::marker::MarkerFilter::finish, (*final(f),), end),
    ensures
        r@ == data + more,
        p == Some(group),
        end.0@.len() == 0,
        end.1 is None,
{
    lemma_no_header(old(f)@, data);
    crate::marker::law_pgid_message_is_stripped(old(f)@, data, group, more);
    let v = crate::marker::FilterView { pgid: Some(group), ..old(f)@ };
    crate::marker::law_data_without_control_bytes(v, more);
    assert(opt_text(end.1) is None);
}

pub proof fn lemma_no_header(v: crate::marker::FilterView, data: Seq<u8>)
    requires
        v.wf(),
        forall|i: int| 0 <= i < data.len() ==> #[trigger] data[i] != 0x1c,
    ensures
        !crate::marker::has_header(v.cwd_head, v.pgid_head, data),
{
    assert forall|k: int| 0 <= k <= data.len() implies !(#[trigger] crate::text::begins_with(
        data.skip(k),
        v.cwd_head,
    ) || crate::text::begins_with(data.skip(k), v.pgid_head)) by {
        let s = data.skip(k);
        if s.len() > 0 {
            assert(s[0] == data[k]);
            if crate::text::begins_with(s, v.cwd_head) {
                assert(s.take(v.cwd_head.len() as int)[0] == v.cwd_head[0]);
            }
            if crate::text::begins_with(s, v.pgid_head) {
                assert(s.take(v.pgid_head.len() as int)[0] == v.pgid_head[0]);
            }
        }
    }
}

/// A body that carries a directory is read as that directory, one with digits as that
/// group.
pub proof fn law_bodies_are_read(
    body: &[u8],
    dir: Seq<char>,
    n: u32,
    d: Option<String>,
    p: Option<u32>,
)
    requires
        call_ensures(crate::marker::decode_cwd, (body,), d),
        call_ensures(crate::marker::decode_pgid, (body,), p),
    ensures
        body@ == crate::marker::base64_text(encode_utf8(dir)) ==> opt_text(d) == Some(dir),
        body@ == encode_utf8(dec_nat(n as nat)) ==> p == Some(n),
{
    if body@ == crate::marker::base64_text(encode_utf8(dir)) {
        crate::marker::lemma_carries(body@, dir);
    }
    if body@ == encode_utf8(dec_nat(n as nat)) {
        let digits = dec_nat(n as nat);
        crate::text::lemma_dec_nat_reads_back(n as nat);
        crate::text::law_decimal_round_trip(n as nat, u32::MAX as nat);
        assert forall|i: int| 0 <= i < digits.len() implies 0 <= #[trigger] digits[i] as int
            <= 127 by {
            assert(crate::text::is_digit(digits[i]));
        }
        assert(is_ascii_chars(digits));
        is_ascii_chars_encode_utf8(digits);
        assert(crate::marker::byte_chars(body@) =~= digits);
    }
}

} // verus!
