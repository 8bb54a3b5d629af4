//! Framing shared by both hops: `[1-byte kind][u32 LE length][payload]`.

use vstd::prelude::*;

use crate::text::bytes_between;

verus! {

/// Largest payload a receiver accepts.
pub const MAX_PAYLOAD: usize = 16 * 1024 * 1024;

/// Bytes in front of the payload.
pub const HEADER_LEN: usize = 5;

/// Little-endian rendering of a number below 2^32.
pub open spec fn le32(n: nat) -> Seq<u8> {
    seq![
        (n % 256) as u8,
        (n / 256 % 256) as u8,
        (n / 65536 % 256) as u8,
        (n / 16777216 % 256) as u8,
    ]
}

/// Value of four little-endian bytes.
pub open spec fn le_value(s: Seq<u8>) -> nat {
    (s[0] + 256 * s[1] + 65536 * s[2] + 16777216 * s[3]) as nat
}

/// Reading back a rendered number gives the number.
pub proof fn lemma_le_round_trip(n: nat)
    requires
        n <= u32::MAX,
    ensures
        le_value(le32(n)) == n,
{
}

/// The bytes of one frame.
pub open spec fn wire(kind: u8, payload: Seq<u8>) -> Seq<u8> {
    seq![kind] + le32(payload.len()) + payload
}

/// The length field of a frame header.
pub open spec fn payload_len(header: Seq<u8>) -> nat {
    le_value(header.subrange(1, 5))
}

/// What stands at the front of a byte stream.
#[verifier::ext_equal]
pub enum Front {
    /// Not a whole frame yet.
    Short,
    /// A header announcing a payload over the limit.
    TooLarge(nat),
    /// A whole frame and what follows it.
    Frame(u8, Seq<u8>, Seq<u8>),
}

/// What stands at the front of `buf`.
pub open spec fn front(buf: Seq<u8>) -> Front {
    if buf.len() < HEADER_LEN {
        Front::Short
    } else {
        let n = payload_len(buf);
        if n > MAX_PAYLOAD {
            Front::TooLarge(n)
        } else if buf.len() < HEADER_LEN + n {
            Front::Short
        } else {
            Front::Frame(
                buf[0],
                buf.subrange(HEADER_LEN as int, HEADER_LEN + n),
                buf.skip(HEADER_LEN + n),
            )
        }
    }
}

/// The front of a stream that starts with an encoded frame is that frame.
pub proof fn lemma_front_of_wire(kind: u8, payload: Seq<u8>, rest: Seq<u8>)
    requires
        payload.len() <= MAX_PAYLOAD,
    ensures
        front(wire(kind, payload) + rest) == Front::Frame(kind, payload, rest),
        wire(kind, payload).len() == HEADER_LEN + payload.len(),
        payload_len(wire(kind, payload) + rest) == payload.len(),
{
    let buf = wire(kind, payload) + rest;
    lemma_le_round_trip(payload.len());
    assert(buf.subrange(1, 5) =~= le32(payload.len()));
    assert(buf.subrange(HEADER_LEN as int, HEADER_LEN + payload.len()) =~= payload);
    assert(buf.skip(HEADER_LEN + payload.len()) =~= rest);
}

/// A front that is settled does not change when more bytes arrive.
pub proof fn lemma_front_stands(a: Seq<u8>, b: Seq<u8>)
    ensures
        match front(a) {
            Front::Short => true,
            Front::TooLarge(n) => front(a + b) == Front::TooLarge(n),
            Front::Frame(k, p, rest) => front(a + b) == Front::Frame(k, p, rest + b),
        },
{
    if a.len() >= HEADER_LEN {
        assert((a + b).subrange(1, 5) =~= a.subrange(1, 5));
        let n = payload_len(a);
        if n <= MAX_PAYLOAD && a.len() >= HEADER_LEN + n {
            assert((a + b).subrange(HEADER_LEN as int, HEADER_LEN + n) =~= a.subrange(
                HEADER_LEN as int,
                HEADER_LEN + n,
            ));
            assert((a + b).skip(HEADER_LEN + n) =~= a.skip(HEADER_LEN + n) + b);
        }
    }
}

/// Append the little-endian rendering of `n`.
fn push_le32(out: &mut Vec<u8>, n: u32)
    ensures
        final(out)@ == old(out)@ + le32(n as nat),
{
    out.push((n % 256) as u8);
    out.push((n / 256 % 256) as u8);
    out.push((n / 65536 % 256) as u8);
    out.push((n / 16777216 % 256) as u8);
    assert(out@ =~= old(out)@ + le32(n as nat));
}

/// Encode one frame; `None` when the payload's length does not fit the field.
pub fn encode(kind: u8, payload: &[u8]) -> (r: Option<Vec<u8>>)
    ensures
        r is Some <==> payload@.len() <= u32::MAX,
        r matches Some(v) ==> v@ == wire(kind, payload@),
{
    let n = payload.len();
    if n > u32::MAX as usize {
        return None;
    }
    let mut out: Vec<u8> = Vec::new();
    out.push(kind);
    assert(out@ =~= seq![kind]);
    push_le32(&mut out, n as u32);
    out.extend_from_slice(payload);
    assert(out@ =~= wire(kind, payload@));
    Some(out)
}

/// The length field of a header that starts at `at`.
pub fn header_len(buf: &[u8], at: usize) -> (r: u32)
    requires
        at + HEADER_LEN <= buf@.len(),
    ensures
        r == payload_len(buf@.skip(at as int)),
{
    assert(buf@.len() == buf.len());
    let ghost h = buf@.skip(at as int).subrange(1, 5);
    let b0 = buf[at + 1];
    let b1 = buf[at + 2];
    let b2 = buf[at + 3];
    let b3 = buf[at + 4];
    assert(h[0] == b0 && h[1] == b1 && h[2] == b2 && h[3] == b3);
    b0 as u32 + 256 * (b1 as u32) + 65536 * (b2 as u32) + 16777216 * (b3 as u32)
}

/// Where the front frame of a buffer lies.
pub enum Cut {
    Short,
    TooLarge(usize),
    /// Kind and payload; the frame ends at the given index.
    Frame(u8, Vec<u8>, usize),
}

/// Cut the frame at index `at` out of the buffer.
pub fn cut(buf: &[u8], at: usize) -> (r: Cut)
    requires
        at <= buf@.len(),
    ensures
        match r {
            Cut::Short => front(buf@.skip(at as int)) is Short,
            Cut::TooLarge(n) => front(buf@.skip(at as int)) == Front::TooLarge(n as nat),
            Cut::Frame(kind, payload, end) => {
                &&& at < end <= buf@.len()
                &&& front(buf@.skip(at as int)) == Front::Frame(
                    kind,
                    payload@,
                    buf@.skip(end as int),
                )
            },
        },
{
    assert(buf@.len() == buf.len());
    let ghost rest = buf@.skip(at as int);
    if buf.len() - at < HEADER_LEN {
        return Cut::Short;
    }
    let n: usize = header_len(buf, at) as usize;
    if n > MAX_PAYLOAD {
        return Cut::TooLarge(n);
    }
    if buf.len() - at - HEADER_LEN < n {
        return Cut::Short;
    }
    let from = at + HEADER_LEN;
    let payload = bytes_between(buf, from, from + n);
    assert(payload@ =~= rest.subrange(HEADER_LEN as int, HEADER_LEN + n));
    assert(rest.skip(HEADER_LEN + n) =~= buf@.skip(from + n));
    Cut::Frame(buf[at], payload, from + n)
}

} // verus!
