//! Streaming filter that strips control messages from remote stdout.
//!
//! The wrapper prints `\x1cSPM:<nonce>:<base64 cwd>\x1c` as the very last bytes
//! of stdout and `\x1cSPPG:<nonce>:<pgid>\x1c` as the first bytes. stdout can be
//! arbitrary binary and chunk boundaries can split a message, so the filter
//! holds back only bytes that could still become part of a message and emits
//! everything else immediately.

use vstd::prelude::*;
use vstd::utf8::*;

use crate::script::{MARKER_PREFIX, PGID_PREFIX};
use crate::text::{
    bytes_begin_at, bytes_between, bytes_from, find_byte_from, parse_uint, utf8_string,
};

verus! {

/// First and last byte of every control message.
pub const CONTROL: u8 = 0x1c;

/// Upper bound for the base64 cwd payload inside the marker.
pub const MAX_B64_LEN: usize = 8192;

/// Upper bound for the pgid payload inside the control message.
pub const MAX_PGID_LEN: usize = 16;

// -- base64 ----------------------------------------------------------------------

/// The byte of the standard base64 alphabet for a number below sixty-four.
pub open spec fn base64_byte(n: int) -> u8 {
    if n < 26 {
        (65 + n) as u8
    } else if n < 52 {
        (71 + n) as u8
    } else if n < 62 {
        (n - 4) as u8
    } else if n == 62 {
        43
    } else {
        47
    }
}

/// Base64 of bytes in the standard alphabet: four characters of six bits for
/// every three bytes, the last group padded with `=`.
pub open spec fn base64_text(v: Seq<u8>) -> Seq<u8>
    decreases v.len(),
{
    if v.len() == 0 {
        Seq::empty()
    } else if v.len() == 1 {
        seq![base64_byte(v[0] as int / 4), base64_byte(v[0] as int % 4 * 16), 61, 61]
    } else if v.len() == 2 {
        seq![
            base64_byte(v[0] as int / 4),
            base64_byte(v[0] as int % 4 * 16 + v[1] as int / 16),
            base64_byte(v[1] as int % 16 * 4),
            61,
        ]
    } else {
        seq![
            base64_byte(v[0] as int / 4),
            base64_byte(v[0] as int % 4 * 16 + v[1] as int / 16),
            base64_byte(v[1] as int % 16 * 4 + v[2] as int / 64),
            base64_byte(v[2] as int % 64),
        ] + base64_text(v.skip(3))
    }
}

/// `base64_simd::STANDARD.decode_to_vec`: the bytes whose padded base64 the text
/// is. It fails on everything else: a length that is no multiple of four, a byte
/// outside the alphabet, padding before the end, non-zero unused bits.
#[verifier::external_body]
fn base64_decode(text: &[u8]) -> (r: Option<Vec<u8>>)
    ensures
        match r {
            Some(v) => base64_text(v@) == text@,
            None => forall|v: Seq<u8>| #[trigger] base64_text(v) != text@,
        },
{
    base64_simd::STANDARD.decode_to_vec(text).ok()
}

proof fn lemma_base64_byte(a: int, b: int)
    requires
        0 <= a < 64,
        0 <= b < 64,
    ensures
        base64_byte(a) == base64_byte(b) ==> a == b,
        base64_byte(a) != 61,
        is_b64(base64_byte(a)),
{
}

/// The first group determines the first three bytes.
proof fn lemma_base64_group(a: Seq<u8>, b: Seq<u8>)
    requires
        a.len() >= 3,
        b.len() >= 3,
        base64_text(a).take(4) == base64_text(b).take(4),
    ensures
        a[0] == b[0],
        a[1] == b[1],
        a[2] == b[2],
{
    let x = base64_text(a);
    let y = base64_text(b);
    assert(x[0] == x.take(4)[0] && y[0] == y.take(4)[0]);
    assert(x[1] == x.take(4)[1] && y[1] == y.take(4)[1]);
    assert(x[2] == x.take(4)[2] && y[2] == y.take(4)[2]);
    assert(x[3] == x.take(4)[3] && y[3] == y.take(4)[3]);
    lemma_base64_byte(a[0] as int / 4, b[0] as int / 4);
    lemma_base64_byte(
        a[0] as int % 4 * 16 + a[1] as int / 16,
        b[0] as int % 4 * 16 + b[1] as int / 16,
    );
    lemma_base64_byte(
        a[1] as int % 16 * 4 + a[2] as int / 64,
        b[1] as int % 16 * 4 + b[2] as int / 64,
    );
    lemma_base64_byte(a[2] as int % 64, b[2] as int % 64);
}

/// Different bytes have different base64.
proof fn lemma_base64_injective(a: Seq<u8>, b: Seq<u8>)
    requires
        base64_text(a) == base64_text(b),
    ensures
        a == b,
    decreases a.len(),
{
    let x = base64_text(a);
    let y = base64_text(b);
    lemma_base64_shape(a);
    lemma_base64_shape(b);
    if a.len() >= 3 && b.len() >= 3 {
        lemma_base64_group(a, b);
        assert(base64_text(a.skip(3)) =~= x.skip(4));
        assert(base64_text(b.skip(3)) =~= y.skip(4));
        lemma_base64_injective(a.skip(3), b.skip(3));
        assert(a =~= a.take(3) + a.skip(3));
        assert(b =~= b.take(3) + b.skip(3));
        assert(a.take(3) =~= b.take(3));
    } else if a.len() == 0 || b.len() == 0 {
        assert(a =~= b);
    } else {
        assert(x[0] == y[0] && x[1] == y[1] && x[2] == y[2] && x[3] == y[3]);
        lemma_base64_byte(a[0] as int / 4, b[0] as int / 4);
        if a.len() == 1 && b.len() == 1 {
            lemma_base64_byte(a[0] as int % 4 * 16, b[0] as int % 4 * 16);
        } else if a.len() == 2 && b.len() == 2 {
            lemma_base64_byte(
                a[0] as int % 4 * 16 + a[1] as int / 16,
                b[0] as int % 4 * 16 + b[1] as int / 16,
            );
            lemma_base64_byte(a[1] as int % 16 * 4, b[1] as int % 16 * 4);
        } else {
            lemma_base64_end(a);
            lemma_base64_end(b);
        }
        assert(a =~= b);
    }
}

/// Four characters for every three bytes, all of the alphabet.
proof fn lemma_base64_shape(v: Seq<u8>)
    ensures
        base64_text(v).len() == (v.len() + 2) / 3 * 4,
        forall|i: int| 0 <= i < base64_text(v).len() ==> is_b64(#[trigger] base64_text(v)[i]),
    decreases v.len(),
{
    let t = base64_text(v);
    if v.len() >= 3 {
        lemma_base64_shape(v.skip(3));
        lemma_base64_byte(v[0] as int / 4, v[2] as int % 64);
        lemma_base64_byte(v[2] as int % 64, 0);
        lemma_base64_byte(v[0] as int % 4 * 16 + v[1] as int / 16, 0);
        lemma_base64_byte(v[1] as int % 16 * 4 + v[2] as int / 64, 0);
        assert forall|i: int| 0 <= i < t.len() implies is_b64(#[trigger] t[i]) by {
            if i >= 4 {
                assert(t[i] == base64_text(v.skip(3))[i - 4]);
            }
        }
    } else if v.len() == 2 {
        lemma_base64_byte(v[0] as int / 4, 0);
        lemma_base64_byte(v[0] as int % 4 * 16 + v[1] as int / 16, 0);
        lemma_base64_byte(v[1] as int % 16 * 4, 0);
    } else if v.len() == 1 {
        lemma_base64_byte(v[0] as int / 4, 0);
        lemma_base64_byte(v[0] as int % 4 * 16, 0);
    }
}

/// The padding tells how many bytes the first group stands for.
proof fn lemma_base64_end(v: Seq<u8>)
    requires
        v.len() > 0,
    ensures
        base64_text(v).len() >= 4,
        base64_text(v)[2] == 61 <==> v.len() == 1,
        base64_text(v)[3] == 61 <==> v.len() <= 2,
{
    if v.len() == 2 {
        lemma_base64_byte(v[1] as int % 16 * 4, 0);
    } else if v.len() >= 3 {
        lemma_base64_byte(v[1] as int % 16 * 4 + v[2] as int / 64, 0);
        lemma_base64_byte(v[2] as int % 64, 0);
    }
}

// -- model -----------------------------------------------------------------------

/// Which control message a header announces.
#[derive(Debug, Clone, Copy, PartialEq, Eq, Structural)]
pub enum Header {
    Cwd,
    Pgid,
}

/// A byte of the standard base64 alphabet, padding included.
pub open spec fn is_b64(b: u8) -> bool {
    ||| 48 <= b <= 57
    ||| 65 <= b <= 90
    ||| 97 <= b <= 122
    ||| b == 43
    ||| b == 47
    ||| b == 61
}

/// A byte that may stand in the body of the message.
pub open spec fn body_byte(h: Header, b: u8) -> bool {
    match h {
        Header::Cwd => is_b64(b),
        Header::Pgid => 48 <= b <= 57,
    }
}

/// The longest body the message may have.
pub open spec fn body_bound(h: Header) -> nat {
    match h {
        Header::Cwd => MAX_B64_LEN as nat,
        Header::Pgid => MAX_PGID_LEN as nat,
    }
}

/// How many body bytes `s` begins with.
pub open spec fn run_len(h: Header, s: Seq<u8>) -> nat
    decreases s.len(),
{
    if s.len() > 0 && body_byte(h, s[0]) {
        1 + run_len(h, s.skip(1))
    } else {
        0
    }
}

/// How bytes that start with the control byte are to be treated.
pub enum Verdict {
    /// They may still grow into a control message.
    Hold,
    /// The control byte is plain data.
    Data,
    /// A complete control message with a body of the given length.
    Message(Header, nat),
}

/// The verdict on what follows a complete header. A body over the bound can
/// never be a real message.
pub open spec fn body_verdict(h: Header, body: Seq<u8>) -> Verdict {
    let n = run_len(h, body);
    if n > body_bound(h) {
        Verdict::Data
    } else if n == body.len() {
        Verdict::Hold
    } else if body[n as int] != CONTROL {
        Verdict::Data
    } else {
        Verdict::Message(h, n)
    }
}

/// The verdict on bytes that start with the control byte, for the two headers.
pub open spec fn verdict(c: Seq<u8>, g: Seq<u8>, p: Seq<u8>) -> Verdict {
    if crate::text::begins_with(p, c) {
        body_verdict(Header::Cwd, p.skip(c.len() as int))
    } else if crate::text::begins_with(p, g) {
        body_verdict(Header::Pgid, p.skip(g.len() as int))
    } else if crate::text::begins_with(c, p) || crate::text::begins_with(g, p) {
        Verdict::Hold
    } else {
        Verdict::Data
    }
}

/// The body is the base64 of the UTF-8 encoding of the directory.
pub open spec fn carries(body: Seq<u8>, dir: Seq<char>) -> bool {
    base64_text(encode_utf8(dir)) == body
}

/// The directory that a cwd message body carries, if any.
pub open spec fn marker_cwd(body: Seq<u8>) -> Option<Seq<char>> {
    if exists|dir: Seq<char>| carries(body, dir) {
        Some(choose|dir: Seq<char>| carries(body, dir))
    } else {
        None
    }
}

/// A body carries one directory at most.
pub proof fn lemma_carries(body: Seq<u8>, dir: Seq<char>)
    requires
        carries(body, dir),
    ensures
        marker_cwd(body) == Some(dir),
{
    let d = choose|d: Seq<char>| carries(body, d);
    assert(carries(body, d));
    lemma_base64_injective(encode_utf8(d), encode_utf8(dir));
    encode_utf8_decode_utf8(d);
    encode_utf8_decode_utf8(dir);
}

/// The bytes read as characters of the same value.
pub open spec fn byte_chars(s: Seq<u8>) -> Seq<char> {
    Seq::new(s.len(), |i: int| s[i] as char)
}

/// The process group that a pgid message body stands for; none if it is not a
/// `u32`.
pub open spec fn marker_pgid(body: Seq<u8>) -> Option<u32> {
    match crate::text::uint_text(byte_chars(body), u32::MAX as nat) {
        Some(n) => Some(n as u32),
        None => None,
    }
}

/// Result of filtering a run of bytes.
pub struct Scanned {
    /// Bytes to forward.
    pub out: Seq<u8>,
    /// Bytes held back: the start of a possible control message.
    pub held: Seq<u8>,
    /// Set once the cwd message was met, to the directory it reports.
    pub ended: Option<Option<Seq<char>>>,
    /// The process group known at the end.
    pub pgid: Option<u32>,
}

/// Filter `p`, with the headers `c` and `g` and the process group known so far.
#[verifier::opaque]
pub open spec fn scan(c: Seq<u8>, g: Seq<u8>, p: Seq<u8>, pgid: Option<u32>) -> Scanned
    decreases p.len(),
    via scan_decreases
{
    if p.len() == 0 {
        Scanned { out: Seq::empty(), held: Seq::empty(), ended: None, pgid }
    } else if p[0] != CONTROL {
        emit(seq![p[0]], scan(c, g, p.skip(1), pgid))
    } else {
        match verdict(c, g, p) {
            Verdict::Hold => Scanned { out: Seq::empty(), held: p, ended: None, pgid },
            Verdict::Data => emit(seq![p[0]], scan(c, g, p.skip(1), pgid)),
            Verdict::Message(Header::Cwd, n) => Scanned {
                out: Seq::empty(),
                held: Seq::empty(),
                ended: Some(marker_cwd(p.subrange(c.len() as int, (c.len() + n) as int))),
                pgid,
            },
            Verdict::Message(Header::Pgid, n) => scan(
                c,
                g,
                p.skip((g.len() + n + 1) as int),
                marker_pgid(p.subrange(g.len() as int, (g.len() + n) as int)),
            ),
        }
    }
}

#[via_fn]
proof fn scan_decreases(c: Seq<u8>, g: Seq<u8>, p: Seq<u8>, pgid: Option<u32>) {
    lemma_run_len(Header::Cwd, p.skip(c.len() as int));
    lemma_run_len(Header::Pgid, p.skip(g.len() as int));
}

/// Put bytes in front of what is forwarded.
pub open spec fn emit(bytes: Seq<u8>, r: Scanned) -> Scanned {
    Scanned { out: bytes + r.out, held: r.held, ended: r.ended, pgid: r.pgid }
}

/// The header of a control message: its prefix, the nonce and a colon.
pub open spec fn head_bytes(prefix: Seq<char>, nonce: Seq<char>) -> Seq<u8> {
    encode_utf8(prefix + nonce + seq![':'])
}

/// State of a filter.
pub struct FilterView {
    /// Header of the cwd message.
    pub cwd_head: Seq<u8>,
    /// Header of the pgid message.
    pub pgid_head: Seq<u8>,
    /// Bytes held back.
    pub pending: Seq<u8>,
    /// The directory reported by the cwd message.
    pub cwd: Option<Seq<char>>,
    /// The process group reported by the latest pgid message.
    pub pgid: Option<u32>,
    /// The cwd message was met; nothing is forwarded any more.
    pub finished: bool,
}

/// A filter's state and output after one more chunk.
pub open spec fn fed(v: FilterView, chunk: Seq<u8>) -> (FilterView, Seq<u8>) {
    if v.finished {
        (v, Seq::empty())
    } else {
        let r = scan(v.cwd_head, v.pgid_head, v.pending + chunk, v.pgid);
        (
            FilterView {
                cwd_head: v.cwd_head,
                pgid_head: v.pgid_head,
                pending: r.held,
                cwd: (match r.ended {
                    Some(cwd) => cwd,
                    None => v.cwd,
                }),
                pgid: r.pgid,
                finished: r.ended is Some,
            },
            r.out,
        )
    }
}

/// Both headers start with the control byte and they differ in the fourth byte,
/// so no input begins with both.
pub open spec fn heads_ok(c: Seq<u8>, g: Seq<u8>) -> bool {
    &&& c.len() >= 4
    &&& g.len() >= 4
    &&& c[0] == CONTROL
    &&& g[0] == CONTROL
    &&& c[3] != g[3]
}

/// The control byte stands only at the front of the header.
pub open spec fn plain_head(h: Seq<u8>) -> bool {
    forall|i: int| 0 < i < h.len() ==> #[trigger] h[i] != CONTROL
}

/// ASCII text without the control byte, such as hexadecimal digits.
pub open spec fn plain_nonce(nonce: Seq<char>) -> bool {
    is_ascii_chars(nonce) && forall|i: int| 0 <= i < nonce.len() ==> #[trigger] nonce[i] != '\x1c'
}

impl FilterView {
    /// Invariant of every filter.
    pub open spec fn wf(self) -> bool {
        &&& heads_ok(self.cwd_head, self.pgid_head)
        &&& !self.finished ==> self.cwd is None
        &&& self.finished ==> self.pending.len() == 0
    }
}

// -- facts about runs --------------------------------------------------------------

proof fn lemma_run_len(h: Header, s: Seq<u8>)
    ensures
        run_len(h, s) <= s.len(),
        forall|i: int| 0 <= i < run_len(h, s) ==> body_byte(h, #[trigger] s[i]),
        run_len(h, s) < s.len() ==> !body_byte(h, s[run_len(h, s) as int]),
    decreases s.len(),
{
    if s.len() > 0 && body_byte(h, s[0]) {
        lemma_run_len(h, s.skip(1));
        assert forall|i: int| 0 <= i < run_len(h, s) implies body_byte(h, #[trigger] s[i]) by {
            if i > 0 {
                assert(s[i] == s.skip(1)[i - 1]);
            }
        }
    }
}

proof fn lemma_run_len_unique(h: Header, s: Seq<u8>, k: nat)
    requires
        k <= s.len(),
        forall|i: int| 0 <= i < k ==> body_byte(h, #[trigger] s[i]),
        k < s.len() ==> !body_byte(h, s[k as int]),
    ensures
        run_len(h, s) == k,
{
    lemma_run_len(h, s);
    let r = run_len(h, s);
    if r < k {
        assert(body_byte(h, s[r as int]));
    } else if k < r {
        assert(body_byte(h, s[k as int]));
    }
}

/// Bytes without the control byte in front are forwarded as they are.
proof fn lemma_scan_prefix(c: Seq<u8>, g: Seq<u8>, p: Seq<u8>, pgid: Option<u32>, k: int)
    requires
        0 <= k <= p.len(),
        forall|i: int| 0 <= i < k ==> p[i] != CONTROL,
    ensures
        scan(c, g, p, pgid) == emit(p.take(k), scan(c, g, p.skip(k), pgid)),
    decreases k,
{
    reveal(scan);
    if k == 0 {
        assert(p.skip(0) =~= p);
        assert(p.take(0) + scan(c, g, p, pgid).out =~= scan(c, g, p, pgid).out);
    } else {
        assert(p.skip(1).skip(k - 1) =~= p.skip(k));
        lemma_scan_prefix(c, g, p.skip(1), pgid, k - 1);
        assert(seq![p[0]] + p.skip(1).take(k - 1) =~= p.take(k));
        let r = scan(c, g, p.skip(k), pgid);
        assert(seq![p[0]] + (p.skip(1).take(k - 1) + r.out) =~= p.take(k) + r.out);
    }
}

/// One step of [`scan`], case by case.
proof fn lemma_scan_step(c: Seq<u8>, g: Seq<u8>, p: Seq<u8>, pgid: Option<u32>)
    ensures
        p.len() == 0 ==> scan(c, g, p, pgid) == (Scanned {
            out: Seq::empty(),
            held: Seq::empty(),
            ended: None,
            pgid,
        }),
        p.len() > 0 && p[0] != CONTROL ==> scan(c, g, p, pgid) == emit(
            seq![p[0]],
            scan(c, g, p.skip(1), pgid),
        ),
        p.len() > 0 && p[0] == CONTROL ==> match verdict(c, g, p) {
            Verdict::Hold => scan(c, g, p, pgid) == (Scanned {
                out: Seq::empty(),
                held: p,
                ended: None,
                pgid,
            }),
            Verdict::Data => scan(c, g, p, pgid) == emit(
                seq![p[0]],
                scan(c, g, p.skip(1), pgid),
            ),
            Verdict::Message(Header::Cwd, n) => {
                &&& c.len() + n + 1 <= p.len()
                &&& scan(c, g, p, pgid) == (Scanned {
                    out: Seq::empty(),
                    held: Seq::empty(),
                    ended: Some(marker_cwd(p.subrange(c.len() as int, (c.len() + n) as int))),
                    pgid,
                })
            },
            Verdict::Message(Header::Pgid, n) => {
                &&& g.len() + n + 1 <= p.len()
                &&& scan(c, g, p, pgid) == scan(
                    c,
                    g,
                    p.skip((g.len() + n + 1) as int),
                    marker_pgid(p.subrange(g.len() as int, (g.len() + n) as int)),
                )
            },
        },
{
    reveal(scan);
    if p.len() > 0 && p[0] == CONTROL {
        if crate::text::begins_with(p, c) {
            lemma_run_len(Header::Cwd, p.skip(c.len() as int));
        } else if crate::text::begins_with(p, g) {
            lemma_run_len(Header::Pgid, p.skip(g.len() as int));
        }
    }
}

proof fn lemma_emit_nothing(a: Seq<u8>, r: Scanned)
    requires
        r.out.len() == 0,
    ensures
        emit(a, r).out == a,
        emit(Seq::empty(), r) == r,
{
    assert(a + r.out =~= a);
    assert(Seq::<u8>::empty() + r.out =~= r.out);
}

proof fn lemma_emit_emit(a: Seq<u8>, b: Seq<u8>, r: Scanned)
    ensures
        emit(a, emit(b, r)) == emit(a + b, r),
{
    assert(a + (b + r.out) =~= (a + b) + r.out);
}

proof fn lemma_heads(nonce: Seq<char>)
    ensures
        heads_ok(head_bytes(MARKER_PREFIX@, nonce), head_bytes(PGID_PREFIX@, nonce)),
        plain_nonce(nonce) ==> plain_head(head_bytes(MARKER_PREFIX@, nonce)),
        plain_nonce(nonce) ==> plain_head(head_bytes(PGID_PREFIX@, nonce)),
{
    reveal_strlit("\x1cSPM:");
    reveal_strlit("\x1cSPPG:");
    let c = MARKER_PREFIX@;
    let g = PGID_PREFIX@;
    assert(is_ascii_chars(c));
    assert(is_ascii_chars(g));
    is_ascii_chars_encode_utf8(c);
    is_ascii_chars_encode_utf8(g);
    let rest = nonce + seq![':'];
    assert(c + nonce + seq![':'] =~= c + rest);
    assert(g + nonce + seq![':'] =~= g + rest);
    crate::text::lemma_encode_concat(c, rest);
    crate::text::lemma_encode_concat(g, rest);
    assert(encode_utf8(c)[0] == c[0] as u8);
    assert(encode_utf8(c)[3] == c[3] as u8);
    assert(encode_utf8(g)[0] == g[0] as u8);
    assert(encode_utf8(g)[3] == g[3] as u8);
    if plain_nonce(nonce) {
        lemma_plain_head(c + rest);
        lemma_plain_head(g + rest);
    }
}

proof fn lemma_plain_head(s: Seq<char>)
    requires
        is_ascii_chars(s),
        forall|i: int| 0 < i < s.len() ==> #[trigger] s[i] != '\x1c',
    ensures
        plain_head(encode_utf8(s)),
{
    is_ascii_chars_encode_utf8(s);
    let b = encode_utf8(s);
    assert forall|i: int| 0 < i < b.len() implies #[trigger] b[i] != CONTROL by {
        assert(s[i] as u8 == b[i]);
        assert(s[i] <= '\u{7f}');
    }
}

// -- the filter ----------------------------------------------------------------------

/// Outcome of inspecting the bytes from a control byte on.
enum Scan {
    /// A complete message whose body has the given length.
    Consumed(Header, usize),
    /// The bytes may still grow into a message: hold them back.
    Hold,
    /// The control byte is plain data.
    Data,
}

spec fn scan_verdict(s: Scan) -> Verdict {
    match s {
        Scan::Consumed(h, n) => Verdict::Message(h, n as nat),
        Scan::Hold => Verdict::Hold,
        Scan::Data => Verdict::Data,
    }
}

/// Index of the first byte from `from` on that cannot stand in the body.
fn find_body_end(h: Header, data: &[u8], from: usize) -> (r: usize)
    requires
        from <= data@.len(),
    ensures
        r == from + run_len(h, data@.skip(from as int)),
        r <= data@.len(),
{
    let mut i: usize = from;
    while i < data.len() && in_body(h, data[i])
        invariant
            from <= i <= data@.len(),
            forall|j: int| from <= j < i ==> body_byte(h, #[trigger] data@[j]),
        decreases data@.len() - i,
    {
        i = i + 1;
    }
    proof {
        let s = data@.skip(from as int);
        assert forall|j: int| 0 <= j < i - from implies body_byte(h, #[trigger] s[j]) by {
            assert(s[j] == data@[from + j]);
        }
        lemma_run_len_unique(h, s, (i - from) as nat);
    }
    i
}

fn in_body(h: Header, b: u8) -> (r: bool)
    ensures
        r == body_byte(h, b),
{
    match h {
        Header::Cwd => (48 <= b && b <= 57) || (65 <= b && b <= 90) || (97 <= b && b <= 122) || b
            == 43 || b == 47 || b == 61,
        Header::Pgid => 48 <= b && b <= 57,
    }
}

/// Inspect the message body that starts at `at`.
fn scan_body(h: Header, data: &[u8], at: usize) -> (r: Scan)
    requires
        at <= data@.len(),
    ensures
        scan_verdict(r) == body_verdict(h, data@.skip(at as int)),
{
    let end = find_body_end(h, data, at);
    let bound: usize = match h {
        Header::Cwd => MAX_B64_LEN,
        Header::Pgid => MAX_PGID_LEN,
    };
    if end - at > bound {
        // Over the bound: can never be a real message.
        Scan::Data
    } else if end == data.len() {
        // Open-ended candidate.
        Scan::Hold
    } else if data[end] != CONTROL {
        Scan::Data
    } else {
        Scan::Consumed(h, end - at)
    }
}

/// Inspect the bytes from `at` on.
fn classify(data: &[u8], at: usize, cwd_head: &[u8], pgid_head: &[u8]) -> (r: Scan)
    requires
        at <= data@.len(),
    ensures
        scan_verdict(r) == verdict(cwd_head@, pgid_head@, data@.skip(at as int)),
{
    let ghost p = data@.skip(at as int);
    assert(data@.len() == data.len());
    if bytes_begin_at(data, at, cwd_head) {
        assert(p.skip(cwd_head@.len() as int) =~= data@.skip(at + cwd_head@.len()));
        return scan_body(Header::Cwd, data, at + cwd_head.len());
    }
    if bytes_begin_at(data, at, pgid_head) {
        assert(p.skip(pgid_head@.len() as int) =~= data@.skip(at + pgid_head@.len()));
        return scan_body(Header::Pgid, data, at + pgid_head.len());
    }
    let rest = bytes_from(data, at);
    assert(cwd_head@.skip(0) =~= cwd_head@);
    assert(pgid_head@.skip(0) =~= pgid_head@);
    if bytes_begin_at(cwd_head, 0, &rest) || bytes_begin_at(pgid_head, 0, &rest) {
        Scan::Hold
    } else {
        Scan::Data
    }
}

/// The directory that a cwd message body reports.
pub fn decode_cwd(body: &[u8]) -> (r: Option<String>)
    ensures
        crate::text::opt_text(r) == marker_cwd(body@),
{
    match base64_decode(body) {
        Some(v) => {
            let ghost bytes = v@;
            match utf8_string(v) {
                Ok(s) => {
                    proof {
                        decode_utf8_encode_utf8(bytes);
                        lemma_carries(body@, s@);
                    }
                    Some(s)
                },
                Err(_) => {
                    proof {
                        assert forall|dir: Seq<char>| !carries(body@, dir) by {
                            if carries(body@, dir) {
                                lemma_base64_injective(encode_utf8(dir), bytes);
                                encode_utf8_valid_utf8(dir);
                            }
                        }
                    }
                    None
                },
            }
        },
        None => None,
    }
}

/// The process group that a pgid message body reports.
pub fn decode_pgid(body: &[u8]) -> (r: Option<u32>)
    ensures
        r == marker_pgid(body@),
{
    let mut chars: Vec<char> = Vec::new();
    let mut i: usize = 0;
    while i < body.len()
        invariant
            i <= body@.len(),
            chars@ == byte_chars(body@.take(i as int)),
        decreases body@.len() - i,
    {
        chars.push(body[i] as char);
        assert(chars@ =~= byte_chars(body@.take(i + 1)));
        i = i + 1;
    }
    assert(body@.take(body@.len() as int) =~= body@);
    match parse_uint(&chars, u32::MAX as u64) {
        Some(n) => Some(n as u32),
        None => None,
    }
}

/// Incremental stdout filter. Feed chunks with [`MarkerFilter::push`], then
/// finalize once with [`MarkerFilter::finish`].
#[derive(Debug)]
pub struct MarkerFilter {
    cwd_marker_start: Vec<u8>,
    pgid_marker_start: Vec<u8>,
    pending: Vec<u8>,
    cwd: Option<String>,
    pgid: Option<u32>,
    finished: bool,
}

impl View for MarkerFilter {
    type V = FilterView;

    closed spec fn view(&self) -> FilterView {
        FilterView {
            cwd_head: self.cwd_marker_start@,
            pgid_head: self.pgid_marker_start@,
            pending: self.pending@,
            cwd: crate::text::opt_text(self.cwd),
            pgid: self.pgid,
            finished: self.finished,
        }
    }
}

fn head(prefix: &str, nonce_hex: &str) -> (r: Vec<u8>)
    ensures
        r@ == head_bytes(prefix@, nonce_hex@),
{
    let mut s = String::new();
    s.append(prefix);
    s.append(nonce_hex);
    s.push(':');
    assert(s@ =~= prefix@ + nonce_hex@ + seq![':']);
    s.as_str().as_bytes_vec()
}

impl MarkerFilter {
    /// A filter for the messages carrying the given nonce.
    #[must_use]
    pub fn new(nonce_hex: &str) -> (r: Self)
        ensures
            r@ == (FilterView {
                cwd_head: head_bytes(MARKER_PREFIX@, nonce_hex@),
                pgid_head: head_bytes(PGID_PREFIX@, nonce_hex@),
                pending: Seq::empty(),
                cwd: None,
                pgid: None,
                finished: false,
            }),
            r@.wf(),
            plain_nonce(nonce_hex@) ==> plain_head(r@.cwd_head) && plain_head(r@.pgid_head),
    {
        proof {
            lemma_heads(nonce_hex@);
        }
        MarkerFilter {
            cwd_marker_start: head(MARKER_PREFIX, nonce_hex),
            pgid_marker_start: head(PGID_PREFIX, nonce_hex),
            pending: Vec::new(),
            cwd: None,
            pgid: None,
            finished: false,
        }
    }

    /// Process group id reported by the wrapper, once its message arrived.
    #[must_use]
    pub fn pgid(&self) -> (r: Option<u32>)
        ensures
            r == self@.pgid,
    {
        self.pgid
    }

    /// Feed one stdout chunk; returns the bytes safe to forward right now.
    pub fn push(&mut self, chunk: &[u8]) -> (r: Vec<u8>)
        requires
            old(self)@.wf(),
        ensures
            final(self)@.wf(),
            (final(self)@, r@) == fed(old(self)@, chunk@),
    {
        let mut out: Vec<u8> = Vec::new();
        if self.finished {
            return out;
        }
        self.pending.extend_from_slice(chunk);
        let ghost v0 = old(self)@;
        let ghost c = v0.cwd_head;
        let ghost g = v0.pgid_head;
        let ghost all = v0.pending + chunk@;
        let ghost goal = scan(c, g, all, v0.pgid);
        assert(self.pending@ =~= all);
        let mut pos: usize = 0;
        proof {
            assert(all.skip(0) =~= all);
            assert(out@ + goal.out =~= goal.out);
        }
        loop
            invariant
                c == self.cwd_marker_start@,
                g == self.pgid_marker_start@,
                self.pending@ == all,
                !self.finished,
                self.cwd is None,
                pos <= all.len(),
                goal == emit(out@, scan(c, g, all.skip(pos as int), self.pgid)),
                // what the final state is compared with
                heads_ok(c, g),
                v0.wf() && !v0.finished && v0.cwd_head == c && v0.pgid_head == g,
                all == v0.pending + chunk@,
                v0 == old(self)@,
                goal == scan(c, g, all, v0.pgid),
            decreases all.len() - pos,
        {
            let start = find_byte_from(&self.pending, pos, CONTROL);
            let plain = bytes_between(&self.pending, pos, start);
            let ghost out0 = out@;
            out.extend_from_slice(&plain);
            proof {
                let rest = all.skip(pos as int);
                let k = start - pos;
                assert forall|i: int| 0 <= i < k implies rest[i] != CONTROL by {
                    assert(rest[i] == all[pos + i]);
                }
                lemma_scan_prefix(c, g, rest, self.pgid, k);
                assert(rest.take(k) =~= plain@);
                assert(rest.skip(k) =~= all.skip(start as int));
                lemma_emit_emit(out0, plain@, scan(c, g, all.skip(start as int), self.pgid));
                assert(out@ =~= out0 + plain@);
            }
            pos = start;
            let ghost p = all.skip(pos as int);
            proof {
                lemma_scan_step(c, g, p, self.pgid);
            }
            if pos == self.pending.len() {
                self.pending = Vec::new();
                proof {
                    lemma_emit_nothing(out@, scan(c, g, p, self.pgid));
                    assert(self.pending@ =~= Seq::<u8>::empty());
                }
                return out;
            }
            assert(p[0] == CONTROL);
            match classify(&self.pending, pos, &self.cwd_marker_start, &self.pgid_marker_start) {
                Scan::Hold => {
                    let held = bytes_from(&self.pending, pos);
                    self.pending = held;
                    proof {
                        lemma_emit_nothing(out@, scan(c, g, p, self.pgid));
                    }
                    return out;
                },
                Scan::Consumed(Header::Cwd, n) => {
                    let from = pos + self.cwd_marker_start.len();
                    let body = bytes_between(&self.pending, from, from + n);
                    assert(body@ =~= p.subrange(c.len() as int, c.len() + n));
                    // Bytes after the cwd marker cannot legitimately exist; drop.
                    self.cwd = decode_cwd(&body);
                    self.pending = Vec::new();
                    self.finished = true;
                    proof {
                        lemma_emit_nothing(out@, scan(c, g, p, self.pgid));
                        assert(self.pending@ =~= Seq::<u8>::empty());
                    }
                    return out;
                },
                Scan::Consumed(Header::Pgid, n) => {
                    let from = pos + self.pgid_marker_start.len();
                    let body = bytes_between(&self.pending, from, from + n);
                    assert(body@ =~= p.subrange(g.len() as int, g.len() + n));
                    assert(p.skip(g.len() + n + 1) =~= all.skip(from + n + 1));
                    self.pgid = decode_pgid(&body);
                    pos = from + n + 1;
                },
                Scan::Data => {
                    // The control byte is data: emit it and rescan from the next byte.
                    proof {
                        assert(p.skip(1) =~= all.skip(pos + 1));
                        lemma_emit_emit(out@, seq![p[0]], scan(c, g, all.skip(pos + 1), self.pgid));
                        assert(out@ + seq![p[0]] =~= out@.push(CONTROL));
                    }
                    out.push(CONTROL);
                    pos = pos + 1;
                },
            }
        }
    }

    /// Finalize the stream: returns leftover data plus the parsed cwd.
    #[must_use]
    pub fn finish(self) -> (r: (Vec<u8>, Option<String>))
        requires
            self@.wf(),
        ensures
            r.0@ == self@.pending,
            crate::text::opt_text(r.1) == self@.cwd,
    {
        (self.pending, self.cwd)
    }
}

// -- laws ------------------------------------------------------------------------------

/// A body's verdict stands when more bytes arrive, unless it is held.
proof fn lemma_body_verdict_stands(h: Header, body: Seq<u8>, next: Seq<u8>)
    requires
        body_verdict(h, body) != Verdict::Hold,
    ensures
        body_verdict(h, body + next) == body_verdict(h, body),
{
    lemma_run_len(h, body);
    lemma_run_len(h, next);
    lemma_run_len(h, body + next);
    let n = run_len(h, body);
    let all = body + next;
    if n < body.len() {
        assert forall|i: int| 0 <= i < n implies body_byte(h, #[trigger] all[i]) by {
            assert(all[i] == body[i]);
        }
        assert(all[n as int] == body[n as int]);
        lemma_run_len_unique(h, all, n);
    } else {
        let m = run_len(h, next);
        assert forall|i: int| 0 <= i < n + m implies body_byte(h, #[trigger] all[i]) by {
            if i < n {
                assert(all[i] == body[i]);
            } else {
                assert(all[i] == next[i - n]);
            }
        }
        if m < next.len() {
            assert(all[(n + m) as int] == next[m as int]);
        }
        lemma_run_len_unique(h, all, n + m);
    }
}

/// A verdict stands when more bytes arrive, unless the bytes are held.
proof fn lemma_verdict_stands(c: Seq<u8>, g: Seq<u8>, p: Seq<u8>, next: Seq<u8>)
    requires
        heads_ok(c, g),
        p.len() > 0,
        p[0] == CONTROL,
        verdict(c, g, p) != Verdict::Hold,
    ensures
        verdict(c, g, p + next) == verdict(c, g, p),
{
    let all = p + next;
    if crate::text::begins_with(p, c) {
        assert(all.take(c.len() as int) =~= p.take(c.len() as int));
        assert(all.skip(c.len() as int) =~= p.skip(c.len() as int) + next);
        lemma_body_verdict_stands(Header::Cwd, p.skip(c.len() as int), next);
    } else if crate::text::begins_with(p, g) {
        assert(all.take(g.len() as int) =~= p.take(g.len() as int));
        assert(all.skip(g.len() as int) =~= p.skip(g.len() as int) + next);
        if crate::text::begins_with(all, c) {
            assert(all.take(c.len() as int)[3] == all.take(g.len() as int)[3]);
        }
        lemma_body_verdict_stands(Header::Pgid, p.skip(g.len() as int), next);
    } else {
        lemma_no_new_prefix(p, next, c);
        lemma_no_new_prefix(p, next, g);
    }
}

/// Bytes that are neither longer than nor a beginning of `h` stay so.
proof fn lemma_no_new_prefix(p: Seq<u8>, next: Seq<u8>, h: Seq<u8>)
    requires
        !crate::text::begins_with(p, h),
        !crate::text::begins_with(h, p),
    ensures
        !crate::text::begins_with(p + next, h),
        !crate::text::begins_with(h, p + next),
{
    let all = p + next;
    if crate::text::begins_with(all, h) {
        if h.len() <= p.len() {
            assert(p.take(h.len() as int) =~= all.take(h.len() as int));
        } else {
            assert(h.take(p.len() as int) =~= all.take(h.len() as int).take(p.len() as int));
            assert(h.take(p.len() as int) =~= p);
        }
    }
    if crate::text::begins_with(h, all) {
        assert(h.take(p.len() as int) =~= h.take(all.len() as int).take(p.len() as int));
        assert(h.take(p.len() as int) =~= p);
    }
}

/// Filtering in two parts: what the first part holds back goes in front of the
/// second.
proof fn lemma_scan_concat(c: Seq<u8>, g: Seq<u8>, a: Seq<u8>, b: Seq<u8>, pgid: Option<u32>)
    requires
        heads_ok(c, g),
    ensures
        scan(c, g, a, pgid).ended is Some ==> scan(c, g, a + b, pgid) == scan(c, g, a, pgid),
        scan(c, g, a, pgid).ended is None ==> scan(c, g, a + b, pgid) == emit(
            scan(c, g, a, pgid).out,
            scan(c, g, scan(c, g, a, pgid).held + b, scan(c, g, a, pgid).pgid),
        ),
    decreases a.len(),
{
    lemma_scan_step(c, g, a, pgid);
    lemma_scan_step(c, g, a + b, pgid);
    if a.len() == 0 {
        assert(a + b =~= b);
        assert(Seq::<u8>::empty() + b =~= b);
        let r = scan(c, g, b, pgid);
        assert(Seq::<u8>::empty() + r.out =~= r.out);
    } else if a[0] != CONTROL {
        assert((a + b).skip(1) =~= a.skip(1) + b);
        lemma_scan_concat(c, g, a.skip(1), b, pgid);
        lemma_emit_concat(c, g, a, b, pgid);
    } else {
        match verdict(c, g, a) {
            Verdict::Hold => {
                let r = scan(c, g, a + b, pgid);
                assert(Seq::<u8>::empty() + r.out =~= r.out);
            },
            Verdict::Data => {
                lemma_verdict_stands(c, g, a, b);
                assert((a + b).skip(1) =~= a.skip(1) + b);
                lemma_scan_concat(c, g, a.skip(1), b, pgid);
                lemma_emit_concat(c, g, a, b, pgid);
            },
            Verdict::Message(Header::Cwd, n) => {
                lemma_verdict_stands(c, g, a, b);
                assert((a + b).subrange(c.len() as int, (c.len() + n) as int) =~= a.subrange(
                    c.len() as int,
                    (c.len() + n) as int,
                ));
            },
            Verdict::Message(Header::Pgid, n) => {
                lemma_verdict_stands(c, g, a, b);
                let k = (g.len() + n + 1) as int;
                assert((a + b).subrange(g.len() as int, (g.len() + n) as int) =~= a.subrange(
                    g.len() as int,
                    (g.len() + n) as int,
                ));
                assert((a + b).skip(k) =~= a.skip(k) + b);
                let now = marker_pgid(a.subrange(g.len() as int, (g.len() + n) as int));
                lemma_scan_concat(c, g, a.skip(k), b, now);
            },
        }
    }
}

/// The step of [`lemma_scan_concat`] for a byte that is forwarded.
proof fn lemma_emit_concat(c: Seq<u8>, g: Seq<u8>, a: Seq<u8>, b: Seq<u8>, pgid: Option<u32>)
    requires
        a.len() > 0,
        scan(c, g, a, pgid) == emit(seq![a[0]], scan(c, g, a.skip(1), pgid)),
        scan(c, g, a + b, pgid) == emit(seq![a[0]], scan(c, g, a.skip(1) + b, pgid)),
        scan(c, g, a.skip(1), pgid).ended is Some ==> scan(c, g, a.skip(1) + b, pgid) == scan(
            c,
            g,
            a.skip(1),
            pgid,
        ),
        scan(c, g, a.skip(1), pgid).ended is None ==> scan(c, g, a.skip(1) + b, pgid) == emit(
            scan(c, g, a.skip(1), pgid).out,
            scan(c, g, scan(c, g, a.skip(1), pgid).held + b, scan(c, g, a.skip(1), pgid).pgid),
        ),
    ensures
        scan(c, g, a, pgid).ended is Some ==> scan(c, g, a + b, pgid) == scan(c, g, a, pgid),
        scan(c, g, a, pgid).ended is None ==> scan(c, g, a + b, pgid) == emit(
            scan(c, g, a, pgid).out,
            scan(c, g, scan(c, g, a, pgid).held + b, scan(c, g, a, pgid).pgid),
        ),
{
    let r = scan(c, g, a.skip(1), pgid);
    if r.ended is None {
        lemma_emit_emit(seq![a[0]], r.out, scan(c, g, r.held + b, r.pgid));
    }
}

/// How stdout is cut into chunks makes no difference: two chunks leave the same
/// state and forward the same bytes as the two in one.
pub proof fn law_chunking(v: FilterView, a: Seq<u8>, b: Seq<u8>)
    requires
        v.wf(),
    ensures
        fed(v, a + b) == (fed(fed(v, a).0, b).0, fed(v, a).1 + fed(fed(v, a).0, b).1),
{
    let c = v.cwd_head;
    let g = v.pgid_head;
    if v.finished {
        assert(Seq::<u8>::empty() + Seq::<u8>::empty() =~= Seq::<u8>::empty());
    } else {
        let p = v.pending + a;
        assert(v.pending + (a + b) =~= p + b);
        lemma_scan_concat(c, g, p, b, v.pgid);
        let r = scan(c, g, p, v.pgid);
        if r.ended is Some {
            lemma_scan_ended(c, g, p, v.pgid);
            assert(r.out + Seq::<u8>::empty() =~= r.out);
        }
    }
}

/// A filter's state after a list of chunks, and what it forwarded in all.
pub open spec fn fed_all(v: FilterView, chunks: Seq<Seq<u8>>) -> (FilterView, Seq<u8>)
    decreases chunks.len(),
{
    if chunks.len() == 0 {
        (v, Seq::empty())
    } else {
        let first = fed(v, chunks[0]);
        let rest = fed_all(first.0, chunks.skip(1));
        (rest.0, first.1 + rest.1)
    }
}

/// However a stream is cut, the filter ends in the same state and has forwarded
/// the same bytes as if it had come in one piece.
pub proof fn law_every_cut_is_filtered_alike(v: FilterView, chunks: Seq<Seq<u8>>)
    requires
        v.wf(),
        v.pending.len() == 0,
    ensures
        fed_all(v, chunks) == fed(v, crate::proto::whole(chunks)),
{
    if chunks.len() == 0 {
        let nothing = Seq::<u8>::empty();
        assert(v.pending + nothing =~= nothing);
        assert(v.pending =~= nothing);
        lemma_scan_step(v.cwd_head, v.pgid_head, nothing, v.pgid);
    } else {
        lemma_fed_all(v, chunks);
    }
}

proof fn lemma_fed_all(v: FilterView, chunks: Seq<Seq<u8>>)
    requires
        v.wf(),
        chunks.len() > 0,
    ensures
        fed_all(v, chunks) == fed(v, crate::proto::whole(chunks)),
    decreases chunks.len(),
{
    let a = chunks[0];
    let rest = chunks.skip(1);
    let first = fed(v, a);
    if rest.len() == 0 {
        assert(crate::proto::whole(rest) =~= Seq::<u8>::empty());
        assert(crate::proto::whole(chunks) =~= a);
        assert(first.1 + Seq::<u8>::empty() =~= first.1);
        assert(fed_all(first.0, rest) == (first.0, Seq::<u8>::empty()));
    } else {
        if !v.finished {
            lemma_scan_ended(v.cwd_head, v.pgid_head, v.pending + a, v.pgid);
        }
        lemma_fed_all(first.0, rest);
        law_chunking(v, a, crate::proto::whole(rest));
    }
}

/// Nothing is held back once the cwd message was met.
proof fn lemma_scan_ended(c: Seq<u8>, g: Seq<u8>, p: Seq<u8>, pgid: Option<u32>)
    ensures
        scan(c, g, p, pgid).ended is Some ==> scan(c, g, p, pgid).held.len() == 0,
    decreases p.len(),
{
    lemma_scan_step(c, g, p, pgid);
    if p.len() > 0 {
        if p[0] != CONTROL {
            lemma_scan_ended(c, g, p.skip(1), pgid);
        } else {
            match verdict(c, g, p) {
                Verdict::Data => {
                    lemma_scan_ended(c, g, p.skip(1), pgid);
                },
                Verdict::Message(Header::Pgid, n) => {
                    lemma_scan_ended(
                        c,
                        g,
                        p.skip((g.len() + n + 1) as int),
                        marker_pgid(p.subrange(g.len() as int, (g.len() + n) as int)),
                    );
                },
                _ => {},
            }
        }
    }
}

/// A complete header stands somewhere in `p`.
pub open spec fn has_header(c: Seq<u8>, g: Seq<u8>, p: Seq<u8>) -> bool {
    exists|k: int|
        0 <= k <= p.len() && (#[trigger] crate::text::begins_with(p.skip(k), c)
            || crate::text::begins_with(p.skip(k), g))
}

/// Data that holds no complete header comes through byte for byte: what is
/// forwarded and what is held back make up the input, and nothing else changes.
pub proof fn law_plain_data_is_kept(v: FilterView, chunk: Seq<u8>)
    requires
        v.wf(),
        !v.finished,
        !has_header(v.cwd_head, v.pgid_head, v.pending + chunk),
    ensures
        fed(v, chunk).1 + fed(v, chunk).0.pending == v.pending + chunk,
        fed(v, chunk).0 == (FilterView { pending: fed(v, chunk).0.pending, ..v }),
{
    lemma_scan_plain(v.cwd_head, v.pgid_head, v.pending + chunk, v.pgid);
}

proof fn lemma_scan_plain(c: Seq<u8>, g: Seq<u8>, p: Seq<u8>, pgid: Option<u32>)
    requires
        !has_header(c, g, p),
    ensures
        scan(c, g, p, pgid).out + scan(c, g, p, pgid).held == p,
        scan(c, g, p, pgid).ended is None,
        scan(c, g, p, pgid).pgid == pgid,
    decreases p.len(),
{
    lemma_scan_step(c, g, p, pgid);
    let r = scan(c, g, p, pgid);
    if p.len() == 0 {
        assert(r.out + r.held =~= p);
    } else {
        assert(p.skip(0) =~= p);
        assert(!crate::text::begins_with(p.skip(0), c));
        assert(!crate::text::begins_with(p.skip(0), g));
        if p[0] == CONTROL && verdict(c, g, p) == Verdict::Hold {
            assert(r.out + r.held =~= p);
        } else {
            assert forall|k: int| 0 <= k <= p.skip(1).len() implies !(
            #[trigger] crate::text::begins_with(p.skip(1).skip(k), c)
                || crate::text::begins_with(p.skip(1).skip(k), g)) by {
                assert(p.skip(1).skip(k) =~= p.skip(k + 1));
                assert(!crate::text::begins_with(p.skip(k + 1), c));
            }
            lemma_scan_plain(c, g, p.skip(1), pgid);
            let q = scan(c, g, p.skip(1), pgid);
            assert(r.out + r.held =~= seq![p[0]] + (q.out + q.held));
            assert(seq![p[0]] + p.skip(1) =~= p);
        }
    }
}

/// A cwd message that ends the stream is stripped: the data in front of it is
/// forwarded byte for byte, nothing that follows is, and the directory it carries
/// is known.
pub proof fn law_cwd_message_is_stripped(
    v: FilterView,
    data: Seq<u8>,
    dir: Seq<char>,
    junk: Seq<u8>,
)
    requires
        v.wf(),
        !v.finished,
        v.pending.len() == 0,
        plain_head(v.cwd_head),
        plain_head(v.pgid_head),
        !has_header(v.cwd_head, v.pgid_head, data),
        base64_text(encode_utf8(dir)).len() <= MAX_B64_LEN,
    ensures
        fed(
            v,
            data + v.cwd_head + base64_text(encode_utf8(dir)) + seq![CONTROL] + junk,
        ) == (FilterView { cwd: Some(dir), finished: true, ..v }, data),
{
    let c = v.cwd_head;
    let body = base64_text(encode_utf8(dir));
    lemma_carries(body, dir);
    lemma_base64_shape(encode_utf8(dir));
    let msg = c + body + seq![CONTROL] + junk;
    let all = data + c + body + seq![CONTROL] + junk;
    assert(v.pending + all =~= all);
    assert(all =~= data + msg);
    lemma_data_then(c, v.pgid_head, data, msg, v.pgid);
    assert forall|i: int| 0 <= i < body.len() implies body_byte(
        Header::Cwd,
        #[trigger] body[i],
    ) by {
        assert(is_b64(body[i]));
    }
    lemma_complete_message(c, Header::Cwd, body, junk);
    lemma_scan_step(c, v.pgid_head, msg, v.pgid);
    assert(msg.subrange(c.len() as int, (c.len() + body.len()) as int) =~= body);
    assert(data + Seq::<u8>::empty() =~= data);
    assert(v.pending =~= Seq::<u8>::empty());
}

/// A process group message is stripped from the stream: the data in front of it
/// is forwarded, the group it carries is known, and filtering goes on behind it.
pub proof fn law_pgid_message_is_stripped(
    v: FilterView,
    data: Seq<u8>,
    group: u32,
    rest: Seq<u8>,
)
    requires
        v.wf(),
        !v.finished,
        v.pending.len() == 0,
        plain_head(v.cwd_head),
        plain_head(v.pgid_head),
        !has_header(v.cwd_head, v.pgid_head, data),
    ensures
        ({
            let body = encode_utf8(crate::text::dec_nat(group as nat));
            let after = fed(FilterView { pgid: Some(group), ..v }, rest);
            fed(v, data + v.pgid_head + body + seq![CONTROL] + rest) == (
                after.0,
                data + after.1,
            )
        }),
{
    let c = v.cwd_head;
    let g = v.pgid_head;
    let dec = crate::text::dec_nat(group as nat);
    let body = encode_utf8(dec);
    crate::text::lemma_dec_nat_reads_back(group as nat);
    crate::text::law_decimal_round_trip(group as nat, u32::MAX as nat);
    assert(crate::text::pow10(10) == 10_000_000_000) by {
        reveal_with_fuel(crate::text::pow10, 11);
    }
    crate::text::lemma_dec_nat_len(group as nat, 10);
    assert(is_ascii_chars(dec)) by {
        assert forall|i: int| 0 <= i < dec.len() implies 0 <= #[trigger] dec[i] as int <= 127 by {
            assert(crate::text::is_digit(dec[i]));
        }
    }
    is_ascii_chars_encode_utf8(dec);
    assert(byte_chars(body) =~= dec);
    assert forall|i: int| 0 <= i < body.len() implies body_byte(
        Header::Pgid,
        #[trigger] body[i],
    ) by {
        assert(crate::text::is_digit(dec[i]));
    }
    let msg = g + body + seq![CONTROL] + rest;
    let all = data + g + body + seq![CONTROL] + rest;
    assert(v.pending + all =~= all);
    assert(all =~= data + msg);
    lemma_data_then(c, g, data, msg, v.pgid);
    lemma_complete_message(g, Header::Pgid, body, rest);
    assert(!crate::text::begins_with(msg, c)) by {
        if crate::text::begins_with(msg, c) {
            assert(msg.take(c.len() as int)[3] == msg.take(g.len() as int)[3]);
        }
    }
    lemma_scan_step(c, g, msg, v.pgid);
    assert(msg.subrange(g.len() as int, (g.len() + body.len()) as int) =~= body);
    assert(msg.skip((g.len() + body.len() + 1) as int) =~= rest);
    assert(v.pending + rest =~= rest);
}

/// Data without a complete header in front of a control message.
proof fn lemma_data_then(
    c: Seq<u8>,
    g: Seq<u8>,
    data: Seq<u8>,
    msg: Seq<u8>,
    pgid: Option<u32>,
)
    requires
        plain_head(c),
        plain_head(g),
        c.len() > 0,
        g.len() > 0,
        msg.len() > 0,
        msg[0] == CONTROL,
        !has_header(c, g, data),
    ensures
        scan(c, g, data + msg, pgid) == emit(data, scan(c, g, msg, pgid)),
    decreases data.len(),
{
    let p = data + msg;
    let r = scan(c, g, msg, pgid);
    if data.len() == 0 {
        assert(p =~= msg);
        assert(data + r.out =~= r.out);
    } else {
        let k = data.len() as int;
        assert(data.skip(0) =~= data);
        assert(!crate::text::begins_with(data.skip(0), c));
        assert(p[k] == CONTROL);
        assert(!crate::text::begins_with(p, c)) by {
            if crate::text::begins_with(p, c) {
                assert(p.take(c.len() as int) == c);
                if c.len() <= k {
                    assert(data.take(c.len() as int) =~= c);
                } else {
                    assert(c[k] == p[k]);
                }
            }
        }
        assert(!crate::text::begins_with(p, g)) by {
            if crate::text::begins_with(p, g) {
                assert(p.take(g.len() as int) == g);
                if g.len() <= k {
                    assert(data.take(g.len() as int) =~= g);
                } else {
                    assert(g[k] == p[k]);
                }
            }
        }
        assert(!crate::text::begins_with(c, p)) by {
            if crate::text::begins_with(c, p) {
                assert(c.take(p.len() as int)[k] == c[k]);
            }
        }
        assert(!crate::text::begins_with(g, p)) by {
            if crate::text::begins_with(g, p) {
                assert(g.take(p.len() as int)[k] == g[k]);
            }
        }
        lemma_scan_step(c, g, p, pgid);
        assert(p.skip(1) =~= data.skip(1) + msg);
        assert forall|j: int| 0 <= j <= data.skip(1).len() implies !(
        #[trigger] crate::text::begins_with(data.skip(1).skip(j), c)
            || crate::text::begins_with(data.skip(1).skip(j), g)) by {
            assert(data.skip(1).skip(j) =~= data.skip(j + 1));
            assert(!crate::text::begins_with(data.skip(j + 1), c));
        }
        lemma_data_then(c, g, data.skip(1), msg, pgid);
        lemma_emit_emit(seq![p[0]], data.skip(1), r);
        assert(seq![p[0]] + data.skip(1) =~= data);
    }
}

/// What is held back begins with the control byte, may still become a message,
/// and is no longer than the longest header with the longest body.
pub proof fn law_held_back_is_bounded(v: FilterView, chunk: Seq<u8>)
    requires
        v.wf(),
    ensures
        ({
            let held = fed(v, chunk).0.pending;
            held.len() > 0 ==> {
                &&& held[0] == CONTROL
                &&& verdict(v.cwd_head, v.pgid_head, held) == Verdict::Hold
                &&& held.len() <= v.cwd_head.len() + MAX_B64_LEN || held.len()
                    <= v.pgid_head.len() + MAX_PGID_LEN
            }
        }),
{
    if !v.finished {
        lemma_scan_held(v.cwd_head, v.pgid_head, v.pending + chunk, v.pgid);
    }
}

proof fn lemma_scan_held(c: Seq<u8>, g: Seq<u8>, p: Seq<u8>, pgid: Option<u32>)
    ensures
        ({
            let held = scan(c, g, p, pgid).held;
            held.len() > 0 ==> {
                &&& held[0] == CONTROL
                &&& verdict(c, g, held) == Verdict::Hold
                &&& held.len() <= c.len() + MAX_B64_LEN || held.len() <= g.len() + MAX_PGID_LEN
            }
        }),
    decreases p.len(),
{
    lemma_scan_step(c, g, p, pgid);
    if p.len() > 0 {
        if p[0] != CONTROL {
            lemma_scan_held(c, g, p.skip(1), pgid);
        } else {
            match verdict(c, g, p) {
                Verdict::Data => {
                    lemma_scan_held(c, g, p.skip(1), pgid);
                },
                Verdict::Message(Header::Pgid, n) => {
                    lemma_scan_held(
                        c,
                        g,
                        p.skip((g.len() + n + 1) as int),
                        marker_pgid(p.subrange(g.len() as int, (g.len() + n) as int)),
                    );
                },
                _ => {},
            }
        }
    }
}

/// A header, a body and the control byte make a complete message.
proof fn lemma_complete_message(head: Seq<u8>, h: Header, body: Seq<u8>, rest: Seq<u8>)
    requires
        body.len() <= body_bound(h),
        forall|i: int| 0 <= i < body.len() ==> body_byte(h, #[trigger] body[i]),
    ensures
        crate::text::begins_with(head + body + seq![CONTROL] + rest, head),
        body_verdict(h, (head + body + seq![CONTROL] + rest).skip(head.len() as int))
            == Verdict::Message(h, body.len()),
{
    let msg = head + body + seq![CONTROL] + rest;
    assert(msg.take(head.len() as int) =~= head);
    let tail = msg.skip(head.len() as int);
    assert(tail =~= body + seq![CONTROL] + rest);
    assert forall|i: int| 0 <= i < body.len() implies body_byte(h, #[trigger] tail[i]) by {
        assert(tail[i] == body[i]);
    }
    assert(tail[body.len() as int] == CONTROL);
    lemma_run_len_unique(h, tail, body.len());
}

/// The length of the complete process group message that `s` begins with.
pub open spec fn group_message(g: Seq<u8>, s: Seq<u8>) -> Option<nat> {
    if crate::text::begins_with(s, g) {
        match body_verdict(Header::Pgid, s.skip(g.len() as int)) {
            Verdict::Message(_, n) => Some((g.len() + n + 1) as nat),
            _ => None,
        }
    } else {
        None
    }
}

/// `s` without its complete process group messages.
pub open spec fn without_groups(g: Seq<u8>, s: Seq<u8>) -> Seq<u8>
    decreases s.len(),
    via without_groups_decreases
{
    if s.len() == 0 {
        Seq::empty()
    } else {
        match group_message(g, s) {
            Some(n) => without_groups(g, s.skip(n as int)),
            None => seq![s[0]] + without_groups(g, s.skip(1)),
        }
    }
}

#[via_fn]
proof fn without_groups_decreases(g: Seq<u8>, s: Seq<u8>) {
    lemma_run_len(Header::Pgid, s.skip(g.len() as int));
}

/// `s` consists of `data`, a complete cwd message with the given body, and `rest`.
pub open spec fn ends_in_message(
    c: Seq<u8>,
    s: Seq<u8>,
    data: Seq<u8>,
    body: Seq<u8>,
    rest: Seq<u8>,
) -> bool {
    &&& s == data + c + body + seq![CONTROL] + rest
    &&& body.len() <= MAX_B64_LEN
    &&& forall|i: int| 0 <= i < body.len() ==> is_b64(#[trigger] body[i])
}

/// A directory comes out only if a whole cwd message that carries it stood in the
/// stream. What was forwarded is then the data in front of that message without
/// its process group messages, and nothing is left over.
pub proof fn law_directory_comes_from_a_message(v: FilterView, chunks: Seq<Seq<u8>>)
    requires
        v.wf(),
        !v.finished,
        v.pending.len() == 0,
    ensures
        ({
            let end = fed_all(v, chunks);
            end.0.cwd matches Some(dir) ==> {
                &&& end.0.pending.len() == 0
                &&& exists|data: Seq<u8>, rest: Seq<u8>|
                    #[trigger] ends_in_message(
                        v.cwd_head,
                        crate::proto::whole(chunks),
                        data,
                        base64_text(encode_utf8(dir)),
                        rest,
                    ) && end.1 == without_groups(v.pgid_head, data)
            }
        }),
{
    let s = crate::proto::whole(chunks);
    law_every_cut_is_filtered_alike(v, chunks);
    assert(v.pending + s =~= s);
    let r = scan(v.cwd_head, v.pgid_head, s, v.pgid);
    if r.ended is Some {
        lemma_scan_ended(v.cwd_head, v.pgid_head, s, v.pgid);
        let (data, body, rest) = lemma_ended_at(v.cwd_head, v.pgid_head, s, v.pgid);
        if let Some(dir) = marker_cwd(body) {
            assert(carries(body, dir));
        }
    }
}

/// As long as no cwd message was met, the process group messages are all that is
/// missing from the stream: what was forwarded and what is held back make up the
/// rest of it, and no directory is known.
pub proof fn law_only_group_messages_are_removed(v: FilterView, chunks: Seq<Seq<u8>>)
    requires
        v.wf(),
        !v.finished,
        v.pending.len() == 0,
        plain_head(v.cwd_head),
        plain_head(v.pgid_head),
    ensures
        ({
            let end = fed_all(v, chunks);
            !end.0.finished ==> {
                &&& end.0.cwd is None
                &&& end.1 + end.0.pending == without_groups(
                    v.pgid_head,
                    crate::proto::whole(chunks),
                )
            }
        }),
{
    let s = crate::proto::whole(chunks);
    law_every_cut_is_filtered_alike(v, chunks);
    assert(v.pending + s =~= s);
    if scan(v.cwd_head, v.pgid_head, s, v.pgid).ended is None {
        lemma_not_ended(v.cwd_head, v.pgid_head, s, v.pgid);
    }
}

/// The message that ended the filtering: the data in front of it, its body and
/// what follows.
#[verifier::spinoff_prover]
#[verifier::rlimit(40)]
proof fn lemma_ended_at(c: Seq<u8>, g: Seq<u8>, p: Seq<u8>, pgid: Option<u32>) -> (r: (
    Seq<u8>,
    Seq<u8>,
    Seq<u8>,
))
    requires
        heads_ok(c, g),
        scan(c, g, p, pgid).ended is Some,
    ensures
        ends_in_message(c, p, r.0, r.1, r.2),
        scan(c, g, p, pgid).ended == Some(marker_cwd(r.1)),
        scan(c, g, p, pgid).out == without_groups(g, r.0),
    decreases p.len(),
{
    lemma_scan_step(c, g, p, pgid);
    if p[0] != CONTROL || verdict(c, g, p) == Verdict::Data {
        let (data, body, rest) = lemma_ended_at(c, g, p.skip(1), pgid);
        let all = seq![p[0]] + data;
        let tail = c + body + seq![CONTROL] + rest;
        assert(seq![p[0]] + p.skip(1) =~= p);
        assert(p =~= all + c + body + seq![CONTROL] + rest);
        assert(p =~= all + tail);
        lemma_no_group(c, g, all, tail);
        assert(all.skip(1) =~= data);
        (all, body, rest)
    } else {
        match verdict(c, g, p) {
            Verdict::Message(Header::Pgid, n) => {
                let k = (g.len() + n + 1) as int;
                let now = marker_pgid(p.subrange(g.len() as int, (g.len() + n) as int));
                let (data, body, rest) = lemma_ended_at(c, g, p.skip(k), now);
                let all = p.take(k) + data;
                assert(p.take(k) + p.skip(k) =~= p);
                assert(p =~= all + c + body + seq![CONTROL] + rest);
                assert(all.take(k) =~= p.take(k));
                lemma_group(g, p, all, n);
                assert(all.skip(k) =~= data);
                (all, body, rest)
            },
            Verdict::Message(Header::Cwd, n) => {
                let data = Seq::<u8>::empty();
                let body = p.subrange(c.len() as int, (c.len() + n) as int);
                let rest = p.skip((c.len() + n + 1) as int);
                let tail = p.skip(c.len() as int);
                lemma_run_len(Header::Cwd, tail);
                assert(p.take(c.len() as int) == c);
                assert(tail[n as int] == p[(c.len() + n) as int]);
                assert(p =~= data + c + body + seq![CONTROL] + rest);
                assert forall|i: int| 0 <= i < body.len() implies is_b64(#[trigger] body[i]) by {
                    assert(body[i] == tail[i]);
                    assert(body_byte(Header::Cwd, tail[i]));
                }
                (data, body, rest)
            },
            _ => { (p, p, p) },
        }
    }
}

proof fn lemma_not_ended(c: Seq<u8>, g: Seq<u8>, p: Seq<u8>, pgid: Option<u32>)
    requires
        heads_ok(c, g),
        plain_head(c),
        plain_head(g),
        scan(c, g, p, pgid).ended is None,
    ensures
        scan(c, g, p, pgid).out + scan(c, g, p, pgid).held == without_groups(g, p),
    decreases p.len(),
{
    lemma_scan_step(c, g, p, pgid);
    let r = scan(c, g, p, pgid);
    if p.len() == 0 {
        assert(r.out + r.held =~= p);
    } else if p[0] != CONTROL || verdict(c, g, p) == Verdict::Data {
        let q = scan(c, g, p.skip(1), pgid);
        lemma_not_ended(c, g, p.skip(1), pgid);
        assert(p + Seq::<u8>::empty() =~= p);
        lemma_no_group(c, g, p, Seq::empty());
        assert(seq![p[0]] + q.out + q.held =~= seq![p[0]] + (q.out + q.held));
    } else {
        match verdict(c, g, p) {
            Verdict::Hold => {
                lemma_held_is_plain(c, g, p);
                assert(p + Seq::<u8>::empty() =~= p);
                lemma_no_group(c, g, p, Seq::empty());
                assert forall|i: int| 0 <= i < p.skip(1).len() implies p.skip(1)[i] != CONTROL by {
                    assert(p.skip(1)[i] == p[i + 1]);
                }
                lemma_without_groups_plain(g, p.skip(1));
                assert(r.out + r.held =~= seq![p[0]] + p.skip(1));
            },
            Verdict::Message(Header::Pgid, n) => {
                let k = (g.len() + n + 1) as int;
                lemma_not_ended(
                    c,
                    g,
                    p.skip(k),
                    marker_pgid(p.subrange(g.len() as int, (g.len() + n) as int)),
                );
                lemma_group(g, p, p, n);
            },
            _ => {},
        }
    }
}

/// Where the first byte is data or held, no complete group message begins.
proof fn lemma_no_group(c: Seq<u8>, g: Seq<u8>, s: Seq<u8>, tail: Seq<u8>)
    requires
        heads_ok(c, g),
        s.len() > 0,
        s[0] != CONTROL || verdict(c, g, s + tail) == Verdict::Data || verdict(c, g, s + tail)
            == Verdict::Hold,
    ensures
        group_message(g, s) is None,
{
    if group_message(g, s) is Some {
        let p = s + tail;
        assert(s.take(g.len() as int)[0] == s[0]);
        assert(p.take(g.len() as int) =~= s.take(g.len() as int));
        assert(p.skip(g.len() as int) =~= s.skip(g.len() as int) + tail);
        lemma_body_verdict_stands(Header::Pgid, s.skip(g.len() as int), tail);
        if crate::text::begins_with(p, c) {
            assert(p.take(c.len() as int)[3] == p.take(g.len() as int)[3]);
        }
    }
}

/// A complete group message at the front of `p` is one at the front of whatever
/// shares its bytes.
proof fn lemma_group(g: Seq<u8>, p: Seq<u8>, s: Seq<u8>, n: nat)
    requires
        crate::text::begins_with(p, g),
        body_verdict(Header::Pgid, p.skip(g.len() as int)) == Verdict::Message(Header::Pgid, n),
        g.len() + n + 1 <= s.len(),
        g.len() + n + 1 <= p.len(),
        s.take((g.len() + n + 1) as int) == p.take((g.len() + n + 1) as int),
    ensures
        group_message(g, s) == Some((g.len() + n + 1) as nat),
{
    let k = (g.len() + n + 1) as int;
    let body = p.skip(g.len() as int);
    let other = s.skip(g.len() as int);
    lemma_run_len(Header::Pgid, body);
    assert(s.take(g.len() as int) =~= s.take(k).take(g.len() as int));
    assert(p.take(g.len() as int) =~= p.take(k).take(g.len() as int));
    assert forall|i: int| 0 <= i <= n implies #[trigger] other[i] == body[i] by {
        assert(other[i] == s.take(k)[g.len() + i]);
        assert(body[i] == p.take(k)[g.len() + i]);
    }
    assert forall|i: int| 0 <= i < n implies body_byte(Header::Pgid, #[trigger] other[i]) by {
        assert(body_byte(Header::Pgid, body[i]));
    }
    assert(other[n as int] == body[n as int]);
    lemma_run_len_unique(Header::Pgid, other, n);
}

/// Bytes that are held back have the control byte at the front only.
proof fn lemma_held_is_plain(c: Seq<u8>, g: Seq<u8>, p: Seq<u8>)
    requires
        plain_head(c),
        plain_head(g),
        verdict(c, g, p) == Verdict::Hold,
    ensures
        forall|i: int| 0 < i < p.len() ==> p[i] != CONTROL,
{
    if crate::text::begins_with(p, c) {
        lemma_header_and_body(c, Header::Cwd, p);
    } else if crate::text::begins_with(p, g) {
        lemma_header_and_body(g, Header::Pgid, p);
    } else {
        let h = if crate::text::begins_with(c, p) {
            c
        } else {
            g
        };
        assert forall|i: int| 0 < i < p.len() implies p[i] != CONTROL by {
            assert(h.take(p.len() as int)[i] == h[i]);
        }
    }
}

proof fn lemma_header_and_body(head: Seq<u8>, h: Header, p: Seq<u8>)
    requires
        plain_head(head),
        crate::text::begins_with(p, head),
        run_len(h, p.skip(head.len() as int)) == p.len() - head.len(),
    ensures
        forall|i: int| 0 < i < p.len() ==> p[i] != CONTROL,
{
    let body = p.skip(head.len() as int);
    lemma_run_len(h, body);
    assert forall|i: int| 0 < i < p.len() implies p[i] != CONTROL by {
        if i < head.len() {
            assert(p.take(head.len() as int)[i] == head[i]);
        } else {
            assert(body_byte(h, body[i - head.len()]));
        }
    }
}

proof fn lemma_without_groups_plain(g: Seq<u8>, s: Seq<u8>)
    requires
        g.len() > 0,
        g[0] == CONTROL,
        forall|i: int| 0 <= i < s.len() ==> s[i] != CONTROL,
    ensures
        without_groups(g, s) == s,
    decreases s.len(),
{
    if s.len() > 0 {
        if crate::text::begins_with(s, g) {
            assert(s.take(g.len() as int)[0] == s[0]);
        }
        lemma_without_groups_plain(g, s.skip(1));
        assert(seq![s[0]] + s.skip(1) =~= s);
    }
}

/// Data without a control byte is forwarded at once and whole, when nothing is held
/// back, and nothing else changes.
pub proof fn law_data_without_control_bytes(v: FilterView, data: Seq<u8>)
    requires
        v.wf(),
        !v.finished,
        v.pending.len() == 0,
        forall|i: int| 0 <= i < data.len() ==> #[trigger] data[i] != CONTROL,
    ensures
        fed(v, data) == (v, data),
{
    assert(v.pending + data =~= data);
    lemma_scan_prefix(v.cwd_head, v.pgid_head, data, v.pgid, data.len() as int);
    assert(data.take(data.len() as int) =~= data);
    assert(data.skip(data.len() as int) =~= Seq::empty());
    lemma_scan_step(v.cwd_head, v.pgid_head, Seq::empty(), v.pgid);
    assert(data + Seq::<u8>::empty() =~= data);
    assert(v.pending =~= Seq::empty());
}

} // verus!
