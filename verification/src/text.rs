//! Text and byte helpers: decimal rendering and reading, trimming, searching,
//! joining. Text is modelled as a sequence of characters, raw data as a
//! sequence of bytes.

use vstd::prelude::*;
use vstd::utf8::*;

verus! {

// -- trusted std items ---------------------------------------------------------

/// `String::push` appends the character at the end.
pub assume_specification[ String::push ](s: &mut String, c: char)
    ensures
        final(s)@ == old(s)@.push(c),
;

/// The characters with the Unicode property `White_Space`.
pub open spec fn is_white(c: char) -> bool {
    let v = c as u32;
    ||| 0x9 <= v <= 0xd
    ||| v == 0x20
    ||| v == 0x85
    ||| v == 0xa0
    ||| v == 0x1680
    ||| 0x2000 <= v <= 0x200a
    ||| v == 0x2028
    ||| v == 0x2029
    ||| v == 0x202f
    ||| v == 0x205f
    ||| v == 0x3000
}

/// `char::is_whitespace` tells whether a character has the Unicode property
/// `White_Space`.
pub assume_specification[ char::is_whitespace ](c: char) -> (r: bool)
    ensures
        r == is_white(c),
;

/// How the error of `String::from_utf8` describes a malformed byte sequence.
pub uninterp spec fn utf8_error_text(bytes: Seq<u8>) -> Seq<char>;

/// `String::from_utf8`: succeeds exactly on valid UTF-8 and keeps the bytes; the
/// error is given by its description.
#[verifier::external_body]
pub(crate) fn utf8_string(bytes: Vec<u8>) -> (r: Result<String, String>)
    ensures
        r is Ok <==> valid_utf8(bytes@),
        r matches Ok(s) ==> s@ == decode_utf8(bytes@),
        r matches Err(e) ==> e@ == utf8_error_text(bytes@),
{
    String::from_utf8(bytes).map_err(|e| format!("{e}"))
}

/// What `String::from_utf8_lossy` makes of a byte sequence.
pub uninterp spec fn lossy_text(bytes: Seq<u8>) -> Seq<char>;

/// `bytes` encode `s` and then break off inside the encoding of `c`.
pub open spec fn breaks_off(bytes: Seq<u8>, s: Seq<char>, c: char) -> bool {
    exists|k: int|
        0 < k < encode_scalar(c as u32).len() && bytes == encode_utf8(s) + #[trigger] encode_scalar(
            c as u32,
        ).take(k)
}

/// `String::from_utf8_lossy`: the decoded text of valid UTF-8. A last character
/// whose encoding is cut short is one invalid sequence, for which one U+FFFD
/// stands; what stands for other malformed parts is left to std.
#[verifier::external_body]
pub(crate) fn lossy_string(bytes: &[u8]) -> (r: String)
    ensures
        r@ == lossy_text(bytes@),
        valid_utf8(bytes@) ==> r@ == decode_utf8(bytes@),
        forall|s: Seq<char>, c: char| #[trigger]
            breaks_off(bytes@, s, c) ==> r@ == s.push('\u{fffd}'),
{
    String::from_utf8_lossy(bytes).into_owned()
}

/// What the `{:?}` formatting of a string slice prints.
pub uninterp spec fn debug_text(s: Seq<char>) -> Seq<char>;

/// std's `Debug` formatting of `str`: the quoted and escaped text.
#[verifier::external_body]
pub(crate) fn debug_string(s: &str) -> (r: String)
    ensures
        r@ == debug_text(s@),
{
    format!("{s:?}")
}

/// What the `{:?}` formatting of a character prints.
pub uninterp spec fn debug_char_text(c: char) -> Seq<char>;

/// std's `Debug` formatting of `char`: the quoted and escaped character.
#[verifier::external_body]
pub(crate) fn debug_char(c: char) -> (r: String)
    ensures
        r@ == debug_char_text(c),
{
    format!("{c:?}")
}

// -- views ---------------------------------------------------------------------

/// The text of an optional string.
pub open spec fn opt_text(o: Option<String>) -> Option<Seq<char>> {
    match o {
        Some(s) => Some(s@),
        None => None,
    }
}

/// The text of an optional string slice.
pub open spec fn opt_str(o: Option<&str>) -> Option<Seq<char>> {
    match o {
        Some(s) => Some(s@),
        None => None,
    }
}

/// An optional number as a natural one.
pub open spec fn opt_nat(o: Option<u64>) -> Option<nat> {
    match o {
        Some(n) => Some(n as nat),
        None => None,
    }
}

/// The texts of a list of strings.
pub open spec fn texts(v: Seq<String>) -> Seq<Seq<char>> {
    v.map_values(|s: String| s@)
}

/// The texts after one more string.
pub proof fn lemma_texts_push(v: Seq<String>, s: String)
    ensures
        texts(v.push(s)) == texts(v).push(s@),
{
    assert(texts(v.push(s)) =~= texts(v).push(s@));
}

// -- decimal numbers -----------------------------------------------------------

/// The decimal digit for `d`, which is below ten.
pub open spec fn digit(d: nat) -> char {
    (48 + d) as char
}

/// Decimal rendering of a natural number, without leading zeros.
pub open spec fn dec_nat(n: nat) -> Seq<char>
    decreases n,
{
    if n < 10 {
        seq![digit(n)]
    } else {
        dec_nat(n / 10).push(digit(n % 10))
    }
}

/// Decimal rendering of an integer.
pub open spec fn dec_int(i: int) -> Seq<char> {
    if i < 0 {
        seq!['-'] + dec_nat((-i) as nat)
    } else {
        dec_nat(i as nat)
    }
}

/// An ASCII decimal digit.
pub open spec fn is_digit(c: char) -> bool {
    '0' <= c <= '9'
}

/// Value of a string of digits, most significant first.
pub open spec fn digits_value(s: Seq<char>) -> nat
    decreases s.len(),
{
    if s.len() == 0 {
        0
    } else {
        digits_value(s.drop_last()) * 10 + (s.last() as int - 48) as nat
    }
}

/// Every character is a decimal digit.
pub open spec fn all_digits(s: Seq<char>) -> bool {
    forall|i: int| 0 <= i < s.len() ==> is_digit(#[trigger] s[i])
}

/// What an unsigned number type with largest value `max` reads from a text: an
/// optional `+`, then at least one digit, the value within the type's range.
pub open spec fn uint_text(s: Seq<char>, max: nat) -> Option<nat> {
    let d = if s.len() > 0 && s[0] == '+' {
        s.skip(1)
    } else {
        s
    };
    if d.len() > 0 && all_digits(d) && digits_value(d) <= max {
        Some(digits_value(d))
    } else {
        None
    }
}

/// A decimal rendering is made of digits and has the number as its value.
pub proof fn lemma_dec_nat_reads_back(n: nat)
    ensures
        all_digits(dec_nat(n)),
        dec_nat(n).len() > 0,
        digits_value(dec_nat(n)) == n,
    decreases n,
{
    if n < 10 {
        let s = seq![digit(n)];
        assert(s.drop_last() =~= Seq::<char>::empty());
        assert(digits_value(s.drop_last()) == 0);
        assert(s.last() == digit(n));
    } else {
        lemma_dec_nat_reads_back(n / 10);
        let s = dec_nat(n);
        assert(s.drop_last() =~= dec_nat(n / 10));
        assert(s.last() == digit(n % 10));
        assert(is_digit(digit(n % 10)));
        assert forall|i: int| 0 <= i < s.len() implies is_digit(#[trigger] s[i]) by {
            if i < s.len() - 1 {
                assert(s[i] == dec_nat(n / 10)[i]);
            }
        }
    }
}

/// Reading back the decimal rendering of a number in range gives the number.
pub proof fn law_decimal_round_trip(n: nat, max: nat)
    requires
        n <= max,
    ensures
        uint_text(dec_nat(n), max) == Some(n),
{
    lemma_dec_nat_reads_back(n);
    assert(is_digit(dec_nat(n)[0]));
}

/// Ten to the power `k`.
pub open spec fn pow10(k: nat) -> nat
    decreases k,
{
    if k == 0 {
        1
    } else {
        10 * pow10((k - 1) as nat)
    }
}

/// A number below ten to the `k` has at most `k` digits.
pub proof fn lemma_dec_nat_len(n: nat, k: nat)
    requires
        n < pow10(k),
        k > 0,
    ensures
        dec_nat(n).len() <= k,
    decreases k,
{
    if n >= 10 {
        if k == 1 {
            reveal_with_fuel(pow10, 2);
        }
        lemma_dec_nat_len(n / 10, (k - 1) as nat);
    }
}

fn digit_char(d: u64) -> (c: char)
    requires
        d < 10,
    ensures
        c == digit(d as nat),
{
    (48u8 + d as u8) as char
}

/// Append the decimal rendering of `n`.
pub fn push_nat(s: &mut String, n: u64)
    ensures
        final(s)@ == old(s)@ + dec_nat(n as nat),
    decreases n,
{
    if n >= 10 {
        push_nat(s, n / 10);
    }
    s.push(digit_char(n % 10));
    assert(s@ =~= old(s)@ + dec_nat(n as nat));
}

/// Append the decimal rendering of `i`.
pub fn push_int(s: &mut String, i: i64)
    ensures
        final(s)@ == old(s)@ + dec_int(i as int),
{
    if i < 0 {
        s.push('-');
        let m: u64 = ((-(i + 1)) as u64) + 1;
        push_nat(s, m);
        assert(s@ =~= old(s)@ + dec_int(i as int));
    } else {
        push_nat(s, i as u64);
    }
}

/// Decimal rendering of `n` as a string.
pub fn nat_string(n: u64) -> (r: String)
    ensures
        r@ == dec_nat(n as nat),
{
    let mut s = String::new();
    push_nat(&mut s, n);
    assert(s@ =~= dec_nat(n as nat));
    s
}

/// The lower-case hexadecimal digit for `d`, which is below sixteen.
pub open spec fn hex_digit(d: nat) -> char {
    if d < 10 {
        (48 + d) as char
    } else {
        (87 + d) as char
    }
}

/// `0x` and the lower-case hexadecimal digits of a byte, without leading zeros.
pub open spec fn hex_byte(b: u8) -> Seq<char> {
    if b < 16 {
        seq!['0', 'x', hex_digit(b as nat)]
    } else {
        seq!['0', 'x', hex_digit((b / 16) as nat), hex_digit((b % 16) as nat)]
    }
}

fn hex_char(d: u8) -> (c: char)
    requires
        d < 16,
    ensures
        c == hex_digit(d as nat),
{
    if d < 10 {
        (48u8 + d) as char
    } else {
        (87u8 + d) as char
    }
}

/// Append the `0x` rendering of a byte.
pub fn push_hex_byte(s: &mut String, b: u8)
    ensures
        final(s)@ == old(s)@ + hex_byte(b),
{
    s.push('0');
    s.push('x');
    if b >= 16 {
        s.push(hex_char(b / 16));
    }
    s.push(hex_char(b % 16));
    assert(s@ =~= old(s)@ + hex_byte(b));
}

/// Read an unsigned number with largest value `max`.
pub fn parse_uint(s: &[char], max: u64) -> (r: Option<u64>)
    ensures
        r == (match uint_text(s@, max as nat) {
            Some(n) => Some(n as u64),
            None => None::<u64>,
        }),
{
    let start: usize = if s.len() > 0 && s[0] == '+' {
        1
    } else {
        0
    };
    let ghost d = if s@.len() > 0 && s@[0] == '+' {
        s@.skip(1)
    } else {
        s@
    };
    if start == s.len() {
        return None;
    }
    let mut value: u64 = 0;
    let mut over = false;
    let mut i: usize = start;
    while i < s.len()
        invariant
            start <= i <= s.len(),
            d.len() == s@.len() - start,
            start == 0 ==> d == s@,
            start == 1 ==> d == s@.skip(1),
            start == 0 || start == 1,
            start == 1 <==> s@.len() > 0 && s@[0] == '+',
            all_digits(d.take(i - start)),
            !over ==> value == digits_value(d.take(i - start)) && value <= max,
            over ==> digits_value(d.take(i - start)) > max,
        decreases s.len() - i,
    {
        let c = s[i];
        let ghost k = i - start;
        assert(d[k] == c);
        assert(d.take(k + 1).drop_last() =~= d.take(k));
        assert(d.take(k + 1).last() == c);
        if !('0' <= c && c <= '9') {
            assert(!is_digit(d[k]));
            return None;
        }
        assert forall|j: int| 0 <= j < k + 1 implies is_digit(#[trigger] d.take(k + 1)[j]) by {
            if j < k {
                assert(d.take(k + 1)[j] == d.take(k)[j]);
            }
        }
        let v: u64 = (c as u32 - 48) as u64;
        if !over {
            if value > (u64::MAX - v) / 10 {
                over = true;
                assert(value as int * 10 + v as int > u64::MAX);
            } else {
                value = value * 10 + v;
                if value > max {
                    over = true;
                }
            }
        }
        i = i + 1;
    }
    assert(d.take(d.len() as int) =~= d);
    if over {
        None
    } else {
        Some(value)
    }
}

// -- strings and character lists -------------------------------------------------

/// The characters of a string slice.
pub fn str_chars(s: &str) -> (r: Vec<char>)
    ensures
        r@ == s@,
{
    let mut v: Vec<char> = Vec::new();
    for c in it: s.chars()
        invariant
            v@ == s@.take(it.index()),
            it.seq() == s@,
    {
        v.push(c);
        assert(s@.take(it.index() + 1) =~= s@.take(it.index()).push(c));
    }
    assert(s@.take(s@.len() as int) =~= s@);
    v
}

/// The string made of the characters from `from` up to `to`.
pub fn sub_string(v: &[char], from: usize, to: usize) -> (r: String)
    requires
        from <= to <= v@.len(),
    ensures
        r@ == v@.subrange(from as int, to as int),
{
    let mut s = String::new();
    let mut i: usize = from;
    while i < to
        invariant
            from <= i <= to <= v@.len(),
            s@ == v@.subrange(from as int, i as int),
        decreases to - i,
    {
        s.push(v[i]);
        assert(v@.subrange(from as int, i + 1) =~= v@.subrange(from as int, i as int).push(
            v@[i as int],
        ));
        i = i + 1;
    }
    s
}

/// The string made of the given characters.
pub fn chars_string(v: &[char]) -> (r: String)
    ensures
        r@ == v@,
{
    let r = sub_string(v, 0, v.len());
    assert(v@.subrange(0, v@.len() as int) =~= v@);
    r
}

/// A copy of optional text.
pub fn copy_opt(o: &Option<String>) -> (r: Option<String>)
    ensures
        opt_text(r) == opt_text(*o),
{
    match o {
        Some(s) => Some(s.as_str().to_owned()),
        None => None,
    }
}

/// A copy of a list of strings.
pub fn copy_strings(v: &Vec<String>) -> (r: Vec<String>)
    ensures
        texts(r@) == texts(v@),
{
    let mut out: Vec<String> = Vec::new();
    let mut i: usize = 0;
    while i < v.len()
        invariant
            i <= v@.len(),
            texts(out@) == texts(v@).take(i as int),
        decreases v@.len() - i,
    {
        let ghost before = out@;
        out.push(v[i].as_str().to_owned());
        proof {
            lemma_texts_push(before, out@.last());
            assert(texts(out@) =~= texts(v@).take(i + 1));
        }
        i = i + 1;
    }
    assert(texts(v@).take(v@.len() as int) =~= texts(v@));
    out
}

/// Two byte strings are the same.
pub fn bytes_eq(a: &[u8], b: &[u8]) -> (r: bool)
    ensures
        r == (a@ == b@),
{
    if a.len() != b.len() {
        return false;
    }
    let mut i: usize = 0;
    while i < a.len()
        invariant
            i <= a@.len(),
            a@.len() == b@.len(),
            forall|j: int| 0 <= j < i ==> a@[j] == b@[j],
        decreases a@.len() - i,
    {
        if a[i] != b[i] {
            return false;
        }
        i = i + 1;
    }
    assert(a@ =~= b@);
    true
}

/// Two texts are the same.
pub fn str_eq(a: &str, b: &str) -> (r: bool)
    ensures
        r == (a@ == b@),
{
    proof {
        encode_utf8_decode_utf8(a@);
        encode_utf8_decode_utf8(b@);
    }
    bytes_eq(a.as_bytes(), b.as_bytes())
}

/// `p` is the beginning of `s`.
pub open spec fn begins_with<T>(s: Seq<T>, p: Seq<T>) -> bool {
    p.len() <= s.len() && s.take(p.len() as int) == p
}

/// `data` from `at` on begins with `prefix`.
pub fn bytes_begin_at(data: &[u8], at: usize, prefix: &[u8]) -> (r: bool)
    requires
        at <= data@.len(),
    ensures
        r == begins_with(data@.skip(at as int), prefix@),
{
    let ghost rest = data@.skip(at as int);
    if data.len() - at < prefix.len() {
        return false;
    }
    let mut i: usize = 0;
    while i < prefix.len()
        invariant
            i <= prefix@.len(),
            at + prefix.len() <= data.len(),
            rest == data@.skip(at as int),
            forall|j: int| 0 <= j < i ==> rest[j] == prefix@[j],
        decreases prefix@.len() - i,
    {
        if data[at + i] != prefix[i] {
            assert(rest.take(prefix@.len() as int)[i as int] == data@[at + i]);
            return false;
        }
        assert(rest[i as int] == data@[at + i]);
        i = i + 1;
    }
    assert(rest.take(prefix@.len() as int) =~= prefix@);
    true
}

/// The bytes of `data` from `at` on.
pub fn bytes_from(data: &[u8], at: usize) -> (r: Vec<u8>)
    requires
        at <= data@.len(),
    ensures
        r@ == data@.skip(at as int),
{
    let r = bytes_between(data, at, data.len());
    assert(r@ =~= data@.skip(at as int));
    r
}

/// The bytes of `data` from `from` up to `to`.
pub fn bytes_between(data: &[u8], from: usize, to: usize) -> (r: Vec<u8>)
    requires
        from <= to <= data@.len(),
    ensures
        r@ == data@.subrange(from as int, to as int),
{
    let mut v: Vec<u8> = Vec::new();
    v.extend_from_slice(vstd::slice::slice_subrange(data, from, to));
    assert(v@ =~= data@.subrange(from as int, to as int));
    v
}

/// An owned copy of the bytes.
pub fn bytes_owned(data: &[u8]) -> (r: Vec<u8>)
    ensures
        r@ == data@,
{
    vstd::slice::slice_to_vec(data)
}

// -- UTF-8 -------------------------------------------------------------------------

/// UTF-8 encoding distributes over concatenation.
pub proof fn lemma_encode_concat(a: Seq<char>, b: Seq<char>)
    ensures
        encode_utf8(a + b) == encode_utf8(a) + encode_utf8(b),
    decreases a.len(),
{
    if a.len() == 0 {
        assert(a + b =~= b);
        assert(encode_utf8(a) =~= Seq::<u8>::empty());
        assert(encode_utf8(a) + encode_utf8(b) =~= encode_utf8(b));
    } else {
        lemma_encode_concat(a.drop_first(), b);
        assert((a + b).drop_first() =~= a.drop_first() + b);
        assert((a + b)[0] == a[0]);
        assert(encode_utf8(a + b) =~= encode_utf8(a) + encode_utf8(b));
    }
}

/// The longest prefix of `s` whose UTF-8 encoding takes at most `max` bytes.
pub open spec fn utf8_prefix(s: Seq<char>, max: nat) -> Seq<char>
    decreases s.len(),
{
    if s.len() == 0 || encode_scalar(s[0] as u32).len() > max {
        Seq::empty()
    } else {
        seq![s[0]] + utf8_prefix(
            s.drop_first(),
            (max - encode_scalar(s[0] as u32).len()) as nat,
        )
    }
}

/// The prefix fits, and no longer prefix does.
pub proof fn law_utf8_prefix_is_longest(s: Seq<char>, max: nat)
    ensures
        begins_with(s, utf8_prefix(s, max)),
        encode_utf8(utf8_prefix(s, max)).len() <= max,
        forall|k: int|
            0 <= k <= s.len() && encode_utf8(#[trigger] s.take(k)).len() <= max ==> k
                <= utf8_prefix(s, max).len(),
    decreases s.len(),
{
    let r = utf8_prefix(s, max);
    if s.len() == 0 || encode_scalar(s[0] as u32).len() > max {
        assert(s.take(0) =~= r);
        assert forall|k: int|
            0 <= k <= s.len() && encode_utf8(#[trigger] s.take(k)).len() <= max implies k
            <= r.len() by {
            if k > 0 {
                assert(s.take(k)[0] == s[0]);
                assert(encode_utf8(s.take(k)) == encode_scalar(s[0] as u32) + encode_utf8(
                    s.take(k).drop_first(),
                ));
            }
        }
    } else {
        let w = encode_scalar(s[0] as u32).len();
        let tail = s.drop_first();
        let m = (max - w) as nat;
        law_utf8_prefix_is_longest(tail, m);
        let rt = utf8_prefix(tail, m);
        assert(s.take(r.len() as int) =~= r) by {
            assert forall|i: int| 0 <= i < r.len() implies s[i] == r[i] by {
                if i > 0 {
                    assert(tail.take(rt.len() as int)[i - 1] == rt[i - 1]);
                }
            }
        }
        assert(r.drop_first() =~= rt);
        assert(r[0] == s[0]);
        assert forall|k: int|
            0 <= k <= s.len() && encode_utf8(#[trigger] s.take(k)).len() <= max implies k
            <= r.len() by {
            if k > 0 {
                assert(s.take(k)[0] == s[0]);
                assert(s.take(k).drop_first() =~= tail.take(k - 1));
                assert(encode_utf8(tail.take(k - 1)).len() <= m);
            }
        }
    }
}

/// The end of a prefix's encoding is a character boundary.
proof fn lemma_prefix_boundary(a: Seq<u8>, b: Seq<u8>)
    requires
        valid_utf8(a),
        valid_utf8(b),
    ensures
        is_char_boundary(a + b, a.len() as int),
    decreases a.len(),
{
    valid_utf8_concat(a, b);
    if a.len() > 0 {
        let k = length_of_first_scalar(a);
        assert(length_of_first_scalar(a + b) == k);
        assert(pop_first_scalar(a + b) =~= pop_first_scalar(a) + b);
        lemma_prefix_boundary(pop_first_scalar(a), b);
        assert(pop_first_scalar(a).len() == a.len() - k);
    }
}

/// The greatest character boundary within `max` bytes ends the longest fitting
/// prefix.
proof fn lemma_boundary_is_prefix(s: Seq<char>, max: nat, end: int)
    requires
        0 <= end <= max < encode_utf8(s).len(),
        is_char_boundary(encode_utf8(s), end),
        forall|j: int| end < j <= max ==> !is_char_boundary(encode_utf8(s), j),
    ensures
        encode_utf8(s).subrange(0, end) == encode_utf8(utf8_prefix(s, max)),
{
    let bytes = encode_utf8(s);
    encode_utf8_valid_utf8(s);
    encode_utf8_decode_utf8(s);
    let p = utf8_prefix(s, max);
    law_utf8_prefix_is_longest(s, max);
    let rest = s.skip(p.len() as int);
    assert(s =~= p + rest);
    lemma_encode_concat(p, rest);
    encode_utf8_valid_utf8(p);
    encode_utf8_valid_utf8(rest);
    lemma_prefix_boundary(encode_utf8(p), encode_utf8(rest));
    let l = encode_utf8(p).len() as int;
    assert(l <= end);
    // the other way round: what ends at `end` is a fitting prefix
    let head = bytes.subrange(0, end);
    let tail = bytes.subrange(end, bytes.len() as int);
    valid_utf8_split(bytes, end);
    decode_utf8_split(bytes, end);
    decode_utf8_encode_utf8(head);
    let q = decode_utf8(head);
    assert(s == q + decode_utf8(tail));
    assert(s.take(q.len() as int) =~= q);
    assert(encode_utf8(s.take(q.len() as int)).len() == end);
    assert(q.len() <= p.len());
    assert(q =~= p.take(q.len() as int));
    let more = p.skip(q.len() as int);
    assert(p =~= q + more);
    lemma_encode_concat(q, more);
    assert(end <= l);
    assert(bytes.subrange(0, end) =~= encode_utf8(p));
}

/// The longest prefix of `s` within `max_bytes` bytes.
pub fn fitting_prefix(s: &str, max_bytes: usize) -> (r: &str)
    ensures
        r@ == utf8_prefix(s@, max_bytes as nat),
{
    proof {
        encode_utf8_valid_utf8(s@);
        is_char_boundary_start_end_of_seq(encode_utf8(s@));
        law_utf8_prefix_is_longest(s@, max_bytes as nat);
    }
    if s.as_bytes().len() <= max_bytes {
        proof {
            assert(s@.take(s@.len() as int) =~= s@);
            assert(utf8_prefix(s@, max_bytes as nat) =~= s@);
        }
        return s;
    }
    let mut end = max_bytes;
    while end > 0 && !s.is_char_boundary(end)
        invariant
            end <= max_bytes < encode_utf8(s@).len(),
            forall|j: int| end < j <= max_bytes ==> !is_char_boundary(encode_utf8(s@), j),
        decreases end,
    {
        end = end - 1;
    }
    let (head, _) = s.split_at(end);
    proof {
        lemma_boundary_is_prefix(s@, max_bytes as nat, end as int);
        encode_utf8_decode_utf8(head@);
        encode_utf8_decode_utf8(utf8_prefix(s@, max_bytes as nat));
    }
    head
}

// -- trimming --------------------------------------------------------------------

/// `s` without leading white space.
pub open spec fn trimmed_start(s: Seq<char>) -> Seq<char>
    decreases s.len(),
{
    if s.len() > 0 && is_white(s[0]) {
        trimmed_start(s.skip(1))
    } else {
        s
    }
}

/// `s` without trailing white space.
pub open spec fn trimmed_end(s: Seq<char>) -> Seq<char>
    decreases s.len(),
{
    if s.len() > 0 && is_white(s.last()) {
        trimmed_end(s.drop_last())
    } else {
        s
    }
}

/// `s` without leading and trailing white space.
pub open spec fn trimmed(s: Seq<char>) -> Seq<char> {
    trimmed_end(trimmed_start(s))
}

/// Where the text without trailing white space ends, between `from` and `to`.
pub fn trim_end_at(v: &[char], from: usize, to: usize) -> (r: usize)
    requires
        from <= to <= v@.len(),
    ensures
        from <= r <= to,
        trimmed_end(v@.subrange(from as int, to as int)) == v@.subrange(from as int, r as int),
{
    let mut e: usize = to;
    while e > from && v[e - 1].is_whitespace()
        invariant
            from <= e <= to <= v@.len(),
            trimmed_end(v@.subrange(from as int, to as int)) == trimmed_end(
                v@.subrange(from as int, e as int),
            ),
        decreases e,
    {
        assert(v@.subrange(from as int, e as int).drop_last() =~= v@.subrange(
            from as int,
            e - 1,
        ));
        e = e - 1;
    }
    e
}

/// Where the text without leading white space starts, between `from` and `to`.
pub fn trim_start_at(v: &[char], from: usize, to: usize) -> (r: usize)
    requires
        from <= to <= v@.len(),
    ensures
        from <= r <= to,
        trimmed_start(v@.subrange(from as int, to as int)) == v@.subrange(r as int, to as int),
{
    let mut b: usize = from;
    while b < to && v[b].is_whitespace()
        invariant
            from <= b <= to <= v@.len(),
            trimmed_start(v@.subrange(from as int, to as int)) == trimmed_start(
                v@.subrange(b as int, to as int),
            ),
        decreases to - b,
    {
        assert(v@.subrange(b as int, to as int).skip(1) =~= v@.subrange(b + 1, to as int));
        b = b + 1;
    }
    b
}

/// The text without leading and trailing white space.
pub fn trim_string(s: &str) -> (r: String)
    ensures
        r@ == trimmed(s@),
{
    let v = str_chars(s);
    assert(v@.subrange(0, v@.len() as int) =~= v@);
    let b = trim_start_at(&v, 0, v.len());
    let e = trim_end_at(&v, b, v.len());
    sub_string(&v, b, e)
}

/// The text without trailing white space.
pub fn trim_end_string(s: &str) -> (r: String)
    ensures
        r@ == trimmed_end(s@),
{
    let v = str_chars(s);
    assert(v@.subrange(0, v@.len() as int) =~= v@);
    let e = trim_end_at(&v, 0, v.len());
    sub_string(&v, 0, e)
}

// -- searching and joining -------------------------------------------------------

/// Index of the first occurrence of `x`, or the length when there is none.
pub open spec fn first_index<T>(s: Seq<T>, x: T) -> int
    decreases s.len(),
{
    if s.len() == 0 || s[0] == x {
        0
    } else {
        1 + first_index(s.skip(1), x)
    }
}

/// The index found is within the sequence exactly when the element occurs, and
/// nothing before it equals the element.
pub proof fn lemma_first_index<T>(s: Seq<T>, x: T)
    ensures
        0 <= first_index(s, x) <= s.len(),
        first_index(s, x) < s.len() ==> s[first_index(s, x)] == x,
        forall|i: int| 0 <= i < first_index(s, x) ==> s[i] != x,
    decreases s.len(),
{
    if s.len() > 0 && s[0] != x {
        lemma_first_index(s.skip(1), x);
        assert forall|i: int| 0 <= i < first_index(s, x) implies s[i] != x by {
            if i > 0 {
                assert(s[i] == s.skip(1)[i - 1]);
            }
        }
    }
}

/// An index with nothing equal before it, and equality or the end at it, is the
/// first index.
pub proof fn lemma_first_index_unique<T>(s: Seq<T>, x: T, k: int)
    requires
        0 <= k <= s.len(),
        forall|i: int| 0 <= i < k ==> s[i] != x,
        k < s.len() ==> s[k] == x,
    ensures
        first_index(s, x) == k,
{
    lemma_first_index(s, x);
    let f = first_index(s, x);
    if f < k {
        assert(s[f] != x);
    } else if k < f {
        assert(s[k] != x);
    }
}

/// Index of the first `x` at or after `from`, or the length.
pub fn find_byte_from(data: &[u8], from: usize, x: u8) -> (r: usize)
    requires
        from <= data@.len(),
    ensures
        from <= r <= data@.len(),
        r == from + first_index(data@.skip(from as int), x),
        r < data@.len() ==> data@[r as int] == x,
        forall|i: int| from <= i < r ==> data@[i] != x,
{
    let mut i: usize = from;
    while i < data.len() && data[i] != x
        invariant
            from <= i <= data@.len(),
            forall|j: int| from <= j < i ==> data@[j] != x,
        decreases data@.len() - i,
    {
        i = i + 1;
    }
    proof {
        lemma_first_index_unique(data@.skip(from as int), x, i - from);
    }
    i
}

/// Index of the first `x` at or after `from`, or the length.
pub fn find_char_from(v: &[char], from: usize, x: char) -> (r: usize)
    requires
        from <= v@.len(),
    ensures
        from <= r <= v@.len(),
        r == from + first_index(v@.skip(from as int), x),
        r < v@.len() ==> v@[r as int] == x,
        forall|i: int| from <= i < r ==> v@[i] != x,
{
    let mut i: usize = from;
    while i < v.len() && v[i] != x
        invariant
            from <= i <= v@.len(),
            forall|j: int| from <= j < i ==> v@[j] != x,
        decreases v@.len() - i,
    {
        i = i + 1;
    }
    proof {
        lemma_first_index_unique(v@.skip(from as int), x, i - from);
    }
    i
}

/// The parts with the separator between neighbours.
pub open spec fn joined(parts: Seq<Seq<char>>, sep: Seq<char>) -> Seq<char>
    decreases parts.len(),
{
    if parts.len() == 0 {
        Seq::empty()
    } else if parts.len() == 1 {
        parts[0]
    } else {
        joined(parts.drop_last(), sep) + sep + parts.last()
    }
}

/// The parts with the separator between neighbours.
pub fn join_strings(parts: &Vec<String>, sep: &str) -> (r: String)
    ensures
        r@ == joined(texts(parts@), sep@),
{
    let mut s = String::new();
    let mut i: usize = 0;
    while i < parts.len()
        invariant
            i <= parts@.len(),
            s@ == joined(texts(parts@).take(i as int), sep@),
        decreases parts@.len() - i,
    {
        if i > 0 {
            s.append(sep);
        }
        s.append(parts[i].as_str());
        proof {
            let t = texts(parts@);
            assert(t.take(i + 1).drop_last() =~= t.take(i as int));
            assert(t.take(i + 1).last() == parts@[i as int]@);
            if i == 0 {
                assert(s@ =~= joined(t.take(1), sep@));
            }
        }
        i = i + 1;
    }
    assert(texts(parts@).take(parts@.len() as int) =~= texts(parts@));
    s
}

} // verus!
