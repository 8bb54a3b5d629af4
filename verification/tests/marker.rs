use shell_proxy::marker::{decode_cwd, decode_pgid, MarkerFilter, MAX_B64_LEN};
use shell_proxy::script::{MARKER_PREFIX, MARKER_SUFFIX, PGID_PREFIX};

fn marker(nonce: &str, cwd: &str) -> Vec<u8> {
    let b64 = base64_simd::STANDARD.encode_to_string(cwd.as_bytes());
    format!("{MARKER_PREFIX}{nonce}:{b64}{MARKER_SUFFIX}").into_bytes()
}

fn pgid_msg(nonce: &str, pgid: u32) -> Vec<u8> {
    format!("{PGID_PREFIX}{nonce}:{pgid}{MARKER_SUFFIX}").into_bytes()
}

#[test]
fn passes_plain_data_through() {
    let mut f = MarkerFilter::new("n");
    assert_eq!(f.push(b"hello"), b"hello");
    let (rest, cwd) = f.finish();
    assert_eq!(rest, b"");
    assert!(cwd.is_none());
}

#[test]
fn strips_marker_at_end() {
    let mut f = MarkerFilter::new("n");
    let mut data = b"hi".to_vec();
    data.extend(marker("n", "/tmp"));
    assert_eq!(f.push(&data), b"hi");
    let (rest, cwd) = f.finish();
    assert_eq!(rest, b"");
    assert_eq!(cwd.as_deref(), Some("/tmp"));
}

#[test]
fn marker_split_across_chunks() {
    let m = marker("n", "/var/log");
    let mut f = MarkerFilter::new("n");
    assert_eq!(f.push(b"abc"), b"abc");
    assert_eq!(f.push(&m[..5]), b"");
    assert_eq!(f.push(&m[5..]), b"");
    let (rest, cwd) = f.finish();
    assert_eq!(rest, b"");
    assert_eq!(cwd.as_deref(), Some("/var/log"));
}

#[test]
fn data_that_looks_like_partial_marker_is_kept() {
    let mut f = MarkerFilter::new("n");
    assert_eq!(f.push(b"data\x1cSPM:n"), b"data");
    // '!' is neither base64 nor the terminator: the held prefix is data.
    assert_eq!(f.push(b":more!"), b"\x1cSPM:n:more!");
    let (rest, cwd) = f.finish();
    assert_eq!(rest, b"");
    assert!(cwd.is_none());
}

#[test]
fn different_nonce_marker_is_data() {
    let mut f = MarkerFilter::new("n1");
    let mut data = b"out".to_vec();
    let foreign = marker("othernonce", "/x");
    data.extend_from_slice(&foreign);
    // Everything except the trailing 0x1c (a possible partial prefix) is
    // emitted immediately; finish() flushes the held terminator.
    let mut expected = b"out".to_vec();
    expected.extend_from_slice(&foreign[..foreign.len() - 1]);
    assert_eq!(f.push(&data), expected);
    let (rest, cwd) = f.finish();
    assert_eq!(rest, b"\x1c");
    assert!(cwd.is_none());
}

#[test]
fn binary_data_with_0x1c_passes_through() {
    let mut f = MarkerFilter::new("n");
    let data: Vec<u8> = vec![0, 0x1c, 255, 0x1c, 0];
    assert_eq!(f.push(&data), data);
    let (rest, cwd) = f.finish();
    assert_eq!(rest, b"");
    assert!(cwd.is_none());
}

#[test]
fn long_base64_looking_run_is_not_held_forever() {
    let mut f = MarkerFilter::new("n");
    let mut chunk = b"\x1cSPM:n:".to_vec();
    chunk.extend(std::iter::repeat_n(b'A', MAX_B64_LEN + 100));
    let out = f.push(&chunk);
    assert_eq!(out.len(), chunk.len());
    let (rest, cwd) = f.finish();
    assert_eq!(rest, b"");
    assert!(cwd.is_none());
}

#[test]
fn data_after_marker_is_dropped() {
    let mut f = MarkerFilter::new("n");
    let mut data = b"ok".to_vec();
    data.extend(marker("n", "/root"));
    data.extend(b"junk");
    assert_eq!(f.push(&data), b"ok");
    assert_eq!(f.push(b"more"), b"");
    let (rest, cwd) = f.finish();
    assert_eq!(rest, b"");
    assert_eq!(cwd.as_deref(), Some("/root"));
}

#[test]
fn extracts_pgid_and_forwards_surroundings() {
    let mut f = MarkerFilter::new("n");
    let mut data = b"pre".to_vec();
    data.extend(pgid_msg("n", 1234));
    data.extend_from_slice(b"post");
    assert_eq!(f.push(&data), b"prepost");
    assert_eq!(f.pgid(), Some(1234));
    let (rest, cwd) = f.finish();
    assert_eq!(rest, b"");
    assert!(cwd.is_none());
}

#[test]
fn pgid_split_across_chunks() {
    let m = pgid_msg("n", 42);
    let mut f = MarkerFilter::new("n");
    assert_eq!(f.push(&m[..7]), b"");
    assert_eq!(f.pgid(), None);
    assert_eq!(f.push(&m[7..]), b"");
    assert_eq!(f.pgid(), Some(42));
}

#[test]
fn pgid_with_foreign_nonce_is_data() {
    let mut f = MarkerFilter::new("n1");
    let msg = pgid_msg("other", 7);
    let mut data = b"x".to_vec();
    data.extend(&msg);
    // everything is emitted except the trailing 0x1c, which stays held as
    // a possible partial header
    let mut expected = b"x".to_vec();
    expected.extend_from_slice(&msg[..msg.len() - 1]);
    assert_eq!(f.push(&data), expected);
    assert_eq!(f.pgid(), None);
    let (rest, _) = f.finish();
    assert_eq!(rest, b"\x1c");
}

#[test]
fn every_cut_of_a_stream_is_filtered_alike() {
    let mut data = b"a\x1cb\x1cSP".to_vec();
    data.extend(pgid_msg("n", 77));
    data.extend_from_slice(b"\x1cSPM:n:!c");
    data.extend(marker("n", "/home/me"));
    for cut in 0..=data.len() {
        let mut f = MarkerFilter::new("n");
        let mut out = f.push(&data[..cut]);
        out.extend(f.push(&data[cut..]));
        assert_eq!(out, b"a\x1cb\x1cSP\x1cSPM:n:!c");
        assert_eq!(f.pgid(), Some(77));
        let (rest, cwd) = f.finish();
        assert!(rest.is_empty());
        assert_eq!(cwd.as_deref(), Some("/home/me"));
    }
}

#[test]
fn bodies_are_read_or_refused() {
    assert_eq!(decode_cwd(b"L3RtcA==").as_deref(), Some("/tmp"));
    assert_eq!(decode_cwd(b"L3Rtc"), None); // bad length
    assert_eq!(decode_cwd(b"/w=="), None); // not UTF-8
    assert_eq!(decode_pgid(b"0042"), Some(42));
    assert_eq!(decode_pgid(b""), None);
    assert_eq!(decode_pgid(b"4294967296"), None);
    assert_eq!(decode_pgid(b"4294967295"), Some(u32::MAX));
}

#[test]
fn bodies_over_the_bound_are_data_however_they_are_cut() {
    let mut long_cwd = b"\x1cSPM:n:".to_vec();
    long_cwd.extend(vec![b'A'; MAX_B64_LEN + 1]);
    let long_pgid = b"\x1cSPPG:n:11111111111111111".to_vec();
    for body in [long_cwd, long_pgid] {
        let mut stream = body.clone();
        stream.push(0x1c);
        for cut in [0, 1, 7, body.len() - 1, body.len(), stream.len()] {
            let mut f = MarkerFilter::new("n");
            let mut out = f.push(&stream[..cut]);
            out.extend(f.push(&stream[cut..]));
            assert_eq!(out, body);
            assert_eq!(f.pgid(), None);
            assert_eq!(f.finish(), (b"\x1c".to_vec(), None));
        }
    }
    // At the bound it is a message.
    let mut f = MarkerFilter::new("n");
    let mut stream = b"\x1cSPM:n:".to_vec();
    stream.extend(vec![b'A'; MAX_B64_LEN]);
    stream.push(0x1c);
    assert_eq!(f.push(&stream), b"");
    let (rest, cwd) = f.finish();
    assert_eq!(rest, b"");
    assert_eq!(cwd, Some("\0".repeat(MAX_B64_LEN / 4 * 3)));
}

#[test]
fn a_directory_needs_a_whole_message() {
    let mut stream = pgid_msg("n", 3);
    stream.extend_from_slice(b"data");
    stream.extend(pgid_msg("n", 4));
    let whole = marker("n", "/d");
    for end in 0..whole.len() {
        let mut f = MarkerFilter::new("n");
        let mut out = f.push(&stream);
        out.extend(f.push(&whole[..end]));
        let (rest, cwd) = f.finish();
        out.extend(rest);
        assert_eq!(cwd, None);
        assert_eq!(out, [b"data", &whole[..end]].concat());
    }
    let mut f = MarkerFilter::new("n");
    stream.extend(whole);
    assert_eq!(f.push(&stream), b"data");
    assert_eq!(f.finish(), (Vec::new(), Some("/d".to_owned())));
}

#[test]
fn any_directory_survives_the_message() {
    for dir in ["", "/", "/a", "/ab", "/abc", "/\u{1c}/\u{4f60}\u{597d}\n", "~?>"] {
        let mut data = b"x\x1cSPM:n\x1c\x1cSPPG:\x1c".to_vec();
        let plain = data.clone();
        data.extend(marker("n", dir));
        data.extend_from_slice(b"\x1cSPPG:n:5\x1ctrailing");
        let mut f = MarkerFilter::new("n");
        assert_eq!(f.push(&data), plain);
        assert_eq!(f.pgid(), None);
        let (rest, cwd) = f.finish();
        assert!(rest.is_empty());
        assert_eq!(cwd.as_deref(), Some(dir));
    }
}

#[test]
fn only_canonical_base64_is_a_directory() {
    assert_eq!(decode_cwd(b"").as_deref(), Some(""));
    assert_eq!(decode_cwd(b"YQ==").as_deref(), Some("a"));
    assert_eq!(decode_cwd(b"YR=="), None); // unused bits set
    assert_eq!(decode_cwd(b"YWI=").as_deref(), Some("ab"));
    assert_eq!(decode_cwd(b"YWJ="), None);
    assert_eq!(decode_cwd(b"YWJj").as_deref(), Some("abc"));
    assert_eq!(decode_cwd(b"Y=Jj"), None);
    assert_eq!(decode_cwd(b"===="), None);
    assert_eq!(decode_cwd(b"YWI"), None);
    assert_eq!(decode_cwd(b"YWJ-"), None);
    assert_eq!(decode_cwd(b"fj8+Lw==").as_deref(), Some("~?>/"));
}

#[test]
fn what_is_held_back_is_bounded() {
    let mut f = MarkerFilter::new("n");
    let mut data = b"\x1cSPM:n:".to_vec();
    data.extend(vec![b'A'; MAX_B64_LEN]);
    assert_eq!(f.push(&data), b"");
    assert_eq!(f.push(b"A").len(), data.len() + 1);
    let mut f = MarkerFilter::new("n");
    assert_eq!(f.push(b"\x1cSPPG:n:1111111111111111"), b"");
    assert_eq!(f.push(b"1"), b"\x1cSPPG:n:11111111111111111");
}
