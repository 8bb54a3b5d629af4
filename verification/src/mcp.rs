//! The tools `exec`, `read_file` and `write_file` that the remote shell is offered
//! as: their requests and what they answer.

use vstd::prelude::*;
use vstd::utf8::*;

use crate::client::{download_request, upload_request, RunReport};
use crate::proto::ExecRequest;
use crate::text::{bytes_between, lossy_string, push_int, push_nat, str_chars};

verus! {

/// Default per-call timeout for tool-driven executions.
pub const DEFAULT_TIMEOUT_MS: u64 = 600_000;

/// Each captured stream is capped at this size in the tool result; the client is
/// not the place to relay gigabytes.
pub const MAX_TOOL_OUTPUT: usize = 64 * 1024;

// -- requests ---------------------------------------------------------------------------------

/// The request of the `exec` tool: a timeout of zero disables it, none means the
/// default.
pub fn exec_request(
    host: String,
    command: String,
    cwd: Option<String>,
    timeout_ms: Option<u64>,
    session: Option<String>,
) -> (r: ExecRequest)
    ensures
        r@ == (crate::proto::RequestView {
            host: host@,
            command: command@,
            args: Seq::empty(),
            cwd: crate::text::opt_text(cwd),
            state: None,
            session: crate::text::opt_text(session),
            timeout_ms: Some(
                (match timeout_ms {
                    Some(t) => t,
                    None => DEFAULT_TIMEOUT_MS,
                }),
            ),
        }),
{
    let args: Vec<String> = Vec::new();
    assert(crate::text::texts(args@) =~= Seq::<Seq<char>>::empty());
    ExecRequest {
        host,
        command,
        args,
        cwd,
        state: None,
        session,
        timeout_ms: Some(
            match timeout_ms {
                Some(t) => t,
                None => DEFAULT_TIMEOUT_MS,
            },
        ),
    }
}

/// The request of the `read_file` tool.
pub fn read_file_request(host: String, path: &str, session: Option<String>) -> (r: ExecRequest)
    ensures
        r@ == (crate::proto::RequestView {
            session: crate::text::opt_text(session),
            ..crate::client::download(host@, path@, None, Some(DEFAULT_TIMEOUT_MS))
        }),
{
    let mut r = download_request(host, path, None, Some(DEFAULT_TIMEOUT_MS));
    r.session = session;
    r
}

/// The request of the `write_file` tool; the content is its stdin.
pub fn write_file_request(host: String, path: &str, session: Option<String>) -> (r: ExecRequest)
    ensures
        r@ == (crate::proto::RequestView {
            session: crate::text::opt_text(session),
            ..crate::client::upload(host@, path@, None, Some(DEFAULT_TIMEOUT_MS))
        }),
{
    let mut r = upload_request(host, path, None, Some(DEFAULT_TIMEOUT_MS));
    r.session = session;
    r
}

// -- answers ----------------------------------------------------------------------------------

/// A text that ends with a newline.
pub open spec fn with_newline(s: Seq<char>) -> Seq<char> {
    if s.len() > 0 && s.last() == '\n' {
        s
    } else {
        s.push('\n')
    }
}

/// One stream as shown in an answer: cut with a notice beyond the cap.
pub open spec fn clipped(bytes: Seq<u8>) -> Seq<char> {
    if bytes.len() <= MAX_TOOL_OUTPUT {
        crate::text::lossy_text(bytes)
    } else {
        with_newline(crate::text::lossy_text(bytes.take(MAX_TOOL_OUTPUT as int)))
            + "...[truncated, "@ + crate::text::dec_nat(bytes.len()) + " bytes total]\n"@
    }
}

/// What is left of a text cut after `max` bytes of its encoding: the characters
/// that fit, and one U+FFFD where the cut falls inside a character.
pub open spec fn cut_text(s: Seq<char>, max: nat) -> Seq<char> {
    let fits = crate::text::utf8_prefix(s, max);
    if encode_utf8(s).len() <= max {
        s
    } else if encode_utf8(fits).len() == max {
        fits
    } else {
        fits.push('\u{fffd}')
    }
}

/// One stream of valid UTF-8 as shown in an answer.
pub open spec fn clipped_text(s: Seq<char>) -> Seq<char> {
    if encode_utf8(s).len() <= MAX_TOOL_OUTPUT {
        s
    } else {
        with_newline(cut_text(s, MAX_TOOL_OUTPUT as nat)) + "...[truncated, "@
            + crate::text::dec_nat(encode_utf8(s).len()) + " bytes total]\n"@
    }
}

/// Where the encoding of a text is cut: behind a character, or inside the next.
proof fn lemma_cut(s: Seq<char>, max: nat)
    requires
        max < encode_utf8(s).len(),
    ensures
        ({
            let fits = crate::text::utf8_prefix(s, max);
            let head = encode_utf8(s).take(max as int);
            ||| head == encode_utf8(fits) && encode_utf8(fits).len() == max
            ||| encode_utf8(fits).len() < max && fits.len() < s.len() && crate::text::breaks_off(
                head,
                fits,
                s[fits.len() as int],
            )
        }),
{
    let fits = crate::text::utf8_prefix(s, max);
    let n = fits.len() as int;
    crate::text::law_utf8_prefix_is_longest(s, max);
    let rest = s.skip(n);
    assert(s =~= fits + rest);
    crate::text::lemma_encode_concat(fits, rest);
    let head = encode_utf8(s).take(max as int);
    let done = encode_utf8(fits);
    if done.len() == max {
        assert(head =~= done);
    } else {
        if rest.len() == 0 {
            assert(fits =~= s);
        }
        let c = s[n];
        let code = encode_scalar(c as u32);
        assert(rest[0] == c);
        assert(encode_utf8(rest) == code + encode_utf8(rest.drop_first()));
        assert(s.take(n + 1) =~= fits + seq![c]);
        crate::text::lemma_encode_concat(fits, seq![c]);
        assert(encode_utf8(seq![c]) =~= code) by {
            assert(seq![c].drop_first() =~= Seq::<char>::empty());
            assert(encode_utf8(seq![c]) == code + encode_utf8(seq![c].drop_first()));
            assert(code + Seq::<u8>::empty() =~= code);
        }
        assert(encode_utf8(s.take(n + 1)).len() > max);
        let k = max - done.len();
        assert(head =~= done + code.take(k));
    }
}

fn ends_with_newline(s: &str) -> (r: bool)
    ensures
        r == (s@.len() > 0 && s@.last() == '\n'),
{
    let v = str_chars(s);
    v.len() > 0 && v[v.len() - 1] == '\n'
}

/// Put the text of a stream beyond the cap together: what is shown of it, and
/// how long it is.
pub fn clip_notice(shown: String, total: usize) -> (r: String)
    ensures
        r@ == with_newline(shown@) + "...[truncated, "@ + crate::text::dec_nat(total as nat)
            + " bytes total]\n"@,
{
    let mut s = shown;
    if !ends_with_newline(s.as_str()) {
        s.push('\n');
    }
    s.append("...[truncated, ");
    push_nat(&mut s, total as u64);
    s.append(" bytes total]\n");
    s
}

/// Render one stream, truncating with a notice beyond the cap. Cutting inside
/// a UTF-8 sequence only costs one replacement character at the boundary.
pub fn clip(bytes: &[u8]) -> (r: String)
    ensures
        r@ == clipped(bytes@),
        valid_utf8(bytes@) ==> r@ == clipped_text(decode_utf8(bytes@)),
{
    proof {
        if valid_utf8(bytes@) {
            decode_utf8_encode_utf8(bytes@);
        }
    }
    if bytes.len() <= MAX_TOOL_OUTPUT {
        return lossy_string(bytes);
    }
    let head = bytes_between(bytes, 0, MAX_TOOL_OUTPUT);
    assert(head@ =~= bytes@.take(MAX_TOOL_OUTPUT as int));
    proof {
        if valid_utf8(bytes@) {
            let s = decode_utf8(bytes@);
            let fits = crate::text::utf8_prefix(s, MAX_TOOL_OUTPUT as nat);
            lemma_cut(s, MAX_TOOL_OUTPUT as nat);
            encode_utf8_valid_utf8(fits);
            encode_utf8_decode_utf8(fits);
        }
    }
    clip_notice(lossy_string(&head), bytes.len())
}

/// Failure rendering shared by the file tools: `None` means success.
pub open spec fn file_failure(
    report: crate::client::RunReportView,
    stdout: Seq<u8>,
    stderr: Seq<u8>,
) -> Option<Seq<char>> {
    match report.error {
        Some(e) => Some("error: "@ + e),
        None => if report.code != 0 {
            Some(
                "exit_code: "@ + crate::text::dec_int(report.code as int)
                    + "\n--- stdout ---\n"@ + clipped(stdout) + "--- stderr ---\n"@ + clipped(
                    stderr,
                ),
            )
        } else {
            None
        },
    }
}

/// Failure rendering shared by the file tools: `None` means success.
pub fn file_result(report: &RunReport, stdout: &[u8], stderr: &[u8]) -> (r: Option<String>)
    ensures
        crate::text::opt_text(r) == file_failure(report@, stdout@, stderr@),
{
    if let Some(e) = &report.error {
        let mut s = "error: ".to_owned();
        s.append(e.as_str());
        return Some(s);
    }
    if report.code == 0 {
        return None;
    }
    let mut s = "exit_code: ".to_owned();
    push_int(&mut s, report.code as i64);
    s.append("\n--- stdout ---\n");
    s.append(clip(stdout).as_str());
    s.append("--- stderr ---\n");
    s.append(clip(stderr).as_str());
    Some(s)
}

/// What a tool answers.
#[derive(Debug)]
pub enum Answer {
    Success(String),
    Failure(String),
}

/// The answer of the `read_file` tool.
pub fn read_file_answer(report: &RunReport, stdout: &[u8], stderr: &[u8]) -> (r: Answer)
    ensures
        match file_failure(report@, stdout@, stderr@) {
            Some(e) => r matches Answer::Failure(s) && s@ == e,
            None => r matches Answer::Success(s) && s@ == clipped(stdout@),
        },
{
    match file_result(report, stdout, stderr) {
        Some(e) => Answer::Failure(e),
        None => Answer::Success(clip(stdout)),
    }
}

/// The answer of the `write_file` tool for content of the given size.
pub fn write_file_answer(report: &RunReport, stderr: &[u8], path: &str, len: usize) -> (r: Answer)
    ensures
        match file_failure(report@, Seq::empty(), stderr@) {
            Some(e) => r matches Answer::Failure(s) && s@ == e,
            None => r matches Answer::Success(s) && s@ == "wrote "@ + path@ + " ("@
                + crate::text::dec_nat(len as nat) + " bytes)"@,
        },
{
    let none: Vec<u8> = Vec::new();
    assert(none@ =~= Seq::<u8>::empty());
    match file_result(report, &none, stderr) {
        Some(e) => Answer::Failure(e),
        None => {
            let mut s = "wrote ".to_owned();
            s.append(path);
            s.append(" (");
            push_nat(&mut s, len as u64);
            s.append(" bytes)");
            Answer::Success(s)
        },
    }
}

/// The lines in front of the streams.
pub open spec fn report_head(report: crate::client::RunReportView) -> Seq<char> {
    "exit_code: "@ + crate::text::dec_int(report.code as int) + "\n"@ + (match report.error {
        Some(e) => "error: "@ + e + "\n"@,
        None => Seq::empty(),
    }) + if report.timed_out {
        "timed_out: true\n"@
    } else {
        Seq::empty()
    }
}

/// A text so far, followed by one stream; a stream that is not empty ends its
/// last line.
pub open spec fn stream_added(out: Seq<char>, title: Seq<char>, bytes: Seq<u8>) -> Seq<char> {
    let s = out + title + clipped(bytes);
    if bytes.len() > 0 {
        with_newline(s)
    } else {
        s
    }
}

/// The answer of the `exec` tool.
pub open spec fn report_text(
    report: crate::client::RunReportView,
    stdout: Seq<u8>,
    stderr: Seq<u8>,
) -> Seq<char> {
    stream_added(
        stream_added(report_head(report), "--- stdout ---\n"@, stdout),
        "--- stderr ---\n"@,
        stderr,
    )
}

fn add_stream(out: &mut String, title: &str, bytes: &[u8])
    ensures
        final(out)@ == stream_added(old(out)@, title@, bytes@),
{
    out.append(title);
    out.append(clip(bytes).as_str());
    if bytes.len() > 0 && !ends_with_newline(out.as_str()) {
        out.push('\n');
    }
}

/// The answer of the `exec` tool.
pub fn format_report(report: &RunReport, stdout: &[u8], stderr: &[u8]) -> (r: String)
    ensures
        r@ == report_text(report@, stdout@, stderr@),
{
    let mut out = "exit_code: ".to_owned();
    push_int(&mut out, report.code as i64);
    out.append("\n");
    let mut error = String::new();
    assert(error@ =~= Seq::<char>::empty());
    if let Some(e) = &report.error {
        error = "error: ".to_owned();
        error.append(e.as_str());
        error.append("\n");
    }
    out.append(error.as_str());
    let mut timeout = String::new();
    assert(timeout@ =~= Seq::<char>::empty());
    if report.timed_out {
        timeout = "timed_out: true\n".to_owned();
    }
    out.append(timeout.as_str());
    add_stream(&mut out, "--- stdout ---\n", stdout);
    add_stream(&mut out, "--- stderr ---\n", stderr);
    out
}

} // verus!
