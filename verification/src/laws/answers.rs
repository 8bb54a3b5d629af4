//! Tool answers: what a command printed and how it ended is what the caller of a
//! tool reads.

use vstd::prelude::*;
use vstd::utf8::*;

use crate::client::RunReport;
use crate::mcp::Answer;
use crate::text::dec_int;

verus! {

/// A stream as it stands in an answer: what is shown of it, with its last line
/// ended.
pub open spec fn ended(shown: Seq<char>, stream: Seq<u8>) -> Seq<char> {
    if stream.len() == 0 || shown.len() == 0 || shown.last() == '\n' {
        shown
    } else {
        shown + seq!['\n']
    }
}

/// The answer of the `exec` tool: the exit code, why it failed and that it timed out
/// where that is so, then behind its title all that is shown of stdout, then behind
/// its title all that is shown of stderr. What is shown of a stream depends on that
/// stream alone.
pub proof fn law_exec_answers_hold_both_streams(
    report: &RunReport,
    stdout: &[u8],
    stderr: &[u8],
    r: String,
    out: String,
    err: String,
)
    requires
        call_ensures(crate::mcp::format_report, (report, stdout, stderr), r),
        call_ensures(crate::mcp::clip, (stdout,), out),
        call_ensures(crate::mcp::clip, (stderr,), err),
    ensures
        r@ == "exit_code: "@ + dec_int(report.code as int) + "\n"@ + (match report.error {
            Some(e) => "error: "@ + e@ + "\n"@,
            None => Seq::empty(),
        }) + (if report.timed_out {
            "timed_out: true\n"@
        } else {
            Seq::empty()
        }) + "--- stdout ---\n"@ + ended(out@, stdout@) + "--- stderr ---\n"@ + ended(
            err@,
            stderr@,
        ),
{
    reveal_strlit("--- stdout ---\n");
    reveal_strlit("--- stderr ---\n");
    let head = "exit_code: "@ + dec_int(report.code as int) + "\n"@ + (match report.error {
        Some(e) => "error: "@ + e@ + "\n"@,
        None => Seq::empty(),
    }) + (if report.timed_out {
        "timed_out: true\n"@
    } else {
        Seq::empty()
    });
    assert(head == crate::mcp::report_head(report@));
    lemma_stream(head, "--- stdout ---\n"@, stdout@);
    lemma_stream(
        head + "--- stdout ---\n"@ + ended(out@, stdout@),
        "--- stderr ---\n"@,
        stderr@,
    );
}

proof fn lemma_stream(before: Seq<char>, title: Seq<char>, bytes: Seq<u8>)
    requires
        title.len() > 0,
        title.last() == '\n',
    ensures
        crate::mcp::stream_added(before, title, bytes) == before + title + ended(
            crate::mcp::clipped(bytes),
            bytes,
        ),
{
    let shown = crate::mcp::clipped(bytes);
    let s = before + title + shown;
    if shown.len() == 0 {
        assert(s =~= before + title);
        assert(s.last() == title.last());
    } else {
        assert(s.last() == shown.last());
        assert(s.push('\n') =~= before + title + (shown + seq!['\n']));
    }
}

/// What is shown of a stream of valid text within the cap is the text; beyond it,
/// the beginning of the text that fits, one mark where the cut falls inside a
/// character, an ended line, and how long the stream is.
pub proof fn law_streams_are_shown(bytes: &[u8], text: Seq<char>, r: String)
    requires
        call_ensures(crate::mcp::clip, (bytes,), r),
        bytes@ == encode_utf8(text),
    ensures
        bytes@.len() <= 65536 ==> r@ == text,
        bytes@.len() > 65536 ==> exists|n: int, mark: Seq<char>, end: Seq<char>|
            {
                &&& 0 <= n <= text.len()
                &&& #[trigger] (text.take(n) + mark + end) + "...[truncated, "@
                    + crate::text::dec_nat(bytes@.len()) + " bytes total]\n"@ == r@
                &&& encode_utf8(text.take(n)).len() <= 65536
                &&& n < text.len() ==> encode_utf8(text.take(n + 1)).len() > 65536
                &&& mark == if encode_utf8(text.take(n)).len() == 65536 {
                    Seq::empty()
                } else {
                    seq!['\u{fffd}']
                }
                &&& end == if (text.take(n) + mark).len() > 0 && (text.take(n) + mark).last()
                    == '\n' {
                    Seq::empty()
                } else {
                    seq!['\n']
                }
            },
{
    encode_utf8_valid_utf8(text);
    encode_utf8_decode_utf8(text);
    if bytes@.len() > 65536 {
        let max = 65536nat;
        let fits = crate::text::utf8_prefix(text, max);
        let n = fits.len() as int;
        crate::text::law_utf8_prefix_is_longest(text, max);
        assert(text.take(n) == fits);
        let mark = if encode_utf8(fits).len() == max {
            Seq::empty()
        } else {
            seq!['\u{fffd}']
        };
        let shown = crate::mcp::cut_text(text, max);
        assert(shown =~= fits + mark);
        let end = if shown.len() > 0 && shown.last() == '\n' {
            Seq::empty()
        } else {
            seq!['\n']
        };
        assert(crate::mcp::with_newline(shown) =~= text.take(n) + mark + end);
        assert((text.take(n) + mark + end) + "...[truncated, "@
            + crate::text::dec_nat(bytes@.len()) + " bytes total]\n"@ == r@);
    }
}

/// The file tools fail exactly when the execution failed or the command did, and
/// then tell the reason, or the code and both streams.
pub proof fn law_file_failures(
    report: &RunReport,
    stdout: &[u8],
    stderr: &[u8],
    r: Option<String>,
    out: String,
    err: String,
)
    requires
        call_ensures(crate::mcp::file_result, (report, stdout, stderr), r),
        call_ensures(crate::mcp::clip, (stdout,), out),
        call_ensures(crate::mcp::clip, (stderr,), err),
    ensures
        r is None <==> report.error is None && report.code == 0,
        report.error matches Some(e) ==> (r matches Some(s) && s@ == "error: "@ + e@),
        report.error is None && report.code != 0 ==> (r matches Some(s) && s@ == "exit_code: "@
            + dec_int(report.code as int) + "\n--- stdout ---\n"@ + out@ + "--- stderr ---\n"@
            + err@),
{
}

/// `read_file` answers with what the file holds, `write_file` with where and how
/// much was written; both fail as told above.
pub proof fn law_file_answers(
    report: &RunReport,
    stdout: &[u8],
    stderr: &[u8],
    path: &str,
    len: usize,
    rd: Answer,
    wr: Answer,
    failure: Option<String>,
    out: String,
)
    requires
        call_ensures(crate::mcp::clip, (stdout,), out),
        call_ensures(crate::mcp::file_result, (report, stdout, stderr), failure),
    ensures
        call_ensures(crate::mcp::read_file_answer, (report, stdout, stderr), rd) ==> match failure {
            None => rd matches Answer::Success(s) && s@ == out@,
            Some(e) => rd matches Answer::Failure(s) && s@ == e@,
        },
        call_ensures(crate::mcp::write_file_answer, (report, stderr, path, len), wr) ==> if report.error
            is None && report.code == 0 {
            wr matches Answer::Success(s) && s@ == "wrote "@ + path@ + " ("@
                + crate::text::dec_nat(len as nat) + " bytes)"@
        } else {
            wr is Failure
        },
{
}

/// The numbers in all these texts: digits, the most significant first, that read as
/// the number; a minus sign in front of a negative one.
pub proof fn law_numbers_read_back(n: nat, i: int)
    ensures
        crate::text::uint_text(crate::text::dec_nat(n), n) == Some(n),
        n > 0 ==> crate::text::dec_nat(n)[0] != '0',
        n == 0 ==> crate::text::dec_nat(n) == seq!['0'],
        i >= 0 ==> dec_int(i) == crate::text::dec_nat(i as nat),
        i < 0 ==> dec_int(i) == seq!['-'] + crate::text::dec_nat((-i) as nat),
{
    reveal_strlit("-");
    crate::text::law_decimal_round_trip(n, n);
    lemma_no_leading_zero(n);
    if i < 0 {
        assert(dec_int(i) =~= seq!['-'] + crate::text::dec_nat((-i) as nat));
    }
}

proof fn lemma_no_leading_zero(n: nat)
    ensures
        crate::text::dec_nat(n).len() > 0,
        n > 0 ==> crate::text::dec_nat(n)[0] != '0',
        n == 0 ==> crate::text::dec_nat(n) == seq!['0'],
    decreases n,
{
    if n >= 10 {
        lemma_no_leading_zero(n / 10);
    }
}

/// A stream beyond the cap is shown by what is shown of it, on lines of its own, with how
/// long it is.
pub proof fn law_cut_streams_say_so(shown: String, total: usize, r: String)
    requires
        call_ensures(crate::mcp::clip_notice, (shown, total), r),
    ensures
        ({
            let tail = "...[truncated, "@ + crate::text::dec_nat(total as nat)
                + " bytes total]\n"@;
            &&& shown@.len() > 0 && shown@.last() == '\n' ==> r@ == shown@ + tail
            &&& !(shown@.len() > 0 && shown@.last() == '\n') ==> r@ == shown@ + seq!['\n'] + tail
        }),
{
    let tail = "...[truncated, "@ + crate::text::dec_nat(total as nat) + " bytes total]\n"@;
    let head = crate::mcp::with_newline(shown@);
    assert(head + "...[truncated, "@ + crate::text::dec_nat(total as nat) + " bytes total]\n"@
        =~= head + tail);
    assert(shown@.push('\n') =~= shown@ + seq!['\n']);
    assert(r@ =~= head + tail);
}

} // verus!
