//! The `sp` command line: what to run, and the exit code to leave with.

use vstd::prelude::*;

use crate::client::{is_bare_word, shell_quote, RunReport};
use crate::proto::{ExecRequest, INTERNAL_ERROR_CODE, TIMEOUT_EXIT_CODE};
use crate::text::{copy_opt, copy_strings, join_strings, push_nat};

verus! {

/// Timeout (ms) for the `doctor` remote probe.
pub const DOCTOR_TIMEOUT_MS: u64 = 30_000;

/// Exit code when there is nothing to run.
pub const USAGE_CODE: u8 = 2;

/// Exit code for daemon/internal errors.
pub const EXIT_INTERNAL: u8 = 254;

/// Exit code for timed-out commands, matching timeout(1).
pub const EXIT_TIMEOUT: u8 = 124;

/// Seconds as milliseconds, as far as they go.
pub fn timeout_ms(secs: u64) -> (r: u64)
    ensures
        r == if secs * 1000 <= u64::MAX {
            secs * 1000
        } else {
            u64::MAX as int
        },
{
    if secs <= u64::MAX / 1000 {
        secs * 1000
    } else {
        u64::MAX
    }
}

/// Arguments as one command line: a single one is a whole command line, several
/// are words whose boundaries are kept.
pub open spec fn command_line(args: Seq<Seq<char>>) -> Seq<char> {
    if args.len() == 1 {
        args[0]
    } else {
        crate::text::joined(crate::client::all_shell_quoted(args), " "@)
    }
}

/// A single arg is a whole command line and must reach the remote bash
/// verbatim (`sp "a | b"` would break if quoted). Multiple args arrive
/// shell-dequoted from the local shell; re-quote each one so the remote bash
/// parses the joined line back into the same words (`sp echo "a b"` stays one
/// remote argument).
pub fn join_command(args: &[String]) -> (r: String)
    ensures
        r@ == command_line(crate::text::texts(args@)),
{
    if args.len() == 1 {
        return args[0].as_str().to_owned();
    }
    let mut quoted: Vec<String> = Vec::new();
    let ghost all = crate::client::all_shell_quoted(crate::text::texts(args@));
    let mut i: usize = 0;
    assert(crate::text::texts(quoted@) =~= all.take(0));
    while i < args.len()
        invariant
            i <= args@.len(),
            all == crate::client::all_shell_quoted(crate::text::texts(args@)),
            crate::text::texts(quoted@) == all.take(i as int),
        decreases args@.len() - i,
    {
        let q = shell_quote(args[i].as_str());
        proof {
            crate::text::lemma_texts_push(quoted@, q);
            assert(all[i as int] == q@);
            assert(all.take(i + 1) =~= all.take(i as int).push(q@));
        }
        quoted.push(q);
        i = i + 1;
    }
    assert(all.take(args@.len() as int) =~= all);
    join_strings(&quoted, " ")
}

/// Several arguments reach the remote bash as the same words.
pub proof fn law_arguments_stay_words(args: Seq<Seq<char>>)
    requires
        args.len() != 1,
    ensures
        crate::shell::words_of(command_line(args)) == Some(args),
{
    crate::client::law_word_boundaries_survive(args);
}

/// A lone argument reaches the remote bash verbatim.
pub proof fn law_lone_argument_is_verbatim(arg: Seq<char>)
    ensures
        command_line(seq![arg]) == arg,
{
}

/// The command text and the positional arguments: of a script file, of the
/// command line, or of piped stdin, in this order; `None` when there is none.
pub open spec fn built(
    file: Option<Seq<char>>,
    cmd: Seq<Seq<char>>,
    piped: Option<Seq<char>>,
) -> Option<(Seq<char>, Seq<Seq<char>>)> {
    match file {
        Some(text) => Some((text, cmd)),
        None => if cmd.len() > 0 {
            Some((command_line(cmd), Seq::empty()))
        } else {
            match piped {
                Some(script) => if script.len() > 0 {
                    Some((script, Seq::empty()))
                } else {
                    None
                },
                None => None,
            }
        },
    }
}

/// Build the command text: file mode, positional args, or piped stdin. `piped` is
/// what a stdin that is no terminal holds; it is of interest only without a file
/// and without arguments.
pub fn build_command(
    file: Option<String>,
    cmd: &Vec<String>,
    piped: Option<String>,
) -> (r: Option<(String, Vec<String>)>)
    ensures
        (match r {
            Some((text, args)) => Some((text@, crate::text::texts(args@))),
            None => None,
        }) == built(
            crate::text::opt_text(file),
            crate::text::texts(cmd@),
            crate::text::opt_text(piped),
        ),
{
    if let Some(text) = file {
        // Trailing args after `--` become the script's positional parameters.
        return Some((text, copy_strings(cmd)));
    }
    let none: Vec<String> = Vec::new();
    assert(crate::text::texts(none@) =~= Seq::<Seq<char>>::empty());
    assert(crate::text::texts(cmd@).len() == cmd@.len());
    if cmd.len() > 0 {
        // A lone argument that is not a bare word carries shell syntax the
        // local shell made the user quote (`sp "a | b"`): run it verbatim as a
        // command line, like ssh. Several arguments are words whose boundaries
        // must survive (`sp grep "a b" f`): re-quote each before joining.
        if cmd.len() == 1 && !is_bare_word(cmd[0].as_str()) {
            return Some((cmd[0].as_str().to_owned(), none));
        }
        return Some((join_command(cmd.as_slice()), none));
    }
    if let Some(script) = piped {
        if !script.as_str().is_empty() {
            return Some((script, none));
        }
    }
    None
}

/// The request for a command.
pub fn command_request(
    host: String,
    command: String,
    args: Vec<String>,
    cwd: Option<String>,
    session: Option<String>,
    timeout_secs: Option<u64>,
) -> (r: ExecRequest)
    ensures
        r@ == (crate::proto::RequestView {
            host: host@,
            command: command@,
            args: crate::text::texts(args@),
            cwd: crate::text::opt_text(cwd),
            state: None,
            session: crate::text::opt_text(session),
            timeout_ms: (match timeout_secs {
                Some(s) => Some(
                    if s * 1000 <= u64::MAX {
                        (s * 1000) as u64
                    } else {
                        u64::MAX
                    },
                ),
                None => None,
            }),
        }),
{
    let timeout = match timeout_secs {
        Some(s) => Some(timeout_ms(s)),
        None => None,
    };
    ExecRequest { host, command, args, cwd, state: None, session, timeout_ms: timeout }
}

/// What `doctor` runs on the remote host.
pub const DOCTOR_COMMAND: &'static str =
    "echo \"os: $(uname -srm)\"; echo \"bash: $(bash --version | head -1)\"; echo \"home: $HOME\"; echo \"cwd: $PWD\"";

/// The request of `doctor`.
pub fn doctor_request(host: String, cwd: &Option<String>, session: Option<String>) -> (r:
    ExecRequest)
    ensures
        r@ == (crate::proto::RequestView {
            host: host@,
            command: DOCTOR_COMMAND@,
            args: Seq::empty(),
            cwd: crate::text::opt_text(*cwd),
            state: None,
            session: crate::text::opt_text(session),
            timeout_ms: Some(DOCTOR_TIMEOUT_MS),
        }),
{
    let args: Vec<String> = Vec::new();
    assert(crate::text::texts(args@) =~= Seq::<Seq<char>>::empty());
    ExecRequest {
        host,
        command: DOCTOR_COMMAND.to_owned(),
        args,
        cwd: copy_opt(cwd),
        state: None,
        session,
        timeout_ms: Some(DOCTOR_TIMEOUT_MS),
    }
}

/// The exit code to leave with: a timeout has its own, other codes pass through,
/// and one that never comes from a shell is an internal error.
pub open spec fn process_code(report: crate::client::RunReportView) -> u8 {
    if report.timed_out {
        EXIT_TIMEOUT
    } else if 0 <= report.code <= 255 {
        report.code as u8
    } else {
        EXIT_INTERNAL
    }
}

/// What to tell the user about a report, and the exit code to leave with.
pub fn exit_with(report: &RunReport) -> (r: (Vec<String>, u8))
    ensures
        r.1 == process_code(report@),
        crate::text::texts(r.0@) == (match report@.error {
            Some(e) => seq!["sp: "@ + e],
            None => Seq::empty(),
        }) + if report@.timed_out {
            seq!["sp: command timed out"@]
        } else {
            Seq::empty()
        },
{
    let mut told: Vec<String> = Vec::new();
    assert(crate::text::texts(told@) =~= Seq::<Seq<char>>::empty());
    if let Some(e) = &report.error {
        let mut s = "sp: ".to_owned();
        s.append(e.as_str());
        proof {
            crate::text::lemma_texts_push(told@, s);
        }
        told.push(s);
    }
    let ghost first = crate::text::texts(told@);
    assert(first =~= (match report@.error {
        Some(e) => seq!["sp: "@ + e],
        None => Seq::empty(),
    }));
    if report.timed_out {
        let s = "sp: command timed out".to_owned();
        proof {
            crate::text::lemma_texts_push(told@, s);
            assert(first.push(s@) =~= first + seq![s@]);
        }
        told.push(s);
        return (told, EXIT_TIMEOUT);
    }
    assert(first + Seq::<Seq<char>>::empty() =~= first);
    let code = if 0 <= report.code && report.code <= 255 {
        report.code as u8
    } else {
        EXIT_INTERNAL
    };
    (told, code)
}

/// The codes of the command line are the protocol's.
pub proof fn law_codes_agree()
    ensures
        EXIT_INTERNAL == INTERNAL_ERROR_CODE,
        EXIT_TIMEOUT == TIMEOUT_EXIT_CODE,
{
}

/// The exit code of a command as it reaches the caller of `sp`: from the report of
/// the remote server through the daemon and the client. The code of the command
/// is returned as it is and a timeout is 124; a failure of the remote server, of the
/// daemon or of the connection is 254 and arrives with its reason.
pub proof fn law_exit_codes(
    code: i32,
    cwd: Option<Seq<char>>,
    state: Option<Seq<char>>,
    why: Seq<char>,
)
    requires
        0 <= code <= 255,
    ensures
        process_code(arrived(crate::serve::final_report(false, code, cwd, state))) == code,
        process_code(arrived(crate::serve::final_report(true, code, cwd, state))) == 124,
        process_code(arrived(crate::proto::failure_report(why))) == 254,
        arrived(crate::proto::failure_report(why)).error == Some(why),
        process_code(crate::client::for_client(crate::proto::failure_report(why))) == 254,
        crate::client::for_client(crate::proto::failure_report(why)).error == Some(why),
{
}

/// A report of the remote server as it arrives at the client, relayed by the
/// daemon.
pub open spec fn arrived(rep: crate::proto::ReportView) -> crate::client::RunReportView {
    crate::client::for_client(crate::daemon::success_report(crate::remote::outcome_of(rep)))
}

/// What `status` prints of a running daemon.
pub fn status_line(pid: u32) -> (r: String)
    ensures
        r@ == "daemon running (pid "@ + crate::text::dec_nat(pid as nat) + ")"@,
{
    let mut s = "daemon running (pid ".to_owned();
    push_nat(&mut s, pid as u64);
    s.append(")");
    s
}

} // verus!
