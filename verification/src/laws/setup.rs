//! What is set up before anything runs: names, levels, hosts, places and the words in
//! which failures are told.

use vstd::prelude::*;
use vstd::utf8::*;

use crate::config::{Config, ConfigFile, LogFilter, LogLevel};
use crate::embed::Arch;
use crate::laws::hosts::no_number;
use crate::session::{SessionId, SessionNameError};
use crate::text::{opt_str, opt_text};
use crate::Error;

verus! {

// -- configuration --------------------------------------------------------------------------

/// The level names are the five lower-case ones, and each names its level.
pub proof fn law_level_names(s: &str, r: Option<LogLevel>)
    requires
        call_ensures(LogLevel::parse, (s,), r),
    ensures
        r == Some(LogLevel::Trace) <==> s@ == "trace"@,
        r == Some(LogLevel::Debug) <==> s@ == "debug"@,
        r == Some(LogLevel::Info) <==> s@ == "info"@,
        r == Some(LogLevel::Warn) <==> s@ == "warn"@,
        r == Some(LogLevel::Error) <==> s@ == "error"@,
        r is None ==> s@ != "trace"@ && s@ != "debug"@ && s@ != "info"@ && s@ != "warn"@ && s@
            != "error"@,
{
    reveal_strlit("trace");
    reveal_strlit("debug");
    reveal_strlit("info");
    reveal_strlit("warn");
    reveal_strlit("error");
    assert("trace"@[0] == 't' && "debug"@[0] == 'd' && "info"@[0] == 'i' && "warn"@[0] == 'w'
        && "error"@[0] == 'e');
}

/// A log with a configured level keeps what is at least as severe: errors always, trace
/// messages at `trace` alone. Without a usable level it is `info`.
pub proof fn law_levels_filter(level: Option<LogLevel>, r: LogFilter)
    requires
        call_ensures(crate::config::log_filter, (level,), r),
    ensures
        level == Some(LogLevel::Trace) ==> r == LogFilter::All,
        level is None ==> r == LogFilter::MoreSevereEqual(LogLevel::Info),
        level is Some && level->0 != LogLevel::Trace ==> r == LogFilter::MoreSevereEqual(level->0),
{
}

/// The host of the command line wins over that of the environment, which wins over the
/// configured one; an empty one in the environment or the configuration counts as none;
/// and a configuration that cannot be read matters only where it is asked.
pub proof fn law_host_precedence(
    cli: Option<&str>,
    env: Option<&str>,
    config: Result<Config, Error>,
    path: &str,
    r: Result<String, Error>,
    source: &'static str,
)
    requires
        call_ensures(crate::config::resolve_host, (cli, env, config, path), r),
        call_ensures(crate::config::host_source, (cli, env), source),
    ensures
        cli matches Some(h) ==> (r matches Ok(x) && x@ == h@) && source@ == "--host"@,
        cli is None && env is Some && env->0@.len() > 0 ==> (r matches Ok(x) && x@ == env->0@)
            && source@ == "SP_HOST"@,
        cli is None && (env is Some ==> env->0@.len() == 0) ==> {
            &&& source@ == "config.toml"@
            &&& config matches Err(e) ==> r == Err::<String, Error>(e)
            &&& config matches Ok(c) ==> {
                &&& c.host is Some && c.host->0@.len() > 0 ==> (r matches Ok(x) && x@
                    == c.host->0@)
                &&& (c.host is Some ==> c.host->0@.len() == 0) ==> (r matches Err(
                    Error::Config(w),
                ) && w@ == "no host configured; pass --host, set "@ + "SP_HOST"@
                    + ", or set `host` in "@ + path@)
            }
        },
{
}

/// The session that is named wins over that of the environment; without both it is
/// `default`. An empty one in the environment counts as none, an empty name is refused.
pub proof fn law_session_precedence(
    named: Option<&str>,
    env: Option<&str>,
    r: Result<SessionId, SessionNameError>,
    given: Option<String>,
    s: Result<SessionId, SessionNameError>,
)
    requires
        call_ensures(crate::config::resolve_session, (named, env), r),
        call_ensures(crate::session::session_or_default, (&given,), s),
    ensures
        r matches Ok(id) ==> {
            &&& named is Some ==> id@ == named->0@
            &&& named is None && env is Some && env->0@.len() > 0 ==> id@ == env->0@
            &&& named is None && (env is Some ==> env->0@.len() == 0) ==> id@ == "default"@
        },
        named is None && (env is Some ==> env->0@.len() == 0) ==> r is Ok,
        named is Some && named->0@.len() == 0 ==> r == Err::<SessionId, _>(
            SessionNameError::Empty,
        ),
        s matches Ok(id) ==> id@ == match given {
            Some(n) => n@,
            None => "default"@,
        },
        given is None ==> s is Ok,
{
}

/// A character of a session name.
pub open spec fn name_char(c: char) -> bool {
    ||| 'A' <= c <= 'Z'
    ||| 'a' <= c <= 'z'
    ||| '0' <= c <= '9'
    ||| c == '.' || c == '_' || c == '-'
}

/// Names of letters, digits, dots, underscores and hyphens up to sixty-four characters
/// are sessions, as they are written. Any other is refused with the reason: what is
/// empty, what is too long, and the first character that does not belong.
pub proof fn law_session_names(s: &str, r: Result<SessionId, SessionNameError>, k: int)
    requires
        call_ensures(SessionId::parse, (s,), r),
        0 <= k <= s@.len(),
        forall|i: int| 0 <= i < k ==> name_char(#[trigger] s@[i]),
        k < s@.len() ==> !name_char(s@[k]),
    ensures
        s@.len() == 0 ==> r == Err::<SessionId, _>(SessionNameError::Empty),
        k == s@.len() && 0 < k <= 64 ==> (r matches Ok(id) && id@ == s@),
        k == s@.len() && k > 64 ==> (r matches Err(SessionNameError::TooLong { len }) && len == k),
        k < s@.len() && encode_utf8(s@).len() <= 64 ==> r == Err::<SessionId, _>(
            SessionNameError::BadChar { c: s@[k] },
        ),
        encode_utf8(s@).len() > 64 ==> (r matches Err(SessionNameError::TooLong { len }) && len
            == encode_utf8(s@).len()),
        r matches Ok(id) ==> id@ == s@,
{
    assert forall|c: char| crate::session::allowed(c) <==> name_char(c) by {}
    if k == s@.len() {
        assert forall|i: int| 0 <= i < s@.len() implies (s@[i] as u32) < 128 by {
            assert(name_char(s@[i]));
        }
        assert(is_ascii_chars(s@));
        is_ascii_chars_encode_utf8(s@);
    } else {
        lemma_first_bad(s@, k);
    }
}

proof fn lemma_first_bad(s: Seq<char>, k: int)
    requires
        0 <= k < s.len(),
        forall|i: int| 0 <= i < k ==> name_char(#[trigger] s[i]),
        !name_char(s[k]),
    ensures
        crate::session::first_bad(s) == s[k],
        !crate::session::all_allowed(s),
    decreases k,
{
    assert(crate::session::allowed(s[k]) <==> name_char(s[k]));
    if k > 0 {
        assert(name_char(s[0]));
        assert forall|i: int| 0 <= i < k - 1 implies name_char(#[trigger] s.skip(1)[i]) by {
            assert(s.skip(1)[i] == s[i + 1]);
        }
        lemma_first_bad(s.skip(1), k - 1);
    }
}

/// Why a session name was refused, in words.
pub proof fn law_session_reasons(e: SessionNameError, r: String)
    requires
        call_ensures(SessionNameError::message, (&e,), r),
    ensures
        e is Empty ==> r@ == "session name must not be empty"@,
        e matches SessionNameError::TooLong { len } ==> r@ == "session name is "@
            + crate::text::dec_nat(len as nat) + " bytes long, the limit is "@
            + crate::text::dec_nat(64),
        e matches SessionNameError::BadChar { c } ==> r@ == "session name contains "@
            + crate::text::debug_char_text(c) + "; allowed characters are A-Z a-z 0-9 . _ -"@,
{
}

/// The number of idle seconds is the number that the variable holds; without a number
/// there is none.
pub proof fn law_idle_seconds(env: Option<&str>, n: u64, r: Option<u64>)
    requires
        call_ensures(crate::config::idle_secs, (env,), r),
    ensures
        env is None ==> r is None,
        env is Some && env->0@ == crate::text::dec_nat(n as nat) ==> r == Some(n),
        env is Some && (no_number(env->0@) || env->0@.len() == 0) ==> r is None,
{
    if env is Some {
        crate::text::law_decimal_round_trip(n as nat, u64::MAX as nat);
        if no_number(env->0@) {
            crate::laws::hosts::lemma_no_number(env->0@, u64::MAX as nat);
        }
    }
}

/// A missing configuration is the default one, a broken one is told with its path, and
/// any other is taken as it is.
pub proof fn law_configurations(
    file: ConfigFile,
    path: &str,
    r: Result<Config, Error>,
    d: Config,
    c: Config,
)
    requires
        call_ensures(crate::config::load_config, (file, path), r),
        call_ensures(Config::default, (), d),
        call_ensures(Config::clone, (&d,), c),
    ensures
        d.host is None && d.log_level@ == "info"@,
        c.host is None && c.log_level@ == "info"@,
        file is Missing ==> (r matches Ok(x) && x.host is None && x.log_level@ == "info"@),
        file matches ConfigFile::Unreadable(e) ==> (r matches Err(Error::Config(w)) && w@ == "read "@
            + path@ + ": "@ + e@),
        file matches ConfigFile::Invalid(e) ==> (r matches Err(Error::Config(w)) && w@ == "parse "@
            + path@ + ": "@ + e@),
        file matches ConfigFile::Loaded(x) ==> r == Ok::<Config, Error>(x),
{
}

/// The application directory on Unix lies below the configuration directory of the user
/// where that is absolute, else below that of the platform.
pub proof fn law_application_directory(
    xdg: Option<&str>,
    config_dir: Option<&str>,
    r: String,
    base: Seq<char>,
)
    requires
        call_ensures(crate::config::app_dir, (xdg, config_dir, false), r),
        base.len() > 0,
        base.last() != '/',
    ensures
        opt_str(xdg) == Some(base) && base[0] == '/' ==> r@ == base + "/shell-proxy"@,
        (xdg is Some ==> !(xdg->0@.len() > 0 && xdg->0@[0] == '/')) && opt_str(config_dir) == Some(
            base,
        ) ==> r@ == base + "/shell-proxy"@,
        (xdg is Some ==> !(xdg->0@.len() > 0 && xdg->0@[0] == '/')) && config_dir is None ==> r@
            == ".shell-proxy/shell-proxy"@,
{
    reveal_strlit("/");
    reveal_strlit("shell-proxy");
    reveal_strlit("/shell-proxy");
    reveal_strlit(".shell-proxy");
    reveal_strlit(".shell-proxy/shell-proxy");
    assert(base + "/"@ + "shell-proxy"@ =~= base + "/shell-proxy"@);
    assert(".shell-proxy"@ + "/"@ + "shell-proxy"@ =~= ".shell-proxy/shell-proxy"@);
}

/// On Windows an absolute configuration directory of the user counts in the same way: a
/// drive with a separator behind it.
pub proof fn law_windows_application_directory(
    xdg: Option<&str>,
    config_dir: Option<&str>,
    r: String,
    base: Seq<char>,
)
    requires
        call_ensures(crate::config::app_dir, (xdg, config_dir, true), r),
        base.len() > 3,
        'A' <= base[0] <= 'Z' || 'a' <= base[0] <= 'z',
        base[1] == ':',
        base[2] == '\\',
        base.last() != '/' && base.last() != '\\',
    ensures
        opt_str(xdg) == Some(base) ==> r@ == base + "\\shell-proxy"@,
        xdg is None && opt_str(config_dir) == Some(base) ==> r@ == base + "\\shell-proxy"@,
{
    reveal_strlit("\\");
    reveal_strlit("shell-proxy");
    reveal_strlit("\\shell-proxy");
    assert(crate::path::prefix_len("shell-proxy"@) == 0);
    assert(base + "\\"@ + "shell-proxy"@ =~= base + "\\shell-proxy"@);
}

/// The daemon listens where the override says; else on Windows on a pipe named by the
/// user, every character other than an ASCII letter or digit an underscore, and elsewhere
/// on a socket in the application directory.
pub proof fn law_endpoints(
    over: Option<&str>,
    windows: bool,
    username: Option<&str>,
    dir: &str,
    r: String,
)
    requires
        call_ensures(crate::config::sock_path, (over, windows, username, dir), r),
    ensures
        over is Some && over->0@.len() > 0 ==> r@ == over->0@,
        (over is Some ==> over->0@.len() == 0) ==> {
            &&& windows && username is Some ==> {
                let head = "\\\\.\\pipe\\shell-proxy-"@;
                let user = username->0@;
                &&& r@.len() == head.len() + user.len()
                &&& r@.take(head.len() as int) == head
                &&& forall|i: int|
                    0 <= i < user.len() ==> #[trigger] r@[head.len() + i] == if 'A' <= user[i]
                        <= 'Z' || 'a' <= user[i] <= 'z' || '0' <= user[i] <= '9' {
                        user[i]
                    } else {
                        '_'
                    }
            }
            &&& windows && username is None ==> r@ == "\\\\.\\pipe\\shell-proxy-user"@
            &&& !windows && dir@.len() > 0 && dir@.last() != '/' ==> r@ == dir@ + "/daemon.sock"@
        },
{
    reveal_strlit("/");
    reveal_strlit("daemon.sock");
    reveal_strlit("/daemon.sock");
    reveal_strlit("user");
    reveal_strlit("\\\\.\\pipe\\shell-proxy-");
    reveal_strlit("\\\\.\\pipe\\shell-proxy-user");
    let head = "\\\\.\\pipe\\shell-proxy-"@;
    assert(dir@ + "/"@ + "daemon.sock"@ =~= dir@ + "/daemon.sock"@);
    if (over is Some ==> over->0@.len() == 0) && windows {
        assert(r@.take(head.len() as int) =~= head);
        if username is None {
            assert(r@ =~= "\\\\.\\pipe\\shell-proxy-user"@);
        }
    }
}

// -- machines -------------------------------------------------------------------------------

/// The machine names of both families, with white space around them, and no other.
pub proof fn law_architectures(uname: &str, r: Option<Arch>, a: Arch, name: &'static str)
    requires
        call_ensures(Arch::parse, (uname,), r),
        call_ensures(Arch::as_str, (a,), name),
    ensures
        ({
            let n = crate::text::trimmed(uname@);
            &&& r == Some(Arch::X86_64) <==> n == "x86_64"@ || n == "amd64"@
            &&& r == Some(Arch::Aarch64) <==> n == "aarch64"@ || n == "arm64"@
            &&& n == name@ ==> r == Some(a)
        }),
{
    reveal_strlit("x86_64");
    reveal_strlit("amd64");
    reveal_strlit("aarch64");
    reveal_strlit("arm64");
    assert("x86_64"@.len() == 6 && "amd64"@.len() == 5 && "aarch64"@.len() == 7 && "arm64"@.len()
        == 5);
    assert("amd64"@[1] == 'm' && "arm64"@[1] == 'r');
}

/// Each architecture has its own binary, and an empty one is none.
pub proof fn law_binaries(
    bins: &crate::embed::ServeBinaries,
    x: Option<&[u8]>,
    a: Option<&[u8]>,
    vx: &'static str,
    va: &'static str,
)
    requires
        call_ensures(crate::embed::serve_binary, (bins, Arch::X86_64), x),
        call_ensures(crate::embed::serve_binary, (bins, Arch::Aarch64), a),
        call_ensures(Arch::env_var, (Arch::X86_64,), vx),
        call_ensures(Arch::env_var, (Arch::Aarch64,), va),
    ensures
        bins.x86_64@.len() > 0 ==> (x matches Some(b) && b@ == bins.x86_64@),
        bins.x86_64@.len() == 0 ==> x is None,
        bins.aarch64@.len() > 0 ==> (a matches Some(b) && b@ == bins.aarch64@),
        bins.aarch64@.len() == 0 ==> a is None,
        vx@ == "SP_SERVE_X86_64"@,
        va@ == "SP_SERVE_AARCH64"@,
{
}

// -- words ----------------------------------------------------------------------------------

/// Every error is told with its kind and with all of what it carries.
pub proof fn law_errors_are_told(e: &Error, r: String)
    requires
        call_ensures(Error::brief, (e,), r),
    ensures
        *e matches Error::Io(d) ==> r@ == "io error: "@ + d@,
        *e matches Error::Json(d) ==> r@ == "serialization error: "@ + d@,
        *e matches Error::Ssh(d) ==> r@ == "ssh error: "@ + d@,
        *e matches Error::Config(d) ==> r@ == "config error: "@ + d@,
        *e matches Error::Resolve { host, reason } ==> r@ == "ssh config resolve failed for host "@
            + crate::text::debug_text(host@) + ": "@ + reason@,
        *e matches Error::HostKey(d) ==> r@ == "host key verification failed: "@ + d@,
        *e matches Error::Auth(d) ==> r@ == "authentication failed: "@ + d@,
        *e matches Error::Connect(d) ==> r@ == "connect failed: "@ + d@,
        *e matches Error::Remote(d) ==> r@ == "remote exec failed: "@ + d@,
        *e matches Error::Ipc(d) ==> r@ == "ipc error: "@ + d@,
        *e matches Error::Daemon(d) ==> r@ == "daemon not reachable: "@ + d@,
        *e matches Error::Protocol(d) ==> r@ == "protocol error: "@ + d@,
        *e is TimedOut ==> r@ == "command timed out"@,
{
}

/// An error of the protocol keeps its kind and its detail.
pub proof fn law_protocol_errors(e: crate::proto::Error, r: Error)
    requires
        call_ensures(Error::from_proto, (e,), r),
    ensures
        e matches crate::proto::Error::Io(d) ==> (r matches Error::Io(x) && x@ == d@),
        e matches crate::proto::Error::Json(d) ==> (r matches Error::Json(x) && x@ == d@),
        e matches crate::proto::Error::Protocol(d) ==> (r matches Error::Protocol(x) && x@ == d@),
{
}

/// A pipe is tried again only while it is busy and there is time.
pub proof fn law_busy_pipes(e: Option<i32>, now: u64, deadline: u64, r: bool)
    requires
        call_ensures(crate::transport::retry_pipe, (e, now, deadline), r),
    ensures
        r <==> e == Some(231i32) && now < deadline,
{
}

// -- limits ---------------------------------------------------------------------------------

/// The waits, caps and names that whoever drives the library goes by.
pub proof fn law_limits()
    ensures
        crate::client::RETRY_MS == 100,
        crate::client::PING_WAIT_MS == 3_000,
        crate::client::SPAWN_WAIT_MS == 10_000,
        crate::serve::EXEC_WAIT_MS == 30_000,
        crate::serve::DRAIN_GRACE_MS == 2_000,
        crate::serve::CWD_CAP == 8192,
        crate::serve::STATE_CAP == 262144,
        crate::transport::PIPE_WAIT_MS == 2_000,
        crate::transport::PIPE_RETRY_MS == 20,
        crate::cli::USAGE_CODE == 2,
        crate::marker::MAX_PGID_LEN == 16,
        crate::child::CWD_VAR@ == "SP_CWD"@,
        crate::config::ENV_SOCK@ == "SP_SOCK"@,
        crate::config::ENV_HOST@ == "SP_HOST"@,
        crate::config::ENV_SESSION@ == "SP_SESSION"@,
        crate::config::ENV_IDLE@ == "SP_IDLE_SECS"@,
        crate::script::MARKER_SUFFIX@ == "\x1c"@,
{
}

// -- copies ---------------------------------------------------------------------------------

/// A copy of a request is the request, field by field.
pub proof fn law_copied_requests(a: &crate::proto::ExecRequest, b: crate::proto::ExecRequest)
    requires
        call_ensures(crate::proto::ExecRequest::clone, (a,), b),
    ensures
        b.host@ == a.host@,
        b.command@ == a.command@,
        b.args@.len() == a.args@.len(),
        forall|i: int| 0 <= i < a.args@.len() ==> (#[trigger] b.args@[i])@ == a.args@[i]@,
        opt_text(b.cwd) == opt_text(a.cwd),
        opt_text(b.state) == opt_text(a.state),
        opt_text(b.session) == opt_text(a.session),
        b.timeout_ms == a.timeout_ms,
{
    crate::laws::forwarding::lemma_same_texts(b.args@, a.args@);
}

/// Copies of reports, outcomes and results are what they were.
pub proof fn law_copied_reports(
    a: &crate::proto::ExitReport,
    b: crate::proto::ExitReport,
    o: &crate::remote::ExecOutcome,
    p: crate::remote::ExecOutcome,
    r: &crate::client::RunReport,
    s: crate::client::RunReport,
    e: &crate::exec::ExecOutcome,
    f: crate::exec::ExecOutcome,
)
    requires
        call_ensures(crate::proto::ExitReport::clone, (a,), b),
        call_ensures(crate::remote::ExecOutcome::clone, (o,), p),
        call_ensures(crate::client::RunReport::clone, (r,), s),
        call_ensures(crate::exec::ExecOutcome::clone, (e,), f),
    ensures
        b.code == a.code && opt_text(b.cwd) == opt_text(a.cwd) && opt_text(b.state) == opt_text(
            a.state,
        ) && opt_text(b.error) == opt_text(a.error) && b.timed_out == a.timed_out,
        p.exit_code == o.exit_code && opt_text(p.new_cwd) == opt_text(o.new_cwd) && opt_text(
            p.new_state,
        ) == opt_text(o.new_state) && opt_text(p.error) == opt_text(o.error) && p.timed_out
            == o.timed_out,
        s.code == r.code && opt_text(s.cwd) == opt_text(r.cwd) && opt_text(s.error) == opt_text(
            r.error,
        ) && s.timed_out == r.timed_out,
        f.exit_code == e.exit_code && opt_text(f.new_cwd) == opt_text(e.new_cwd) && f.timed_out
            == e.timed_out,
{
}

/// A report of the daemon as a result of the client: code, directory, reason and timeout.
pub proof fn law_reports_become_results(a: crate::proto::ExitReport, r: crate::client::RunReport)
    requires
        call_ensures(<crate::client::RunReport as From<crate::proto::ExitReport>>::from, (a,), r),
    ensures
        r.code == a.code,
        opt_text(r.cwd) == opt_text(a.cwd),
        opt_text(r.error) == opt_text(a.error),
        r.timed_out == a.timed_out,
{
}

/// A copy of a host is reached in the same way, with the same keys and the same trust.
pub proof fn law_copied_hosts(
    a: &crate::ssh_config::ResolvedHost,
    b: crate::ssh_config::ResolvedHost,
)
    requires
        call_ensures(crate::ssh_config::ResolvedHost::clone, (a,), b),
    ensures
        b.hostname@ == a.hostname@ && b.port == a.port && b.user@ == a.user@,
        crate::text::texts(b.identity_files@) == crate::text::texts(a.identity_files@),
        crate::text::texts(b.known_hosts_files@) == crate::text::texts(a.known_hosts_files@),
        opt_text(b.proxy_command) == opt_text(a.proxy_command),
        b.connect_timeout == a.connect_timeout && b.strict_host_keys == a.strict_host_keys,
{
    assert(b@.hostname == a@.hostname);
}

/// A session is told by the name it was made from; without one it is `default`.
pub proof fn law_told_sessions(
    s: &str,
    id: SessionId,
    name: &str,
    copy: SessionId,
    d: SessionId,
    c: char,
    ok: bool,
)
    requires
        call_ensures(SessionId::parse, (s,), Ok::<_, SessionNameError>(id)),
        call_ensures(SessionId::as_str, (&id,), name),
        call_ensures(SessionId::clone, (&id,), copy),
        call_ensures(SessionId::default, (), d),
        call_ensures(crate::session::is_allowed, (c,), ok),
    ensures
        name@ == s@,
        copy@ == s@,
        d@ == "default"@,
        ok <==> name_char(c),
{
}

/// A fresh nonce is thirty-two lower-case hexadecimal digits.
pub proof fn law_fresh_nonces(r: String, i: int)
    requires
        call_ensures(crate::remote::new_nonce, (), r),
        0 <= i < 32,
    ensures
        r@.len() == 32,
        0 <= crate::laws::deployment::hex_value(r@[i]) < 16,
{
    let bytes = choose|bytes: Seq<u8>|
        bytes.len() == 16 && r@ == #[trigger] crate::remote::hex_text(bytes);
    assert(r@ == crate::remote::hex_text(bytes));
    let b = bytes[i / 2];
    assert(0 <= i / 2 < 16);
}

/// Only RSA keys sign with a hash of the caller's choice.
pub proof fn law_key_hashes(rsa: bool, r: bool)
    requires
        call_ensures(crate::ssh::uses_sha512, (rsa,), r),
    ensures
        r <==> rsa,
{
}

} // verus!
