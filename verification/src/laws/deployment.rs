//! Deployment: which commands put the server binary in place, what its log says, and how
//! the commands of the script engine read.

use vstd::prelude::*;

use crate::embed::Arch;
use crate::remote::{
    ChannelMessage, ChannelOutput, Deploy, DeployAction, Reply, ServeLog, Stage,
};
use crate::text::{dec_int, dec_nat, lossy_text, texts};
use crate::Error;

verus! {

// -- fixed commands -------------------------------------------------------------------------

/// The reply of a fixed command holds everything that the channel said before it was
/// closed: stdout and stderr apart, each whole and in order, and the last exit status.
pub proof fn law_channels_are_collected(
    c: &mut ChannelOutput,
    m: ChannelMessage,
    closed: bool,
    before: Reply,
    after: Reply,
)
    requires
        call_ensures(ChannelOutput::feed, (c, m), closed),
        call_ensures(ChannelOutput::reply, (*old(c),), before),
        call_ensures(ChannelOutput::reply, (*final(c),), after),
        !old(c)@.closed,
    ensures
        closed <==> m is Close,
        m matches ChannelMessage::Stdout(d) ==> after.out@ == before.out@ + d@ && after.err@
            == before.err@ && after.rc == before.rc,
        m matches ChannelMessage::Stderr(d) ==> after.err@ == before.err@ + d@ && after.out@
            == before.out@ && after.rc == before.rc,
        m matches ChannelMessage::ExitStatus(s) ==> after.out@ == before.out@ && after.err@
            == before.err@ && (s <= 255 ==> after.rc == s),
        m is Close || m is Other ==> after.out@ == before.out@ && after.err@ == before.err@
            && after.rc == before.rc,
        final(c)@.closed == closed,
{
}

/// What a channel says after it was closed does not count.
pub proof fn law_closed_channels(
    c: &mut ChannelOutput,
    m: ChannelMessage,
    closed: bool,
    before: Reply,
    after: Reply,
)
    requires
        call_ensures(ChannelOutput::feed, (c, m), closed),
        call_ensures(ChannelOutput::reply, (*old(c),), before),
        call_ensures(ChannelOutput::reply, (*final(c),), after),
        old(c)@.closed,
    ensures
        closed,
        after.out@ == before.out@,
        after.err@ == before.err@,
        after.rc == before.rc,
        final(c)@.closed,
{
}

/// A channel that has said nothing has an empty reply with 255 for the status.
pub proof fn law_silent_channels(c: ChannelOutput, r: Reply, s: Option<u32>)
    requires
        call_ensures(ChannelOutput::new, (), c),
        call_ensures(ChannelOutput::reply, (c,), r),
        call_ensures(ChannelOutput::status, (&c,), s),
    ensures
        r.rc == 255,
        r.out@.len() == 0,
        r.err@.len() == 0,
        s is None,
        !c@.closed,
{
}

/// The status that a channel tells is the last one it was told.
pub proof fn law_channel_status(c: &mut ChannelOutput, m: ChannelMessage, r: bool, s: Option<u32>)
    requires
        call_ensures(ChannelOutput::feed, (c, m), r),
        call_ensures(ChannelOutput::status, (&*final(c),), s),
        !old(c)@.closed,
    ensures
        m matches ChannelMessage::ExitStatus(n) ==> s == Some(n),
        !(m is ExitStatus) ==> s == old(c)@.status,
{
}

/// A fixed command succeeded exactly when it exited with 0; else the command, its status
/// and its stderr are told.
pub proof fn law_fixed_commands(cmd: &str, reply: &Reply, r: Result<(), Error>)
    requires
        call_ensures(crate::remote::exec_status, (cmd, reply), r),
    ensures
        r is Ok <==> reply.rc == 0,
        reply.rc != 0 ==> (r matches Err(Error::Remote(w)) && w@ == "`"@ + cmd@
            + "` failed with rc="@ + dec_int(reply.rc as int) + ": "@ + crate::text::trimmed(
            lossy_text(reply.err@),
        )),
{
}

/// An upload succeeded exactly when its command exited with 0.
pub proof fn law_uploads(
    path: &str,
    status: Option<u32>,
    r: Result<(), Error>,
    s: Result<(), Error>,
)
    requires
        call_ensures(crate::remote::upload_result, (path, status), r),
        call_ensures(crate::exec::upload_script_result, (status,), s),
    ensures
        r is Ok <==> status == Some(0u32),
        s is Ok <==> status == Some(0u32),
        status matches Some(n) ==> n != 0 ==> (r matches Err(Error::Remote(w)) && w@
            == "upload to "@ + path@ + " failed (status="@ + ("Some("@ + dec_nat(n as nat) + ")"@)
            + "); is the home directory writable?"@),
        status is None ==> (r matches Err(Error::Remote(w)) && w@ == "upload to "@ + path@
            + " failed (status="@ + "None"@ + "); is the home directory writable?"@),
        status matches Some(n) ==> 0 < n <= 255 ==> (s matches Err(Error::Remote(w)) && w@
            == "script upload failed (status="@ + ("Some("@ + dec_nat(n as nat) + ")"@)
            + "); is /tmp writable on the remote host?"@),
        status is None ==> (s matches Err(Error::Remote(w)) && w@
            == "script upload failed (status="@ + "None"@
            + "); is /tmp writable on the remote host?"@),
{
}

/// A remote file is the expected one when it could be read and has the same digest; the
/// file itself always is.
pub proof fn law_matching_files(rc: i32, content: &[u8], expected: &[u8], r: bool)
    requires
        call_ensures(crate::remote::remote_matches, (rc, content, expected), r),
    ensures
        r <==> rc == 0 && crate::remote::sha256(content@) == crate::remote::sha256(expected@),
        rc == 0 && content@ == expected@ ==> r,
        rc != 0 ==> !r,
{
}

/// Digests are the same when their bytes are.
pub proof fn law_same_digests(a: &[u8], b: &[u8], r: bool)
    requires
        call_ensures(crate::remote::same_digest, (a, b), r),
    ensures
        r <==> a@ == b@,
{
}

/// The value of a lower-case hexadecimal digit.
pub open spec fn hex_value(c: char) -> int {
    if '0' <= c <= '9' {
        c as int - '0' as int
    } else if 'a' <= c <= 'f' {
        c as int - 'a' as int + 10
    } else {
        -1
    }
}

/// The text of a nonce is two lower-case hexadecimal digits for each byte, from which the
/// byte can be read back.
pub proof fn law_nonces(bytes: &[u8], r: String, i: int)
    requires
        bytes@.len() <= usize::MAX / 4,
        call_ensures(crate::remote::nonce_text, (bytes,), r),
        0 <= i < bytes@.len(),
    ensures
        r@.len() == 2 * bytes@.len(),
        0 <= hex_value(r@[2 * i]) < 16,
        0 <= hex_value(r@[2 * i + 1]) < 16,
        16 * hex_value(r@[2 * i]) + hex_value(r@[2 * i + 1]) == bytes@[i],
{
    let b = bytes@[i];
    assert((2 * i) % 2 == 0 && (2 * i) / 2 == i);
    assert((2 * i + 1) % 2 == 1 && (2 * i + 1) / 2 == i);
    assert(r@[2 * i] == crate::text::hex_digit((b / 16) as nat));
    assert(r@[2 * i + 1] == crate::text::hex_digit((b % 16) as nat));
}

// -- the binary -----------------------------------------------------------------------------

/// Where the binary of a version lies on a machine.
pub open spec fn binary_path(version: Seq<char>, arch: Arch) -> Seq<char> {
    "~/.local/share/shell-proxy"@ + "/sp-serve-"@ + version + "-"@ + match arch {
        Arch::X86_64 => "x86_64"@,
        Arch::Aarch64 => "aarch64"@,
    }
}

/// Where an upload lies before it is complete.
pub open spec fn upload_path(nonce: Seq<char>) -> Seq<char> {
    "~/.local/share/shell-proxy"@ + "/.upload-"@ + nonce
}

/// A deployment first asks which machine it is.
pub proof fn law_deployment_starts(
    version: String,
    nonce: String,
    bins: crate::embed::ServeBinaries,
    r: (Deploy, DeployAction),
    s: Stage,
)
    requires
        call_ensures(Deploy::start, (version, nonce, bins), r),
        call_ensures(Deploy::stage, (&r.0,), s),
    ensures
        r.1 matches DeployAction::Run(c) && c@ == "uname -m"@,
        s == Stage::Uname,
        r.0@.version == version@,
        r.0@.nonce == nonce@,
        r.0@.x86_64 == bins.x86_64@,
        r.0@.aarch64 == bins.aarch64@,
{
}

/// The machine decides on the binary: with one for it the deployed file is looked at, by
/// the name of the version and the machine; without one, for an unknown machine and for
/// one that does not tell, the deployment fails and says so.
pub proof fn law_machine_decides(
    d: &mut Deploy,
    reply: Reply,
    a: DeployAction,
    s: Stage,
    b: &[u8],
)
    requires
        old(d)@.stage == Stage::Uname,
        call_ensures(Deploy::replied, (d, reply), a),
        call_ensures(Deploy::stage, (&*final(d),), s),
        call_ensures(Deploy::binary, (&*final(d),), b),
    ensures
        ({
            let name = crate::text::trimmed(lossy_text(reply.out@));
            let x86 = name == "x86_64"@ || name == "amd64"@;
            let arm = name == "aarch64"@ || name == "arm64"@;
            let v = old(d)@;
            &&& reply.rc == 0 && x86 && v.x86_64.len() > 0 ==> {
                &&& a matches DeployAction::Run(c) && c@ == "cat "@ + binary_path(
                    v.version,
                    Arch::X86_64,
                )
                &&& b@ == v.x86_64
                &&& s == Stage::FirstCheck
            }
            &&& reply.rc == 0 && arm && v.aarch64.len() > 0 ==> {
                &&& a matches DeployAction::Run(c) && c@ == "cat "@ + binary_path(
                    v.version,
                    Arch::Aarch64,
                )
                &&& b@ == v.aarch64
                &&& s == Stage::FirstCheck
            }
            &&& reply.rc == 0 && x86 && v.x86_64.len() == 0 ==> (a matches DeployAction::Fail(
                Error::Remote(w),
            ) && w@ == "no embedded sp-serve binary for "@ + "x86_64"@ + "; set "@
                + "SP_SERVE_X86_64"@ + " to a musl build of sp-serve and rebuild"@)
            &&& reply.rc == 0 && arm && v.aarch64.len() == 0 ==> (a matches DeployAction::Fail(
                Error::Remote(w),
            ) && w@ == "no embedded sp-serve binary for "@ + "aarch64"@ + "; set "@
                + "SP_SERVE_AARCH64"@ + " to a musl build of sp-serve and rebuild"@)
            &&& reply.rc == 0 && !x86 && !arm ==> (a matches DeployAction::Fail(Error::Remote(w))
                && w@ == "unsupported remote arch: "@ + name)
            &&& reply.rc != 0 ==> (a matches DeployAction::Fail(Error::Remote(w)) && w@
                == "`uname -m` failed with rc="@ + dec_int(reply.rc as int))
            &&& a is Fail ==> s == Stage::Over
            &&& final(d)@.version == v.version && final(d)@.nonce == v.nonce
            &&& final(d)@.x86_64 == v.x86_64 && final(d)@.aarch64 == v.aarch64
        }),
{
    reveal_strlit("x86_64");
    reveal_strlit("amd64");
    reveal_strlit("aarch64");
    reveal_strlit("arm64");
    assert("x86_64"@.len() == 6 && "amd64"@.len() == 5 && "aarch64"@.len() == 7 && "arm64"@.len()
        == 5);
    assert("amd64"@[1] == 'm' && "arm64"@[1] == 'r');
}

/// The binary that is deployed is that of the machine.
pub open spec fn own_binary(v: crate::remote::DeployView) -> Seq<u8> {
    match v.arch {
        Arch::X86_64 => v.x86_64,
        Arch::Aarch64 => v.aarch64,
    }
}

/// The commands of a deployment, one after the other: a deployed binary with the right
/// digest is used; else the directory is made, the binary is uploaded beside its place,
/// made executable, moved to its place and looked at again. A command that fails ends it
/// with its reason. The machine, the version and the binaries stay the same.
pub proof fn law_deployment_commands(d: &mut Deploy, reply: Reply, a: DeployAction, s: Stage)
    requires
        old(d)@.stage != Stage::Uname,
        old(d)@.stage != Stage::Upload,
        old(d)@.stage != Stage::Over,
        call_ensures(Deploy::replied, (d, reply), a),
        call_ensures(Deploy::stage, (&*final(d),), s),
    ensures
        ({
            let v = old(d)@;
            let path = binary_path(v.version, v.arch);
            let tmp = upload_path(v.nonce);
            let right = reply.rc == 0 && crate::remote::sha256(reply.out@) == crate::remote::sha256(
                own_binary(v),
            );
            let tail = "` failed with rc="@ + dec_int(reply.rc as int) + ": "@
                + crate::text::trimmed(lossy_text(reply.err@));
            &&& v.stage == Stage::FirstCheck && right ==> (a matches DeployAction::Done(p) && p@
                == path)
            &&& v.stage == Stage::FirstCheck && !right ==> s == Stage::Mkdir && (
            a matches DeployAction::Run(c) && c@ == "mkdir -p "@ + "~/.local/share/shell-proxy"@)
            &&& v.stage == Stage::Mkdir && reply.rc == 0 ==> s == Stage::Upload && (
            a matches DeployAction::Upload(p) && p@ == tmp)
            &&& v.stage == Stage::Mkdir && reply.rc != 0 ==> (a matches DeployAction::Fail(
                Error::Remote(w),
            ) && w@ =~= "`"@ + ("mkdir -p "@ + "~/.local/share/shell-proxy"@) + tail)
            &&& v.stage == Stage::Chmod && reply.rc == 0 ==> s == Stage::Rename && (
            a matches DeployAction::Run(c) && c@ == "mv "@ + tmp + " "@ + path)
            &&& v.stage == Stage::Chmod && reply.rc != 0 ==> (a matches DeployAction::Fail(
                Error::Remote(w),
            ) && w@ =~= "`"@ + ("chmod 700 "@ + tmp) + tail)
            &&& v.stage == Stage::Rename && reply.rc == 0 ==> s == Stage::FinalCheck && (
            a matches DeployAction::Run(c) && c@ == "cat "@ + path)
            &&& v.stage == Stage::Rename && reply.rc != 0 ==> (a matches DeployAction::Fail(
                Error::Remote(w),
            ) && w@ =~= "`"@ + ("mv "@ + tmp + " "@ + path) + tail)
            &&& v.stage == Stage::FinalCheck && right ==> (a matches DeployAction::Done(p) && p@
                == path)
            &&& v.stage == Stage::FinalCheck && !right ==> (a matches DeployAction::Fail(
                Error::Remote(w),
            ) && w@ == "deployed "@ + path + " failed checksum verification"@)
            &&& a is Done || a is Fail ==> s == Stage::Over
            &&& final(d)@.version == v.version && final(d)@.nonce == v.nonce && final(d)@.arch
                == v.arch
            &&& final(d)@.x86_64 == v.x86_64 && final(d)@.aarch64 == v.aarch64
        }),
{
    let v = old(d)@;
    let cmd = crate::remote::stage_command(v);
    let rc = dec_int(reply.rc as int);
    let err = crate::text::trimmed(lossy_text(reply.err@));
    assert("`"@ + cmd + "` failed with rc="@ + rc + ": "@ + err =~= "`"@ + cmd + (
    "` failed with rc="@ + rc + ": "@ + err));
}

/// An upload that worked is made executable for the user alone; one that did not ends the
/// deployment.
pub proof fn law_deployment_upload(
    d: &mut Deploy,
    status: Option<u32>,
    a: DeployAction,
    s: Stage,
    b: &[u8],
)
    requires
        old(d)@.stage == Stage::Upload,
        call_ensures(Deploy::uploaded, (d, status), a),
        call_ensures(Deploy::stage, (&*final(d),), s),
        call_ensures(Deploy::binary, (&*old(d),), b),
    ensures
        b@ == own_binary(old(d)@),
        status == Some(0u32) ==> s == Stage::Chmod && (a matches DeployAction::Run(c) && c@
            == "chmod 700 "@ + upload_path(old(d)@.nonce)),
        status != Some(0u32) ==> s == Stage::Over && (a matches DeployAction::Fail(
            Error::Remote(w),
        )),
        final(d)@ == (crate::remote::DeployView { stage: s, ..old(d)@ }),
{
}

// -- the server's log -----------------------------------------------------------------------

/// A text of lines, each ended.
pub open spec fn printed(ls: Seq<Seq<char>>) -> Seq<char>
    decreases ls.len(),
{
    if ls.len() == 0 {
        Seq::empty()
    } else {
        ls[0] + seq!['\n'] + printed(ls.skip(1))
    }
}

/// A line without white space at its end.
pub open spec fn log_line(l: Seq<char>) -> bool {
    !l.contains('\n') && (l.len() > 0 ==> !crate::text::is_white(l[l.len() - 1]))
}

proof fn lemma_log_line(l: Seq<char>)
    requires
        log_line(l),
    ensures
        crate::text::trimmed_end(l + seq!['\n']) == l,
{
    let t = l + seq!['\n'];
    assert(t.last() == '\n');
    assert(crate::text::is_white('\n'));
    assert(t.drop_last() =~= l);
    if l.len() > 0 {
        assert(l.last() == l[l.len() - 1]);
    }
    assert(crate::text::trimmed_end(l) == l);
}

proof fn lemma_log(ls: Seq<Seq<char>>, tail: Seq<char>)
    requires
        forall|i: int| 0 <= i < ls.len() ==> log_line(#[trigger] ls[i]),
        !tail.contains('\n'),
    ensures
        crate::remote::log_lines(printed(ls) + tail) == ls,
        crate::remote::log_rest(printed(ls) + tail) == tail,
    decreases ls.len(),
{
    let t = printed(ls) + tail;
    if ls.len() == 0 {
        assert(t =~= tail);
        crate::text::lemma_first_index(t, '\n');
        let k = crate::text::first_index(t, '\n');
        if k < t.len() {
            assert(tail.contains(tail[k]));
        }
        assert(crate::remote::log_lines(t) =~= ls);
    } else {
        let l = ls[0];
        let rest = ls.skip(1);
        let n = l.len() as int;
        assert forall|i: int| 0 <= i < rest.len() implies log_line(#[trigger] rest[i]) by {
            assert(rest[i] == ls[i + 1]);
        }
        lemma_log(rest, tail);
        assert forall|i: int| 0 <= i < n implies t[i] != '\n' by {
            assert(t[i] == l[i]);
            assert(l.contains(l[i]));
        }
        assert(t[n] == '\n');
        crate::text::lemma_first_index_unique(t, '\n', n);
        assert(t.take(n + 1) =~= l + seq!['\n']);
        assert(t.skip(n + 1) =~= printed(rest) + tail);
        lemma_log_line(l);
        assert(seq![l] + rest =~= ls);
    }
}

/// Every line of the server's log comes out, whole and in order, once it is complete,
/// however its text arrives; the rest waits and comes out at the end.
pub proof fn law_log_lines_come_out(
    log: &mut ServeLog,
    bytes: &[u8],
    r: Vec<String>,
    ls: Seq<Seq<char>>,
    tail: Seq<char>,
)
    requires
        call_ensures(ServeLog::feed, (log, bytes), r),
        old(log)@ + lossy_text(bytes@) == printed(ls) + tail,
        forall|i: int| 0 <= i < ls.len() ==> log_line(#[trigger] ls[i]),
        !tail.contains('\n'),
    ensures
        texts(r@) == ls,
        final(log)@ == tail,
{
    lemma_log(ls, tail);
}

/// What waits at the end of the stream is the last line; a new log waits for nothing.
pub proof fn law_log_ends(log: &mut ServeLog, r: Option<String>, fresh: ServeLog)
    requires
        call_ensures(ServeLog::flush, (log,), r),
        call_ensures(ServeLog::new, (), fresh),
        old(log)@.len() > 0 ==> !crate::text::is_white(old(log)@[old(log)@.len() - 1]),
    ensures
        old(log)@.len() > 0 ==> (r matches Some(l) && l@ == old(log)@),
        old(log)@.len() == 0 ==> r is None,
        final(log)@.len() == 0,
        fresh@.len() == 0,
{
    if old(log)@.len() > 0 {
        assert(old(log)@.last() == old(log)@[old(log)@.len() - 1]);
    }
}

/// The log of a remote run comes out in the same way, its last line at the end; and without
/// a report the end says with which status the server left.
pub proof fn law_remote_logs(
    run: &mut crate::remote::RemoteRun,
    bytes: &[u8],
    r: Vec<String>,
    ls: Seq<Seq<char>>,
    tail: Seq<char>,
    told: &mut crate::remote::RemoteRun,
    status: u32,
    end: (Option<String>, Result<crate::remote::ExecOutcome, Error>),
    silent: crate::remote::RemoteRun,
    none: (Option<String>, Result<crate::remote::ExecOutcome, Error>),
)
    requires
        call_ensures(crate::remote::RemoteRun::stderr, (run, bytes), r),
        old(run)@.log + lossy_text(bytes@) == printed(ls) + tail,
        forall|i: int| 0 <= i < ls.len() ==> log_line(#[trigger] ls[i]),
        log_line(tail),
        call_ensures(crate::remote::RemoteRun::status, (told, status), ()),
        old(told)@ == final(run)@,
        old(run)@.report is None,
        call_ensures(crate::remote::RemoteRun::finish, (*final(told),), end),
        call_ensures(crate::remote::RemoteRun::new, (), silent),
        call_ensures(crate::remote::RemoteRun::finish, (silent,), none),
    ensures
        texts(r@) == ls,
        tail.len() > 0 ==> (end.0 matches Some(l) && l@ == tail),
        tail.len() == 0 ==> end.0 is None,
        end.1 matches Err(Error::Remote(w)) && w@
            == "sp-serve closed the channel without an exit report (exit status "@ + ("Some("@
            + dec_nat(status as nat) + ")"@) + "); see daemon log for its stderr"@,
        none.0 is None,
        none.1 matches Err(Error::Remote(w)) && w@
            == "sp-serve closed the channel without an exit report (exit status "@ + "None"@
            + "); see daemon log for its stderr"@,
        final(run)@ == (crate::remote::RunView { log: tail, ..old(run)@ }),
        final(told)@ == (crate::remote::RunView { serve_status: Some(status), ..old(told)@ }),
{
    lemma_log(ls, tail);
    if tail.len() > 0 {
        assert(tail.last() == tail[tail.len() - 1]);
    }
}

// -- the script engine ----------------------------------------------------------------------

/// The script is written where it is run from, by the name of the nonce.
pub proof fn law_script_commands(nonce: &str, up: String, run: String)
    requires
        call_ensures(crate::exec::upload_command, (nonce,), up),
        call_ensures(crate::exec::run_command, (nonce,), run),
    ensures
        up@ == "cat > "@ + ("/tmp/.sp-"@ + nonce@ + ".sh"@),
        run@ == "bash "@ + ("/tmp/.sp-"@ + nonce@ + ".sh"@),
{
}

/// A group is signalled by its number, with the signal that was asked for.
pub proof fn law_group_commands(
    pgid: u32,
    s: crate::proto::Signal,
    name: &'static str,
    r: String,
)
    requires
        call_ensures(crate::exec::signal_spec, (s,), name),
        call_ensures(crate::exec::kill_group, (pgid, name), r),
    ensures
        ({
            let sig = match s {
                crate::proto::Signal::Int => "INT"@,
                crate::proto::Signal::Term => "TERM"@,
                crate::proto::Signal::Kill => "KILL"@,
                crate::proto::Signal::Hup => "HUP"@,
            };
            r@ == "bash -c 'kill -"@ + sig + " -"@ + dec_nat(pgid as nat)
                + "; echo kill_rc=$?; ps -o pid,ppid,pgid,sid,comm -g "@ + dec_nat(pgid as nat)
                + " 2>&1'"@
        }),
{
}

/// The one signal name that SSH lacks and bash knows, and no other.
pub proof fn law_custom_signals(name: &str, r: crate::exec::ExitSig)
    requires
        call_ensures(crate::exec::ExitSig::custom, (name,), r),
    ensures
        name@ == "USR2"@ ==> r == crate::exec::ExitSig::Usr2,
        name@ != "USR2"@ ==> r == crate::exec::ExitSig::Other,
{
}

/// A status as shown is told with its number.
pub proof fn law_shown_statuses(status: Option<i32>, r: String)
    requires
        call_ensures(crate::exec::show_status, (status,), r),
    ensures
        status matches Some(c) ==> r@ == "Some("@ + dec_int(c as int) + ")"@,
        status is None ==> r@ == "None"@,
{
}

} // verus!
