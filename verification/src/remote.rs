//! Remote side management: deploy `sp-serve` and run commands through it.
//!
//! One command = one SSH exec channel running `sp-serve`, speaking sp-proto
//! frames on its stdio. The serve binary is uploaded once per daemon
//! connection into `~/.local/share/shell-proxy/` (name carries version and
//! arch) and verified by sha256 before use. serve's own stderr arrives as SSH
//! extended data and is mirrored into the daemon log. The channels are driven
//! around the decisions made here.

use sha2::Digest;
use vstd::prelude::*;

use crate::embed::{serve_binary, Arch, ServeBinaries};
use crate::error::Error;
use crate::exec::to_exit_code;
use crate::proto::{EventDecoder, EventFrame, EventMessage, ExecMessage, ExitReport, Signal};
use crate::text::{
    bytes_eq, copy_opt, find_char_from, lossy_string, push_int, push_nat, str_chars, sub_string,
    trim_end_string, trim_string,
};

verus! {

/// Directory (relative to the remote home) holding deployed binaries.
pub const SERVE_DIR: &'static str = "~/.local/share/shell-proxy";

// -- events ----------------------------------------------------------------------------

/// Events fed into a running execution.
#[derive(Debug)]
pub enum InputEvent {
    Stdin(Vec<u8>),
    StdinEof,
    Signal(Signal),
}

/// What an input event says.
pub enum InputView {
    Stdin(Seq<u8>),
    StdinEof,
    Signal(Signal),
}

impl View for InputEvent {
    type V = InputView;

    open spec fn view(&self) -> InputView {
        match self {
            InputEvent::Stdin(d) => InputView::Stdin(d@),
            InputEvent::StdinEof => InputView::StdinEof,
            InputEvent::Signal(s) => InputView::Signal(*s),
        }
    }
}

/// Events a running execution emits.
#[derive(Debug)]
pub enum OutputEvent {
    Stdout(Vec<u8>),
    Stderr(Vec<u8>),
}

/// What a running execution emits.
pub enum OutputView {
    Stdout(Seq<u8>),
    Stderr(Seq<u8>),
}

impl View for OutputEvent {
    type V = OutputView;

    open spec fn view(&self) -> OutputView {
        match self {
            OutputEvent::Stdout(d) => OutputView::Stdout(d@),
            OutputEvent::Stderr(d) => OutputView::Stderr(d@),
        }
    }
}

/// Outcome of a finished execution.
#[derive(Debug)]
pub struct ExecOutcome {
    pub exit_code: i32,
    /// New persisted cwd when the serve wrapper reported it.
    pub new_cwd: Option<String>,
    /// New persisted shell state when the serve wrapper dumped it.
    pub new_state: Option<String>,
    /// Why serve could not run the command.
    pub error: Option<String>,
    pub timed_out: bool,
}

/// What an outcome says.
pub struct OutcomeView {
    pub exit_code: i32,
    pub new_cwd: Option<Seq<char>>,
    pub new_state: Option<Seq<char>>,
    pub error: Option<Seq<char>>,
    pub timed_out: bool,
}

impl Clone for ExecOutcome {
    fn clone(&self) -> (r: ExecOutcome)
        ensures
            r@ == self@,
    {
        ExecOutcome {
            exit_code: self.exit_code,
            new_cwd: copy_opt(&self.new_cwd),
            new_state: copy_opt(&self.new_state),
            error: copy_opt(&self.error),
            timed_out: self.timed_out,
        }
    }
}

impl View for ExecOutcome {
    type V = OutcomeView;

    open spec fn view(&self) -> OutcomeView {
        OutcomeView {
            exit_code: self.exit_code,
            new_cwd: crate::text::opt_text(self.new_cwd),
            new_state: crate::text::opt_text(self.new_state),
            error: crate::text::opt_text(self.error),
            timed_out: self.timed_out,
        }
    }
}

// -- checksums and nonces ---------------------------------------------------------------

/// The SHA-256 digest of some bytes.
pub uninterp spec fn sha256(data: Seq<u8>) -> Seq<u8>;

/// `sha2::Sha256::digest`: the 32 bytes of the digest.
#[verifier::external_body]
fn sha256_digest(data: &[u8]) -> (r: Vec<u8>)
    ensures
        r@ == sha256(data@),
        r@.len() == 32,
{
    sha2::Sha256::digest(data).to_vec()
}

/// Two digests are the same.
pub fn same_digest(a: &[u8], b: &[u8]) -> (r: bool)
    ensures
        r == (a@ == b@),
{
    bytes_eq(a, b)
}

/// Whether the remote file, as printed by `cat`, is `expected` by its checksum.
/// A file that is missing or unreadable is not.
pub fn remote_matches(rc: i32, content: &[u8], expected: &[u8]) -> (r: bool)
    ensures
        r == (rc == 0 && sha256(content@) == sha256(expected@)),
{
    if rc != 0 {
        return false;
    }
    same_digest(&sha256_digest(content), &sha256_digest(expected))
}

/// Two lower-case hexadecimal digits per byte.
pub open spec fn hex_text(bytes: Seq<u8>) -> Seq<char> {
    Seq::new(
        2 * bytes.len(),
        |i: int|
            crate::text::hex_digit(
                (if i % 2 == 0 {
                    bytes[i / 2] / 16
                } else {
                    bytes[i / 2] % 16
                }) as nat,
            ),
    )
}

/// `hex_simd::encode_to_string` in lower case: two digits per byte, the high half
/// first. It panics on more than a quarter of the address space.
#[verifier::external_body]
fn hex_string(bytes: &[u8]) -> (r: String)
    requires
        bytes@.len() <= usize::MAX / 4,
    ensures
        r@ == hex_text(bytes@),
{
    hex_simd::encode_to_string(bytes, hex_simd::AsciiCase::Lower)
}

/// `rand::random` for sixteen bytes. Nothing is known of their values.
#[verifier::external_body]
fn random_bytes() -> (r: Vec<u8>)
    ensures
        r@.len() == 16,
{
    let bytes: [u8; 16] = rand::random();
    bytes.to_vec()
}

/// The text of a nonce with the given bytes.
pub fn nonce_text(bytes: &[u8]) -> (r: String)
    requires
        bytes@.len() <= usize::MAX / 4,
    ensures
        r@ == hex_text(bytes@),
{
    hex_string(bytes)
}

/// A fresh nonce: the lower-case hexadecimal text of sixteen random bytes.
pub fn new_nonce() -> (r: String)
    ensures
        exists|bytes: Seq<u8>| bytes.len() == 16 && r@ == #[trigger] hex_text(bytes),
{
    let bytes = random_bytes();
    let r = nonce_text(&bytes);
    assert(r@ == hex_text(bytes@));
    r
}

// -- fixed commands -----------------------------------------------------------------------

/// One message of a channel that runs a fixed command.
#[derive(Debug)]
pub enum ChannelMessage {
    Stdout(Vec<u8>),
    Stderr(Vec<u8>),
    ExitStatus(u32),
    Close,
    Other,
}

/// What a channel has said so far.
pub struct ChannelView {
    pub status: Option<u32>,
    pub out: Seq<u8>,
    pub err: Seq<u8>,
    pub closed: bool,
}

/// What a channel has said after one more message; nothing counts after the
/// close.
pub open spec fn heard(v: ChannelView, m: ChannelMessage) -> ChannelView {
    if v.closed {
        v
    } else {
        match m {
            ChannelMessage::Stdout(d) => ChannelView { out: v.out + d@, ..v },
            ChannelMessage::Stderr(d) => ChannelView { err: v.err + d@, ..v },
            ChannelMessage::ExitStatus(s) => ChannelView { status: Some(s), ..v },
            ChannelMessage::Close => ChannelView { closed: true, ..v },
            ChannelMessage::Other => v,
        }
    }
}

/// Collects status, stdout and stderr of a fixed command.
#[derive(Debug)]
pub struct ChannelOutput {
    status: Option<u32>,
    out: Vec<u8>,
    err: Vec<u8>,
    closed: bool,
}

impl View for ChannelOutput {
    type V = ChannelView;

    closed spec fn view(&self) -> ChannelView {
        ChannelView {
            status: self.status,
            out: self.out@,
            err: self.err@,
            closed: self.closed,
        }
    }
}

impl ChannelOutput {
    pub fn new() -> (r: ChannelOutput)
        ensures
            r@ == (ChannelView {
                status: None,
                out: Seq::empty(),
                err: Seq::empty(),
                closed: false,
            }),
    {
        let r = ChannelOutput { status: None, out: Vec::new(), err: Vec::new(), closed: false };
        assert(r@.out =~= Seq::<u8>::empty());
        assert(r@.err =~= Seq::<u8>::empty());
        r
    }

    /// Take one message; `true` when the channel is closed.
    pub fn feed(&mut self, m: ChannelMessage) -> (r: bool)
        ensures
            final(self)@ == heard(old(self)@, m),
            r == final(self)@.closed,
    {
        if !self.closed {
            match m {
                ChannelMessage::Stdout(d) => {
                    self.out.extend_from_slice(&d);
                    assert(self.out@ =~= old(self)@.out + d@);
                },
                ChannelMessage::Stderr(d) => {
                    self.err.extend_from_slice(&d);
                    assert(self.err@ =~= old(self)@.err + d@);
                },
                ChannelMessage::ExitStatus(s) => {
                    self.status = Some(s);
                },
                ChannelMessage::Close => {
                    self.closed = true;
                },
                ChannelMessage::Other => {},
            }
        }
        self.closed
    }

    /// The last exit status.
    pub fn status(&self) -> (r: Option<u32>)
        ensures
            r == self@.status,
    {
        self.status
    }

    /// The reply of a command that is over; without a status it counts as 255.
    pub fn reply(self) -> (r: Reply)
        ensures
            r.rc == (match self@.status {
                Some(s) => crate::exec::exit_code_of(s),
                None => 255,
            }),
            r.out@ == self@.out,
            r.err@ == self@.err,
    {
        let rc = match self.status {
            Some(s) => to_exit_code(s),
            None => 255,
        };
        Reply { rc, out: self.out, err: self.err }
    }
}

/// What a fixed command returned.
#[derive(Debug)]
pub struct Reply {
    pub rc: i32,
    pub out: Vec<u8>,
    pub err: Vec<u8>,
}

/// Why a fixed command failed.
pub open spec fn command_failure(cmd: Seq<char>, rc: i32, err: Seq<u8>) -> crate::error::ErrorView {
    crate::error::ErrorView::Remote(
        "`"@ + cmd + "` failed with rc="@ + crate::text::dec_int(rc as int) + ": "@
            + crate::text::trimmed(crate::text::lossy_text(err)),
    )
}

/// A fixed command must exit with status 0.
pub fn exec_status(cmd: &str, reply: &Reply) -> (r: Result<(), Error>)
    ensures
        match r {
            Ok(()) => reply.rc == 0,
            Err(e) => reply.rc != 0 && e@ == command_failure(cmd@, reply.rc, reply.err@),
        },
{
    if reply.rc == 0 {
        return Ok(());
    }
    let mut s = "`".to_owned();
    s.append(cmd);
    s.append("` failed with rc=");
    push_int(&mut s, reply.rc as i64);
    s.append(": ");
    s.append(trim_string(lossy_string(&reply.err).as_str()).as_str());
    Err(Error::Remote(s))
}

/// An optional status as shown in an error.
pub open spec fn shown_status(status: Option<u32>) -> Seq<char> {
    match status {
        Some(c) => "Some("@ + crate::text::dec_nat(c as nat) + ")"@,
        None => "None"@,
    }
}

fn show_status(status: Option<u32>) -> (r: String)
    ensures
        r@ == shown_status(status),
{
    match status {
        Some(c) => {
            let mut s = "Some(".to_owned();
            push_nat(&mut s, c as u64);
            s.append(")");
            s
        },
        None => "None".to_owned(),
    }
}

/// Why an upload failed.
pub open spec fn upload_failure(path: Seq<char>, status: Option<u32>) -> crate::error::ErrorView {
    crate::error::ErrorView::Remote(
        "upload to "@ + path + " failed (status="@ + shown_status(status)
            + "); is the home directory writable?"@,
    )
}

/// Judge an upload by the exit status of its command.
pub fn upload_result(path: &str, status: Option<u32>) -> (r: Result<(), Error>)
    ensures
        match r {
            Ok(()) => status == Some(0u32),
            Err(e) => status != Some(0u32) && e@ == upload_failure(path@, status),
        },
{
    if let Some(c) = status {
        if c == 0 {
            return Ok(());
        }
    }
    let mut s = "upload to ".to_owned();
    s.append(path);
    s.append(" failed (status=");
    s.append(show_status(status).as_str());
    s.append("); is the home directory writable?");
    Err(Error::Remote(s))
}

// -- deployment ------------------------------------------------------------------------------

/// How far a deployment has come: the command whose reply is awaited.
#[derive(Debug, Clone, Copy, PartialEq, Eq, Structural)]
pub enum Stage {
    Uname,
    FirstCheck,
    Mkdir,
    Upload,
    Chmod,
    Rename,
    FinalCheck,
    /// Nothing more is awaited.
    Over,
}

impl Stage {
    /// How many replies may still be needed.
    pub open spec fn rank(self) -> nat {
        match self {
            Stage::Uname => 7,
            Stage::FirstCheck => 6,
            Stage::Mkdir => 5,
            Stage::Upload => 4,
            Stage::Chmod => 3,
            Stage::Rename => 2,
            Stage::FinalCheck => 1,
            Stage::Over => 0,
        }
    }
}

/// State of a deployment.
pub struct DeployView {
    pub stage: Stage,
    pub version: Seq<char>,
    pub nonce: Seq<char>,
    pub x86_64: Seq<u8>,
    pub aarch64: Seq<u8>,
    /// The remote architecture, known after the first reply.
    pub arch: Arch,
}

impl DeployView {
    /// The binary for the remote architecture.
    pub open spec fn binary(self) -> Seq<u8> {
        match self.arch {
            Arch::X86_64 => self.x86_64,
            Arch::Aarch64 => self.aarch64,
        }
    }

    /// Where the binary is deployed.
    pub open spec fn path(self) -> Seq<char> {
        SERVE_DIR@ + "/sp-serve-"@ + self.version + "-"@ + self.arch.name()
    }

    /// Where it is uploaded first.
    pub open spec fn tmp(self) -> Seq<char> {
        SERVE_DIR@ + "/.upload-"@ + self.nonce
    }
}

/// What a deployment does next.
pub enum DeployActionView {
    /// Run a fixed command; its reply comes next.
    Run(Seq<char>),
    /// Upload the binary to a path; the status of the upload comes next.
    Upload(Seq<char>),
    /// The binary is in place and verified.
    Done(Seq<char>),
    Fail(crate::error::ErrorView),
}

/// The architecture is settled by the reply to `uname -m`.
pub open spec fn after_uname(v: DeployView, rc: i32, out: Seq<u8>) -> (
    DeployView,
    DeployActionView,
) {
    let text = crate::text::lossy_text(out);
    let over = DeployView { stage: Stage::Over, ..v };
    if rc != 0 {
        (
            over,
            DeployActionView::Fail(
                crate::error::ErrorView::Remote(
                    "`uname -m` failed with rc="@ + crate::text::dec_int(rc as int),
                ),
            ),
        )
    } else {
        match Arch::named(text) {
            None => (
                over,
                DeployActionView::Fail(
                    crate::error::ErrorView::Remote(
                        "unsupported remote arch: "@ + crate::text::trimmed(text),
                    ),
                ),
            ),
            Some(arch) => {
                let w = DeployView { arch, ..v };
                if w.binary().len() == 0 {
                    (
                        over,
                        DeployActionView::Fail(
                            crate::error::ErrorView::Remote(
                                "no embedded sp-serve binary for "@ + arch.name() + "; set "@
                                    + arch.variable()
                                    + " to a musl build of sp-serve and rebuild"@,
                            ),
                        ),
                    )
                } else {
                    (
                        DeployView { stage: Stage::FirstCheck, ..w },
                        DeployActionView::Run("cat "@ + w.path()),
                    )
                }
            },
        }
    }
}

/// The command of a stage that must exit with status 0.
pub open spec fn stage_command(v: DeployView) -> Seq<char> {
    match v.stage {
        Stage::Mkdir => "mkdir -p "@ + SERVE_DIR@,
        Stage::Chmod => "chmod 700 "@ + v.tmp(),
        _ => "mv "@ + v.tmp() + " "@ + v.path(),
    }
}

/// One reply to a command: the state after it and what to do next.
pub open spec fn deploy_stepped(v: DeployView, rc: i32, out: Seq<u8>, err: Seq<u8>) -> (
    DeployView,
    DeployActionView,
) {
    let over = DeployView { stage: Stage::Over, ..v };
    match v.stage {
        Stage::Uname => after_uname(v, rc, out),
        Stage::FirstCheck => if rc == 0 && sha256(out) == sha256(v.binary()) {
            (over, DeployActionView::Done(v.path()))
        } else {
            let w = DeployView { stage: Stage::Mkdir, ..v };
            (w, DeployActionView::Run(stage_command(w)))
        },
        Stage::Mkdir => if rc != 0 {
            (over, DeployActionView::Fail(command_failure(stage_command(v), rc, err)))
        } else {
            (DeployView { stage: Stage::Upload, ..v }, DeployActionView::Upload(v.tmp()))
        },
        Stage::Chmod => if rc != 0 {
            (over, DeployActionView::Fail(command_failure(stage_command(v), rc, err)))
        } else {
            let w = DeployView { stage: Stage::Rename, ..v };
            (w, DeployActionView::Run(stage_command(w)))
        },
        Stage::Rename => if rc != 0 {
            (over, DeployActionView::Fail(command_failure(stage_command(v), rc, err)))
        } else {
            (
                DeployView { stage: Stage::FinalCheck, ..v },
                DeployActionView::Run("cat "@ + v.path()),
            )
        },
        _ => if rc == 0 && sha256(out) == sha256(v.binary()) {
            (over, DeployActionView::Done(v.path()))
        } else {
            (
                over,
                DeployActionView::Fail(
                    crate::error::ErrorView::Remote(
                        "deployed "@ + v.path() + " failed checksum verification"@,
                    ),
                ),
            )
        },
    }
}

/// The status of the upload: the state after it and what to do next.
pub open spec fn deploy_uploaded(v: DeployView, status: Option<u32>) -> (
    DeployView,
    DeployActionView,
) {
    if status != Some(0u32) {
        (
            DeployView { stage: Stage::Over, ..v },
            DeployActionView::Fail(upload_failure(v.tmp(), status)),
        )
    } else {
        let w = DeployView { stage: Stage::Chmod, ..v };
        (w, DeployActionView::Run(stage_command(w)))
    }
}

/// What a deployment does next.
#[derive(Debug)]
pub enum DeployAction {
    /// Run a fixed command; hand its reply to [`Deploy::replied`].
    Run(String),
    /// Upload [`Deploy::binary`] to a path; hand the status of the upload to
    /// [`Deploy::uploaded`].
    Upload(String),
    /// The binary is in place and verified.
    Done(String),
    Fail(Error),
}

impl View for DeployAction {
    type V = DeployActionView;

    open spec fn view(&self) -> DeployActionView {
        match self {
            DeployAction::Run(c) => DeployActionView::Run(c@),
            DeployAction::Upload(p) => DeployActionView::Upload(p@),
            DeployAction::Done(p) => DeployActionView::Done(p@),
            DeployAction::Fail(e) => DeployActionView::Fail(e@),
        }
    }
}

/// Makes sure that `sp-serve` is deployed on a host.
#[derive(Debug)]
pub struct Deploy {
    stage: Stage,
    version: String,
    nonce: String,
    bins: ServeBinaries,
    arch: Arch,
}

impl View for Deploy {
    type V = DeployView;

    closed spec fn view(&self) -> DeployView {
        DeployView {
            stage: self.stage,
            version: self.version@,
            nonce: self.nonce@,
            x86_64: self.bins.x86_64@,
            aarch64: self.bins.aarch64@,
            arch: self.arch,
        }
    }
}

impl Deploy {
    /// Start a deployment of the given version of `sp-serve`; the nonce names the
    /// upload.
    pub fn start(version: String, nonce: String, bins: ServeBinaries) -> (r: (
        Deploy,
        DeployAction,
    ))
        ensures
            r.0@ == (DeployView {
                stage: Stage::Uname,
                version: version@,
                nonce: nonce@,
                x86_64: bins.x86_64@,
                aarch64: bins.aarch64@,
                arch: r.0@.arch,
            }),
            r.1@ == DeployActionView::Run("uname -m"@),
    {
        let d = Deploy { stage: Stage::Uname, version, nonce, bins, arch: Arch::X86_64 };
        (d, DeployAction::Run("uname -m".to_owned()))
    }

    /// What is awaited.
    pub fn stage(&self) -> (r: Stage)
        ensures
            r == self@.stage,
    {
        self.stage
    }

    /// The binary to upload.
    pub fn binary(&self) -> (r: &[u8])
        ensures
            r@ == self@.binary(),
    {
        match self.arch {
            Arch::X86_64 => self.bins.x86_64.as_slice(),
            Arch::Aarch64 => self.bins.aarch64.as_slice(),
        }
    }

    fn path(&self) -> (r: String)
        ensures
            r@ == self@.path(),
    {
        let mut s = SERVE_DIR.to_owned();
        s.append("/sp-serve-");
        s.append(self.version.as_str());
        s.append("-");
        s.append(self.arch.as_str());
        s
    }

    fn tmp(&self) -> (r: String)
        ensures
            r@ == self@.tmp(),
    {
        let mut s = SERVE_DIR.to_owned();
        s.append("/.upload-");
        s.append(self.nonce.as_str());
        s
    }

    fn command(&self) -> (r: String)
        ensures
            r@ == stage_command(self@),
    {
        match self.stage {
            Stage::Mkdir => {
                let mut s = "mkdir -p ".to_owned();
                s.append(SERVE_DIR);
                s
            },
            Stage::Chmod => {
                let mut s = "chmod 700 ".to_owned();
                s.append(self.tmp().as_str());
                s
            },
            _ => {
                let mut s = "mv ".to_owned();
                s.append(self.tmp().as_str());
                s.append(" ");
                s.append(self.path().as_str());
                s
            },
        }
    }

    fn check_command(&self) -> (r: String)
        ensures
            r@ == "cat "@ + self@.path(),
    {
        let mut s = "cat ".to_owned();
        s.append(self.path().as_str());
        s
    }

    fn identified(&mut self, reply: Reply) -> (r: DeployAction)
        ensures
            (final(self)@, r@) == after_uname(old(self)@, reply.rc, reply.out@),
    {
        self.stage = Stage::Over;
        if reply.rc != 0 {
            let mut s = "`uname -m` failed with rc=".to_owned();
            push_int(&mut s, reply.rc as i64);
            return DeployAction::Fail(Error::Remote(s));
        }
        let text = lossy_string(&reply.out);
        let arch = match Arch::parse(text.as_str()) {
            Some(a) => a,
            None => {
                let mut s = "unsupported remote arch: ".to_owned();
                s.append(trim_string(text.as_str()).as_str());
                return DeployAction::Fail(Error::Remote(s));
            },
        };
        if serve_binary(&self.bins, arch).is_none() {
            let mut s = "no embedded sp-serve binary for ".to_owned();
            s.append(arch.as_str());
            s.append("; set ");
            s.append(arch.env_var());
            s.append(" to a musl build of sp-serve and rebuild");
            return DeployAction::Fail(Error::Remote(s));
        }
        self.arch = arch;
        self.stage = Stage::FirstCheck;
        DeployAction::Run(self.check_command())
    }

    /// Take the reply to the command that was run.
    pub fn replied(&mut self, reply: Reply) -> (r: DeployAction)
        requires
            old(self)@.stage != Stage::Upload,
            old(self)@.stage != Stage::Over,
        ensures
            (final(self)@, r@) == deploy_stepped(
                old(self)@,
                reply.rc,
                reply.out@,
                reply.err@,
            ),
    {
        match self.stage {
            Stage::Uname => self.identified(reply),
            Stage::FirstCheck => {
                if remote_matches(reply.rc, &reply.out, self.binary()) {
                    self.stage = Stage::Over;
                    DeployAction::Done(self.path())
                } else {
                    self.stage = Stage::Mkdir;
                    DeployAction::Run(self.command())
                }
            },
            Stage::Mkdir => match exec_status(self.command().as_str(), &reply) {
                Err(e) => {
                    self.stage = Stage::Over;
                    DeployAction::Fail(e)
                },
                Ok(()) => {
                    self.stage = Stage::Upload;
                    DeployAction::Upload(self.tmp())
                },
            },
            Stage::Chmod => match exec_status(self.command().as_str(), &reply) {
                Err(e) => {
                    self.stage = Stage::Over;
                    DeployAction::Fail(e)
                },
                Ok(()) => {
                    // Rename is atomic on the same filesystem: no half-written
                    // serve binary.
                    self.stage = Stage::Rename;
                    DeployAction::Run(self.command())
                },
            },
            Stage::Rename => match exec_status(self.command().as_str(), &reply) {
                Err(e) => {
                    self.stage = Stage::Over;
                    DeployAction::Fail(e)
                },
                Ok(()) => {
                    self.stage = Stage::FinalCheck;
                    DeployAction::Run(self.check_command())
                },
            },
            _ => {
                let matches = remote_matches(reply.rc, &reply.out, self.binary());
                self.stage = Stage::Over;
                if matches {
                    DeployAction::Done(self.path())
                } else {
                    let mut s = "deployed ".to_owned();
                    s.append(self.path().as_str());
                    s.append(" failed checksum verification");
                    DeployAction::Fail(Error::Remote(s))
                }
            },
        }
    }

    /// Take the exit status of the upload.
    pub fn uploaded(&mut self, status: Option<u32>) -> (r: DeployAction)
        requires
            old(self)@.stage == Stage::Upload,
        ensures
            (final(self)@, r@) == deploy_uploaded(old(self)@, status),
    {
        match upload_result(self.tmp().as_str(), status) {
            Err(e) => {
                self.stage = Stage::Over;
                DeployAction::Fail(e)
            },
            Ok(()) => {
                self.stage = Stage::Chmod;
                DeployAction::Run(self.command())
            },
        }
    }
}

/// Only a verified binary is ever run: a deployment ends well only on a reply
/// whose checksum is that of the embedded binary, and then names its path.
pub proof fn law_only_verified_binaries_run(
    v: DeployView,
    rc: i32,
    out: Seq<u8>,
    err: Seq<u8>,
    status: Option<u32>,
)
    ensures
        deploy_stepped(v, rc, out, err).1 matches DeployActionView::Done(p) ==> {
            &&& p == v.path()
            &&& rc == 0
            &&& sha256(out) == sha256(v.binary())
        },
        !(deploy_uploaded(v, status).1 is Done),
{
}

/// A binary that is already in place is not uploaded again.
pub proof fn law_deployed_binary_is_reused(v: DeployView, err: Seq<u8>)
    requires
        v.stage == Stage::FirstCheck,
    ensures
        deploy_stepped(v, 0, v.binary(), err).1 == DeployActionView::Done(v.path()),
{
}

/// A deployment ends: every reply brings it closer to its end, and it goes on
/// only with a command or an upload.
pub proof fn law_deployment_ends(
    v: DeployView,
    rc: i32,
    out: Seq<u8>,
    err: Seq<u8>,
    status: Option<u32>,
)
    requires
        v.stage != Stage::Over,
    ensures
        v.stage != Stage::Upload ==> {
            &&& deploy_stepped(v, rc, out, err).0.stage.rank() < v.stage.rank()
            &&& deploy_stepped(v, rc, out, err).0.stage == Stage::Over <==> deploy_stepped(
                v,
                rc,
                out,
                err,
            ).1 is Done || deploy_stepped(v, rc, out, err).1 is Fail
            &&& deploy_stepped(v, rc, out, err).0.stage == Stage::Upload <==> deploy_stepped(
                v,
                rc,
                out,
                err,
            ).1 is Upload
        },
        v.stage == Stage::Upload ==> {
            &&& deploy_uploaded(v, status).0.stage.rank() < v.stage.rank()
            &&& deploy_uploaded(v, status).0.stage == Stage::Over <==> deploy_uploaded(
                v,
                status,
            ).1 is Fail
            &&& deploy_uploaded(v, status).0.stage != Stage::Over <==> deploy_uploaded(
                v,
                status,
            ).1 is Run
        },
{
}

// -- serve's log -----------------------------------------------------------------------------

/// The complete lines of a text, without trailing white space.
pub open spec fn log_lines(s: Seq<char>) -> Seq<Seq<char>>
    decreases s.len(),
    via log_lines_decreases
{
    let k = crate::text::first_index(s, '\n');
    if k < s.len() {
        seq![crate::text::trimmed_end(s.take(k + 1))] + log_lines(s.skip(k + 1))
    } else {
        Seq::empty()
    }
}

#[via_fn]
proof fn log_lines_decreases(s: Seq<char>) {
    crate::text::lemma_first_index(s, '\n');
}

/// What follows the last complete line of a text.
pub open spec fn log_rest(s: Seq<char>) -> Seq<char>
    decreases s.len(),
    via log_rest_decreases
{
    let k = crate::text::first_index(s, '\n');
    if k < s.len() {
        log_rest(s.skip(k + 1))
    } else {
        s
    }
}

#[via_fn]
proof fn log_rest_decreases(s: Seq<char>) {
    crate::text::lemma_first_index(s, '\n');
}

/// How the text is cut into chunks makes no difference to the lines of the log.
pub proof fn law_log_chunking(a: Seq<char>, b: Seq<char>)
    ensures
        log_lines(a + b) == log_lines(a) + log_lines(log_rest(a) + b),
        log_rest(a + b) == log_rest(log_rest(a) + b),
    decreases a.len(),
{
    let k = crate::text::first_index(a, '\n');
    crate::text::lemma_first_index(a, '\n');
    if k < a.len() {
        crate::text::lemma_first_index_unique(a + b, '\n', k);
        law_log_chunking(a.skip(k + 1), b);
        assert((a + b).take(k + 1) =~= a.take(k + 1));
        assert((a + b).skip(k + 1) =~= a.skip(k + 1) + b);
        let line = seq![crate::text::trimmed_end(a.take(k + 1))];
        let tail = log_lines(a.skip(k + 1));
        let more = log_lines(log_rest(a.skip(k + 1)) + b);
        assert(line + (tail + more) =~= (line + tail) + more);
    } else {
        assert(log_lines(a) + log_lines(a + b) =~= log_lines(a + b));
    }
}

/// Assembles serve's stderr chunks into log lines.
#[derive(Debug)]
pub struct ServeLog {
    buf: String,
}

impl View for ServeLog {
    type V = Seq<char>;

    /// The incomplete line.
    closed spec fn view(&self) -> Seq<char> {
        self.buf@
    }
}

impl ServeLog {
    pub fn new() -> (r: ServeLog)
        ensures
            r@ == Seq::<char>::empty(),
    {
        let r = ServeLog { buf: String::new() };
        assert(r@ =~= Seq::<char>::empty());
        r
    }

    /// Take one chunk; returns the lines that became complete.
    pub fn feed(&mut self, bytes: &[u8]) -> (r: Vec<String>)
        ensures
            crate::text::texts(r@) == log_lines(
                old(self)@ + crate::text::lossy_text(bytes@),
            ),
            final(self)@ == log_rest(old(self)@ + crate::text::lossy_text(bytes@)),
    {
        self.buf.append(lossy_string(bytes).as_str());
        let ghost all = old(self)@ + crate::text::lossy_text(bytes@);
        let v = str_chars(self.buf.as_str());
        let mut lines: Vec<String> = Vec::new();
        let mut from: usize = 0;
        assert(all.skip(0) =~= all);
        assert(crate::text::texts(lines@) + log_lines(all) =~= log_lines(all));
        loop
            invariant
                v@ == all,
                from <= all.len(),
                all == old(self)@ + crate::text::lossy_text(bytes@),
                log_lines(all) == crate::text::texts(lines@) + log_lines(
                    all.skip(from as int),
                ),
                log_rest(all) == log_rest(all.skip(from as int)),
            decreases all.len() - from,
        {
            let k = find_char_from(&v, from, '\n');
            if k == v.len() {
                assert(crate::text::texts(lines@) + Seq::<Seq<char>>::empty()
                    =~= crate::text::texts(lines@));
                self.buf = sub_string(&v, from, k);
                assert(all.subrange(from as int, k as int) =~= all.skip(from as int));
                return lines;
            }
            let line = trim_end_string(sub_string(&v, from, k + 1).as_str());
            proof {
                let rest = all.skip(from as int);
                assert(rest.take(k - from + 1) =~= all.subrange(from as int, k + 1));
                assert(rest.skip(k - from + 1) =~= all.skip(k + 1));
                crate::text::lemma_texts_push(lines@, line);
                let before = crate::text::texts(lines@);
                let tail = log_lines(all.skip(k + 1));
                assert(before + (seq![line@] + tail) =~= before.push(line@) + tail);
            }
            lines.push(line);
            from = k + 1;
        }
    }

    /// The incomplete line, at the end of the stream.
    pub fn flush(&mut self) -> (r: Option<String>)
        ensures
            match r {
                Some(s) => old(self)@.len() > 0 && s@ == crate::text::trimmed_end(old(self)@),
                None => old(self)@.len() == 0,
            },
            final(self)@ == Seq::<char>::empty(),
    {
        if self.buf.as_str().is_empty() {
            assert(self.buf@ =~= Seq::<char>::empty());
            return None;
        }
        let line = trim_end_string(self.buf.as_str());
        self.buf = String::new();
        assert(self.buf@ =~= Seq::<char>::empty());
        Some(line)
    }
}

// -- one execution -----------------------------------------------------------------------------

/// The output of a batch of messages: streams are forwarded in order, up to the
/// report that ends the execution.
pub open spec fn batch_output(ms: Seq<crate::proto::EventMessageView>) -> Seq<OutputView>
    decreases ms.len(),
{
    if ms.len() == 0 {
        Seq::empty()
    } else {
        match ms[0] {
            crate::proto::EventMessageView::Stdout(d) => seq![OutputView::Stdout(d)]
                + batch_output(ms.skip(1)),
            crate::proto::EventMessageView::Stderr(d) => seq![OutputView::Stderr(d)]
                + batch_output(ms.skip(1)),
            crate::proto::EventMessageView::Exit(_) => Seq::empty(),
            crate::proto::EventMessageView::Pong(_) => batch_output(ms.skip(1)),
        }
    }
}

/// The first report in a batch of messages.
pub open spec fn batch_report(ms: Seq<crate::proto::EventMessageView>) -> Option<
    crate::proto::ReportView,
>
    decreases ms.len(),
{
    if ms.len() == 0 {
        None
    } else {
        match ms[0] {
            crate::proto::EventMessageView::Exit(rep) => Some(rep),
            _ => batch_report(ms.skip(1)),
        }
    }
}

/// How the messages are cut into batches makes no difference: a batch without
/// the report is forwarded whole and the next one goes on from there, and nothing
/// is forwarded behind the report.
pub proof fn law_batching(
    a: Seq<crate::proto::EventMessageView>,
    b: Seq<crate::proto::EventMessageView>,
)
    ensures
        batch_report(a) is None ==> {
            &&& batch_output(a + b) == batch_output(a) + batch_output(b)
            &&& batch_report(a + b) == batch_report(b)
        },
        batch_report(a) is Some ==> {
            &&& batch_output(a + b) == batch_output(a)
            &&& batch_report(a + b) == batch_report(a)
        },
    decreases a.len(),
{
    if a.len() == 0 {
        assert(a + b =~= b);
        assert(batch_output(a) + batch_output(b) =~= batch_output(b));
    } else {
        law_batching(a.skip(1), b);
        assert((a + b)[0] == a[0]);
        assert((a + b).skip(1) =~= a.skip(1) + b);
        let tail = batch_output(a.skip(1));
        match a[0] {
            crate::proto::EventMessageView::Stdout(d) => {
                let h = seq![OutputView::Stdout(d)];
                assert(h + (tail + batch_output(b)) =~= (h + tail) + batch_output(b));
            },
            crate::proto::EventMessageView::Stderr(d) => {
                let h = seq![OutputView::Stderr(d)];
                assert(h + (tail + batch_output(b)) =~= (h + tail) + batch_output(b));
            },
            _ => {},
        }
    }
}

/// The contents of a list of messages.
pub open spec fn message_views(v: Seq<EventMessage>) -> Seq<crate::proto::EventMessageView> {
    v.map_values(|m: EventMessage| m@)
}

/// The contents of a list of output events.
pub open spec fn output_views(v: Seq<OutputEvent>) -> Seq<OutputView> {
    v.map_values(|o: OutputEvent| o@)
}

/// State of one execution through `sp-serve`.
pub struct RunView {
    /// Bytes of the frame stream not decoded yet.
    pub undecoded: Seq<u8>,
    /// The incomplete line of serve's stderr.
    pub log: Seq<char>,
    pub report: Option<crate::proto::ReportView>,
    /// Exit status of serve itself.
    pub serve_status: Option<u32>,
    pub input_open: bool,
}

/// The outcome that a report stands for.
pub open spec fn outcome_of(rep: crate::proto::ReportView) -> OutcomeView {
    OutcomeView {
        exit_code: rep.code,
        new_cwd: rep.cwd,
        new_state: rep.state,
        error: rep.error,
        timed_out: rep.timed_out,
    }
}

/// The error of an execution without a report.
pub open spec fn no_report(serve_status: Option<u32>) -> crate::error::ErrorView {
    crate::error::ErrorView::Remote(
        "sp-serve closed the channel without an exit report (exit status "@ + shown_status(
            serve_status,
        ) + "); see daemon log for its stderr"@,
    )
}

/// What follows from a batch of messages.
#[derive(Debug)]
pub struct Batch {
    pub output: Vec<OutputEvent>,
    /// The report arrived; the execution is over.
    pub done: bool,
}

/// One execution through `sp-serve` on a channel of its own.
#[derive(Debug)]
pub struct RemoteRun {
    decoder: EventDecoder,
    log: ServeLog,
    report: Option<ExitReport>,
    serve_status: Option<u32>,
    input_open: bool,
}

impl View for RemoteRun {
    type V = RunView;

    closed spec fn view(&self) -> RunView {
        RunView {
            undecoded: self.decoder@,
            log: self.log@,
            report: (match self.report {
                Some(r) => Some(r@),
                None => None,
            }),
            serve_status: self.serve_status,
            input_open: self.input_open,
        }
    }
}

impl RemoteRun {
    pub fn new() -> (r: RemoteRun)
        ensures
            r@ == (RunView {
                undecoded: Seq::empty(),
                log: Seq::empty(),
                report: None,
                serve_status: None,
                input_open: true,
            }),
    {
        RemoteRun {
            decoder: EventDecoder::new(),
            log: ServeLog::new(),
            report: None,
            serve_status: None,
            input_open: true,
        }
    }

    /// Whether input still has to be waited for.
    pub fn input_open(&self) -> (r: bool)
        ensures
            r == self@.input_open,
    {
        self.input_open
    }

    /// The message that an input event is sent to serve as.
    pub fn input(&self, ev: InputEvent) -> (r: ExecMessage)
        ensures
            r@ == (match ev {
                InputEvent::Stdin(d) => crate::proto::ExecMessageView::StdinData(d@),
                InputEvent::StdinEof => crate::proto::ExecMessageView::StdinEof,
                InputEvent::Signal(s) => crate::proto::ExecMessageView::Signal(s),
            }),
    {
        match ev {
            InputEvent::Stdin(d) => ExecMessage::StdinData(d),
            InputEvent::StdinEof => ExecMessage::StdinEof,
            InputEvent::Signal(s) => ExecMessage::Signal(s),
        }
    }

    /// Nothing more for the remote command.
    pub fn input_closed(&mut self)
        ensures
            final(self)@ == (RunView { input_open: false, ..old(self)@ }),
    {
        self.input_open = false;
    }

    /// Take channel data; returns the frames that became complete, whose
    /// messages go to [`RemoteRun::messages`].
    pub fn data(&mut self, bytes: &[u8]) -> (r: Result<Vec<EventFrame>, Error>)
        ensures
            final(self)@ == (RunView {
                undecoded: crate::proto::decoded(old(self)@.undecoded + bytes@).rest,
                ..old(self)@
            }),
            match r {
                Ok(v) => {
                    let d = crate::proto::decoded(old(self)@.undecoded + bytes@);
                    d.error is None && crate::proto::event_views(v@) == d.frames
                },
                Err(e) => crate::proto::decoded(old(self)@.undecoded + bytes@).error matches Some(
                    p,
                ) && e@ == crate::error::ErrorView::of_proto(p),
            },
    {
        match self.decoder.push(bytes) {
            Ok(v) => Ok(v),
            Err(e) => Err(Error::from_proto(e)),
        }
    }

    /// Take the messages of some frames.
    pub fn messages(&mut self, ms: Vec<EventMessage>) -> (r: Batch)
        requires
            old(self)@.report is None,
        ensures
            output_views(r.output@) == batch_output(message_views(ms@)),
            final(self)@ == (RunView {
                report: batch_report(message_views(ms@)),
                ..old(self)@
            }),
            r.done == (final(self)@.report is Some),
    {
        let ghost all = message_views(ms@);
        let mut output: Vec<OutputEvent> = Vec::new();
        let mut done = false;
        assert(all.skip(0) =~= all);
        assert(output_views(output@) + batch_output(all) =~= batch_output(all));
        for m in it: ms
            invariant_except_break
                !done,
                self.report is None,
                batch_output(all) == output_views(output@) + batch_output(
                    all.skip(it.index()),
                ),
                batch_report(all) == batch_report(all.skip(it.index())),
            invariant
                it.seq() == ms@,
                all == message_views(ms@),
                self.decoder == old(self).decoder,
                self.log == old(self).log,
                self.serve_status == old(self).serve_status,
                self.input_open == old(self).input_open,
            ensures
                batch_output(all) == output_views(output@),
                (match self.report {
                    Some(r) => Some(r@),
                    None => None,
                }) == batch_report(all),
                done == (self.report is Some),
        {
            let ghost i = it.index();
            let ghost before = output_views(output@);
            let ghost tail = batch_output(all.skip(i + 1));
            proof {
                assert(all[i] == m@);
                assert(all.skip(i)[0] == m@);
                assert(all.skip(i).skip(1) =~= all.skip(i + 1));
            }
            match m {
                EventMessage::Stdout(d) => {
                    output.push(OutputEvent::Stdout(d));
                    assert(output_views(output@) =~= before.push(OutputView::Stdout(d@)));
                    assert(before + (seq![OutputView::Stdout(d@)] + tail) =~= before.push(
                        OutputView::Stdout(d@),
                    ) + tail);
                },
                EventMessage::Stderr(d) => {
                    output.push(OutputEvent::Stderr(d));
                    assert(output_views(output@) =~= before.push(OutputView::Stderr(d@)));
                    assert(before + (seq![OutputView::Stderr(d@)] + tail) =~= before.push(
                        OutputView::Stderr(d@),
                    ) + tail);
                },
                EventMessage::Exit(rep) => {
                    self.report = Some(rep);
                    done = true;
                    assert(before + Seq::<OutputView>::empty() =~= before);
                    break;
                },
                EventMessage::Pong(_) => {},
            }
        }
        Batch { output, done }
    }

    /// Take serve's stderr; returns the log lines that became complete.
    pub fn stderr(&mut self, bytes: &[u8]) -> (r: Vec<String>)
        ensures
            crate::text::texts(r@) == log_lines(
                old(self)@.log + crate::text::lossy_text(bytes@),
            ),
            final(self)@ == (RunView {
                log: log_rest(old(self)@.log + crate::text::lossy_text(bytes@)),
                ..old(self)@
            }),
    {
        self.log.feed(bytes)
    }

    /// Take the exit status of serve itself.
    pub fn status(&mut self, s: u32)
        ensures
            final(self)@ == (RunView { serve_status: Some(s), ..old(self)@ }),
    {
        self.serve_status = Some(s);
    }

    /// The outcome, once the report arrived or the channel closed, and the last
    /// line of serve's log.
    pub fn finish(self) -> (r: (Option<String>, Result<ExecOutcome, Error>))
        ensures
            match r.0 {
                Some(s) => self@.log.len() > 0 && s@ == crate::text::trimmed_end(self@.log),
                None => self@.log.len() == 0,
            },
            match self@.report {
                Some(rep) => r.1 matches Ok(o) && o@ == outcome_of(rep),
                None => r.1 matches Err(e) && e@ == no_report(self@.serve_status),
            },
    {
        let mut log = self.log;
        let line = log.flush();
        let result = match self.report {
            Some(rep) => Ok(
                ExecOutcome {
                    exit_code: rep.code,
                    new_cwd: rep.cwd,
                    new_state: rep.state,
                    error: rep.error,
                    timed_out: rep.timed_out,
                },
            ),
            None => {
                let mut s =
                    "sp-serve closed the channel without an exit report (exit status ".to_owned();
                s.append(show_status(self.serve_status).as_str());
                s.append("); see daemon log for its stderr");
                Err(Error::Remote(s))
            },
        };
        (line, result)
    }
}

} // verus!
