//! SSH connection: transport (direct or ProxyCommand), host key verification and
//! authentication (agent first, then identity files). What an SSH library does
//! is done around the decisions made here.

use vstd::prelude::*;

use crate::error::Error;
use crate::ssh_config::ResolvedHost;
use crate::text::{copy_strings, debug_string, join_strings, push_nat, str_eq};

verus! {

/// Seconds to wait for a TCP connection when the ssh config sets no timeout.
pub const DEFAULT_CONNECT_SECS: u64 = 15;

// -- host keys -----------------------------------------------------------------------------

/// What one known_hosts file says about the server's key.
#[derive(Debug, Clone, Copy, PartialEq, Eq, Structural)]
pub enum KeyCheck {
    /// The key is recorded for the host.
    Known,
    /// The host is not recorded.
    Unknown,
    /// Another key is recorded for the host, on this line.
    Changed(u64),
    /// The file could not be consulted.
    Failed,
}

/// The known_hosts files worth consulting: `present` tells for each whether it is
/// a file. `ssh -G` emits /dev/null and platform placeholders that must be
/// skipped, plus missing defaults.
pub open spec fn usable(files: Seq<Seq<char>>, present: Seq<bool>) -> Seq<Seq<char>>
    decreases files.len(),
{
    if files.len() == 0 {
        Seq::empty()
    } else {
        let rest = usable(files.drop_last(), present);
        if files.last() != "/dev/null"@ && present[files.len() - 1] {
            rest.push(files.last())
        } else {
            rest
        }
    }
}

/// The known_hosts files worth consulting.
pub fn usable_files(files: &Vec<String>, present: &Vec<bool>) -> (r: Vec<String>)
    requires
        files@.len() == present@.len(),
    ensures
        crate::text::texts(r@) == usable(crate::text::texts(files@), present@),
{
    let mut out: Vec<String> = Vec::new();
    let ghost all = crate::text::texts(files@);
    let mut i: usize = 0;
    assert(crate::text::texts(out@) =~= Seq::<Seq<char>>::empty());
    while i < files.len()
        invariant
            i <= files@.len(),
            files@.len() == present@.len(),
            all == crate::text::texts(files@),
            crate::text::texts(out@) == usable(all.take(i as int), present@),
        decreases files@.len() - i,
    {
        assert(all.take(i + 1).drop_last() =~= all.take(i as int));
        assert(all.take(i + 1).last() == files@[i as int]@);
        if !str_eq(files[i].as_str(), "/dev/null") && present[i] {
            let f = files[i].as_str().to_owned();
            proof {
                crate::text::lemma_texts_push(out@, f);
            }
            out.push(f);
        }
        i = i + 1;
    }
    assert(all.take(files@.len() as int) =~= all);
    out
}

/// The host as shown in messages.
pub open spec fn host_port(host: Seq<char>, port: u16) -> Seq<char> {
    host + ":"@ + crate::text::dec_nat(port as nat)
}

/// Why a key that differs from the recorded one is rejected.
pub open spec fn changed_reason(
    host: Seq<char>,
    port: u16,
    file: Seq<char>,
    line: Option<u64>,
) -> Seq<char> {
    "host key of "@ + host_port(host, port) + " changed ("@ + file + " line "@ + (match line {
        Some(n) => crate::text::dec_nat(n as nat),
        None => "?"@,
    }) + "); remove the stale entry or verify the server"@
}

/// Why a key that is recorded nowhere is rejected.
pub open spec fn unknown_reason(host: Seq<char>, port: u16, files: Seq<Seq<char>>) -> Seq<char> {
    "host key of "@ + host_port(host, port) + " not found in "@ + crate::text::joined(
        files,
        ", "@,
    ) + "; connect once with `ssh "@ + host + " true` to record it"@
}

/// The index of the first file that settles the matter, or the number of files.
pub open spec fn settled_at(checks: Seq<KeyCheck>) -> int
    decreases checks.len(),
{
    if checks.len() == 0 || checks[0] != KeyCheck::Unknown {
        0
    } else {
        1 + settled_at(checks.skip(1))
    }
}

/// Why the server's key is rejected; `None` when it is accepted. The first file
/// that knows the host settles it; a host that none knows is accepted when there
/// is no file to know it or when unknown hosts are welcome.
pub open spec fn key_rejection(
    host: Seq<char>,
    port: u16,
    files: Seq<Seq<char>>,
    checks: Seq<KeyCheck>,
    strict: bool,
) -> Option<Seq<char>> {
    let k = settled_at(checks);
    if k < checks.len() {
        match checks[k] {
            KeyCheck::Changed(line) => Some(changed_reason(host, port, files[k], Some(line))),
            KeyCheck::Failed => Some(changed_reason(host, port, files[k], None)),
            _ => None,
        }
    } else if files.len() == 0 || !strict {
        None
    } else {
        Some(unknown_reason(host, port, files))
    }
}

proof fn lemma_settled_at(checks: Seq<KeyCheck>, k: int)
    requires
        0 <= k <= checks.len(),
        forall|i: int| 0 <= i < k ==> checks[i] == KeyCheck::Unknown,
        k < checks.len() ==> checks[k] != KeyCheck::Unknown,
    ensures
        settled_at(checks) == k,
    decreases checks.len(),
{
    if checks.len() > 0 && checks[0] == KeyCheck::Unknown {
        assert forall|i: int| 0 <= i < k - 1 implies checks.skip(1)[i]
            == KeyCheck::Unknown by {
            assert(checks.skip(1)[i] == checks[i + 1]);
        }
        lemma_settled_at(checks.skip(1), k - 1);
    }
}

fn changed_message(host: &str, port: u16, file: &str, line: Option<u64>) -> (r: String)
    ensures
        r@ == changed_reason(host@, port, file@, line),
{
    let mut name = host.to_owned();
    name.append(":");
    push_nat(&mut name, port as u64);
    let mut shown = "?".to_owned();
    if let Some(n) = line {
        shown = crate::text::nat_string(n);
    }
    let mut s = "host key of ".to_owned();
    s.append(name.as_str());
    s.append(" changed (");
    s.append(file);
    s.append(" line ");
    s.append(shown.as_str());
    s.append("); remove the stale entry or verify the server");
    s
}

fn unknown_message(host: &str, port: u16, files: &Vec<String>) -> (r: String)
    ensures
        r@ == unknown_reason(host@, port, crate::text::texts(files@)),
{
    let mut name = host.to_owned();
    name.append(":");
    push_nat(&mut name, port as u64);
    let mut s = "host key of ".to_owned();
    s.append(name.as_str());
    s.append(" not found in ");
    s.append(join_strings(files, ", ").as_str());
    s.append("; connect once with `ssh ");
    s.append(host);
    s.append(" true` to record it");
    s
}

/// Judge the server's key by what the consulted known_hosts files say of it, in
/// order: the reason for a rejection, `None` when it is accepted.
pub fn check_server_key(
    host: &str,
    port: u16,
    files: &Vec<String>,
    checks: &Vec<KeyCheck>,
    strict: bool,
) -> (r: Option<String>)
    requires
        files@.len() == checks@.len(),
    ensures
        crate::text::opt_text(r) == key_rejection(
            host@,
            port,
            crate::text::texts(files@),
            checks@,
            strict,
        ),
{
    let mut i: usize = 0;
    while i < files.len()
        invariant
            i <= files@.len(),
            files@.len() == checks@.len(),
            forall|j: int| 0 <= j < i ==> checks@[j] == KeyCheck::Unknown,
        decreases files@.len() - i,
    {
        proof {
            if checks@[i as int] != KeyCheck::Unknown {
                lemma_settled_at(checks@, i as int);
            }
        }
        match checks[i] {
            KeyCheck::Known => return None,
            KeyCheck::Unknown => {},
            // A recorded-but-changed key is always a hard failure.
            KeyCheck::Changed(line) => return Some(
                changed_message(host, port, files[i].as_str(), Some(line)),
            ),
            KeyCheck::Failed => return Some(
                changed_message(host, port, files[i].as_str(), None),
            ),
        }
        i = i + 1;
    }
    proof {
        lemma_settled_at(checks@, i as int);
    }
    // First sight of a host, or no usable known_hosts at all, is accepted with
    // `StrictHostKeyChecking no/off/accept-new`.
    if files.len() == 0 || !strict {
        None
    } else {
        Some(unknown_message(host, port, files))
    }
}

/// A key that differs from the recorded one is rejected however lenient the
/// configuration is, unless an earlier file knows it.
pub proof fn law_changed_key_is_always_rejected(
    host: Seq<char>,
    port: u16,
    files: Seq<Seq<char>>,
    checks: Seq<KeyCheck>,
    strict: bool,
    k: int,
)
    requires
        0 <= k < checks.len(),
        checks[k] is Changed,
        forall|i: int| 0 <= i < k ==> checks[i] == KeyCheck::Unknown,
    ensures
        key_rejection(host, port, files, checks, strict) is Some,
{
    lemma_settled_at(checks, k);
}

/// A key is accepted exactly when the first file that knows the host records it,
/// or when no file knows the host and unknown hosts are welcome or no file is
/// there to know it.
pub proof fn law_accepted_keys(
    host: Seq<char>,
    port: u16,
    files: Seq<Seq<char>>,
    checks: Seq<KeyCheck>,
    strict: bool,
)
    requires
        files.len() == checks.len(),
    ensures
        key_rejection(host, port, files, checks, strict) is None <==> {
            ||| exists|k: int|
                0 <= k < checks.len() && #[trigger] checks[k] == KeyCheck::Known && forall|i: int|
                    0 <= i < k ==> checks[i] == KeyCheck::Unknown
            ||| (forall|i: int| 0 <= i < checks.len() ==> checks[i] == KeyCheck::Unknown) && (
            files.len() == 0 || !strict)
        },
{
    let k = settled_at(checks);
    lemma_settled(checks);
    if k < checks.len() {
        assert forall|j: int|
            0 <= j < checks.len() && #[trigger] checks[j] == KeyCheck::Known && (forall|i: int|
                0 <= i < j ==> checks[i] == KeyCheck::Unknown) implies j == k by {
            lemma_settled_at(checks, j);
        }
        if checks[k] == KeyCheck::Known {
            assert(0 <= k < checks.len() && checks[k] == KeyCheck::Known);
        }
    }
}

proof fn lemma_settled(checks: Seq<KeyCheck>)
    ensures
        0 <= settled_at(checks) <= checks.len(),
        forall|i: int| 0 <= i < settled_at(checks) ==> checks[i] == KeyCheck::Unknown,
        settled_at(checks) < checks.len() ==> checks[settled_at(checks)] != KeyCheck::Unknown,
    decreases checks.len(),
{
    if checks.len() > 0 && checks[0] == KeyCheck::Unknown {
        lemma_settled(checks.skip(1));
        assert forall|i: int| 0 <= i < settled_at(checks) implies checks[i]
            == KeyCheck::Unknown by {
            if i > 0 {
                assert(checks[i] == checks.skip(1)[i - 1]);
            }
        }
    }
}

// -- the transport -----------------------------------------------------------------------------

/// How to reach a host.
#[derive(Debug)]
pub enum Transport {
    /// Through a command whose stdio is the connection.
    Proxy(String),
    /// By TCP, giving up after some seconds.
    Tcp { hostname: String, port: u16, timeout_secs: u64 },
}

/// How to reach a host: its ProxyCommand when it has one, TCP otherwise.
pub fn transport(h: &ResolvedHost) -> (r: Transport)
    ensures
        match h@.proxy_command {
            Some(pc) => r matches Transport::Proxy(cmd) && cmd@ == pc,
            None => r matches Transport::Tcp { hostname, port, timeout_secs } && hostname@
                == h@.hostname && port == h@.port && timeout_secs == (
            match h@.connect_timeout {
                Some(t) => t,
                None => DEFAULT_CONNECT_SECS,
            }),
        },
{
    match &h.proxy_command {
        Some(pc) => Transport::Proxy(pc.as_str().to_owned()),
        None => Transport::Tcp {
            hostname: h.hostname.as_str().to_owned(),
            port: h.port,
            timeout_secs: match h.connect_timeout {
                Some(t) => t,
                None => DEFAULT_CONNECT_SECS,
            },
        },
    }
}

/// The program and the first argument that run a ProxyCommand.
pub fn proxy_shell(windows: bool) -> (r: (&'static str, &'static str))
    ensures
        windows ==> r.0@ == "cmd"@ && r.1@ == "/C"@,
        !windows ==> r.0@ == "sh"@ && r.1@ == "-c"@,
{
    if windows {
        ("cmd", "/C")
    } else {
        ("sh", "-c")
    }
}

/// Why a connection could not be made.
#[derive(Debug)]
pub enum ConnectFailure {
    /// The ProxyCommand could not be started.
    Proxy { cmd: String, reason: String },
    TcpTimeout { hostname: String, port: u16 },
    Tcp { hostname: String, port: u16, reason: String },
    /// The SSH handshake failed; with the reason for a rejected host key.
    Handshake { rejected: Option<String>, reason: String },
}

/// An address as shown in messages.
pub open spec fn shown_address(hostname: Seq<char>, port: u16) -> Seq<char> {
    "("@ + crate::text::debug_text(hostname) + ", "@ + crate::text::dec_nat(port as nat) + ")"@
}

/// The error for a connection that could not be made.
pub open spec fn connect_failure(f: ConnectFailure) -> crate::error::ErrorView {
    match f {
        ConnectFailure::Proxy { cmd, reason } => crate::error::ErrorView::Connect(
            "proxycommand "@ + crate::text::debug_text(cmd@) + ": "@ + reason@,
        ),
        ConnectFailure::TcpTimeout { hostname, port } => crate::error::ErrorView::Connect(
            "connect to "@ + shown_address(hostname@, port) + " timed out"@,
        ),
        ConnectFailure::Tcp { hostname, port, reason } => crate::error::ErrorView::Connect(
            "connect to "@ + shown_address(hostname@, port) + ": "@ + reason@,
        ),
        ConnectFailure::Handshake { rejected, reason } => match rejected {
            Some(why) => crate::error::ErrorView::HostKey(why@),
            None => crate::error::ErrorView::Connect(reason@),
        },
    }
}

fn show_address(hostname: &str, port: u16) -> (r: String)
    ensures
        r@ == shown_address(hostname@, port),
{
    let mut s = "(".to_owned();
    s.append(debug_string(hostname).as_str());
    s.append(", ");
    push_nat(&mut s, port as u64);
    s.append(")");
    s
}

/// The error for a connection that could not be made. A rejected host key is
/// reported as such: the SSH library only reports a generic failure.
pub fn connect_error(f: ConnectFailure) -> (r: Error)
    ensures
        r@ == connect_failure(f),
{
    match f {
        ConnectFailure::Proxy { cmd, reason } => {
            let mut s = "proxycommand ".to_owned();
            s.append(debug_string(cmd.as_str()).as_str());
            s.append(": ");
            s.append(reason.as_str());
            Error::Connect(s)
        },
        ConnectFailure::TcpTimeout { hostname, port } => {
            let mut s = "connect to ".to_owned();
            s.append(show_address(hostname.as_str(), port).as_str());
            s.append(" timed out");
            Error::Connect(s)
        },
        ConnectFailure::Tcp { hostname, port, reason } => {
            let mut s = "connect to ".to_owned();
            s.append(show_address(hostname.as_str(), port).as_str());
            s.append(": ");
            s.append(reason.as_str());
            Error::Connect(s)
        },
        ConnectFailure::Handshake { rejected, reason } => match rejected {
            Some(why) => Error::HostKey(why),
            None => Error::Connect(reason),
        },
    }
}

// -- authentication -----------------------------------------------------------------------------

/// Whether a key file signs with SHA-512: RSA keys do, the other algorithms bring a
/// hash of their own.
pub fn uses_sha512(rsa: bool) -> (r: bool)
    ensures
        r == rsa,
{
    rsa
}

/// What came of trying one identity.
#[derive(Debug, Clone, Copy, PartialEq, Eq, Structural)]
pub enum Tried {
    /// The server let the user in.
    Accepted,
    /// The server refused the key, or the attempt failed.
    Rejected,
    /// The key file is encrypted.
    Encrypted,
    /// The key file is missing or unreadable, which is normal.
    Unusable,
}

/// State of an authentication.
pub struct AuthView {
    /// How many identities the agent holds, and how many were tried.
    pub agent: nat,
    pub agent_tried: nat,
    pub files: Seq<Seq<char>>,
    pub files_tried: nat,
    /// What is told about the identity files that did not work.
    pub attempts: Seq<Seq<char>>,
    pub accepted: bool,
}

impl AuthView {
    /// Invariant: nothing is tried twice, and files only after the agent.
    pub open spec fn wf(self) -> bool {
        &&& self.agent_tried <= self.agent
        &&& self.files_tried <= self.files.len()
        &&& self.files_tried > 0 ==> self.agent_tried == self.agent
    }
}

/// What to try next.
pub enum NextView {
    Agent(nat),
    File(Seq<char>),
    Nothing,
}

/// What to try next: every identity of the agent, then every identity file.
pub open spec fn next_identity(v: AuthView) -> NextView {
    if v.accepted {
        NextView::Nothing
    } else if v.agent_tried < v.agent {
        NextView::Agent(v.agent_tried)
    } else if v.files_tried < v.files.len() {
        NextView::File(v.files[v.files_tried as int])
    } else {
        NextView::Nothing
    }
}

/// The state after the identity that was next has been tried.
pub open spec fn tried(v: AuthView, t: Tried) -> AuthView {
    let w = AuthView { accepted: v.accepted || t == Tried::Accepted, ..v };
    match next_identity(v) {
        NextView::Nothing => v,
        NextView::Agent(_) => AuthView { agent_tried: v.agent_tried + 1, ..w },
        NextView::File(path) => AuthView {
            files_tried: v.files_tried + 1,
            attempts: (match t {
                Tried::Encrypted => v.attempts.push(path + ": encrypted, add it to ssh-agent"@),
                Tried::Rejected => v.attempts.push(path + ": rejected"@),
                _ => v.attempts,
            }),
            ..w
        },
    }
}

/// The error when nothing worked.
pub open spec fn auth_failure(
    user: Seq<char>,
    hostname: Seq<char>,
    attempts: Seq<Seq<char>>,
) -> crate::error::ErrorView {
    crate::error::ErrorView::Auth(
        "no auth method succeeded for "@ + user + "@"@ + hostname + "; agent tried, keys: "@
            + if attempts.len() == 0 {
            "none usable"@
        } else {
            crate::text::joined(attempts, "; "@)
        },
    )
}

/// What to try next.
#[derive(Debug)]
pub enum NextIdentity {
    /// The agent's identity with this index.
    Agent(usize),
    /// The key in this file.
    File(String),
    /// Nothing is left, or the user is in.
    Nothing,
}

/// The order in which identities are tried, and what came of it.
#[derive(Debug)]
pub struct Auth {
    agent: usize,
    agent_tried: usize,
    files: Vec<String>,
    files_tried: usize,
    attempts: Vec<String>,
    accepted: bool,
}

impl View for Auth {
    type V = AuthView;

    closed spec fn view(&self) -> AuthView {
        AuthView {
            agent: self.agent as nat,
            agent_tried: self.agent_tried as nat,
            files: crate::text::texts(self.files@),
            files_tried: self.files_tried as nat,
            attempts: crate::text::texts(self.attempts@),
            accepted: self.accepted,
        }
    }
}

impl Auth {
    /// An authentication with the given number of agent identities (none when
    /// there is no agent) and the given identity files.
    pub fn new(agent: usize, files: &Vec<String>) -> (r: Auth)
        ensures
            r@ == (AuthView {
                agent: agent as nat,
                agent_tried: 0,
                files: crate::text::texts(files@),
                files_tried: 0,
                attempts: Seq::empty(),
                accepted: false,
            }),
            r@.wf(),
    {
        let r = Auth {
            agent,
            agent_tried: 0,
            files: copy_strings(files),
            files_tried: 0,
            attempts: Vec::new(),
            accepted: false,
        };
        assert(r@.attempts =~= Seq::<Seq<char>>::empty());
        r
    }

    /// What to try next.
    pub fn next(&self) -> (r: NextIdentity)
        ensures
            match r {
                NextIdentity::Agent(i) => next_identity(self@) == NextView::Agent(i as nat),
                NextIdentity::File(p) => next_identity(self@) == NextView::File(p@),
                NextIdentity::Nothing => next_identity(self@) is Nothing,
            },
    {
        assert(self@.files.len() == self.files@.len());
        if self.accepted {
            NextIdentity::Nothing
        } else if self.agent_tried < self.agent {
            NextIdentity::Agent(self.agent_tried)
        } else if self.files_tried < self.files.len() {
            NextIdentity::File(self.files[self.files_tried].as_str().to_owned())
        } else {
            NextIdentity::Nothing
        }
    }

    /// Whether the user is in.
    pub fn accepted(&self) -> (r: bool)
        ensures
            r == self@.accepted,
    {
        self.accepted
    }

    /// Record what came of trying the identity that was next.
    pub fn record(&mut self, t: Tried)
        requires
            old(self)@.wf(),
        ensures
            final(self)@.wf(),
            final(self)@ == tried(old(self)@, t),
    {
        match self.next() {
            NextIdentity::Nothing => {},
            NextIdentity::Agent(_) => {
                self.agent_tried = self.agent_tried + 1;
                self.accepted = t == Tried::Accepted;
            },
            NextIdentity::File(path) => {
                assert(self.files_tried < self.files.len());
                self.files_tried = self.files_tried + 1;
                self.accepted = t == Tried::Accepted;
                let mut line = path;
                match t {
                    Tried::Encrypted => {
                        line.append(": encrypted, add it to ssh-agent");
                        proof {
                            crate::text::lemma_texts_push(self.attempts@, line);
                        }
                        self.attempts.push(line);
                    },
                    Tried::Rejected => {
                        line.append(": rejected");
                        proof {
                            crate::text::lemma_texts_push(self.attempts@, line);
                        }
                        self.attempts.push(line);
                    },
                    _ => {},
                }
            },
        }
    }

    /// The error when nothing worked.
    pub fn failure(&self, user: &str, hostname: &str) -> (r: Error)
        ensures
            r@ == auth_failure(user@, hostname@, self@.attempts),
    {
        let keys = if self.attempts.len() == 0 {
            "none usable".to_owned()
        } else {
            join_strings(&self.attempts, "; ")
        };
        assert(self@.attempts.len() == self.attempts@.len());
        let mut s = "no auth method succeeded for ".to_owned();
        s.append(user);
        s.append("@");
        s.append(hostname);
        s.append("; agent tried, keys: ");
        s.append(keys.as_str());
        Error::Auth(s)
    }
}

/// The agent comes first: no identity file is tried while the agent has an
/// identity left, and nothing is tried once the user is in.
pub proof fn law_agent_comes_first(v: AuthView)
    requires
        v.wf(),
    ensures
        next_identity(v) is File ==> v.agent_tried == v.agent,
        v.accepted ==> next_identity(v) is Nothing,
{
}

/// An authentication ends: every identity is tried at most once.
pub proof fn law_authentication_ends(v: AuthView, t: Tried)
    requires
        v.wf(),
        !(next_identity(v) is Nothing),
    ensures
        tried(v, t).wf(),
        (v.agent - tried(v, t).agent_tried) + (v.files.len() - tried(v, t).files_tried) < (v.agent
            - v.agent_tried) + (v.files.len() - v.files_tried),
{
}

} // verus!
