//! Host resolution through the system `ssh -G` output.
//!
//! The OpenSSH client parses `~/.ssh/config` (aliases, ProxyCommand, ProxyJump,
//! IdentityFile, UserKnownHostsFile); this module reads what it prints.

use vstd::prelude::*;

use crate::error::Error;
use crate::path::join_path;
use crate::text::{
    chars_string, copy_opt, copy_strings, find_char_from, lossy_string, nat_string, parse_uint,
    push_nat, str_chars, str_eq, sub_string, trim_end_at, trim_start_at,
};

verus! {

/// Fully resolved connection parameters for one host alias.
#[derive(Debug)]
pub struct ResolvedHost {
    /// Real hostname or IP after alias expansion.
    pub hostname: String,
    pub port: u16,
    pub user: String,
    /// Identity files, in ssh config order (already includes ssh defaults).
    pub identity_files: Vec<String>,
    /// known_hosts files to check against.
    pub known_hosts_files: Vec<String>,
    /// ProxyCommand with its tokens already expanded; None for direct connections.
    pub proxy_command: Option<String>,
    /// `connecttimeout` seconds (0/unset = library default); TCP only.
    pub connect_timeout: Option<u64>,
    /// `stricthostkeychecking` value: unknown keys are rejected unless this
    /// is `no`/`off`/`accept-new`.
    pub strict_host_keys: bool,
}

/// What a resolved host says.
pub struct HostView {
    pub hostname: Seq<char>,
    pub port: u16,
    pub user: Seq<char>,
    pub identity_files: Seq<Seq<char>>,
    pub known_hosts_files: Seq<Seq<char>>,
    pub proxy_command: Option<Seq<char>>,
    pub connect_timeout: Option<u64>,
    pub strict_host_keys: bool,
}

impl View for ResolvedHost {
    type V = HostView;

    open spec fn view(&self) -> HostView {
        HostView {
            hostname: self.hostname@,
            port: self.port,
            user: self.user@,
            identity_files: crate::text::texts(self.identity_files@),
            known_hosts_files: crate::text::texts(self.known_hosts_files@),
            proxy_command: crate::text::opt_text(self.proxy_command),
            connect_timeout: self.connect_timeout,
            strict_host_keys: self.strict_host_keys,
        }
    }
}

impl Clone for ResolvedHost {
    fn clone(&self) -> (r: ResolvedHost)
        ensures
            r@ == self@,
    {
        ResolvedHost {
            hostname: self.hostname.as_str().to_owned(),
            port: self.port,
            user: self.user.as_str().to_owned(),
            identity_files: copy_strings(&self.identity_files),
            known_hosts_files: copy_strings(&self.known_hosts_files),
            proxy_command: copy_opt(&self.proxy_command),
            connect_timeout: self.connect_timeout,
            strict_host_keys: self.strict_host_keys,
        }
    }
}

/// What of the environment host resolution looks at.
#[derive(Debug)]
pub struct Environment {
    /// `$USER`.
    pub user: Option<String>,
    /// `$USERNAME`.
    pub username: Option<String>,
    /// The home directory.
    pub home: Option<String>,
    /// Paths are those of Windows.
    pub windows: bool,
}

/// What of the environment host resolution looks at.
pub struct EnvironmentView {
    pub user: Option<Seq<char>>,
    pub username: Option<Seq<char>>,
    pub home: Option<Seq<char>>,
    pub windows: bool,
}

impl View for Environment {
    type V = EnvironmentView;

    open spec fn view(&self) -> EnvironmentView {
        EnvironmentView {
            user: crate::text::opt_text(self.user),
            username: crate::text::opt_text(self.username),
            home: crate::text::opt_text(self.home),
            windows: self.windows,
        }
    }
}

impl EnvironmentView {
    /// The local user's name, `root` when the environment does not tell.
    pub open spec fn login(self) -> Seq<char> {
        match self.user {
            Some(u) => u,
            None => match self.username {
                Some(u) => u,
                None => "root"@,
            },
        }
    }

    /// The directory of the user's ssh files.
    pub open spec fn home_ssh(self) -> Seq<char> {
        crate::path::path_join(
            self.windows,
            (match self.home {
                Some(h) => h,
                None => Seq::empty(),
            }),
            ".ssh"@,
        )
    }
}

/// The identity files ssh tries by default.
pub open spec fn default_identities(env: EnvironmentView) -> Seq<Seq<char>> {
    seq![
        crate::path::path_join(env.windows, env.home_ssh(), "id_ed25519"@),
        crate::path::path_join(env.windows, env.home_ssh(), "id_ecdsa"@),
        crate::path::path_join(env.windows, env.home_ssh(), "id_rsa"@),
    ]
}

/// The known_hosts file used when none is configured.
pub open spec fn default_known_hosts(env: EnvironmentView) -> Seq<Seq<char>> {
    seq![crate::path::path_join(env.windows, env.home_ssh(), "known_hosts"@)]
}

/// A direct connection, used when `ssh -G` cannot be asked.
pub open spec fn direct(host: Seq<char>, env: EnvironmentView) -> HostView {
    HostView {
        hostname: host,
        port: 22,
        user: env.login(),
        identity_files: default_identities(env),
        known_hosts_files: default_known_hosts(env),
        proxy_command: None,
        connect_timeout: None,
        strict_host_keys: true,
    }
}

// -- values ------------------------------------------------------------------------------

/// The text starts and ends with the quote character.
pub open spec fn wrapped_in(s: Seq<char>, q: char) -> bool {
    s.len() >= 2 && s[0] == q && s.last() == q
}

/// A value without surrounding white space and one pair of quotes.
pub open spec fn unquoted(v: Seq<char>) -> Seq<char> {
    let t = crate::text::trimmed(v);
    if wrapped_in(t, '"') || wrapped_in(t, '\'') {
        t.subrange(1, t.len() - 1)
    } else {
        t
    }
}

/// The segments of a value list: white space separates them, but not inside
/// quotes, which are kept. `quote` is the open quote, `cur` the segment so far.
pub open spec fn segments(t: Seq<char>, quote: Option<char>, cur: Seq<char>) -> Seq<Seq<char>>
    decreases t.len(),
{
    if t.len() == 0 {
        if cur.len() > 0 {
            seq![cur]
        } else {
            Seq::empty()
        }
    } else {
        let c = t[0];
        let rest = t.skip(1);
        if quote == Some(c) {
            segments(rest, None, cur.push(c))
        } else if quote is None && (c == '"' || c == '\'') {
            segments(rest, Some(c), cur.push(c))
        } else if quote is None && crate::text::is_white(c) {
            if cur.len() > 0 {
                seq![cur] + segments(rest, None, Seq::empty())
            } else {
                segments(rest, None, cur)
            }
        } else {
            segments(rest, quote, cur.push(c))
        }
    }
}

/// The values of a list, without their quotes.
pub open spec fn value_list(v: Seq<char>) -> Seq<Seq<char>> {
    segments(v, None, Seq::empty()).map_values(|s: Seq<char>| unquoted(s))
}

/// A path with a leading `~/` taken from the home directory.
pub open spec fn tilde_expanded(path: Seq<char>, env: EnvironmentView) -> Seq<char> {
    if path.len() >= 2 && path[0] == '~' && path[1] == '/' {
        match env.home {
            Some(h) => crate::path::path_join(env.windows, h, path.skip(2)),
            None => path,
        }
    } else {
        path
    }
}

/// Every path with a leading `~/` taken from the home directory.
pub open spec fn all_expanded(paths: Seq<Seq<char>>, env: EnvironmentView) -> Seq<Seq<char>> {
    paths.map_values(|p: Seq<char>| tilde_expanded(p, env))
}

// -- lines -------------------------------------------------------------------------------

/// A line without the carriage return that belongs to its line ending.
pub open spec fn without_cr(s: Seq<char>) -> Seq<char> {
    if s.len() > 0 && s.last() == '\r' {
        s.drop_last()
    } else {
        s
    }
}

/// The lines of a text; the last one may lack its ending.
pub open spec fn lines_of(s: Seq<char>) -> Seq<Seq<char>>
    decreases s.len(),
    via lines_of_decreases
{
    let k = crate::text::first_index(s, '\n');
    if s.len() == 0 {
        Seq::empty()
    } else if k < s.len() {
        seq![without_cr(s.take(k))] + lines_of(s.skip(k + 1))
    } else {
        seq![s]
    }
}

#[via_fn]
proof fn lines_of_decreases(s: Seq<char>) {
    crate::text::lemma_first_index(s, '\n');
}

/// What the lines read so far say.
pub struct Fields {
    pub hostname: Option<Seq<char>>,
    pub port: u16,
    pub user: Option<Seq<char>>,
    pub identity_files: Seq<Seq<char>>,
    pub known_hosts_files: Seq<Seq<char>>,
    pub proxy_command: Option<Seq<char>>,
    pub proxy_jump: Option<Seq<char>>,
    pub connect_timeout: Option<u64>,
    pub strict_host_keys: bool,
}

/// What holds before the first line.
pub open spec fn no_fields() -> Fields {
    Fields {
        hostname: None,
        port: 22,
        user: None,
        identity_files: Seq::empty(),
        known_hosts_files: Seq::empty(),
        proxy_command: None,
        proxy_jump: None,
        connect_timeout: None,
        strict_host_keys: true,
    }
}

/// The port a value names; 22 when it is none.
pub open spec fn port_of(value: Seq<char>) -> u16 {
    match crate::text::uint_text(value, u16::MAX as nat) {
        Some(n) => n as u16,
        None => 22,
    }
}

/// The timeout a value names; 0 means "system default" in ssh, which is the
/// library's own default here.
pub open spec fn timeout_of(value: Seq<char>) -> Option<u64> {
    match crate::text::uint_text(value, u64::MAX as nat) {
        Some(n) => if n > 0 {
            Some(n as u64)
        } else {
            None
        },
        None => None,
    }
}

/// Unknown keys are rejected with this `stricthostkeychecking` value.
pub open spec fn is_strict(value: Seq<char>) -> bool {
    let v = unquoted(value);
    v != "no"@ && v != "off"@ && v != "accept-new"@
}

/// What a `key value` pair adds.
pub open spec fn with_pair(
    f: Fields,
    key: Seq<char>,
    value: Seq<char>,
    env: EnvironmentView,
) -> Fields {
    if key == "hostname"@ {
        Fields { hostname: Some(unquoted(value)), ..f }
    } else if key == "port"@ {
        Fields { port: port_of(value), ..f }
    } else if key == "user"@ {
        Fields { user: Some(unquoted(value)), ..f }
    } else if key == "connecttimeout"@ {
        Fields { connect_timeout: timeout_of(value), ..f }
    } else if key == "identityfile"@ {
        Fields {
            identity_files: f.identity_files.push(tilde_expanded(unquoted(value), env)),
            ..f
        }
    } else if key == "userknownhostsfile"@ || key == "globalknownhostsfile"@ {
        Fields {
            known_hosts_files: f.known_hosts_files + all_expanded(value_list(value), env),
            ..f
        }
    } else if key == "stricthostkeychecking"@ {
        Fields { strict_host_keys: is_strict(value), ..f }
    } else if key == "proxycommand"@ {
        if unquoted(value) != "none"@ {
            Fields { proxy_command: Some(unquoted(value)), ..f }
        } else {
            f
        }
    } else if key == "proxyjump"@ {
        if unquoted(value) != "none"@ {
            Fields { proxy_jump: Some(unquoted(value)), ..f }
        } else {
            f
        }
    } else {
        f
    }
}

/// What a line adds: its key ends at the first space; a line without one adds
/// nothing.
pub open spec fn with_line(f: Fields, line: Seq<char>, env: EnvironmentView) -> Fields {
    let k = crate::text::first_index(line, ' ');
    if k < line.len() {
        with_pair(f, line.take(k), line.skip(k + 1), env)
    } else {
        f
    }
}

/// What some lines say, given what was said before.
pub open spec fn with_lines(f: Fields, lines: Seq<Seq<char>>, env: EnvironmentView) -> Fields
    decreases lines.len(),
{
    if lines.len() == 0 {
        f
    } else {
        with_lines(with_line(f, lines[0], env), lines.skip(1), env)
    }
}

/// ProxyJump is materialized by OpenSSH into a ProxyCommand; this is the one for
/// the case that only the jump field is set.
pub open spec fn jump_command(hostname: Seq<char>, port: u16, jump: Seq<char>) -> Seq<char> {
    "ssh -W ["@ + hostname + "]:"@ + crate::text::dec_nat(port as nat) + " "@ + jump
}

/// The host that the lines describe, once its name is known.
pub open spec fn described(f: Fields, hostname: Seq<char>, env: EnvironmentView) -> HostView {
    HostView {
        hostname,
        port: f.port,
        user: (match f.user {
            Some(u) => u,
            None => env.login(),
        }),
        identity_files: if f.identity_files.len() == 0 {
            default_identities(env)
        } else {
            f.identity_files
        },
        known_hosts_files: if f.known_hosts_files.len() == 0 {
            default_known_hosts(env)
        } else {
            f.known_hosts_files
        },
        proxy_command: (match f.proxy_command {
            Some(c) => Some(proxy_expanded(c, hostname, f.port)),
            None => match f.proxy_jump {
                Some(j) => Some(
                    proxy_expanded(jump_command(hostname, f.port, j), hostname, f.port),
                ),
                None => None,
            },
        }),
        connect_timeout: f.connect_timeout,
        strict_host_keys: f.strict_host_keys,
    }
}

/// The error of a host that could not be resolved.
pub open spec fn unresolved(host: Seq<char>, reason: Seq<char>) -> crate::error::ErrorView {
    crate::error::ErrorView::Resolve { host, reason }
}

// -- reading ------------------------------------------------------------------------------

fn home_ssh(env: &Environment) -> (r: String)
    ensures
        r@ == env@.home_ssh(),
{
    match &env.home {
        Some(h) => join_path(env.windows, h.as_str(), ".ssh"),
        None => {
            let empty = String::new();
            assert(empty@ =~= Seq::<char>::empty());
            join_path(env.windows, empty.as_str(), ".ssh")
        },
    }
}

/// The identity files ssh tries by default.
pub fn default_identity_files(env: &Environment) -> (r: Vec<String>)
    ensures
        crate::text::texts(r@) == default_identities(env@),
{
    let dir = home_ssh(env);
    let v = vec![
        join_path(env.windows, dir.as_str(), "id_ed25519"),
        join_path(env.windows, dir.as_str(), "id_ecdsa"),
        join_path(env.windows, dir.as_str(), "id_rsa"),
    ];
    assert(crate::text::texts(v@) =~= default_identities(env@));
    v
}

fn default_known_hosts_files(env: &Environment) -> (r: Vec<String>)
    ensures
        crate::text::texts(r@) == default_known_hosts(env@),
{
    let v = vec![join_path(env.windows, home_ssh(env).as_str(), "known_hosts")];
    assert(crate::text::texts(v@) =~= default_known_hosts(env@));
    v
}

fn login(env: &Environment) -> (r: String)
    ensures
        r@ == env@.login(),
{
    match &env.user {
        Some(u) => u.as_str().to_owned(),
        None => match &env.username {
            Some(u) => u.as_str().to_owned(),
            None => "root".to_owned(),
        },
    }
}

/// Direct connection fallback used when `ssh -G` cannot run at all.
pub fn fallback(host: &str, env: &Environment) -> (r: ResolvedHost)
    ensures
        r@ == direct(host@, env@),
{
    ResolvedHost {
        hostname: host.to_owned(),
        port: 22,
        user: login(env),
        identity_files: default_identity_files(env),
        known_hosts_files: default_known_hosts_files(env),
        proxy_command: None,
        connect_timeout: None,
        strict_host_keys: true,
    }
}

/// The value between `from` and `to`, without white space and quotes around it.
fn unquote_range(v: &[char], from: usize, to: usize) -> (r: String)
    requires
        from <= to <= v@.len(),
    ensures
        r@ == unquoted(v@.subrange(from as int, to as int)),
{
    let b = trim_start_at(v, from, to);
    let e = trim_end_at(v, b, to);
    let ghost t = crate::text::trimmed(v@.subrange(from as int, to as int));
    assert(t == v@.subrange(b as int, e as int));
    if e - b >= 2 && ((v[b] == '"' && v[e - 1] == '"') || (v[b] == '\'' && v[e - 1] == '\'')) {
        assert(t.subrange(1, t.len() - 1) =~= v@.subrange(b + 1, e - 1));
        sub_string(v, b + 1, e - 1)
    } else {
        sub_string(v, b, e)
    }
}

/// A value without surrounding white space and one pair of quotes.
pub fn unquote(v: &str) -> (r: String)
    ensures
        r@ == unquoted(v@),
{
    let c = str_chars(v);
    assert(c@.subrange(0, c@.len() as int) =~= c@);
    unquote_range(&c, 0, c.len())
}

/// Split a value list on spaces, keeping quoted segments intact.
pub fn split_values(value: &str) -> (r: Vec<String>)
    ensures
        crate::text::texts(r@) == value_list(value@),
{
    let v = str_chars(value);
    let ghost all = value_list(value@);
    let mut out: Vec<String> = Vec::new();
    let mut cur: Vec<char> = Vec::new();
    let mut quote: Option<char> = None;
    let mut i: usize = 0;
    proof {
        assert(v@.skip(0) =~= v@);
        assert(cur@ =~= Seq::<char>::empty());
        assert(crate::text::texts(out@) =~= Seq::<Seq<char>>::empty());
        assert(Seq::<Seq<char>>::empty() + all =~= all);
    }
    while i < v.len()
        invariant
            i <= v@.len(),
            v@ == value@,
            all == value_list(value@),
            all == crate::text::texts(out@) + unquoted_all(
                segments(v@.skip(i as int), quote, cur@),
            ),
        decreases v@.len() - i,
    {
        let c = v[i];
        let ghost rest = v@.skip(i as int);
        let ghost before = crate::text::texts(out@);
        assert(rest[0] == c);
        assert(rest.skip(1) =~= v@.skip(i + 1));
        let in_quote = match quote {
            Some(q) => q == c,
            None => false,
        };
        if in_quote {
            quote = None;
            cur.push(c);
        } else if quote.is_none() && (c == '"' || c == '\'') {
            quote = Some(c);
            cur.push(c);
        } else if quote.is_none() && c.is_whitespace() {
            if cur.len() > 0 {
                let value = unquote(chars_string(&cur).as_str());
                proof {
                    let tail = segments(rest.skip(1), None, Seq::empty());
                    lemma_unquoted_all_push(cur@, tail);
                    crate::text::lemma_texts_push(out@, value);
                    assert(before + (seq![value@] + unquoted_all(tail)) =~= before.push(value@)
                        + unquoted_all(tail));
                }
                out.push(value);
                cur = Vec::new();
                assert(cur@ =~= Seq::<char>::empty());
            }
        } else {
            cur.push(c);
        }
        i = i + 1;
    }
    assert(v@.skip(i as int) =~= Seq::<char>::empty());
    if cur.len() > 0 {
        let value = unquote(chars_string(&cur).as_str());
        proof {
            let before = crate::text::texts(out@);
            crate::text::lemma_texts_push(out@, value);
            assert(unquoted_all(seq![cur@]) =~= seq![value@]);
            assert(before + seq![value@] =~= before.push(value@));
        }
        out.push(value);
    } else {
        proof {
            let before = crate::text::texts(out@);
            assert(unquoted_all(Seq::<Seq<char>>::empty()) =~= Seq::<Seq<char>>::empty());
            assert(before + Seq::<Seq<char>>::empty() =~= before);
        }
    }
    out
}

/// Segments without their quotes.
spec fn unquoted_all(s: Seq<Seq<char>>) -> Seq<Seq<char>> {
    s.map_values(|s: Seq<char>| unquoted(s))
}

proof fn lemma_unquoted_all_push(s: Seq<char>, tail: Seq<Seq<char>>)
    ensures
        unquoted_all(seq![s] + tail) == seq![unquoted(s)] + unquoted_all(tail),
{
    assert(unquoted_all(seq![s] + tail) =~= seq![unquoted(s)] + unquoted_all(tail));
}

/// Expand a leading `~` to the user's home directory (`ssh -G` emits `~/...`).
pub fn expand_tilde(path: &str, env: &Environment) -> (r: String)
    ensures
        r@ == tilde_expanded(path@, env@),
{
    let v = str_chars(path);
    if v.len() >= 2 && v[0] == '~' && v[1] == '/' {
        if let Some(h) = &env.home {
            let rest = sub_string(&v, 2, v.len());
            assert(v@.subrange(2, v@.len() as int) =~= v@.skip(2));
            return join_path(env.windows, h.as_str(), rest.as_str());
        }
    }
    path.to_owned()
}

/// Append the paths of a value list, each with its `~` expanded.
fn add_paths(paths: &mut Vec<String>, value: &str, env: &Environment)
    ensures
        crate::text::texts(final(paths)@) == crate::text::texts(old(paths)@) + all_expanded(
            value_list(value@),
            env@,
        ),
{
    let values = split_values(value);
    let ghost h = env@;
    let ghost list = value_list(value@);
    let ghost before = crate::text::texts(paths@);
    let ghost all = all_expanded(list, h);
    let mut i: usize = 0;
    assert(before + all.take(0) =~= before);
    while i < values.len()
        invariant
            i <= values@.len(),
            crate::text::texts(values@) == list,
            all == all_expanded(list, h),
            h == env@,
            crate::text::texts(paths@) == before + all.take(i as int),
        decreases values@.len() - i,
    {
        let p = expand_tilde(values[i].as_str(), env);
        proof {
            assert(list[i as int] == values@[i as int]@);
            assert(all[i as int] == p@);
            crate::text::lemma_texts_push(paths@, p);
            assert((before + all.take(i as int)).push(p@) =~= before + all.take(i + 1));
        }
        paths.push(p);
        i = i + 1;
    }
    assert(list.len() == values@.len());
    assert(all.take(all.len() as int) =~= all);
}

/// What the lines read so far say.
struct Parsed {
    hostname: Option<String>,
    port: u16,
    user: Option<String>,
    identity_files: Vec<String>,
    known_hosts_files: Vec<String>,
    proxy_command: Option<String>,
    proxy_jump: Option<String>,
    connect_timeout: Option<u64>,
    strict_host_keys: bool,
}

impl View for Parsed {
    type V = Fields;

    closed spec fn view(&self) -> Fields {
        Fields {
            hostname: crate::text::opt_text(self.hostname),
            port: self.port,
            user: crate::text::opt_text(self.user),
            identity_files: crate::text::texts(self.identity_files@),
            known_hosts_files: crate::text::texts(self.known_hosts_files@),
            proxy_command: crate::text::opt_text(self.proxy_command),
            proxy_jump: crate::text::opt_text(self.proxy_jump),
            connect_timeout: self.connect_timeout,
            strict_host_keys: self.strict_host_keys,
        }
    }
}

impl Parsed {
    fn new() -> (r: Parsed)
        ensures
            r@ == no_fields(),
    {
        let r = Parsed {
            hostname: None,
            port: 22,
            user: None,
            identity_files: Vec::new(),
            known_hosts_files: Vec::new(),
            proxy_command: None,
            proxy_jump: None,
            connect_timeout: None,
            strict_host_keys: true,
        };
        assert(r@.identity_files =~= Seq::<Seq<char>>::empty());
        assert(r@.known_hosts_files =~= Seq::<Seq<char>>::empty());
        r
    }

    fn pair(&mut self, key: &str, value: &str, env: &Environment)
        ensures
            final(self)@ == with_pair(
                old(self)@,
                key@,
                value@,
                env@,
            ),
    {
        if str_eq(key, "hostname") {
            self.hostname = Some(unquote(value));
        } else if str_eq(key, "port") {
            let digits = str_chars(value);
            self.port = match parse_uint(&digits, u16::MAX as u64) {
                Some(n) => n as u16,
                None => 22,
            };
        } else if str_eq(key, "user") {
            self.user = Some(unquote(value));
        } else if str_eq(key, "connecttimeout") {
            let digits = str_chars(value);
            self.connect_timeout = match parse_uint(&digits, u64::MAX) {
                Some(n) => if n > 0 {
                    Some(n)
                } else {
                    None
                },
                None => None,
            };
        } else if str_eq(key, "identityfile") {
            let path = expand_tilde(unquote(value).as_str(), env);
            proof {
                crate::text::lemma_texts_push(self.identity_files@, path);
            }
            self.identity_files.push(path);
        } else if str_eq(key, "userknownhostsfile") || str_eq(key, "globalknownhostsfile") {
            // One line carries several paths.
            add_paths(&mut self.known_hosts_files, value, env);
        } else if str_eq(key, "stricthostkeychecking") {
            let v = unquote(value);
            self.strict_host_keys = !(str_eq(v.as_str(), "no") || str_eq(v.as_str(), "off")
                || str_eq(v.as_str(), "accept-new"));
        } else if str_eq(key, "proxycommand") {
            let v = unquote(value);
            if !str_eq(v.as_str(), "none") {
                self.proxy_command = Some(v);
            }
        } else if str_eq(key, "proxyjump") {
            let v = unquote(value);
            if !str_eq(v.as_str(), "none") {
                self.proxy_jump = Some(v);
            }
        }
    }

    /// Take the line between `from` and `to`.
    fn line(&mut self, v: &[char], from: usize, to: usize, env: &Environment)
        requires
            from <= to <= v@.len(),
        ensures
            final(self)@ == with_line(
                old(self)@,
                v@.subrange(from as int, to as int),
                env@,
            ),
    {
        let line = str_chars(sub_string(v, from, to).as_str());
        assert(line@.skip(0) =~= line@);
        let k = find_char_from(&line, 0, ' ');
        if k < line.len() {
            let key = sub_string(&line, 0, k);
            let value = sub_string(&line, k + 1, line.len());
            assert(line@.subrange(0, k as int) =~= line@.take(k as int));
            assert(line@.subrange(k + 1, line@.len() as int) =~= line@.skip(k + 1));
            self.pair(key.as_str(), value.as_str(), env);
        }
    }

    /// Take all lines of a text.
    fn lines(&mut self, text: &str, env: &Environment)
        ensures
            final(self)@ == with_lines(
                old(self)@,
                lines_of(text@),
                env@,
            ),
    {
        let v = str_chars(text);
        let ghost h = env@;
        let ghost goal = with_lines(self@, lines_of(text@), h);
        let mut from: usize = 0;
        assert(v@.skip(0) =~= v@);
        while from < v.len()
            invariant
                from <= v@.len(),
                v@ == text@,
                h == env@,
                goal == with_lines(self@, lines_of(v@.skip(from as int)), h),
            decreases v@.len() - from,
        {
            let ghost rest = v@.skip(from as int);
            let k = find_char_from(&v, from, '\n');
            if k < v.len() {
                let to = if k > from && v[k - 1] == '\r' {
                    k - 1
                } else {
                    k
                };
                proof {
                    assert(rest.take(k - from) =~= v@.subrange(from as int, k as int));
                    assert(rest.skip(k - from + 1) =~= v@.skip(k + 1));
                    assert(without_cr(rest.take(k - from)) =~= v@.subrange(
                        from as int,
                        to as int,
                    ));
                    let l = without_cr(rest.take(k - from));
                    let more = lines_of(v@.skip(k + 1));
                    assert((seq![l] + more)[0] == l);
                    assert((seq![l] + more).skip(1) =~= more);
                }
                self.line(&v, from, to, env);
                from = k + 1;
            } else {
                proof {
                    assert(rest =~= v@.subrange(from as int, k as int));
                    assert(seq![rest][0] == rest);
                    assert(seq![rest].skip(1) =~= Seq::<Seq<char>>::empty());
                    assert(v@.skip(k as int) =~= Seq::<char>::empty());
                }
                self.line(&v, from, k, env);
                from = k;
            }
        }
        assert(v@.skip(from as int) =~= Seq::<char>::empty());
    }
}

/// Parse `ssh -G` output: one `key value...` per line, values may be quoted.
pub fn parse_ssh_g_output(host: &str, text: &str, env: &Environment) -> (r: Result<
    ResolvedHost,
    Error,
>)
    ensures
        match r {
            Ok(h) => output_host(host@, text@, env@) == Ok::<_, crate::error::ErrorView>(h@),
            Err(e) => output_host(host@, text@, env@) == Err::<HostView, _>(e@),
        },
{
    let mut p = Parsed::new();
    p.lines(text, env);
    let ghost f = p@;
    let hostname = match p.hostname {
        Some(h) => h,
        None => return Err(
            Error::Resolve {
                host: host.to_owned(),
                reason: "ssh -G output has no hostname".to_owned(),
            },
        ),
    };
    let proxy_command = match p.proxy_command {
        Some(c) => Some(expand_proxy_command(c.as_str(), hostname.as_str(), p.port)),
        None => match p.proxy_jump {
            Some(jump) => {
                let mut s = "ssh -W [".to_owned();
                s.append(hostname.as_str());
                s.append("]:");
                push_nat(&mut s, p.port as u64);
                s.append(" ");
                s.append(jump.as_str());
                Some(expand_proxy_command(s.as_str(), hostname.as_str(), p.port))
            },
            None => None,
        },
    };
    let user = match p.user {
        Some(u) => u,
        None => login(env),
    };
    assert(f.identity_files.len() == p.identity_files@.len());
    assert(f.known_hosts_files.len() == p.known_hosts_files@.len());
    let identity_files = if p.identity_files.len() == 0 {
        default_identity_files(env)
    } else {
        p.identity_files
    };
    let known_hosts_files = if p.known_hosts_files.len() == 0 {
        default_known_hosts_files(env)
    } else {
        p.known_hosts_files
    };
    Ok(
        ResolvedHost {
            hostname,
            port: p.port,
            user,
            identity_files,
            known_hosts_files,
            proxy_command,
            connect_timeout: p.connect_timeout,
            strict_host_keys: p.strict_host_keys,
        },
    )
}

/// How `ssh -G` ended.
#[derive(Debug)]
pub enum SshGReply {
    TimedOut,
    /// ssh could not be run.
    CannotRun(String),
    /// ssh failed; its exit status in words, and its stderr.
    Failed(String, Vec<u8>),
    /// ssh succeeded; its stdout.
    Output(Vec<u8>),
}

/// The host that `ssh -G` output describes, or why it describes none.
pub open spec fn output_host(host: Seq<char>, text: Seq<char>, env: EnvironmentView) -> Result<
    HostView,
    crate::error::ErrorView,
> {
    let f = with_lines(no_fields(), lines_of(text), env);
    match f.hostname {
        Some(name) => Ok(described(f, name, env)),
        None => Err(unresolved(host, "ssh -G output has no hostname"@)),
    }
}

/// The host that the reply of `ssh -G host` describes, or why it describes none.
pub open spec fn reply_host(host: Seq<char>, reply: SshGReply, env: EnvironmentView) -> Result<
    HostView,
    crate::error::ErrorView,
> {
    match reply {
        SshGReply::TimedOut => Err(unresolved(host, "ssh -G timed out"@)),
        SshGReply::CannotRun(why) => Err(unresolved(host, "cannot run ssh: "@ + why@)),
        SshGReply::Failed(status, err) => Err(
            unresolved(
                host,
                "ssh -G exited with "@ + status@ + ": "@ + crate::text::lossy_text(err@),
            ),
        ),
        SshGReply::Output(out) => output_host(host, crate::text::lossy_text(out@), env),
    }
}

/// Judge the reply of `ssh -G host`.
pub fn run_ssh_g(host: &str, reply: &SshGReply, env: &Environment) -> (r: Result<
    ResolvedHost,
    Error,
>)
    ensures
        match r {
            Ok(h) => reply_host(host@, *reply, env@) == Ok::<_, crate::error::ErrorView>(h@),
            Err(e) => reply_host(host@, *reply, env@) == Err::<HostView, _>(e@),
        },
{
    match reply {
        SshGReply::TimedOut => Err(
            Error::Resolve { host: host.to_owned(), reason: "ssh -G timed out".to_owned() },
        ),
        SshGReply::CannotRun(why) => {
            let mut reason = "cannot run ssh: ".to_owned();
            reason.append(why.as_str());
            Err(Error::Resolve { host: host.to_owned(), reason })
        },
        SshGReply::Failed(status, err) => {
            let mut reason = "ssh -G exited with ".to_owned();
            reason.append(status.as_str());
            reason.append(": ");
            reason.append(lossy_string(err).as_str());
            Err(Error::Resolve { host: host.to_owned(), reason })
        },
        SshGReply::Output(out) => parse_ssh_g_output(host, lossy_string(out).as_str(), env),
    }
}

/// Resolve `host` by the reply of `ssh -G host`. Falls back to direct connection
/// parameters when the reply is unusable, and then tells why.
pub fn resolve(host: &str, reply: &SshGReply, env: &Environment) -> (r: (
    ResolvedHost,
    Option<Error>,
))
    ensures
        match reply_host(host@, *reply, env@) {
            Ok(h) => r.0@ == h && r.1 is None,
            Err(e) => r.0@ == direct(host@, env@) && (r.1 matches Some(x) && x@ == e),
        },
{
    match run_ssh_g(host, reply, env) {
        Ok(h) => (h, None),
        // Masking this would surface as a confusing "connect to <alias> failed"
        // later; the reason belongs in the daemon log.
        Err(e) => (fallback(host, env), Some(e)),
    }
}

// -- ProxyCommand tokens -------------------------------------------------------------------

/// `s` with every `%` followed by `token` replaced, from left to right.
pub open spec fn replaced(s: Seq<char>, token: char, by: Seq<char>) -> Seq<char>
    decreases s.len(),
{
    if s.len() == 0 {
        Seq::empty()
    } else if s.len() >= 2 && s[0] == '%' && s[1] == token {
        by + replaced(s.skip(2), token, by)
    } else {
        seq![s[0]] + replaced(s.skip(1), token, by)
    }
}

/// A ProxyCommand with its tokens expanded: first `%h`, then `%p`, then `%n`.
pub open spec fn proxy_expanded(cmd: Seq<char>, hostname: Seq<char>, port: u16) -> Seq<char> {
    replaced(
        replaced(
            replaced(cmd, 'h', hostname),
            'p',
            crate::text::dec_nat(port as nat),
        ),
        'n',
        hostname,
    )
}

fn replace_token(s: &str, token: char, by: &str) -> (r: String)
    ensures
        r@ == replaced(s@, token, by@),
{
    let v = str_chars(s);
    let ghost goal = replaced(s@, token, by@);
    let mut out = String::new();
    let mut i: usize = 0;
    assert(v@.skip(0) =~= v@);
    assert(out@ + goal =~= goal);
    while i < v.len()
        invariant
            i <= v@.len(),
            v@ == s@,
            goal == replaced(s@, token, by@),
            goal == out@ + replaced(v@.skip(i as int), token, by@),
        decreases v@.len() - i,
    {
        let ghost rest = v@.skip(i as int);
        let ghost before = out@;
        if v.len() - i >= 2 && v[i] == '%' && v[i + 1] == token {
            assert(rest.skip(2) =~= v@.skip(i + 2));
            out.append(by);
            proof {
                let tail = replaced(v@.skip(i + 2), token, by@);
                assert(before + (by@ + tail) =~= (before + by@) + tail);
            }
            i = i + 2;
        } else {
            assert(rest.skip(1) =~= v@.skip(i + 1));
            out.push(v[i]);
            proof {
                let tail = replaced(v@.skip(i + 1), token, by@);
                assert(before + (seq![rest[0]] + tail) =~= before.push(rest[0]) + tail);
            }
            i = i + 1;
        }
    }
    assert(v@.skip(i as int) =~= Seq::<char>::empty());
    assert(out@ + Seq::<char>::empty() =~= out@);
    out
}

/// Expand %h/%p/%n tokens in a ProxyCommand.
#[must_use]
pub fn expand_proxy_command(cmd: &str, hostname: &str, port: u16) -> (r: String)
    ensures
        r@ == proxy_expanded(cmd@, hostname@, port),
{
    let a = replace_token(cmd, 'h', hostname);
    let b = replace_token(a.as_str(), 'p', nat_string(port as u64).as_str());
    replace_token(b.as_str(), 'n', hostname)
}

/// A ProxyCommand without tokens is left as it is.
pub proof fn law_no_token_no_change(cmd: Seq<char>, hostname: Seq<char>, port: u16)
    requires
        !cmd.contains('%'),
    ensures
        proxy_expanded(cmd, hostname, port) == cmd,
{
    lemma_replaced_nothing(cmd, 'h', hostname);
    lemma_replaced_nothing(cmd, 'p', crate::text::dec_nat(port as nat));
    lemma_replaced_nothing(cmd, 'n', hostname);
}

/// A jump without tokens is made into the command that OpenSSH would run.
pub proof fn law_jump_command(f: Fields, hostname: Seq<char>, env: EnvironmentView)
    requires
        f.proxy_command is None,
        f.proxy_jump is Some,
        !f.proxy_jump->0.contains('%'),
        !hostname.contains('%'),
    ensures
        described(f, hostname, env).proxy_command == Some(
            jump_command(hostname, f.port, f.proxy_jump->0),
        ),
{
    let port = crate::text::dec_nat(f.port as nat);
    let jump = f.proxy_jump->0;
    let cmd = jump_command(hostname, f.port, jump);
    reveal_strlit("ssh -W [");
    reveal_strlit("]:");
    reveal_strlit(" ");
    crate::text::lemma_dec_nat_reads_back(f.port as nat);
    if cmd.contains('%') {
        let i = choose|i: int| 0 <= i < cmd.len() && cmd[i] == '%';
        let a = "ssh -W ["@.len();
        let b = a + hostname.len();
        let c = b + "]:"@.len();
        let d = c + port.len();
        if a <= i < b {
            assert(hostname[i - a] == '%');
        } else if c <= i < d {
            assert(crate::text::is_digit(port[i - c]));
        } else if d + 1 <= i {
            assert(jump[i - d - 1] == '%');
        }
    }
    law_no_token_no_change(cmd, hostname, f.port);
}

proof fn lemma_replaced_nothing(s: Seq<char>, token: char, by: Seq<char>)
    requires
        !s.contains('%'),
    ensures
        replaced(s, token, by) == s,
    decreases s.len(),
{
    if s.len() > 0 {
        assert(s.contains(s[0]));
        assert forall|c: char| s.skip(1).contains(c) implies s.contains(c) by {
            let i = choose|i: int| 0 <= i < s.skip(1).len() && s.skip(1)[i] == c;
            assert(s[i + 1] == c);
        }
        lemma_replaced_nothing(s.skip(1), token, by);
        assert(seq![s[0]] + s.skip(1) =~= s);
    } else {
        assert(replaced(s, token, by) =~= s);
    }
}

} // verus!
