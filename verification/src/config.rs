//! User configuration and well-known paths. The environment and the files are
//! read by the caller.

use vstd::prelude::*;

use crate::error::Error;
use crate::path::{is_absolute, join_path};
use crate::session::{SessionId, SessionNameError};
use crate::text::{copy_opt, parse_uint, str_chars, str_eq};

verus! {

/// Env var overriding the daemon socket path (mainly for tests).
pub const ENV_SOCK: &'static str = "SP_SOCK";

/// Env var overriding the default host.
pub const ENV_HOST: &'static str = "SP_HOST";

/// Env var choosing the session.
pub const ENV_SESSION: &'static str = "SP_SESSION";

/// Env var with the number of idle seconds after which the daemon exits.
pub const ENV_IDLE: &'static str = "SP_IDLE_SECS";

/// User configuration loaded from `config.toml`.
#[derive(Debug)]
pub struct Config {
    /// Default remote host alias (resolved through the system ssh config).
    pub host: Option<String>,
    /// Daemon log level: trace/debug/info/warn/error.
    pub log_level: String,
}

impl Default for Config {
    fn default() -> (r: Config)
        ensures
            r.host is None,
            r.log_level@ == "info"@,
    {
        Config { host: None, log_level: "info".to_owned() }
    }
}

impl Clone for Config {
    fn clone(&self) -> (r: Config)
        ensures
            crate::text::opt_text(r.host) == crate::text::opt_text(self.host),
            r.log_level@ == self.log_level@,
    {
        Config { host: copy_opt(&self.host), log_level: self.log_level.as_str().to_owned() }
    }
}

/// Daemon log level.
#[derive(Debug, Clone, Copy, PartialEq, Eq, Structural)]
pub enum LogLevel {
    Trace,
    Debug,
    Info,
    Warn,
    Error,
}

impl LogLevel {
    /// The level that a configuration value names.
    pub open spec fn named(s: Seq<char>) -> Option<LogLevel> {
        if s == "trace"@ {
            Some(LogLevel::Trace)
        } else if s == "debug"@ {
            Some(LogLevel::Debug)
        } else if s == "info"@ {
            Some(LogLevel::Info)
        } else if s == "warn"@ {
            Some(LogLevel::Warn)
        } else if s == "error"@ {
            Some(LogLevel::Error)
        } else {
            None
        }
    }

    /// The level that a configuration value names.
    pub fn parse(s: &str) -> (r: Option<LogLevel>)
        ensures
            r == LogLevel::named(s@),
    {
        if str_eq(s, "trace") {
            Some(LogLevel::Trace)
        } else if str_eq(s, "debug") {
            Some(LogLevel::Debug)
        } else if str_eq(s, "info") {
            Some(LogLevel::Info)
        } else if str_eq(s, "warn") {
            Some(LogLevel::Warn)
        } else if str_eq(s, "error") {
            Some(LogLevel::Error)
        } else {
            None
        }
    }
}

/// Which messages a log keeps.
#[derive(Debug, Clone, Copy, PartialEq, Eq, Structural)]
pub enum LogFilter {
    All,
    MoreSevereEqual(LogLevel),
}

impl LogLevel {
    /// How severe the level is.
    pub open spec fn severity(self) -> int {
        match self {
            LogLevel::Trace => 0,
            LogLevel::Debug => 1,
            LogLevel::Info => 2,
            LogLevel::Warn => 3,
            LogLevel::Error => 4,
        }
    }
}

impl LogFilter {
    /// Whether a message of the level is kept.
    pub open spec fn keeps(self, level: LogLevel) -> bool {
        match self {
            LogFilter::All => true,
            LogFilter::MoreSevereEqual(l) => level.severity() >= l.severity(),
        }
    }
}

/// The filter for a configured level; `info` when there is no usable
/// configuration.
pub open spec fn filter_of(level: Option<LogLevel>) -> LogFilter {
    match level {
        Some(LogLevel::Trace) => LogFilter::All,
        Some(l) => LogFilter::MoreSevereEqual(l),
        None => LogFilter::MoreSevereEqual(LogLevel::Info),
    }
}

/// Which messages the daemon log keeps: those of the configured level and the more
/// severe ones.
pub fn log_filter(level: Option<LogLevel>) -> (r: LogFilter)
    ensures
        r == filter_of(level),
{
    match level {
        Some(LogLevel::Trace) => LogFilter::All,
        Some(l) => LogFilter::MoreSevereEqual(l),
        None => LogFilter::MoreSevereEqual(LogLevel::Info),
    }
}

/// The log keeps exactly the messages at least as severe as the configured level,
/// so the line that every command leaves at `info` is kept unless only warnings or
/// errors are asked for.
pub proof fn law_configured_level_is_kept(level: LogLevel, message: LogLevel)
    ensures
        filter_of(Some(level)).keeps(message) <==> message.severity() >= level.severity(),
        filter_of(None).keeps(LogLevel::Info),
{
}

// -- paths ---------------------------------------------------------------------------------

/// The per-user application directory, given `XDG_CONFIG_HOME` and the platform's
/// configuration directory.
pub open spec fn app_dir_of(
    xdg: Option<Seq<char>>,
    config_dir: Option<Seq<char>>,
    windows: bool,
) -> Seq<char> {
    let base = match xdg {
        Some(x) => if crate::path::absolute(windows, x) {
            Some(x)
        } else {
            config_dir
        },
        None => config_dir,
    };
    crate::path::path_join(
        windows,
        (match base {
            Some(b) => b,
            None => ".shell-proxy"@,
        }),
        "shell-proxy"@,
    )
}

/// Per-user application directory.
///
/// `$XDG_CONFIG_HOME/shell-proxy` when `XDG_CONFIG_HOME` is set to an
/// absolute path (honored on all platforms); otherwise below the platform's
/// configuration directory. Relative values must be ignored.
#[must_use]
pub fn app_dir(xdg: Option<&str>, config_dir: Option<&str>, windows: bool) -> (r: String)
    ensures
        r@ == app_dir_of(
            crate::text::opt_str(xdg),
            crate::text::opt_str(config_dir),
            windows,
        ),
{
    let base = match xdg {
        Some(x) => if is_absolute(windows, x) {
            Some(x)
        } else {
            config_dir
        },
        None => config_dir,
    };
    let dir = match base {
        Some(b) => b,
        None => ".shell-proxy",
    };
    join_path(windows, dir, "shell-proxy")
}

/// A character kept in the name of a pipe.
pub open spec fn pipe_char(c: char) -> char {
    if 'A' <= c <= 'Z' || 'a' <= c <= 'z' || '0' <= c <= '9' {
        c
    } else {
        '_'
    }
}

/// The name of a user's pipe.
pub open spec fn pipe_name(user: Seq<char>) -> Seq<char> {
    "\\\\.\\pipe\\shell-proxy-"@ + user.map_values(|c: char| pipe_char(c))
}

/// The daemon IPC endpoint of a platform without an override.
pub open spec fn default_sock(
    windows: bool,
    username: Option<Seq<char>>,
    app_dir: Seq<char>,
) -> Seq<char> {
    if windows {
        pipe_name(
            (match username {
                Some(u) => u,
                None => "user"@,
            }),
        )
    } else {
        crate::path::path_join(false, app_dir, "daemon.sock"@)
    }
}

/// Path of the daemon IPC endpoint, given the override from the environment.
///
/// Windows uses a named pipe, other platforms a unix socket inside the app dir.
#[must_use]
pub fn sock_path(
    over: Option<&str>,
    windows: bool,
    username: Option<&str>,
    app_dir: &str,
) -> (r: String)
    ensures
        r@ == (match crate::text::opt_str(over) {
            Some(p) => if p.len() > 0 {
                p
            } else {
                default_sock(windows, crate::text::opt_str(username), app_dir@)
            },
            None => default_sock(windows, crate::text::opt_str(username), app_dir@),
        }),
{
    if let Some(p) = over {
        if !p.is_empty() {
            return p.to_owned();
        }
    }
    if windows {
        let user = match username {
            Some(u) => u,
            None => "user",
        };
        let mut sane = String::new();
        let ghost all = user@.map_values(|c: char| pipe_char(c));
        assert(sane@ =~= all.take(0));
        for c in it: user.chars()
            invariant
                it.seq() == user@,
                all == user@.map_values(|c: char| pipe_char(c)),
                sane@ == all.take(it.index()),
        {
            let kept = if ('A' <= c && c <= 'Z') || ('a' <= c && c <= 'z') || ('0' <= c && c
                <= '9') {
                c
            } else {
                '_'
            };
            assert(all[it.index()] == kept);
            assert(all.take(it.index() + 1) =~= all.take(it.index()).push(kept));
            sane.push(kept);
        }
        assert(all.take(all.len() as int) =~= all);
        let mut s = "\\\\.\\pipe\\shell-proxy-".to_owned();
        s.append(sane.as_str());
        s
    } else {
        join_path(false, app_dir, "daemon.sock")
    }
}

// -- the configuration -----------------------------------------------------------------------

/// What became of reading `config.toml`.
#[derive(Debug)]
pub enum ConfigFile {
    Missing,
    /// The file could not be read.
    Unreadable(String),
    /// The file is not a valid configuration.
    Invalid(String),
    Loaded(Config),
}

/// The configuration: a missing file yields the defaults.
pub fn load_config(file: ConfigFile, path: &str) -> (r: Result<Config, Error>)
    ensures
        match file {
            ConfigFile::Missing => r matches Ok(c) && c.host is None && c.log_level@ == "info"@,
            ConfigFile::Unreadable(e) => r matches Err(x) && x@
                == crate::error::ErrorView::Config("read "@ + path@ + ": "@ + e@),
            ConfigFile::Invalid(e) => r matches Err(x) && x@ == crate::error::ErrorView::Config(
                "parse "@ + path@ + ": "@ + e@,
            ),
            ConfigFile::Loaded(c) => r == Ok::<Config, Error>(c),
        },
{
    match file {
        ConfigFile::Missing => Ok(Config::default()),
        ConfigFile::Unreadable(e) => {
            let mut s = "read ".to_owned();
            s.append(path);
            s.append(": ");
            s.append(e.as_str());
            Err(Error::Config(s))
        },
        ConfigFile::Invalid(e) => {
            let mut s = "parse ".to_owned();
            s.append(path);
            s.append(": ");
            s.append(e.as_str());
            Err(Error::Config(s))
        },
        ConfigFile::Loaded(c) => Ok(c),
    }
}

/// The text, unless it is empty.
pub open spec fn non_empty(o: Option<Seq<char>>) -> Option<Seq<char>> {
    match o {
        Some(s) => if s.len() > 0 {
            Some(s)
        } else {
            None
        },
        None => None,
    }
}

/// The error when no host is configured anywhere.
pub open spec fn no_host(config_path: Seq<char>) -> crate::error::ErrorView {
    crate::error::ErrorView::Config(
        "no host configured; pass --host, set "@ + ENV_HOST@ + ", or set `host` in "@
            + config_path,
    )
}

/// Resolve the effective host: CLI arg > env > config file. The configuration
/// counts only when neither of the others names a host.
pub fn resolve_host(
    cli: Option<&str>,
    env: Option<&str>,
    config: Result<Config, Error>,
    config_path: &str,
) -> (r: Result<String, Error>)
    ensures
        match crate::text::opt_str(cli) {
            Some(h) => r matches Ok(x) && x@ == h,
            None => match non_empty(crate::text::opt_str(env)) {
                Some(h) => r matches Ok(x) && x@ == h,
                None => match config {
                    Err(e) => r == Err::<String, Error>(e),
                    Ok(c) => match non_empty(crate::text::opt_text(c.host)) {
                        Some(h) => r matches Ok(x) && x@ == h,
                        None => r matches Err(e) && e@ == no_host(config_path@),
                    },
                },
            },
        },
{
    if let Some(h) = cli {
        return Ok(h.to_owned());
    }
    if let Some(h) = env {
        if !h.is_empty() {
            return Ok(h.to_owned());
        }
    }
    let config = match config {
        Ok(c) => c,
        Err(e) => return Err(e),
    };
    if let Some(h) = config.host {
        if !h.as_str().is_empty() {
            return Ok(h);
        }
    }
    let mut s = "no host configured; pass --host, set ".to_owned();
    s.append(ENV_HOST);
    s.append(", or set `host` in ");
    s.append(config_path);
    Err(Error::Config(s))
}

/// Where the effective host comes from, in words.
pub fn host_source(cli: Option<&str>, env: Option<&str>) -> (r: &'static str)
    ensures
        r@ == (if cli is Some {
            "--host"@
        } else if non_empty(crate::text::opt_str(env)) is Some {
            ENV_HOST@
        } else {
            "config.toml"@
        }),
{
    if cli.is_some() {
        return "--host";
    }
    if let Some(h) = env {
        if !h.is_empty() {
            return ENV_HOST;
        }
    }
    "config.toml"
}

/// Resolve the session: explicit name > env > the default one.
pub fn resolve_session(named: Option<&str>, env: Option<&str>) -> (r: Result<
    SessionId,
    SessionNameError,
>)
    ensures
        match r {
            Ok(id) => id@ == (match crate::text::opt_str(named) {
                Some(s) => s,
                None => match non_empty(crate::text::opt_str(env)) {
                    Some(s) => s,
                    None => crate::session::DEFAULT_NAME@,
                },
            }) && crate::session::valid_name(id@),
            Err(e) => match crate::text::opt_str(named) {
                Some(s) => crate::session::rejects(s, e),
                None => match non_empty(crate::text::opt_str(env)) {
                    Some(s) => crate::session::rejects(s, e),
                    None => false,
                },
            },
        },
{
    proof {
        crate::session::law_default_name_is_valid();
    }
    if let Some(s) = named {
        return SessionId::parse(s);
    }
    if let Some(s) = env {
        if !s.is_empty() {
            return SessionId::parse(s);
        }
    }
    Ok(SessionId::default())
}

/// The number of idle seconds after which the daemon exits; `None` when the
/// variable is unset or not a number.
pub fn idle_secs(env: Option<&str>) -> (r: Option<u64>)
    ensures
        r == (match crate::text::opt_str(env) {
            Some(s) => match crate::text::uint_text(s, u64::MAX as nat) {
                Some(n) => Some(n as u64),
                None => None,
            },
            None => None,
        }),
{
    match env {
        Some(s) => parse_uint(&str_chars(s), u64::MAX),
        None => None,
    }
}

} // verus!
