use shell_proxy::config::{
    app_dir, host_source, idle_secs, load_config, log_filter, resolve_host, sock_path, Config,
    ConfigFile, LogFilter, LogLevel, ENV_HOST, ENV_SOCK,
};
use shell_proxy::Error;

#[test]
fn the_app_dir_follows_an_absolute_xdg_dir() {
    assert_eq!(app_dir(Some("/x"), Some("/c"), false), "/x/shell-proxy");
    // relative values are ignored
    assert_eq!(app_dir(Some("rel/path"), Some("/c"), false), "/c/shell-proxy");
    assert_eq!(app_dir(Some(""), Some("/c"), false), "/c/shell-proxy");
    assert_eq!(app_dir(Some("C:/x"), Some("/c"), false), "/c/shell-proxy");
    assert_eq!(app_dir(None, Some("/c/"), false), "/c/shell-proxy");
    assert_eq!(app_dir(None, None, false), ".shell-proxy/shell-proxy");
    // honored on Windows too
    let roaming = Some(r"C:\Users\me\AppData\Roaming");
    assert_eq!(app_dir(Some("C:/x"), roaming, true), r"C:/x\shell-proxy");
    assert_eq!(app_dir(Some(r"D:\"), roaming, true), r"D:\shell-proxy");
    assert_eq!(
        app_dir(Some(r"\\srv\home"), roaming, true),
        r"\\srv\home\shell-proxy"
    );
    for relative in ["x", "/x", r"\x", "C:x", "C:", r"\\srv", r"\\srv\", "1:/x"] {
        assert_eq!(
            app_dir(Some(relative), roaming, true),
            r"C:\Users\me\AppData\Roaming\shell-proxy"
        );
    }
}

#[test]
fn the_endpoint_is_overridden_or_platform_default() {
    assert_eq!(sock_path(Some("/s"), false, None, "/d"), "/s");
    assert_eq!(sock_path(Some(""), false, None, "/d"), "/d/daemon.sock");
    assert_eq!(sock_path(None, false, Some("u"), "/d"), "/d/daemon.sock");
    assert_eq!(
        sock_path(None, true, Some("Jo Ë-1"), "/d"),
        r"\\.\pipe\shell-proxy-Jo___1"
    );
    assert_eq!(sock_path(None, true, None, "/d"), r"\\.\pipe\shell-proxy-user");
    assert_eq!((ENV_SOCK, ENV_HOST), ("SP_SOCK", "SP_HOST"));
}

#[test]
fn a_missing_config_yields_defaults() {
    let c = load_config(ConfigFile::Missing, "/p").unwrap();
    assert!(c.host.is_none());
    assert_eq!(c.log_level, "info");
    let e = load_config(ConfigFile::Unreadable("denied".into()), "/p").unwrap_err();
    assert_eq!(e.brief(), "config error: read /p: denied");
    let e = load_config(ConfigFile::Invalid("line 1".into()), "/p").unwrap_err();
    assert_eq!(e.brief(), "config error: parse /p: line 1");
    let own = Config { host: Some("h".into()), log_level: "warn".into() };
    let c = load_config(ConfigFile::Loaded(own), "/p").unwrap();
    assert_eq!(c.host.as_deref(), Some("h"));
}

#[test]
fn the_host_comes_from_flag_env_or_config() {
    let config = |h: Option<&str>| -> Result<Config, Error> {
        Ok(Config { host: h.map(str::to_owned), log_level: "info".into() })
    };
    let bad = || -> Result<Config, Error> { Err(Error::Config("broken".into())) };
    assert_eq!(resolve_host(Some("a"), Some("b"), bad(), "/p").unwrap(), "a");
    assert_eq!(resolve_host(None, Some("b"), bad(), "/p").unwrap(), "b");
    assert_eq!(resolve_host(None, Some(""), config(Some("c")), "/p").unwrap(), "c");
    assert_eq!(
        resolve_host(None, None, bad(), "/p").unwrap_err().brief(),
        "config error: broken"
    );
    for none in [config(None), config(Some(""))] {
        assert_eq!(
            resolve_host(None, None, none, "/p").unwrap_err().brief(),
            "config error: no host configured; pass --host, set SP_HOST, or set `host` in /p"
        );
    }
    assert_eq!(host_source(Some("a"), Some("b")), "--host");
    assert_eq!(host_source(None, Some("b")), "SP_HOST");
    assert_eq!(host_source(None, Some("")), "config.toml");
}

#[test]
fn log_levels_become_filters() {
    assert_eq!(LogLevel::parse("trace"), Some(LogLevel::Trace));
    assert_eq!(LogLevel::parse("loud"), None);
    assert_eq!(log_filter(LogLevel::parse("trace")), LogFilter::All);
    assert_eq!(
        log_filter(LogLevel::parse("debug")),
        LogFilter::MoreSevereEqual(LogLevel::Debug)
    );
    assert_eq!(
        log_filter(LogLevel::parse("error")),
        LogFilter::MoreSevereEqual(LogLevel::Error)
    );
    assert_eq!(
        log_filter(LogLevel::parse("info")),
        LogFilter::MoreSevereEqual(LogLevel::Info)
    );
    assert_eq!(log_filter(None), LogFilter::MoreSevereEqual(LogLevel::Info));
}

#[test]
fn idle_seconds_must_be_a_number() {
    assert_eq!(idle_secs(Some("300")), Some(300));
    assert_eq!(idle_secs(Some("+5")), Some(5));
    assert_eq!(idle_secs(Some("5s")), None);
    assert_eq!(idle_secs(Some("18446744073709551616")), None);
    assert_eq!(idle_secs(Some("18446744073709551615")), Some(u64::MAX));
    assert_eq!(idle_secs(None), None);
}
