use shell_proxy::config::resolve_session;
use shell_proxy::session::{
    is_allowed, session_or_default, SessionId, SessionNameError, DEFAULT_NAME, MAX_LEN,
};

#[test]
fn accepts_valid_names() {
    assert_eq!(SessionId::parse("default").unwrap().as_str(), DEFAULT_NAME);
    assert_eq!(SessionId::parse("agent-1").unwrap().as_str(), "agent-1");
    assert_eq!(SessionId::parse("a.b_c-d").unwrap().as_str(), "a.b_c-d");
    // boundary: exactly MAX_LEN bytes
    let long = "a".repeat(MAX_LEN);
    assert_eq!(SessionId::parse(&long).unwrap().as_str(), long);
}

#[test]
fn rejects_invalid_names() {
    assert_eq!(SessionId::parse("").unwrap_err(), SessionNameError::Empty);
    assert_eq!(
        SessionId::parse(&"a".repeat(MAX_LEN + 1)).unwrap_err(),
        SessionNameError::TooLong { len: MAX_LEN + 1 }
    );
    assert_eq!(
        SessionId::parse("a b").unwrap_err(),
        SessionNameError::BadChar { c: ' ' }
    );
    assert_eq!(
        SessionId::parse("a/b").unwrap_err(),
        SessionNameError::BadChar { c: '/' }
    );
    // multibyte characters are outside the charset
    assert_eq!(
        SessionId::parse("会话").unwrap_err(),
        SessionNameError::BadChar { c: '会' }
    );
}

#[test]
fn default_name_stays_valid() {
    // SessionId::default() bypasses parse; keep the constant honest.
    assert!(SessionId::parse(DEFAULT_NAME).is_ok());
    assert_eq!(SessionId::default().as_str(), DEFAULT_NAME);
}

#[test]
fn rejections_are_told_in_words() {
    assert_eq!(
        SessionNameError::Empty.message(),
        "session name must not be empty"
    );
    assert_eq!(
        SessionNameError::TooLong { len: 70 }.message(),
        "session name is 70 bytes long, the limit is 64"
    );
    assert_eq!(
        SessionNameError::BadChar { c: '\n' }.message(),
        "session name contains '\\n'; allowed characters are A-Z a-z 0-9 . _ -"
    );
}

#[test]
fn the_session_comes_from_flag_env_or_default() {
    assert_eq!(resolve_session(Some("a"), Some("b")).unwrap().as_str(), "a");
    assert_eq!(resolve_session(None, Some("b")).unwrap().as_str(), "b");
    assert_eq!(resolve_session(None, Some("")).unwrap().as_str(), "default");
    assert_eq!(resolve_session(None, None).unwrap().as_str(), "default");
    assert_eq!(
        resolve_session(Some(""), None).unwrap_err(),
        SessionNameError::Empty
    );
    assert_eq!(session_or_default(&None).unwrap().as_str(), "default");
    assert_eq!(
        session_or_default(&Some("x y".into())).unwrap_err(),
        SessionNameError::BadChar { c: ' ' }
    );
    let id = SessionId::parse("q").unwrap();
    assert_eq!(id.clone(), id);
    assert!(is_allowed('Z') && !is_allowed('~'));
}
