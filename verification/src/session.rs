//! Validated session names: the daemon routes persisted cwd/state by
//! (host, session), giving parallel callers independent shell state on one
//! host.

use vstd::prelude::*;
use vstd::utf8::*;

use crate::text::{debug_char, push_nat};

verus! {

/// Session used by requests that do not name one.
pub const DEFAULT_NAME: &'static str = "default";

/// Longest allowed session name, in UTF-8 bytes.
pub const MAX_LEN: usize = 64;

/// Why [`SessionId::parse`] rejected a name.
#[derive(Debug, Clone, Copy, PartialEq, Eq, Structural)]
pub enum SessionNameError {
    Empty,
    TooLong { len: usize },
    BadChar { c: char },
}

/// A character that may stand in a session name: `[A-Za-z0-9._-]`.
pub open spec fn allowed(c: char) -> bool {
    ||| 'A' <= c <= 'Z'
    ||| 'a' <= c <= 'z'
    ||| '0' <= c <= '9'
    ||| c == '.'
    ||| c == '_'
    ||| c == '-'
}

/// Every character may stand in a session name.
pub open spec fn all_allowed(s: Seq<char>) -> bool {
    forall|i: int| 0 <= i < s.len() ==> allowed(#[trigger] s[i])
}

/// A session name: not empty, within the length limit, of allowed characters.
pub open spec fn valid_name(s: Seq<char>) -> bool {
    &&& s.len() > 0
    &&& encode_utf8(s).len() <= MAX_LEN
    &&& all_allowed(s)
}

/// The first character that may not stand in a session name.
pub open spec fn first_bad(s: Seq<char>) -> char
    decreases s.len(),
{
    if s.len() == 0 {
        arbitrary()
    } else if !allowed(s[0]) {
        s[0]
    } else {
        first_bad(s.skip(1))
    }
}

impl SessionNameError {
    /// The reason in words.
    pub open spec fn text(self) -> Seq<char> {
        match self {
            SessionNameError::Empty => "session name must not be empty"@,
            SessionNameError::TooLong { len } => "session name is "@ + crate::text::dec_nat(
                len as nat,
            ) + " bytes long, the limit is "@ + crate::text::dec_nat(MAX_LEN as nat),
            SessionNameError::BadChar { c } => "session name contains "@
                + crate::text::debug_char_text(c)
                + "; allowed characters are A-Z a-z 0-9 . _ -"@,
        }
    }

    /// The reason in words.
    pub fn message(&self) -> (r: String)
        ensures
            r@ == self.text(),
    {
        match self {
            SessionNameError::Empty => "session name must not be empty".to_owned(),
            SessionNameError::TooLong { len } => {
                let mut s = "session name is ".to_owned();
                push_nat(&mut s, *len as u64);
                s.append(" bytes long, the limit is ");
                push_nat(&mut s, MAX_LEN as u64);
                s
            },
            SessionNameError::BadChar { c } => {
                let mut s = "session name contains ".to_owned();
                s.append(debug_char(*c).as_str());
                s.append("; allowed characters are A-Z a-z 0-9 . _ -");
                s
            },
        }
    }
}

/// Why a name is rejected: the first rule it breaks.
pub open spec fn rejects(s: Seq<char>, e: SessionNameError) -> bool {
    match e {
        SessionNameError::Empty => s.len() == 0,
        SessionNameError::TooLong { len } => s.len() > 0 && len == encode_utf8(s).len() && len
            > MAX_LEN,
        SessionNameError::BadChar { c } => {
            &&& s.len() > 0
            &&& encode_utf8(s).len() <= MAX_LEN
            &&& !all_allowed(s)
            &&& c == first_bad(s)
        },
    }
}

/// A validated session name.
///
/// The charset keeps names safe as log tokens and map keys (no newlines, no
/// shell metacharacters); names never reach a remote command line or file
/// path. [`SessionId::parse`] and the default are the only constructors, so
/// every `SessionId` in the process is known valid.
#[derive(Debug, PartialEq, Eq, Hash)]
pub struct SessionId(String);

impl View for SessionId {
    type V = Seq<char>;

    closed spec fn view(&self) -> Seq<char> {
        self.0@
    }
}

/// Whether a character may stand in a session name.
pub fn is_allowed(c: char) -> (r: bool)
    ensures
        r == allowed(c),
{
    ('A' <= c && c <= 'Z') || ('a' <= c && c <= 'z') || ('0' <= c && c <= '9') || c == '.' || c
        == '_' || c == '-'
}

proof fn lemma_default_name()
    ensures
        valid_name(DEFAULT_NAME@),
{
    reveal_strlit("default");
    assert(is_ascii_chars(DEFAULT_NAME@));
    is_ascii_chars_encode_utf8(DEFAULT_NAME@);
}

impl SessionId {
    #[verifier::type_invariant]
    spec fn valid(self) -> bool {
        valid_name(self.0@)
    }

    /// Validate and wrap `s`: rejected when it is empty, longer than
    /// [`MAX_LEN`] bytes, or contains a character outside `[A-Za-z0-9._-]`.
    pub fn parse(s: &str) -> (r: Result<SessionId, SessionNameError>)
        ensures
            match r {
                Ok(id) => valid_name(s@) && id@ == s@,
                Err(e) => rejects(s@, e),
            },
    {
        if s.is_empty() {
            return Err(SessionNameError::Empty);
        }
        let len = s.as_bytes().len();
        if len > MAX_LEN {
            return Err(SessionNameError::TooLong { len });
        }
        assert(s@.skip(0) =~= s@);
        for c in it: s.chars()
            invariant
                it.seq() == s@,
                s@.len() > 0,
                encode_utf8(s@).len() <= MAX_LEN,
                forall|j: int| 0 <= j < it.index() ==> allowed(#[trigger] s@[j]),
                first_bad(s@) == first_bad(s@.skip(it.index())),
        {
            if !is_allowed(c) {
                assert(s@.skip(it.index())[0] == c);
                assert(!allowed(s@[it.index()]));
                return Err(SessionNameError::BadChar { c });
            }
            assert(s@.skip(it.index()).skip(1) =~= s@.skip(it.index() + 1));
        }
        Ok(SessionId(s.to_owned()))
    }

    /// The name.
    #[must_use]
    pub fn as_str(&self) -> (r: &str)
        ensures
            r@ == self@,
            valid_name(r@),
    {
        proof {
            use_type_invariant(self);
        }
        self.0.as_str()
    }
}

impl Clone for SessionId {
    fn clone(&self) -> (r: SessionId)
        ensures
            r@ == self@,
    {
        proof {
            use_type_invariant(self);
        }
        SessionId(self.0.as_str().to_owned())
    }
}

impl Default for SessionId {
    /// The fallback session ([`DEFAULT_NAME`]).
    fn default() -> (r: SessionId)
        ensures
            r@ == DEFAULT_NAME@,
    {
        proof {
            lemma_default_name();
        }
        SessionId(DEFAULT_NAME.to_owned())
    }
}

/// The fallback name passes the same rules as any other.
pub proof fn law_default_name_is_valid()
    ensures
        valid_name(DEFAULT_NAME@),
{
    lemma_default_name();
}

/// The session a call uses: the one it names, or the fallback.
pub fn session_or_default(name: &Option<String>) -> (r: Result<SessionId, SessionNameError>)
    ensures
        match r {
            Ok(id) => match name {
                Some(n) => valid_name(n@) && id@ == n@,
                None => id@ == DEFAULT_NAME@,
            },
            Err(e) => *name matches Some(n) && rejects(n@, e),
        },
{
    match name {
        Some(n) => SessionId::parse(n.as_str()),
        None => Ok(SessionId::default()),
    }
}

} // verus!
