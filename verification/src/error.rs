//! Error types shared by the library.

use vstd::prelude::*;

use crate::text::debug_string;

verus! {

/// Library error. The variants that stand for a failure of the system or of an
/// outside component carry its description.
#[derive(Debug)]
pub enum Error {
    Io(String),
    Json(String),
    Ssh(String),
    Config(String),
    Resolve { host: String, reason: String },
    HostKey(String),
    Auth(String),
    Connect(String),
    Remote(String),
    Ipc(String),
    Daemon(String),
    Protocol(String),
    TimedOut,
}

/// An error's variant and detail.
pub enum ErrorView {
    Io(Seq<char>),
    Json(Seq<char>),
    Ssh(Seq<char>),
    Config(Seq<char>),
    Resolve { host: Seq<char>, reason: Seq<char> },
    HostKey(Seq<char>),
    Auth(Seq<char>),
    Connect(Seq<char>),
    Remote(Seq<char>),
    Ipc(Seq<char>),
    Daemon(Seq<char>),
    Protocol(Seq<char>),
    TimedOut,
}

impl View for Error {
    type V = ErrorView;

    open spec fn view(&self) -> ErrorView {
        match self {
            Error::Io(e) => ErrorView::Io(e@),
            Error::Json(e) => ErrorView::Json(e@),
            Error::Ssh(e) => ErrorView::Ssh(e@),
            Error::Config(e) => ErrorView::Config(e@),
            Error::Resolve { host, reason } => ErrorView::Resolve {
                host: host@,
                reason: reason@,
            },
            Error::HostKey(e) => ErrorView::HostKey(e@),
            Error::Auth(e) => ErrorView::Auth(e@),
            Error::Connect(e) => ErrorView::Connect(e@),
            Error::Remote(e) => ErrorView::Remote(e@),
            Error::Ipc(e) => ErrorView::Ipc(e@),
            Error::Daemon(e) => ErrorView::Daemon(e@),
            Error::Protocol(e) => ErrorView::Protocol(e@),
            Error::TimedOut => ErrorView::TimedOut,
        }
    }
}

impl ErrorView {
    /// The error as shown to a user.
    pub open spec fn text(self) -> Seq<char> {
        match self {
            ErrorView::Io(e) => "io error: "@ + e,
            ErrorView::Json(e) => "serialization error: "@ + e,
            ErrorView::Ssh(e) => "ssh error: "@ + e,
            ErrorView::Config(e) => "config error: "@ + e,
            ErrorView::Resolve { host, reason } => "ssh config resolve failed for host "@
                + crate::text::debug_text(host) + ": "@ + reason,
            ErrorView::HostKey(e) => "host key verification failed: "@ + e,
            ErrorView::Auth(e) => "authentication failed: "@ + e,
            ErrorView::Connect(e) => "connect failed: "@ + e,
            ErrorView::Remote(e) => "remote exec failed: "@ + e,
            ErrorView::Ipc(e) => "ipc error: "@ + e,
            ErrorView::Daemon(e) => "daemon not reachable: "@ + e,
            ErrorView::Protocol(e) => "protocol error: "@ + e,
            ErrorView::TimedOut => "command timed out"@,
        }
    }

    /// What a protocol error becomes.
    pub open spec fn of_proto(e: crate::proto::ErrorView) -> ErrorView {
        match e {
            crate::proto::ErrorView::Io(d) => ErrorView::Io(d),
            crate::proto::ErrorView::Json(d) => ErrorView::Json(d),
            crate::proto::ErrorView::Protocol(d) => ErrorView::Protocol(d),
        }
    }
}

fn labelled(label: &str, detail: &str) -> (r: String)
    ensures
        r@ == label@ + detail@,
{
    let mut s = label.to_owned();
    s.append(detail);
    s
}

impl Error {
    /// Human oriented short reason, used by the CLI to print one-line errors.
    pub fn brief(&self) -> (r: String)
        ensures
            r@ == self@.text(),
    {
        match self {
            Error::Io(e) => labelled("io error: ", e.as_str()),
            Error::Json(e) => labelled("serialization error: ", e.as_str()),
            Error::Ssh(e) => labelled("ssh error: ", e.as_str()),
            Error::Config(e) => labelled("config error: ", e.as_str()),
            Error::Resolve { host, reason } => {
                let mut s = "ssh config resolve failed for host ".to_owned();
                s.append(debug_string(host.as_str()).as_str());
                s.append(": ");
                s.append(reason.as_str());
                s
            },
            Error::HostKey(e) => labelled("host key verification failed: ", e.as_str()),
            Error::Auth(e) => labelled("authentication failed: ", e.as_str()),
            Error::Connect(e) => labelled("connect failed: ", e.as_str()),
            Error::Remote(e) => labelled("remote exec failed: ", e.as_str()),
            Error::Ipc(e) => labelled("ipc error: ", e.as_str()),
            Error::Daemon(e) => labelled("daemon not reachable: ", e.as_str()),
            Error::Protocol(e) => labelled("protocol error: ", e.as_str()),
            Error::TimedOut => "command timed out".to_owned(),
        }
    }

    /// What a protocol error becomes.
    pub fn from_proto(e: crate::proto::Error) -> (r: Error)
        ensures
            r@ == ErrorView::of_proto(e@),
    {
        match e {
            crate::proto::Error::Io(d) => Error::Io(d),
            crate::proto::Error::Json(d) => Error::Json(d),
            crate::proto::Error::Protocol(d) => Error::Protocol(d),
        }
    }
}

} // verus!
