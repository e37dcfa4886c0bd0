//! The server's error type.

use vstd::prelude::*;

verus! {

/// What went wrong.
#[derive(Debug, Clone, Copy, PartialEq, Eq, Structural)]
pub enum ErrorKind {
    StreamReadFailed,
    CommandLineArgsParse,
    UnsupportedHttpMethod,
    UnsupportedHttpVersion,
    RequestParse,
    FileNotFound,
    DirNotFound,
    Io,
    TcpBind,
    NotImplemented,
}

/// The name of a kind, as its variant is written.
pub open spec fn kind_name(k: ErrorKind) -> Seq<char> {
    match k {
        ErrorKind::StreamReadFailed => "StreamReadFailed"@,
        ErrorKind::CommandLineArgsParse => "CommandLineArgsParse"@,
        ErrorKind::UnsupportedHttpMethod => "UnsupportedHttpMethod"@,
        ErrorKind::UnsupportedHttpVersion => "UnsupportedHttpVersion"@,
        ErrorKind::RequestParse => "RequestParse"@,
        ErrorKind::FileNotFound => "FileNotFound"@,
        ErrorKind::DirNotFound => "DirNotFound"@,
        ErrorKind::Io => "Io"@,
        ErrorKind::TcpBind => "TcpBind"@,
        ErrorKind::NotImplemented => "NotImplemented"@,
    }
}

impl ErrorKind {
    pub fn name(&self) -> (r: &'static str)
        ensures
            r@ == kind_name(*self),
    {
        match self {
            ErrorKind::StreamReadFailed => "StreamReadFailed",
            ErrorKind::CommandLineArgsParse => "CommandLineArgsParse",
            ErrorKind::UnsupportedHttpMethod => "UnsupportedHttpMethod",
            ErrorKind::UnsupportedHttpVersion => "UnsupportedHttpVersion",
            ErrorKind::RequestParse => "RequestParse",
            ErrorKind::FileNotFound => "FileNotFound",
            ErrorKind::DirNotFound => "DirNotFound",
            ErrorKind::Io => "Io",
            ErrorKind::TcpBind => "TcpBind",
            ErrorKind::NotImplemented => "NotImplemented",
        }
    }
}

/// An error: its kind and a message.
#[derive(Debug, PartialEq)]
pub struct Error {
    kind: ErrorKind,
    msg: String,
}

impl Error {
    /// The kind of the error.
    pub closed spec fn spec_kind(&self) -> ErrorKind {
        self.kind
    }

    /// The message of the error.
    pub closed spec fn spec_msg(&self) -> Seq<char> {
        self.msg@
    }

    pub fn new(kind: ErrorKind, msg: &str) -> (r: Self)
        ensures
            r.spec_kind() == kind,
            r.spec_msg() == msg@,
    {
        Error { kind, msg: msg.to_string() }
    }

    pub fn kind(&self) -> (r: ErrorKind)
        ensures
            r == self.spec_kind(),
    {
        self.kind
    }

    /// The error as text: `<kind>: <message>`.
    pub fn message(&self) -> (r: String)
        ensures
            r@ == kind_name(self.spec_kind()) + ": "@ + self.spec_msg(),
    {
        let mut r = self.kind.name().to_string();
        r.append(": ");
        r.append(self.msg.as_str());
        r
    }
}

} // verus!
