//! The error type shared by every layer of the library.

use vstd::prelude::*;

verus! {

/// What went wrong.
#[derive(Clone, Debug, PartialEq, Eq)]
pub enum ErrorKind {
    /// mDNS discovery failed.
    Dns,
    /// The socket reported an error other than "would block".
    Io,
    /// The TLS handshake failed.
    TlsHandshake,
    /// An envelope, or the payload inside it, could not be decoded.
    Protobuf,
    /// The payload names a message type that is not known, or is binary.
    UnknownMessageType(String),
    /// A session or device UUID is missing or could not be parsed.
    UuidParse,
}

/// An error of the library.
#[derive(Clone, Debug, PartialEq, Eq)]
pub struct Error(pub ErrorKind);

/// The mathematical value of an [`ErrorKind`].
pub enum ErrorModel {
    Dns,
    Io,
    TlsHandshake,
    Protobuf,
    UnknownMessageType(Seq<char>),
    UuidParse,
}

impl View for ErrorKind {
    type V = ErrorModel;

    open spec fn view(&self) -> ErrorModel {
        match *self {
            ErrorKind::Dns => ErrorModel::Dns,
            ErrorKind::Io => ErrorModel::Io,
            ErrorKind::TlsHandshake => ErrorModel::TlsHandshake,
            ErrorKind::Protobuf => ErrorModel::Protobuf,
            ErrorKind::UnknownMessageType(tag) => ErrorModel::UnknownMessageType(tag@),
            ErrorKind::UuidParse => ErrorModel::UuidParse,
        }
    }
}

impl View for Error {
    type V = ErrorModel;

    open spec fn view(&self) -> ErrorModel {
        self.0@
    }
}

impl Error {
    /// The kind of this error.
    pub fn kind(&self) -> (kind: &ErrorKind)
        ensures
            *kind == self.0,
    {
        &self.0
    }

    /// A short description of the kind of error.
    pub fn description(&self) -> (text: &'static str)
        ensures
            text@ == description_of(self@),
    {
        match &self.0 {
            ErrorKind::Dns => "mDNS discovery failed",
            ErrorKind::Io => "I/O error",
            ErrorKind::TlsHandshake => "TLS handshake failed",
            ErrorKind::Protobuf => "message could not be decoded",
            ErrorKind::UnknownMessageType(_) => "unknown message type",
            ErrorKind::UuidParse => "invalid UUID",
        }
    }
}

/// The description that goes with each kind of error.
pub open spec fn description_of(error: ErrorModel) -> Seq<char> {
    match error {
        ErrorModel::Dns => "mDNS discovery failed"@,
        ErrorModel::Io => "I/O error"@,
        ErrorModel::TlsHandshake => "TLS handshake failed"@,
        ErrorModel::Protobuf => "message could not be decoded"@,
        ErrorModel::UnknownMessageType(_) => "unknown message type"@,
        ErrorModel::UuidParse => "invalid UUID"@,
    }
}

} // verus!
