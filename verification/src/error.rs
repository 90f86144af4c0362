//! The failures that an operation of the client can end in.

use vstd::prelude::*;

verus! {

/// Why an operation failed.
#[derive(Debug, Clone, PartialEq, Eq)]
pub enum Error {
    /// The request never produced a response: connection, TLS handshake or
    /// timeout. Holds the cause as the transport reported it.
    Transport(String),
    /// The service answered with a failure status that is not configured as
    /// fatal.
    HttpStatus { code: u16, uri: String },
    /// The service answered with a status that is configured as fatal: the
    /// host process must stop rather than go on signing.
    ProhibitedResponseCode { code: u16, uri: String },
    /// The response body is no JSON document of the expected shape.
    MalformedResponse,
    /// No usable public key came back.
    InvalidPubKey(String),
    /// A message of length zero was handed in for signing.
    InvalidEmptyMessage,
    /// The signature that came back is not in the expected format.
    InvalidSignature(String),
    /// The response to a signing request carried no payload.
    NoSignature,
    /// The CA certificate file holds no usable PEM certificate.
    InvalidCertificate(String),
}

/// The mathematical value of an [`Error`].
pub enum Fault {
    Transport(Seq<char>),
    HttpStatus { code: u16, uri: Seq<char> },
    ProhibitedResponseCode { code: u16, uri: Seq<char> },
    MalformedResponse,
    InvalidPubKey(Seq<char>),
    InvalidEmptyMessage,
    InvalidSignature(Seq<char>),
    NoSignature,
    InvalidCertificate(Seq<char>),
}

impl View for Error {
    type V = Fault;

    open spec fn view(&self) -> Fault {
        match self {
            Error::Transport(cause) => Fault::Transport(cause@),
            Error::HttpStatus { code, uri } => Fault::HttpStatus { code: *code, uri: uri@ },
            Error::ProhibitedResponseCode { code, uri } => Fault::ProhibitedResponseCode {
                code: *code,
                uri: uri@,
            },
            Error::MalformedResponse => Fault::MalformedResponse,
            Error::InvalidPubKey(reason) => Fault::InvalidPubKey(reason@),
            Error::InvalidEmptyMessage => Fault::InvalidEmptyMessage,
            Error::InvalidSignature(reason) => Fault::InvalidSignature(reason@),
            Error::NoSignature => Fault::NoSignature,
            Error::InvalidCertificate(reason) => Fault::InvalidCertificate(reason@),
        }
    }
}

impl Error {
    /// Whether the host process must stop on this error.
    pub fn is_fatal(&self) -> (fatal: bool)
        ensures
            fatal == (self@ is ProhibitedResponseCode),
    {
        match self {
            Error::ProhibitedResponseCode { .. } => true,
            _ => false,
        }
    }
}

} // verus!
