//! What the client hands to the transport and what it makes of the answer.
//! The transport itself, an HTTP client under a TLS trust policy, belongs
//! to the caller: it performs a [`Request`] and reports a
//! [`TransportOutcome`].

use crate::codec::{ImportRequest, SignRequest};
use crate::error::{Error, Fault};
use vstd::prelude::*;
use vstd::string::*;

verus! {

/// The name of the header that carries the authentication token.
pub const VAULT_TOKEN: &'static str = "X-Vault-Token";

/// The method of a request.
#[derive(Debug, Clone, Copy, PartialEq, Eq)]
pub enum Method {
    Get,
    Post,
}

/// What a request carries in its body, to be sent as JSON.
#[derive(Debug, Clone, PartialEq, Eq)]
pub enum Body {
    Empty,
    Sign(SignRequest),
    Import(ImportRequest),
}

/// A request to the service.
#[derive(Debug, Clone, PartialEq, Eq)]
pub struct Request {
    pub method: Method,
    pub uri: String,
    /// The value of the header [`VAULT_TOKEN`].
    pub token: String,
    pub body: Body,
}

/// What the transport reports of one request.
#[derive(Debug, Clone, PartialEq, Eq)]
pub enum TransportOutcome {
    /// The service answered with success; this is the body of the response.
    Response(Vec<u8>),
    /// The service answered with this failure status.
    Status(u16),
    /// No answer came: connection, TLS handshake or timeout. Holds the
    /// cause in the transport's words.
    Failure(String),
}

/// The mathematical value of a [`TransportOutcome`].
pub enum Outcome {
    Response(Seq<u8>),
    Status(u16),
    Failure(Seq<char>),
}

impl View for TransportOutcome {
    type V = Outcome;

    open spec fn view(&self) -> Outcome {
        match self {
            TransportOutcome::Response(body) => Outcome::Response(body@),
            TransportOutcome::Status(code) => Outcome::Status(*code),
            TransportOutcome::Failure(cause) => Outcome::Failure(cause@),
        }
    }
}

/// What becomes of an outcome: a response passes, a failure status stops
/// the process where it is one of `fatal` and is an ordinary error where it
/// is not, and any other failure is an error of the transport.
pub open spec fn classified(fatal: Seq<u16>, uri: Seq<char>, outcome: Outcome) -> Result<
    Seq<u8>,
    Fault,
> {
    match outcome {
        Outcome::Response(body) => Ok(body),
        Outcome::Status(code) => if fatal.contains(code) {
            Err(Fault::ProhibitedResponseCode { code, uri })
        } else {
            Err(Fault::HttpStatus { code, uri })
        },
        Outcome::Failure(cause) => Err(Fault::Transport(cause)),
    }
}

/// Whether `code` is one of `codes`.
pub fn contains_code(codes: &Vec<u16>, code: u16) -> (found: bool)
    ensures
        found == codes@.contains(code),
{
    let mut i: usize = 0;
    while i < codes.len()
        invariant
            i <= codes.len(),
            forall|k: int| 0 <= k < i ==> codes@[k] != code,
        decreases codes.len() - i,
    {
        if codes[i] == code {
            return true;
        }
        i = i + 1;
    }
    false
}

/// Classifies what the transport reported of the request to `uri`. The
/// body of a response passes through unchanged. A status in `fatal` gives
/// [`Error::ProhibitedResponseCode`], on which the caller must stop the
/// process.
pub fn check_response_status_code(fatal: &Vec<u16>, uri: &str, outcome: TransportOutcome) -> (res:
    Result<Vec<u8>, Error>)
    ensures
        match classified(fatal@, uri@, outcome@) {
            Ok(body) => res matches Ok(passed) && passed@ == body,
            Err(fault) => res matches Err(e) && e@ == fault,
        },
{
    match outcome {
        TransportOutcome::Response(body) => Ok(body),
        TransportOutcome::Status(code) => {
            if contains_code(fatal, code) {
                Err(Error::ProhibitedResponseCode { code, uri: String::from_str(uri) })
            } else {
                Err(Error::HttpStatus { code, uri: String::from_str(uri) })
            }
        },
        TransportOutcome::Failure(cause) => Err(Error::Transport(cause)),
    }
}

/// A status in the fatal set always stops the process, and a status outside
/// it always comes back as an ordinary error with the same code and URI.
pub proof fn lemma_status_classification(fatal: Seq<u16>, uri: Seq<char>, code: u16)
    ensures
        fatal.contains(code) ==> classified(fatal, uri, Outcome::Status(code)) == Err::<
            Seq<u8>,
            Fault,
        >(Fault::ProhibitedResponseCode { code, uri }),
        !fatal.contains(code) ==> classified(fatal, uri, Outcome::Status(code)) == Err::<
            Seq<u8>,
            Fault,
        >(Fault::HttpStatus { code, uri }),
{
}

} // verus!
