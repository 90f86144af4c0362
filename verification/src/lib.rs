//! The protocol and trust layer of a remote-signing client: a validator
//! hands its private-key operations to a transit-style secrets engine and
//! never holds the key itself. The library builds the requests, classifies
//! what the transport reports, decodes the response envelope, selects the
//! current key version and checks the format of keys and signatures. The
//! transport itself stays with the caller.

pub mod assoc;
pub mod client;
pub mod codec;
pub mod envelope;
pub mod error;
pub mod json;
pub mod keys;
pub mod text;
pub mod transport;
pub mod trust;
