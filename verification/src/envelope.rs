//! The envelope that the service wraps round every response, and the
//! payloads that the client reads out of it.

use crate::error::{Error, Fault};
use crate::json::{json_of_bytes, member, parse_value, text_member, value_model, JsonValue};
use crate::keys::{key_versions_of, KeyAttributesModel, KeyVersions};
use serde_json::Value;
use vstd::prelude::*;

verus! {

/// The envelope of a response. `data` is the payload; a response without
/// one is not the same as a response with an empty one, and every operation
/// says for itself what a missing payload means. The last three fields are
/// carried along and never looked into.
#[derive(Debug, Clone, PartialEq, Eq)]
pub struct Root<T> {
    pub request_id: String,
    pub lease_id: String,
    pub renewable: bool,
    /// In seconds.
    pub lease_duration: i64,
    pub data: Option<T>,
    pub wrap_info: Value,
    pub warnings: Value,
    pub auth: Value,
}

/// The mathematical value of a [`Root`].
pub struct Envelope<P> {
    pub request_id: Seq<char>,
    pub lease_id: Seq<char>,
    pub renewable: bool,
    pub lease_duration: i64,
    pub data: Option<P>,
    pub wrap_info: JsonValue,
    pub warnings: JsonValue,
    pub auth: JsonValue,
}

impl<T: View> View for Root<T> {
    type V = Envelope<T::V>;

    open spec fn view(&self) -> Envelope<T::V> {
        Envelope {
            request_id: self.request_id@,
            lease_id: self.lease_id@,
            renewable: self.renewable,
            lease_duration: self.lease_duration,
            data: match self.data {
                Some(payload) => Some(payload@),
                None => None,
            },
            wrap_info: value_model(self.wrap_info),
            warnings: value_model(self.warnings),
            auth: value_model(self.auth),
        }
    }
}

/// A payload that can stand in the `data` field of an envelope.
pub trait Payload: View + Sized {
    /// The payload that a JSON document describes, if it describes one.
    spec fn payload_of(document: JsonValue) -> Option<Self::V>;

    /// Reads the payload from a JSON document.
    fn from_json(value: &Value) -> (res: Option<Self>)
        ensures
            match Self::payload_of(value_model(*value)) {
                Some(model) => res matches Some(payload) && payload@ == model,
                None => res is None,
            },
    ;
}

/// What the `data` member of an envelope holds: `None` where the member is
/// no payload, `Some(None)` where it is missing or `null`.
pub open spec fn data_of<T: Payload>(document: JsonValue) -> Option<Option<T::V>> {
    match document.member("data"@) {
        None => Some(None),
        Some(JsonValue::Null) => Some(None),
        Some(data) => match T::payload_of(data) {
            Some(payload) => Some(Some(payload)),
            None => None,
        },
    }
}

/// The envelope that a JSON document describes: an object with the string
/// members `request_id` and `lease_id`, the boolean member `renewable`, the
/// integer member `lease_duration`, members `wrap_info`, `warnings` and
/// `auth` of any kind, and a member `data` that is a payload, `null` or
/// missing.
pub open spec fn envelope_of<T: Payload>(document: JsonValue) -> Option<Envelope<T::V>> {
    if document.member_text("request_id"@) is Some && document.member_text("lease_id"@) is Some
        && document.member_boolean("renewable"@) is Some && document.member_integer(
        "lease_duration"@,
    ) is Some && data_of::<T>(document) is Some && document.member("wrap_info"@) is Some
        && document.member("warnings"@) is Some && document.member("auth"@) is Some {
        Some(
            Envelope {
                request_id: document.member_text("request_id"@)->0,
                lease_id: document.member_text("lease_id"@)->0,
                renewable: document.member_boolean("renewable"@)->0,
                lease_duration: document.member_integer("lease_duration"@)->0,
                data: data_of::<T>(document)->0,
                wrap_info: document.member("wrap_info"@)->0,
                warnings: document.member("warnings"@)->0,
                auth: document.member("auth"@)->0,
            },
        )
    } else {
        None
    }
}

/// The envelope that a response body holds.
pub open spec fn decoded_envelope<T: Payload>(body: Seq<u8>) -> Option<Envelope<T::V>> {
    match json_of_bytes(body) {
        Some(document) => envelope_of::<T>(document),
        None => None,
    }
}

impl<T: Payload> Root<T> {
    /// Reads an envelope from a JSON document.
    pub fn from_json(value: &Value) -> (res: Option<Root<T>>)
        ensures
            match envelope_of::<T>(value_model(*value)) {
                Some(envelope) => res matches Some(root) && root@ == envelope,
                None => res is None,
            },
    {
        let request_id = match text_member(value, "request_id") {
            Some(text) => text,
            None => { return None; },
        };
        let lease_id = match text_member(value, "lease_id") {
            Some(text) => text,
            None => { return None; },
        };
        let renewable = match member(value, "renewable") {
            Some(m) => match m.as_bool() {
                Some(b) => b,
                None => { return None; },
            },
            None => { return None; },
        };
        let lease_duration = match member(value, "lease_duration") {
            Some(m) => match m.as_i64() {
                Some(n) => n,
                None => { return None; },
            },
            None => { return None; },
        };
        let data = match member(value, "data") {
            None => None,
            Some(m) => {
                if m.is_null() {
                    None
                } else {
                    match T::from_json(m) {
                        Some(payload) => Some(payload),
                        None => { return None; },
                    }
                }
            },
        };
        let wrap_info = match member(value, "wrap_info") {
            Some(m) => m.clone(),
            None => { return None; },
        };
        let warnings = match member(value, "warnings") {
            Some(m) => m.clone(),
            None => { return None; },
        };
        let auth = match member(value, "auth") {
            Some(m) => m.clone(),
            None => { return None; },
        };
        Some(
            Root {
                request_id,
                lease_id,
                renewable,
                lease_duration,
                data,
                wrap_info,
                warnings,
                auth,
            },
        )
    }

    /// Reads the envelope of a response from its body. A body that is no
    /// JSON, or JSON of another shape, is a malformed response.
    pub fn decode(body: &[u8]) -> (res: Result<Root<T>, Error>)
        ensures
            match decoded_envelope::<T>(body@) {
                Some(envelope) => res matches Ok(root) && root@ == envelope,
                None => res matches Err(e) && e@ == Fault::MalformedResponse,
            },
    {
        match parse_value(body) {
            Some(value) => match Root::<T>::from_json(&value) {
                Some(root) => Ok(root),
                None => Err(Error::MalformedResponse),
            },
            None => Err(Error::MalformedResponse),
        }
    }
}

/// The payload of the response to a request for a key: its versions.
#[derive(Debug)]
pub struct PublicKeyResponse {
    pub keys: KeyVersions,
}

impl View for PublicKeyResponse {
    type V = Map<u64, KeyAttributesModel>;

    open spec fn view(&self) -> Map<u64, KeyAttributesModel> {
        self.keys@
    }
}

impl Payload for PublicKeyResponse {
    open spec fn payload_of(document: JsonValue) -> Option<Map<u64, KeyAttributesModel>> {
        match document.member("keys"@) {
            Some(keys) => key_versions_of(keys),
            None => None,
        }
    }

    fn from_json(value: &Value) -> (res: Option<Self>) {
        match member(value, "keys") {
            Some(m) => match KeyVersions::from_json(m) {
                Some(keys) => Some(PublicKeyResponse { keys }),
                None => None,
            },
            None => None,
        }
    }
}

/// The payload of the response to a signing request.
#[derive(Debug, Clone, PartialEq, Eq)]
pub struct SignResponse {
    /// The signature field, `<backend>:<key version>:<base64 signature>`.
    pub signature: String,
}

impl View for SignResponse {
    type V = Seq<char>;

    open spec fn view(&self) -> Seq<char> {
        self.signature@
    }
}

impl Payload for SignResponse {
    open spec fn payload_of(document: JsonValue) -> Option<Seq<char>> {
        document.member_text("signature"@)
    }

    fn from_json(value: &Value) -> (res: Option<Self>) {
        match text_member(value, "signature") {
            Some(signature) => Some(SignResponse { signature }),
            None => None,
        }
    }
}

/// The payload of the response to a request for the wrapping key.
#[derive(Debug, Clone, PartialEq, Eq)]
pub struct WrappingKeyResponse {
    /// The wrapping key in PEM.
    pub public_key: String,
}

impl View for WrappingKeyResponse {
    type V = Seq<char>;

    open spec fn view(&self) -> Seq<char> {
        self.public_key@
    }
}

impl Payload for WrappingKeyResponse {
    open spec fn payload_of(document: JsonValue) -> Option<Seq<char>> {
        document.member_text("public_key"@)
    }

    fn from_json(value: &Value) -> (res: Option<Self>) {
        match text_member(value, "public_key") {
            Some(public_key) => Some(WrappingKeyResponse { public_key }),
            None => None,
        }
    }
}

} // verus!
