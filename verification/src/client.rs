//! The client: one request and one answer per operation. For each
//! operation the client builds the request that the transport is to
//! perform, and makes of the outcome that the transport reports the value
//! that the operation returns.

use crate::codec::{
    decode_public_key, decode_signature, encode_import_request, encode_sign_request,
    base64_encoded, public_key_of, signature_of, CreateKeyType, IMPORT_HASH_FUNCTION,
};
use crate::envelope::{
    decoded_envelope, Envelope, PublicKeyResponse, Root, SignResponse, WrappingKeyResponse,
};
use crate::error::{Error, Fault};
use crate::keys::{
    consensus_key_of, is_latest, lemma_wrong_key_type_is_named, no_version_text,
    wrong_key_type_text, KeyAttributesModel, CONSENUS_KEY_TYPE,
};
use crate::text::{occurs_in, trim, trimmed};
use crate::transport::{
    check_response_status_code, classified, Body, Method, Outcome, Request, TransportOutcome,
};
use crate::trust::{trust_of, trust_policy, Trust, TrustPolicy};
use vstd::prelude::*;
use vstd::string::*;

verus! {

/// Where on the service each operation is found: the path that follows the
/// API endpoint.
#[derive(Debug, Clone, PartialEq, Eq)]
pub struct VaultEndpointConfig {
    pub handshake: String,
    pub wrapping_key: String,
    pub sign: String,
    pub keys: String,
}

/// The mathematical value of a [`VaultEndpointConfig`].
pub struct Endpoints {
    pub handshake: Seq<char>,
    pub wrapping_key: Seq<char>,
    pub sign: Seq<char>,
    pub keys: Seq<char>,
}

impl View for VaultEndpointConfig {
    type V = Endpoints;

    open spec fn view(&self) -> Endpoints {
        Endpoints {
            handshake: self.handshake@,
            wrapping_key: self.wrapping_key@,
            sign: self.sign@,
            keys: self.keys@,
        }
    }
}

/// The paths of a transit engine mounted under `transit`.
pub open spec fn default_endpoints() -> Endpoints {
    Endpoints {
        handshake: "/v1/auth/token/lookup-self"@,
        wrapping_key: "/v1/transit/wrapping_key"@,
        sign: "/v1/transit/sign"@,
        keys: "/v1/transit/keys"@,
    }
}

impl Default for VaultEndpointConfig {
    fn default() -> (endpoints: Self)
        ensures
            endpoints@ == default_endpoints(),
    {
        VaultEndpointConfig {
            handshake: String::from_str("/v1/auth/token/lookup-self"),
            wrapping_key: String::from_str("/v1/transit/wrapping_key"),
            sign: String::from_str("/v1/transit/sign"),
            keys: String::from_str("/v1/transit/keys"),
        }
    }
}

/// A client of the service. It holds no key and no state of an exchange;
/// what it is made with never changes.
#[derive(Debug)]
pub struct VaultClient {
    api_endpoint: String,
    endpoints: VaultEndpointConfig,
    token: String,
    trust: TrustPolicy,
    exit_on_error: Vec<u16>,
}

/// The mathematical value of a [`VaultClient`].
pub struct ClientConfig {
    pub api_endpoint: Seq<char>,
    pub endpoints: Endpoints,
    pub token: Seq<char>,
    pub trust: Trust,
    /// The statuses on which the process must stop.
    pub exit_on_error: Seq<u16>,
}

impl View for VaultClient {
    type V = ClientConfig;

    closed spec fn view(&self) -> ClientConfig {
        ClientConfig {
            api_endpoint: self.api_endpoint@,
            endpoints: self.endpoints@,
            token: self.token@,
            trust: self.trust@,
            exit_on_error: self.exit_on_error@,
        }
    }
}

/// Where a handshake is sent.
pub open spec fn handshake_uri(config: ClientConfig) -> Seq<char> {
    config.api_endpoint + config.endpoints.handshake
}

/// Where the key `key_name` is asked for.
pub open spec fn keys_uri(config: ClientConfig, key_name: Seq<char>) -> Seq<char> {
    config.api_endpoint + config.endpoints.keys + "/"@ + key_name
}

/// Where a signature by the key `key_name` is asked for.
pub open spec fn sign_uri(config: ClientConfig, key_name: Seq<char>) -> Seq<char> {
    config.api_endpoint + config.endpoints.sign + "/"@ + key_name
}

/// Where the wrapping key is asked for.
pub open spec fn wrapping_key_uri(config: ClientConfig) -> Seq<char> {
    config.api_endpoint + config.endpoints.wrapping_key
}

/// Where a key is imported under the name `key_name`.
pub open spec fn import_uri(config: ClientConfig, key_name: Seq<char>) -> Seq<char> {
    config.api_endpoint + config.endpoints.keys + "/"@ + key_name + "/import"@
}

/// The reason given when the response to a request for a key has no
/// payload.
pub open spec fn no_key_payload_text() -> Seq<char> {
    "Public key: Vault response unavailable"@
}

/// The reason given when the response to a request for the wrapping key has
/// no payload.
pub open spec fn no_wrapping_key_text() -> Seq<char> {
    "Error getting wrapping key!"@
}

/// The highest version in `versions`.
pub open spec fn latest_version(versions: Map<u64, KeyAttributesModel>) -> u64 {
    choose|version: u64| is_latest(versions, version)
}

/// The public key in the response to a request for the key `key_name`: the
/// key of the highest version, which must be of the consensus key type.
pub open spec fn public_key_from(
    key_name: Seq<char>,
    response: Envelope<Map<u64, KeyAttributesModel>>,
) -> Result<Seq<u8>, Fault> {
    match response.data {
        None => Err(Fault::InvalidPubKey(no_key_payload_text())),
        Some(versions) => if versions == Map::<u64, KeyAttributesModel>::empty() {
            Err(Fault::InvalidPubKey(no_version_text()))
        } else {
            match consensus_key_of(key_name, versions[latest_version(versions)]) {
                Ok(text) => public_key_of(text),
                Err(fault) => Err(fault),
            }
        },
    }
}

/// The signature in the response to a signing request.
pub open spec fn signature_from(response: Envelope<Seq<char>>) -> Result<Seq<u8>, Fault> {
    match response.data {
        None => Err(Fault::NoSignature),
        Some(field) => signature_of(field),
    }
}

/// The wrapping key in the response to a request for it, in PEM without
/// the white space around it.
pub open spec fn wrapping_key_from(response: Envelope<Seq<char>>) -> Result<Seq<char>, Fault> {
    match response.data {
        None => Err(Fault::InvalidPubKey(no_wrapping_key_text())),
        Some(pem) => Ok(trimmed(pem)),
    }
}

/// What a handshake comes to.
pub open spec fn handshake_result(config: ClientConfig, outcome: Outcome) -> Result<(), Fault> {
    match classified(config.exit_on_error, handshake_uri(config), outcome) {
        Ok(_) => Ok(()),
        Err(fault) => Err(fault),
    }
}

/// What a request for the public key of `key_name` comes to.
pub open spec fn public_key_result(config: ClientConfig, key_name: Seq<char>, outcome: Outcome)
    -> Result<Seq<u8>, Fault> {
    match classified(config.exit_on_error, keys_uri(config, key_name), outcome) {
        Ok(body) => match decoded_envelope::<PublicKeyResponse>(body) {
            Some(response) => public_key_from(key_name, response),
            None => Err(Fault::MalformedResponse),
        },
        Err(fault) => Err(fault),
    }
}

/// What a request to sign `message` with the key `key_name` comes to.
pub open spec fn sign_result(
    config: ClientConfig,
    key_name: Seq<char>,
    message: Seq<u8>,
    outcome: Outcome,
) -> Result<Seq<u8>, Fault> {
    if message.len() == 0 {
        Err(Fault::InvalidEmptyMessage)
    } else {
        match classified(config.exit_on_error, sign_uri(config, key_name), outcome) {
            Ok(body) => match decoded_envelope::<SignResponse>(body) {
                Some(response) => signature_from(response),
                None => Err(Fault::MalformedResponse),
            },
            Err(fault) => Err(fault),
        }
    }
}

/// What a request for the wrapping key comes to.
pub open spec fn wrapping_key_result(config: ClientConfig, outcome: Outcome) -> Result<
    Seq<char>,
    Fault,
> {
    match classified(config.exit_on_error, wrapping_key_uri(config), outcome) {
        Ok(body) => match decoded_envelope::<WrappingKeyResponse>(body) {
            Some(response) => wrapping_key_from(response),
            None => Err(Fault::MalformedResponse),
        },
        Err(fault) => Err(fault),
    }
}

/// What a request to import a key under the name `key_name` comes to.
pub open spec fn import_result(config: ClientConfig, key_name: Seq<char>, outcome: Outcome)
    -> Result<(), Fault> {
    match classified(config.exit_on_error, import_uri(config, key_name), outcome) {
        Ok(_) => Ok(()),
        Err(fault) => Err(fault),
    }
}

/// A message of length zero is never signed: whatever the transport might
/// report, the result is that the message is empty.
pub proof fn lemma_empty_message_is_refused(
    config: ClientConfig,
    key_name: Seq<char>,
    message: Seq<u8>,
    outcome: Outcome,
)
    requires
        message.len() == 0,
    ensures
        sign_result(config, key_name, message, outcome) == Err::<Seq<u8>, Fault>(
            Fault::InvalidEmptyMessage,
        ),
{
}

/// A failure status ends every operation in the same way: a status in the
/// fatal set stops the process, any other comes back with its code and the
/// URI that was asked.
pub proof fn lemma_status_ends_every_operation(
    config: ClientConfig,
    key_name: Seq<char>,
    message: Seq<u8>,
    code: u16,
)
    requires
        message.len() > 0,
    ensures
        config.exit_on_error.contains(code) ==> {
            &&& handshake_result(config, Outcome::Status(code)) == Err::<(), Fault>(
                Fault::ProhibitedResponseCode { code, uri: handshake_uri(config) },
            )
            &&& public_key_result(config, key_name, Outcome::Status(code)) == Err::<
                Seq<u8>,
                Fault,
            >(Fault::ProhibitedResponseCode { code, uri: keys_uri(config, key_name) })
            &&& sign_result(config, key_name, message, Outcome::Status(code)) == Err::<
                Seq<u8>,
                Fault,
            >(Fault::ProhibitedResponseCode { code, uri: sign_uri(config, key_name) })
            &&& wrapping_key_result(config, Outcome::Status(code)) == Err::<Seq<char>, Fault>(
                Fault::ProhibitedResponseCode { code, uri: wrapping_key_uri(config) },
            )
            &&& import_result(config, key_name, Outcome::Status(code)) == Err::<(), Fault>(
                Fault::ProhibitedResponseCode { code, uri: import_uri(config, key_name) },
            )
        },
        !config.exit_on_error.contains(code) ==> {
            &&& handshake_result(config, Outcome::Status(code)) == Err::<(), Fault>(
                Fault::HttpStatus { code, uri: handshake_uri(config) },
            )
            &&& public_key_result(config, key_name, Outcome::Status(code)) == Err::<
                Seq<u8>,
                Fault,
            >(Fault::HttpStatus { code, uri: keys_uri(config, key_name) })
            &&& sign_result(config, key_name, message, Outcome::Status(code)) == Err::<
                Seq<u8>,
                Fault,
            >(Fault::HttpStatus { code, uri: sign_uri(config, key_name) })
            &&& wrapping_key_result(config, Outcome::Status(code)) == Err::<Seq<char>, Fault>(
                Fault::HttpStatus { code, uri: wrapping_key_uri(config) },
            )
            &&& import_result(config, key_name, Outcome::Status(code)) == Err::<(), Fault>(
                Fault::HttpStatus { code, uri: import_uri(config, key_name) },
            )
        },
{
}

/// Where the highest version of a key is of any type but the consensus key
/// type, no public key is retrieved: the request fails for a reason that
/// names the expected type and the type received.
pub proof fn lemma_wrong_key_type_fails_retrieval(
    key_name: Seq<char>,
    response: Envelope<Map<u64, KeyAttributesModel>>,
    version: u64,
    key_type: Seq<char>,
)
    requires
        response.data matches Some(versions) && is_latest(versions, version)
            && versions[version].public_key is Some && versions[version].name == Some(key_type),
        key_type != CONSENUS_KEY_TYPE@,
    ensures
        public_key_from(key_name, response) == Err::<Seq<u8>, Fault>(
            Fault::InvalidPubKey(wrong_key_type_text(key_name, key_type)),
        ),
        occurs_in(CONSENUS_KEY_TYPE@, wrong_key_type_text(key_name, key_type)),
        occurs_in(key_type, wrong_key_type_text(key_name, key_type)),
{
    let versions = response.data->0;
    let chosen = latest_version(versions);
    assert(is_latest(versions, chosen));
    assert(chosen == version);
    assert(versions != Map::<u64, KeyAttributesModel>::empty());
    lemma_wrong_key_type_is_named(key_name, versions[version].public_key->0, key_type);
}

/// Takes the public key of `key_name` out of the response to a request for
/// that key.
pub fn public_key_from_response(key_name: &str, response: &Root<PublicKeyResponse>) -> (res:
    Result<[u8; 32], Error>)
    ensures
        match public_key_from(key_name@, response@) {
            Ok(bytes) => res matches Ok(key) && key@ == bytes,
            Err(fault) => res matches Err(e) && e@ == fault,
        },
{
    let data = match &response.data {
        Some(data) => data,
        None => {
            return Err(
                Error::InvalidPubKey(String::from_str("Public key: Vault response unavailable")),
            );
        },
    };
    let (version, attributes) = match data.keys.select_latest() {
        Ok(latest) => latest,
        Err(e) => { return Err(e); },
    };
    assert(version == latest_version(data.keys@)) by {
        let other = latest_version(data.keys@);
        assert(is_latest(data.keys@, version));
        assert(is_latest(data.keys@, other));
    }
    let text = match attributes.consensus_key(key_name) {
        Ok(text) => text,
        Err(e) => { return Err(e); },
    };
    decode_public_key(text)
}

/// Takes the signature out of the response to a signing request.
pub fn signature_from_response(response: &Root<SignResponse>) -> (res: Result<[u8; 64], Error>)
    ensures
        match signature_from(response@) {
            Ok(bytes) => res matches Ok(signature) && signature@ == bytes,
            Err(fault) => res matches Err(e) && e@ == fault,
        },
{
    match &response.data {
        Some(data) => decode_signature(data.signature.as_str()),
        None => Err(Error::NoSignature),
    }
}

/// Takes the wrapping key out of the response to a request for it.
pub fn wrapping_key_from_response(response: &Root<WrappingKeyResponse>) -> (res: Result<
    String,
    Error,
>)
    ensures
        match wrapping_key_from(response@) {
            Ok(pem) => res matches Ok(text) && text@ == pem,
            Err(fault) => res matches Err(e) && e@ == fault,
        },
{
    match &response.data {
        Some(data) => Ok(String::from_str(trim(data.public_key.as_str()))),
        None => Err(Error::InvalidPubKey(String::from_str("Error getting wrapping key!"))),
    }
}

impl VaultClient {
    /// A client of the service at `api_endpoint` that authenticates with
    /// `token`. Without `endpoints` the paths of a transit engine mounted
    /// under `transit` are used; without `exit_on_error` no status stops the
    /// process. `ca_cert` is the path of a CA certificate to pin trust to,
    /// and `skip_verify` switches certificate verification off.
    pub fn new(
        api_endpoint: &str,
        token: &str,
        endpoints: Option<VaultEndpointConfig>,
        ca_cert: Option<String>,
        skip_verify: Option<bool>,
        exit_on_error: Option<Vec<u16>>,
    ) -> (client: Self)
        ensures
            client@ == (ClientConfig {
                api_endpoint: api_endpoint@,
                endpoints: match endpoints {
                    Some(given) => given@,
                    None => default_endpoints(),
                },
                token: token@,
                trust: trust_of(
                    match ca_cert {
                        Some(path) => Some(path@),
                        None => None,
                    },
                    skip_verify,
                ),
                exit_on_error: match exit_on_error {
                    Some(codes) => codes@,
                    None => Seq::empty(),
                },
            }),
    {
        VaultClient {
            api_endpoint: String::from_str(api_endpoint),
            endpoints: match endpoints {
                Some(given) => given,
                None => VaultEndpointConfig::default(),
            },
            token: String::from_str(token),
            trust: trust_policy(ca_cert, skip_verify),
            exit_on_error: match exit_on_error {
                Some(codes) => codes,
                None => Vec::new(),
            },
        }
    }

    /// The trust policy that the transport of this client is to follow.
    pub fn trust(&self) -> (policy: &TrustPolicy)
        ensures
            policy@ == self@.trust,
    {
        &self.trust
    }

    fn request(&self, method: Method, uri: String, body: Body) -> (request: Request)
        ensures
            request.method == method,
            request.uri@ == uri@,
            request.token@ == self@.token,
            request.body == body,
    {
        Request { method, uri, token: self.token.clone(), body }
    }

    fn uri_of_key(&self, base: &str, key_name: &str) -> (uri: String)
        ensures
            uri@ == self@.api_endpoint + base@ + "/"@ + key_name@,
    {
        self.api_endpoint.clone().concat(base).concat("/").concat(key_name)
    }

    /// The request that checks the token.
    pub fn handshake_request(&self) -> (request: Request)
        ensures
            request.method == Method::Get,
            request.uri@ == handshake_uri(self@),
            request.token@ == self@.token,
            request.body == Body::Empty,
    {
        let uri = self.api_endpoint.clone().concat(self.endpoints.handshake.as_str());
        self.request(Method::Get, uri, Body::Empty)
    }

    /// The request that asks for the versions of the key `key_name`.
    pub fn public_key_request(&self, key_name: &str) -> (request: Request)
        ensures
            request.method == Method::Get,
            request.uri@ == keys_uri(self@, key_name@),
            request.token@ == self@.token,
            request.body == Body::Empty,
    {
        let uri = self.uri_of_key(self.endpoints.keys.as_str(), key_name);
        self.request(Method::Get, uri, Body::Empty)
    }

    /// The request that asks for a signature over `message` by the key
    /// `key_name`. For a message of length zero there is no request.
    pub fn sign_request(&self, key_name: &str, message: &[u8]) -> (res: Result<Request, Error>)
        requires
            message@.len() / 3 * 4 + 4 <= isize::MAX,
        ensures
            message@.len() == 0 ==> (res matches Err(e) && e@ == Fault::InvalidEmptyMessage),
            message@.len() > 0 ==> (res matches Ok(request) && {
                &&& request.method == Method::Post
                &&& request.uri@ == sign_uri(self@, key_name@)
                &&& request.token@ == self@.token
                &&& request.body matches Body::Sign(body)
                &&& body.input@ == base64_encoded(message@)
            }),
    {
        let body = match encode_sign_request(message) {
            Ok(body) => body,
            Err(e) => { return Err(e); },
        };
        let uri = self.uri_of_key(self.endpoints.sign.as_str(), key_name);
        Ok(self.request(Method::Post, uri, Body::Sign(body)))
    }

    /// The request that asks for the key under which keys are wrapped for
    /// import.
    pub fn wrapping_key_request(&self) -> (request: Request)
        ensures
            request.method == Method::Get,
            request.uri@ == wrapping_key_uri(self@),
            request.token@ == self@.token,
            request.body == Body::Empty,
    {
        let uri = self.api_endpoint.clone().concat(self.endpoints.wrapping_key.as_str());
        self.request(Method::Get, uri, Body::Empty)
    }

    /// The request that imports the wrapped key `ciphertext` of type
    /// `key_type` under the name `key_name`.
    pub fn import_key_request(
        &self,
        key_name: &str,
        key_type: CreateKeyType,
        ciphertext: &str,
        exportable: bool,
    ) -> (request: Request)
        ensures
            request.method == Method::Post,
            request.uri@ == import_uri(self@, key_name@),
            request.token@ == self@.token,
            ({
                &&& request.body matches Body::Import(body)
                &&& body.key_type@ == key_type.wire_text()
                &&& body.ciphertext@ == ciphertext@
                &&& body.hash_function@ == IMPORT_HASH_FUNCTION@
                &&& body.exportable == exportable
            }),
    {
        let body = encode_import_request(key_type, ciphertext, exportable);
        let uri = self.uri_of_key(self.endpoints.keys.as_str(), key_name).concat("/import");
        self.request(Method::Post, uri, Body::Import(body))
    }

    /// Classifies what the transport reported of the request to `uri`: the
    /// body of a response passes through unchanged, a status configured as
    /// fatal gives [`Error::ProhibitedResponseCode`], any other status
    /// [`Error::HttpStatus`], and a failure of the transport
    /// [`Error::Transport`].
    pub fn check_response_status_code(&self, uri: &str, outcome: TransportOutcome) -> (res: Result<
        Vec<u8>,
        Error,
    >)
        ensures
            match classified(self@.exit_on_error, uri@, outcome@) {
                Ok(body) => res matches Ok(passed) && passed@ == body,
                Err(fault) => res matches Err(e) && e@ == fault,
            },
    {
        check_response_status_code(&self.exit_on_error, uri, outcome)
    }

    /// Makes of the outcome of [`VaultClient::handshake_request`] the result
    /// of the handshake.
    pub fn handshake(&self, outcome: TransportOutcome) -> (res: Result<(), Error>)
        ensures
            match handshake_result(self@, outcome@) {
                Ok(_) => res is Ok,
                Err(fault) => res matches Err(e) && e@ == fault,
            },
    {
        let uri = self.api_endpoint.clone().concat(self.endpoints.handshake.as_str());
        match self.check_response_status_code(uri.as_str(), outcome) {
            Ok(_) => Ok(()),
            Err(e) => Err(e),
        }
    }

    /// Makes of the outcome of [`VaultClient::public_key_request`] the
    /// public key of `key_name`: the 32 bytes of its highest version.
    pub fn public_key(&self, key_name: &str, outcome: TransportOutcome) -> (res: Result<
        [u8; 32],
        Error,
    >)
        ensures
            match public_key_result(self@, key_name@, outcome@) {
                Ok(bytes) => res matches Ok(key) && key@ == bytes,
                Err(fault) => res matches Err(e) && e@ == fault,
            },
    {
        let uri = self.uri_of_key(self.endpoints.keys.as_str(), key_name);
        let body = match self.check_response_status_code(uri.as_str(), outcome) {
            Ok(body) => body,
            Err(e) => { return Err(e); },
        };
        let response = match Root::<PublicKeyResponse>::decode(body.as_slice()) {
            Ok(response) => response,
            Err(e) => { return Err(e); },
        };
        public_key_from_response(key_name, &response)
    }

    /// Makes of the outcome of [`VaultClient::sign_request`] the signature
    /// over `message`: 64 bytes. A message of length zero is refused
    /// whatever the outcome says.
    pub fn sign(&self, key_name: &str, message: &[u8], outcome: TransportOutcome) -> (res: Result<
        [u8; 64],
        Error,
    >)
        ensures
            match sign_result(self@, key_name@, message@, outcome@) {
                Ok(bytes) => res matches Ok(signature) && signature@ == bytes,
                Err(fault) => res matches Err(e) && e@ == fault,
            },
    {
        if message.len() == 0 {
            return Err(Error::InvalidEmptyMessage);
        }
        let uri = self.uri_of_key(self.endpoints.sign.as_str(), key_name);
        let body = match self.check_response_status_code(uri.as_str(), outcome) {
            Ok(body) => body,
            Err(e) => { return Err(e); },
        };
        let response = match Root::<SignResponse>::decode(body.as_slice()) {
            Ok(response) => response,
            Err(e) => { return Err(e); },
        };
        signature_from_response(&response)
    }

    /// Makes of the outcome of [`VaultClient::wrapping_key_request`] the
    /// wrapping key in PEM.
    pub fn wrapping_key_pem(&self, outcome: TransportOutcome) -> (res: Result<String, Error>)
        ensures
            match wrapping_key_result(self@, outcome@) {
                Ok(pem) => res matches Ok(text) && text@ == pem,
                Err(fault) => res matches Err(e) && e@ == fault,
            },
    {
        let uri = self.api_endpoint.clone().concat(self.endpoints.wrapping_key.as_str());
        let body = match self.check_response_status_code(uri.as_str(), outcome) {
            Ok(body) => body,
            Err(e) => { return Err(e); },
        };
        let response = match Root::<WrappingKeyResponse>::decode(body.as_slice()) {
            Ok(response) => response,
            Err(e) => { return Err(e); },
        };
        wrapping_key_from_response(&response)
    }

    /// Makes of the outcome of [`VaultClient::import_key_request`] the
    /// result of importing a key under the name `key_name`.
    pub fn import_key(&self, key_name: &str, outcome: TransportOutcome) -> (res: Result<(), Error>)
        ensures
            match import_result(self@, key_name@, outcome@) {
                Ok(_) => res is Ok,
                Err(fault) => res matches Err(e) && e@ == fault,
            },
    {
        let uri = self.uri_of_key(self.endpoints.keys.as_str(), key_name).concat("/import");
        match self.check_response_status_code(uri.as_str(), outcome) {
            Ok(_) => Ok(()),
            Err(e) => Err(e),
        }
    }
}

} // verus!
