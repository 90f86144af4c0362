use vault_transit::client::{
    public_key_from_response, signature_from_response, wrapping_key_from_response, VaultClient,
    VaultEndpointConfig,
};
use vault_transit::codec::{CreateKeyType, ImportRequest, SignRequest};
use vault_transit::envelope::{PublicKeyResponse, Root, SignResponse, WrappingKeyResponse};
use vault_transit::error::Error;
use vault_transit::keys::{KeyAttributes, KeyVersions};
use vault_transit::transport::{Body, Method, Request, TransportOutcome};
use vault_transit::trust::TrustPolicy;

const KEY_OF_VERSION_1: &str = "AQEBAQEBAQEBAQEBAQEBAQEBAQEBAQEBAQEBAQEBAQE=";
const KEY_OF_VERSION_2: &str = "AAECAwQFBgcICQoLDA0ODxAREhMUFRYXGBkaGxwdHh8=";

fn client() -> VaultClient {
    VaultClient::new("https://vault:8200", "s.token", None, None, None, Some(vec![403, 503]))
}

fn response(data: &str) -> TransportOutcome {
    TransportOutcome::Response(
        format!(
            r#"{{"request_id":"8f1e","lease_id":"","renewable":false,"lease_duration":0,"data":{},"wrap_info":null,"warnings":null,"auth":null}}"#,
            data
        )
        .into_bytes(),
    )
}

fn zero_signature_text() -> String {
    format!("{}==", "A".repeat(86))
}

fn envelope<T>(data: Option<T>) -> Root<T> {
    Root {
        request_id: String::new(),
        lease_id: String::new(),
        renewable: false,
        lease_duration: 0,
        data,
        wrap_info: serde_json::Value::Null,
        warnings: serde_json::Value::Null,
        auth: serde_json::Value::Null,
    }
}

#[test]
fn the_default_endpoints_are_those_of_a_transit_engine() {
    assert_eq!(
        VaultEndpointConfig::default(),
        VaultEndpointConfig {
            handshake: "/v1/auth/token/lookup-self".to_string(),
            wrapping_key: "/v1/transit/wrapping_key".to_string(),
            sign: "/v1/transit/sign".to_string(),
            keys: "/v1/transit/keys".to_string(),
        }
    );
}

#[test]
fn new_chooses_the_trust_policy() {
    assert_eq!(client().trust(), &TrustPolicy::SystemDefault);
    let pinned =
        VaultClient::new("https://vault", "t", None, Some("/ca.pem".to_string()), None, None);
    assert_eq!(pinned.trust(), &TrustPolicy::PinnedCa("/ca.pem".to_string()));
    let skipping = VaultClient::new(
        "https://vault",
        "t",
        None,
        Some("/ca.pem".to_string()),
        Some(true),
        None,
    );
    assert_eq!(skipping.trust(), &TrustPolicy::SkipVerification);
}

#[test]
fn each_operation_has_its_request() {
    let client = client();
    assert_eq!(
        client.handshake_request(),
        Request {
            method: Method::Get,
            uri: "https://vault:8200/v1/auth/token/lookup-self".to_string(),
            token: "s.token".to_string(),
            body: Body::Empty,
        }
    );
    assert_eq!(
        client.public_key_request("val-key"),
        Request {
            method: Method::Get,
            uri: "https://vault:8200/v1/transit/keys/val-key".to_string(),
            token: "s.token".to_string(),
            body: Body::Empty,
        }
    );
    assert_eq!(
        client.sign_request("val-key", b"hello"),
        Ok(Request {
            method: Method::Post,
            uri: "https://vault:8200/v1/transit/sign/val-key".to_string(),
            token: "s.token".to_string(),
            body: Body::Sign(SignRequest { input: "aGVsbG8=".to_string() }),
        })
    );
    assert_eq!(
        client.wrapping_key_request(),
        Request {
            method: Method::Get,
            uri: "https://vault:8200/v1/transit/wrapping_key".to_string(),
            token: "s.token".to_string(),
            body: Body::Empty,
        }
    );
    assert_eq!(
        client.import_key_request("val-key", CreateKeyType::Ed25519, "Y2lwaGVy", false),
        Request {
            method: Method::Post,
            uri: "https://vault:8200/v1/transit/keys/val-key/import".to_string(),
            token: "s.token".to_string(),
            body: Body::Import(ImportRequest {
                key_type: "ed25519".to_string(),
                ciphertext: "Y2lwaGVy".to_string(),
                hash_function: "SHA256".to_string(),
                exportable: false,
            }),
        }
    );
}

#[test]
fn configured_endpoints_replace_the_default_ones() {
    let endpoints = VaultEndpointConfig {
        handshake: "/h".to_string(),
        wrapping_key: "/w".to_string(),
        sign: "/s".to_string(),
        keys: "/k".to_string(),
    };
    let client = VaultClient::new("http://v", "t", Some(endpoints), None, None, None);
    assert_eq!(client.handshake_request().uri, "http://v/h");
    assert_eq!(client.wrapping_key_request().uri, "http://v/w");
    assert_eq!(client.sign_request("n", b"m").unwrap().uri, "http://v/s/n");
    assert_eq!(client.public_key_request("n").uri, "http://v/k/n");
    assert_eq!(
        client.import_key_request("n", CreateKeyType::Rsa2048, "", true).uri,
        "http://v/k/n/import"
    );
}

#[test]
fn public_key_is_that_of_the_highest_version() {
    let data = format!(
        r#"{{"keys":{{"1":{{"public_key":"{}","name":"ed25519"}},"2":{{"public_key":"{}","name":"ed25519"}}}}}}"#,
        KEY_OF_VERSION_1, KEY_OF_VERSION_2
    );
    let expected: Vec<u8> = (0u8..32).collect();
    let key = client().public_key("val-key", response(&data)).unwrap();
    assert_eq!(key.to_vec(), expected);
}

#[test]
fn public_key_reads_version_numbers_as_numbers() {
    let data = format!(
        r#"{{"keys":{{"9":{{"public_key":"{}","name":"ed25519"}},"10":{{"public_key":"{}","name":"ed25519"}}}}}}"#,
        KEY_OF_VERSION_1, KEY_OF_VERSION_2
    );
    let expected: Vec<u8> = (0u8..32).collect();
    let key = client().public_key("val-key", response(&data)).unwrap();
    assert_eq!(key.to_vec(), expected);
}

#[test]
fn public_key_of_another_type_fails_and_names_both_types() {
    let data = format!(
        r#"{{"keys":{{"1":{{"public_key":"{}","name":"ed25519"}},"2":{{"public_key":"{}","name":"ecdsa-p256"}}}}}}"#,
        KEY_OF_VERSION_1, KEY_OF_VERSION_2
    );
    assert_eq!(
        client().public_key("val-key", response(&data)),
        Err(Error::InvalidPubKey(
            "Public key \"val-key\": expected key type:ed25519, received:ecdsa-p256".to_string()
        ))
    );
}

#[test]
fn public_key_looks_at_the_highest_version_only() {
    let data = format!(
        r#"{{"keys":{{"1":{{"public_key":"{}","name":"rsa-2048"}},"2":{{"public_key":"{}","name":"ed25519"}}}}}}"#,
        KEY_OF_VERSION_1, KEY_OF_VERSION_2
    );
    assert!(client().public_key("val-key", response(&data)).is_ok());
}

#[test]
fn public_key_without_what_it_needs_fails() {
    let client = client();
    assert_eq!(
        client.public_key("val-key", response("null")),
        Err(Error::InvalidPubKey("Public key: Vault response unavailable".to_string()))
    );
    assert_eq!(
        client.public_key("val-key", response(r#"{"keys":{}}"#)),
        Err(Error::InvalidPubKey(
            "Public key: unable to retrieve last version - not available!".to_string()
        ))
    );
    assert_eq!(
        client.public_key("val-key", response(r#"{"keys":{"1":{"name":"ed25519"}}}"#)),
        Err(Error::InvalidPubKey(
            "Public key: unable to retrieve - \"public_key\" key is not found!".to_string()
        ))
    );
    assert_eq!(
        client.public_key("val-key", response(r#"{"keys":{"1":{"public_key":"AAAA"}}}"#)),
        Err(Error::InvalidPubKey(
            "Public key \"val-key\": expected key type:ed25519, unable to determine type"
                .to_string()
        ))
    );
    assert_eq!(
        client.public_key(
            "val-key",
            response(r#"{"keys":{"1":{"public_key":"AAAA","name":"ed25519"}}}"#)
        ),
        Err(Error::InvalidPubKey(
            "Public key: expected at least 32 bytes, received:3".to_string()
        ))
    );
    assert_eq!(
        client.public_key("val-key", response(r#"{"keys":[]}"#)),
        Err(Error::MalformedResponse)
    );
    assert_eq!(
        client.public_key("val-key", TransportOutcome::Response(b"<html>".to_vec())),
        Err(Error::MalformedResponse)
    );
}

#[test]
fn sign_gives_the_64_bytes_of_the_signature() {
    let data = format!(r#"{{"signature":"vault:v1:{}"}}"#, zero_signature_text());
    assert_eq!(client().sign("val-key", b"message", response(&data)), Ok([0u8; 64]));
}

#[test]
fn sign_of_an_empty_message_fails_whatever_came_back() {
    let client = client();
    let data = format!(r#"{{"signature":"vault:v1:{}"}}"#, zero_signature_text());
    for outcome in [
        response(&data),
        TransportOutcome::Status(403),
        TransportOutcome::Status(500),
        TransportOutcome::Failure("timeout".to_string()),
    ] {
        assert_eq!(client.sign("val-key", &[], outcome), Err(Error::InvalidEmptyMessage));
    }
    assert_eq!(client.sign_request("val-key", &[]), Err(Error::InvalidEmptyMessage));
}

#[test]
fn sign_without_a_usable_signature_fails() {
    let client = client();
    assert_eq!(client.sign("val-key", b"m", response("null")), Err(Error::NoSignature));
    assert_eq!(
        client.sign("val-key", b"m", response(r#"{"signature":"vault:v1"}"#)),
        Err(Error::InvalidSignature("expected 3 parts, received:2 full:vault:v1".to_string()))
    );
    assert_eq!(
        client.sign("val-key", b"m", response(r#"{"signature":"vault:v1:AAAA"}"#)),
        Err(Error::InvalidSignature("invalid signature length! 64 == 3".to_string()))
    );
    assert_eq!(
        client.sign("val-key", b"m", response(r#"{"sig":"vault:v1:AAAA"}"#)),
        Err(Error::MalformedResponse)
    );
}

#[test]
fn wrapping_key_pem_is_trimmed() {
    let client = client();
    assert_eq!(
        client.wrapping_key_pem(response(
            r#"{"public_key":"\n-----BEGIN PUBLIC KEY-----\nMIIB\n-----END PUBLIC KEY-----\n\n"}"#
        )),
        Ok("-----BEGIN PUBLIC KEY-----\nMIIB\n-----END PUBLIC KEY-----".to_string())
    );
    assert_eq!(
        client.wrapping_key_pem(response("null")),
        Err(Error::InvalidPubKey("Error getting wrapping key!".to_string()))
    );
    assert_eq!(
        client.wrapping_key_pem(response(r#"{"public_key":null}"#)),
        Err(Error::MalformedResponse)
    );
}

#[test]
fn handshake_and_import_only_look_at_the_status() {
    let client = client();
    assert_eq!(client.handshake(TransportOutcome::Response(vec![])), Ok(()));
    assert_eq!(client.handshake(TransportOutcome::Response(b"no json".to_vec())), Ok(()));
    assert_eq!(client.import_key("val-key", TransportOutcome::Response(vec![])), Ok(()));
    assert_eq!(
        client.handshake(TransportOutcome::Failure("connection refused".to_string())),
        Err(Error::Transport("connection refused".to_string()))
    );
    assert_eq!(
        client.import_key("val-key", TransportOutcome::Status(400)),
        Err(Error::HttpStatus {
            code: 400,
            uri: "https://vault:8200/v1/transit/keys/val-key/import".to_string()
        })
    );
}

#[test]
fn a_fatal_status_ends_every_operation() {
    let client = client();
    let fatal = |uri: &str| Error::ProhibitedResponseCode { code: 403, uri: uri.to_string() };
    assert_eq!(
        client.handshake(TransportOutcome::Status(403)),
        Err(fatal("https://vault:8200/v1/auth/token/lookup-self"))
    );
    assert_eq!(
        client.public_key("val-key", TransportOutcome::Status(403)),
        Err(fatal("https://vault:8200/v1/transit/keys/val-key"))
    );
    assert_eq!(
        client.sign("val-key", b"m", TransportOutcome::Status(403)),
        Err(fatal("https://vault:8200/v1/transit/sign/val-key"))
    );
    assert_eq!(
        client.wrapping_key_pem(TransportOutcome::Status(403)),
        Err(fatal("https://vault:8200/v1/transit/wrapping_key"))
    );
    assert_eq!(
        client.import_key("val-key", TransportOutcome::Status(403)),
        Err(fatal("https://vault:8200/v1/transit/keys/val-key/import"))
    );
}

#[test]
fn another_status_comes_back_with_its_code_and_uri() {
    let client = client();
    assert_eq!(
        client.public_key("val-key", TransportOutcome::Status(404)),
        Err(Error::HttpStatus {
            code: 404,
            uri: "https://vault:8200/v1/transit/keys/val-key".to_string()
        })
    );
    assert_eq!(
        client.check_response_status_code("https://elsewhere", TransportOutcome::Status(500)),
        Err(Error::HttpStatus { code: 500, uri: "https://elsewhere".to_string() })
    );
    assert_eq!(
        client.check_response_status_code("https://elsewhere", TransportOutcome::Status(503)),
        Err(Error::ProhibitedResponseCode { code: 503, uri: "https://elsewhere".to_string() })
    );
    assert_eq!(
        client.check_response_status_code("u", TransportOutcome::Response(vec![1, 2])),
        Ok(vec![1, 2])
    );
}

#[test]
fn without_a_fatal_set_a_client_stops_on_no_status() {
    let client = VaultClient::new("https://vault:8200", "t", None, None, None, None);
    assert_eq!(
        client.handshake(TransportOutcome::Status(403)),
        Err(Error::HttpStatus {
            code: 403,
            uri: "https://vault:8200/v1/auth/token/lookup-self".to_string()
        })
    );
}

#[test]
fn the_steps_after_decoding_stand_on_their_own() {
    let mut keys = KeyVersions::new();
    keys.insert(
        4,
        KeyAttributes {
            public_key: Some(KEY_OF_VERSION_1.to_string()),
            name: Some("ed25519".to_string()),
        },
    );
    assert_eq!(
        public_key_from_response("val-key", &envelope(Some(PublicKeyResponse { keys }))),
        Ok([1u8; 32])
    );
    assert_eq!(
        public_key_from_response("val-key", &envelope::<PublicKeyResponse>(None)),
        Err(Error::InvalidPubKey("Public key: Vault response unavailable".to_string()))
    );
    let signature = format!("vault:v7:{}", zero_signature_text());
    assert_eq!(
        signature_from_response(&envelope(Some(SignResponse { signature }))),
        Ok([0u8; 64])
    );
    assert_eq!(signature_from_response(&envelope::<SignResponse>(None)), Err(Error::NoSignature));
    assert_eq!(
        wrapping_key_from_response(&envelope(Some(WrappingKeyResponse {
            public_key: "  pem\t".to_string()
        }))),
        Ok("pem".to_string())
    );
}
