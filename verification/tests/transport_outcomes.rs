use vault_transit::error::Error;
use vault_transit::transport::{
    check_response_status_code, contains_code, TransportOutcome, VAULT_TOKEN,
};

#[test]
fn the_token_travels_in_its_header() {
    assert_eq!(VAULT_TOKEN, "X-Vault-Token");
}

#[test]
fn a_response_passes_through_unchanged() {
    let body = b"{\"data\":null}".to_vec();
    assert_eq!(
        check_response_status_code(&vec![403], "https://v/x", TransportOutcome::Response(body.clone())),
        Ok(body)
    );
    assert_eq!(
        check_response_status_code(&vec![], "https://v/x", TransportOutcome::Response(vec![])),
        Ok(vec![])
    );
}

#[test]
fn a_status_in_the_fatal_set_is_fatal() {
    let fatal = vec![403, 503];
    for code in [403u16, 503] {
        let error = check_response_status_code(
            &fatal,
            "https://vault:8200/v1/transit/sign/val-key",
            TransportOutcome::Status(code),
        )
        .unwrap_err();
        assert_eq!(
            error,
            Error::ProhibitedResponseCode {
                code,
                uri: "https://vault:8200/v1/transit/sign/val-key".to_string()
            }
        );
        assert!(error.is_fatal());
    }
}

#[test]
fn a_status_outside_the_fatal_set_keeps_its_code_and_uri() {
    let fatal = vec![403, 503];
    for code in [400u16, 404, 500, 502, 0, u16::MAX] {
        let error = check_response_status_code(
            &fatal,
            "https://vault:8200/v1/transit/keys/val-key",
            TransportOutcome::Status(code),
        )
        .unwrap_err();
        assert_eq!(
            error,
            Error::HttpStatus {
                code,
                uri: "https://vault:8200/v1/transit/keys/val-key".to_string()
            }
        );
        assert!(!error.is_fatal());
    }
}

#[test]
fn without_a_fatal_set_no_status_is_fatal() {
    assert_eq!(
        check_response_status_code(&vec![], "u", TransportOutcome::Status(403)),
        Err(Error::HttpStatus { code: 403, uri: "u".to_string() })
    );
}

#[test]
fn a_failure_of_the_transport_keeps_its_cause() {
    let error = check_response_status_code(
        &vec![403],
        "u",
        TransportOutcome::Failure("timeout: global".to_string()),
    )
    .unwrap_err();
    assert_eq!(error, Error::Transport("timeout: global".to_string()));
    assert!(!error.is_fatal());
}

#[test]
fn only_the_prohibited_response_code_is_fatal() {
    for error in [
        Error::Transport(String::new()),
        Error::HttpStatus { code: 500, uri: String::new() },
        Error::MalformedResponse,
        Error::InvalidPubKey(String::new()),
        Error::InvalidEmptyMessage,
        Error::InvalidSignature(String::new()),
        Error::NoSignature,
        Error::InvalidCertificate(String::new()),
    ] {
        assert!(!error.is_fatal());
    }
    assert!(Error::ProhibitedResponseCode { code: 500, uri: String::new() }.is_fatal());
}

#[test]
fn contains_code_finds_what_is_there() {
    assert!(contains_code(&vec![1, 2, 3], 1));
    assert!(contains_code(&vec![1, 2, 3], 3));
    assert!(!contains_code(&vec![1, 2, 3], 4));
    assert!(!contains_code(&vec![], 0));
}
