use vault_transit::codec::{
    decode_public_key, decode_signature, encode_import_request, encode_sign_request,
    public_key_from_decoded, signature_from_decoded, CreateKeyType, ExportKeyType, ImportRequest,
    SignRequest, IMPORT_HASH_FUNCTION, PUBLIC_KEY_SIZE, SIGNATURE_SIZE,
};
use vault_transit::error::Error;

fn zero_signature_text() -> String {
    format!("{}==", "A".repeat(86))
}

#[test]
fn decode_signature_of_three_parts_gives_the_64_bytes() {
    let field = format!("a:b:{}", zero_signature_text());
    assert_eq!(decode_signature(&field), Ok([0u8; 64]));
}

#[test]
fn decode_signature_takes_the_last_part() {
    let bytes: Vec<u8> = (0u8..64).collect();
    let field = format!("vault:v1:{}", "AAECAwQFBgcICQoLDA0ODxAREhMUFRYXGBkaGxwdHh8gISIjJCUmJygpKissLS4vMDEyMzQ1Njc4OTo7PD0+Pw==");
    let signature = decode_signature(&field).unwrap();
    assert_eq!(signature.to_vec(), bytes);
}

#[test]
fn decode_signature_of_two_parts_fails() {
    assert_eq!(
        decode_signature("a:b"),
        Err(Error::InvalidSignature("expected 3 parts, received:2 full:a:b".to_string()))
    );
}

#[test]
fn decode_signature_of_four_parts_fails() {
    assert_eq!(
        decode_signature("a:b:c:d"),
        Err(Error::InvalidSignature("expected 3 parts, received:4 full:a:b:c:d".to_string()))
    );
}

#[test]
fn decode_signature_of_one_part_fails() {
    let text = zero_signature_text();
    assert_eq!(
        decode_signature(&text),
        Err(Error::InvalidSignature(format!("expected 3 parts, received:1 full:{}", text)))
    );
    assert_eq!(
        decode_signature(""),
        Err(Error::InvalidSignature("expected 3 parts, received:1 full:".to_string()))
    );
}

#[test]
fn decode_signature_of_another_length_fails() {
    assert_eq!(
        decode_signature("vault:v1:AAAA"),
        Err(Error::InvalidSignature("invalid signature length! 64 == 3".to_string()))
    );
    assert_eq!(
        decode_signature("vault:v1:"),
        Err(Error::InvalidSignature("invalid signature length! 64 == 0".to_string()))
    );
    let long = format!("vault:v1:{}", "A".repeat(88));
    assert_eq!(
        decode_signature(&long),
        Err(Error::InvalidSignature("invalid signature length! 64 == 66".to_string()))
    );
}

#[test]
fn decode_signature_of_bad_base64_fails() {
    match decode_signature("vault:v1:!!!!") {
        Err(Error::InvalidSignature(reason)) => {
            assert!(reason.starts_with("invalid signature encoding: "));
            assert!(reason.len() > "invalid signature encoding: ".len());
        }
        other => panic!("unexpected result: {:?}", other),
    }
}

#[test]
fn signature_from_decoded_wants_exactly_64_bytes() {
    assert_eq!(signature_from_decoded(Ok(vec![7u8; 64])), Ok([7u8; 64]));
    assert_eq!(
        signature_from_decoded(Ok(vec![7u8; 63])),
        Err(Error::InvalidSignature("invalid signature length! 64 == 63".to_string()))
    );
    assert_eq!(
        signature_from_decoded(Ok(vec![7u8; 65])),
        Err(Error::InvalidSignature("invalid signature length! 64 == 65".to_string()))
    );
    assert_eq!(
        signature_from_decoded(Err("Invalid padding".to_string())),
        Err(Error::InvalidSignature("invalid signature encoding: Invalid padding".to_string()))
    );
}

#[test]
fn decode_public_key_gives_the_32_bytes() {
    let text = "AAECAwQFBgcICQoLDA0ODxAREhMUFRYXGBkaGxwdHh8=";
    let expected: Vec<u8> = (0u8..32).collect();
    assert_eq!(decode_public_key(text).unwrap().to_vec(), expected);
}

#[test]
fn decode_public_key_takes_the_first_32_bytes_of_more() {
    let text = "AAECAwQFBgcICQoLDA0ODxAREhMUFRYXGBkaGxwdHh8gISIjJCUmJygpKissLS4vMDEyMzQ1Njc4OTo7PD0+Pw==";
    let expected: Vec<u8> = (0u8..32).collect();
    assert_eq!(decode_public_key(text).unwrap().to_vec(), expected);
}

#[test]
fn decode_public_key_of_fewer_than_32_bytes_fails() {
    assert_eq!(
        decode_public_key("AAECAwQFBgcICQoLDA0ODxAREhMUFRYXGBkaGxwdHg=="),
        Err(Error::InvalidPubKey(
            "Public key: expected at least 32 bytes, received:31".to_string()
        ))
    );
    assert_eq!(
        decode_public_key(""),
        Err(Error::InvalidPubKey(
            "Public key: expected at least 32 bytes, received:0".to_string()
        ))
    );
}

#[test]
fn decode_public_key_of_bad_base64_fails() {
    match decode_public_key("not base64 at all") {
        Err(Error::InvalidPubKey(reason)) => {
            assert!(reason.starts_with("Public key: invalid encoding: "));
            assert!(reason.len() > "Public key: invalid encoding: ".len());
        }
        other => panic!("unexpected result: {:?}", other),
    }
}

#[test]
fn public_key_from_decoded_wants_at_least_32_bytes() {
    assert_eq!(public_key_from_decoded(Ok(vec![9u8; 32])), Ok([9u8; 32]));
    let mut longer = vec![1u8; 32];
    longer.extend_from_slice(&[2u8; 8]);
    assert_eq!(public_key_from_decoded(Ok(longer)), Ok([1u8; 32]));
    assert_eq!(
        public_key_from_decoded(Ok(vec![9u8; 5])),
        Err(Error::InvalidPubKey(
            "Public key: expected at least 32 bytes, received:5".to_string()
        ))
    );
    assert_eq!(
        public_key_from_decoded(Err("Invalid byte 32, offset 3.".to_string())),
        Err(Error::InvalidPubKey(
            "Public key: invalid encoding: Invalid byte 32, offset 3.".to_string()
        ))
    );
}

#[test]
fn the_sizes_are_those_of_ed25519() {
    assert_eq!(SIGNATURE_SIZE, 64);
    assert_eq!(PUBLIC_KEY_SIZE, 32);
}

#[test]
fn encode_sign_request_of_an_empty_message_fails() {
    assert_eq!(encode_sign_request(&[]), Err(Error::InvalidEmptyMessage));
}

#[test]
fn encode_sign_request_writes_the_message_in_base64() {
    assert_eq!(
        encode_sign_request(b"hello"),
        Ok(SignRequest { input: "aGVsbG8=".to_string() })
    );
    assert_eq!(encode_sign_request(&[0u8]), Ok(SignRequest { input: "AA==".to_string() }));
    assert_eq!(
        encode_sign_request(&[0xfb, 0xff, 0xfe]),
        Ok(SignRequest { input: "+//+".to_string() })
    );
}

#[test]
fn what_is_encoded_for_signing_decodes_to_itself() {
    let message = [3u8; 64];
    let request = encode_sign_request(&message).unwrap();
    assert_eq!(decode_signature(&format!("vault:v1:{}", request.input)), Ok(message));
}

#[test]
fn encode_import_request_names_the_algorithm_and_the_hash() {
    assert_eq!(
        encode_import_request(CreateKeyType::Ed25519, "Y2lwaGVy", true),
        ImportRequest {
            key_type: "ed25519".to_string(),
            ciphertext: "Y2lwaGVy".to_string(),
            hash_function: "SHA256".to_string(),
            exportable: true,
        }
    );
    let request = encode_import_request(CreateKeyType::Rsa4096, "", false);
    assert_eq!(request.key_type, "rsa-4096");
    assert_eq!(request.hash_function, IMPORT_HASH_FUNCTION);
    assert!(!request.exportable);
}

#[test]
fn every_algorithm_has_its_wire_name() {
    let expected = [
        (CreateKeyType::Aes128Gcm96, "aes128-gcm96"),
        (CreateKeyType::Aes256Gcm96, "aes256-gcm96"),
        (CreateKeyType::Chacha20Poly1305, "chacha20-poly1305"),
        (CreateKeyType::Ed25519, "ed25519"),
        (CreateKeyType::EcdsaP256, "ecdsa-p256"),
        (CreateKeyType::EcdsaP384, "ecdsa-p384"),
        (CreateKeyType::EcdsaP521, "ecdsa-p521"),
        (CreateKeyType::Rsa2048, "rsa-2048"),
        (CreateKeyType::Rsa3072, "rsa-3072"),
        (CreateKeyType::Rsa4096, "rsa-4096"),
    ];
    for (key_type, name) in expected {
        assert_eq!(key_type.wire_name(), name);
        assert_eq!(key_type.to_string(), name);
    }
}

#[test]
fn every_export_kind_has_its_wire_name() {
    let expected = [
        (ExportKeyType::Encryption, "encryption-key"),
        (ExportKeyType::Signing, "signing-key"),
        (ExportKeyType::Hmac, "hmac-key"),
    ];
    for (kind, name) in expected {
        assert_eq!(kind.wire_name(), name);
        assert_eq!(kind.to_string(), name);
    }
}
