//! The formats of what goes to the service and of what comes back: request
//! bodies, signatures and public keys.

use crate::error::{Error, Fault};
use crate::text::{decimal_string, decimal_text, lemma_split_on_three, split, split_on};
use vstd::prelude::*;
use vstd::string::*;

verus! {

/// The length of a signature in bytes.
pub const SIGNATURE_SIZE: usize = 64;

/// The length of a public key in bytes.
pub const PUBLIC_KEY_SIZE: usize = 32;

/// The hash function named in every import request.
pub const IMPORT_HASH_FUNCTION: &'static str = "SHA256";

/// The standard base64 text of `bytes`, with padding, as the crate `base64`
/// writes it.
pub uninterp spec fn base64_encoded(bytes: Seq<u8>) -> Seq<char>;

/// What the crate `base64` reads from `text` as standard base64 with
/// padding: the bytes, or its description of what is wrong with the text.
pub uninterp spec fn base64_decoded(text: Seq<char>) -> Result<Seq<u8>, Seq<char>>;

/// `base64::encode`: the standard base64 text of `bytes`. The call panics
/// where the length of the text would overflow, which `requires` leaves out.
#[allow(deprecated)]
#[verifier::external_body]
fn base64_encode(bytes: &[u8]) -> (text: String)
    requires
        bytes@.len() / 3 * 4 + 4 <= isize::MAX,
    ensures
        text@ == base64_encoded(bytes@),
{
    base64::encode(bytes)
}

/// `base64::decode`: the bytes that `text` stands for, or the decoder's
/// error, written out by its `Display`.
#[allow(deprecated)]
#[verifier::external_body]
fn base64_decode(text: &str) -> (res: Result<Vec<u8>, String>)
    ensures
        match base64_decoded(text@) {
            Ok(bytes) => res matches Ok(decoded) && decoded@ == bytes,
            Err(why) => res matches Err(said) && said@ == why,
        },
{
    base64::decode(text).map_err(|e| e.to_string())
}

/// The body of a signing request.
#[derive(Debug, Clone, PartialEq, Eq)]
pub struct SignRequest {
    /// The message to sign, in base64.
    pub input: String,
}

/// The body of a request to import a key.
#[derive(Debug, Clone, PartialEq, Eq)]
pub struct ImportRequest {
    /// The wire name of the key's algorithm.
    pub key_type: String,
    /// The wrapped key, in base64.
    pub ciphertext: String,
    /// The hash function that the key was wrapped with.
    pub hash_function: String,
    /// Whether the service may hand the key out again.
    pub exportable: bool,
}

/// The algorithms that a key of the service can be created or imported for.
#[derive(Debug, Clone, Copy, PartialEq, Eq)]
pub enum CreateKeyType {
    /// AES-128 wrapped with GCM using a 96-bit nonce (symmetric).
    Aes128Gcm96,
    /// AES-256 wrapped with GCM using a 96-bit nonce (symmetric).
    Aes256Gcm96,
    /// ChaCha20-Poly1305 AEAD (symmetric).
    Chacha20Poly1305,
    /// Ed25519 (asymmetric).
    Ed25519,
    /// ECDSA using the P-256 elliptic curve (asymmetric).
    EcdsaP256,
    /// ECDSA using the P-384 elliptic curve (asymmetric).
    EcdsaP384,
    /// ECDSA using the P-521 elliptic curve (asymmetric).
    EcdsaP521,
    /// RSA with a key of 2048 bits (asymmetric).
    Rsa2048,
    /// RSA with a key of 3072 bits (asymmetric).
    Rsa3072,
    /// RSA with a key of 4096 bits (asymmetric).
    Rsa4096,
}

impl CreateKeyType {
    /// The name of the algorithm on the wire.
    pub open spec fn wire_text(self) -> Seq<char> {
        match self {
            CreateKeyType::Aes128Gcm96 => "aes128-gcm96"@,
            CreateKeyType::Aes256Gcm96 => "aes256-gcm96"@,
            CreateKeyType::Chacha20Poly1305 => "chacha20-poly1305"@,
            CreateKeyType::Ed25519 => "ed25519"@,
            CreateKeyType::EcdsaP256 => "ecdsa-p256"@,
            CreateKeyType::EcdsaP384 => "ecdsa-p384"@,
            CreateKeyType::EcdsaP521 => "ecdsa-p521"@,
            CreateKeyType::Rsa2048 => "rsa-2048"@,
            CreateKeyType::Rsa3072 => "rsa-3072"@,
            CreateKeyType::Rsa4096 => "rsa-4096"@,
        }
    }

    /// The name of the algorithm on the wire.
    pub fn wire_name(&self) -> (name: &'static str)
        ensures
            name@ == self.wire_text(),
    {
        match self {
            CreateKeyType::Aes128Gcm96 => "aes128-gcm96",
            CreateKeyType::Aes256Gcm96 => "aes256-gcm96",
            CreateKeyType::Chacha20Poly1305 => "chacha20-poly1305",
            CreateKeyType::Ed25519 => "ed25519",
            CreateKeyType::EcdsaP256 => "ecdsa-p256",
            CreateKeyType::EcdsaP384 => "ecdsa-p384",
            CreateKeyType::EcdsaP521 => "ecdsa-p521",
            CreateKeyType::Rsa2048 => "rsa-2048",
            CreateKeyType::Rsa3072 => "rsa-3072",
            CreateKeyType::Rsa4096 => "rsa-4096",
        }
    }

    /// The name of the algorithm on the wire, as an owned text.
    pub fn to_string(&self) -> (name: String)
        ensures
            name@ == self.wire_text(),
    {
        String::from_str(self.wire_name())
    }
}

/// No two algorithms share a wire name.
pub proof fn lemma_wire_names_differ(a: CreateKeyType, b: CreateKeyType)
    requires
        a != b,
    ensures
        a.wire_text() != b.wire_text(),
{
    reveal_strlit("aes128-gcm96");
    reveal_strlit("aes256-gcm96");
    reveal_strlit("chacha20-poly1305");
    reveal_strlit("ed25519");
    reveal_strlit("ecdsa-p256");
    reveal_strlit("ecdsa-p384");
    reveal_strlit("ecdsa-p521");
    reveal_strlit("rsa-2048");
    reveal_strlit("rsa-3072");
    reveal_strlit("rsa-4096");
    let x = a.wire_text();
    let y = b.wire_text();
    if x.len() == y.len() {
        assert(x[3] != y[3] || x[4] != y[4] || x[7] != y[7]);
    }
}

/// The kinds of key that the service can export.
#[derive(Debug, Clone, Copy, PartialEq, Eq)]
pub enum ExportKeyType {
    Encryption,
    Signing,
    Hmac,
}

impl ExportKeyType {
    /// The name of the kind on the wire.
    pub open spec fn wire_text(self) -> Seq<char> {
        match self {
            ExportKeyType::Encryption => "encryption-key"@,
            ExportKeyType::Signing => "signing-key"@,
            ExportKeyType::Hmac => "hmac-key"@,
        }
    }

    /// The name of the kind on the wire.
    pub fn wire_name(&self) -> (name: &'static str)
        ensures
            name@ == self.wire_text(),
    {
        match self {
            ExportKeyType::Encryption => "encryption-key",
            ExportKeyType::Signing => "signing-key",
            ExportKeyType::Hmac => "hmac-key",
        }
    }

    /// The name of the kind on the wire, as an owned text.
    pub fn to_string(&self) -> (name: String)
        ensures
            name@ == self.wire_text(),
    {
        String::from_str(self.wire_name())
    }
}

/// The body of the request that asks for a signature over `message`. A
/// message of length zero is never signed.
pub fn encode_sign_request(message: &[u8]) -> (res: Result<SignRequest, Error>)
    requires
        message@.len() / 3 * 4 + 4 <= isize::MAX,
    ensures
        message@.len() == 0 ==> (res matches Err(e) && e@ == Fault::InvalidEmptyMessage),
        message@.len() > 0 ==> (res matches Ok(request) && request.input@ == base64_encoded(
            message@,
        )),
{
    if message.len() == 0 {
        return Err(Error::InvalidEmptyMessage);
    }
    Ok(SignRequest { input: base64_encode(message) })
}

/// The body of the request that imports a wrapped key of type `key_type`.
pub fn encode_import_request(key_type: CreateKeyType, ciphertext: &str, exportable: bool) -> (request:
    ImportRequest)
    ensures
        request.key_type@ == key_type.wire_text(),
        request.ciphertext@ == ciphertext@,
        request.hash_function@ == IMPORT_HASH_FUNCTION@,
        request.exportable == exportable,
{
    ImportRequest {
        key_type: key_type.to_string(),
        ciphertext: String::from_str(ciphertext),
        hash_function: String::from_str(IMPORT_HASH_FUNCTION),
        exportable,
    }
}

/// The reason given for a signature field that does not have three parts.
pub open spec fn wrong_part_count_text(parts: nat, field: Seq<char>) -> Seq<char> {
    "expected 3 parts, received:"@ + decimal_text(parts) + " full:"@ + field
}

/// The reason given for a signature that is not base64.
pub open spec fn undecodable_signature_text(why: Seq<char>) -> Seq<char> {
    "invalid signature encoding: "@ + why
}

/// The reason given for a signature of another length than 64 bytes.
pub open spec fn wrong_signature_length_text(length: nat) -> Seq<char> {
    "invalid signature length! 64 == "@ + decimal_text(length)
}

/// The reason given for a public key that is not base64.
pub open spec fn undecodable_public_key_text(why: Seq<char>) -> Seq<char> {
    "Public key: invalid encoding: "@ + why
}

/// The reason given for a public key of fewer than 32 bytes.
pub open spec fn short_public_key_text(length: nat) -> Seq<char> {
    "Public key: expected at least 32 bytes, received:"@ + decimal_text(length)
}

/// The signature that decoded base64 amounts to: exactly 64 bytes.
pub open spec fn signature_of_decoded(decoded: Result<Seq<u8>, Seq<char>>) -> Result<
    Seq<u8>,
    Fault,
> {
    match decoded {
        Err(why) => Err(Fault::InvalidSignature(undecodable_signature_text(why))),
        Ok(bytes) => if bytes.len() == SIGNATURE_SIZE {
            Ok(bytes)
        } else {
            Err(Fault::InvalidSignature(wrong_signature_length_text(bytes.len())))
        },
    }
}

/// The signature in a signature field `<backend>:<key version>:<base64>`.
pub open spec fn signature_of(field: Seq<char>) -> Result<Seq<u8>, Fault> {
    let parts = split_on(field, ':');
    if parts.len() == 3 {
        signature_of_decoded(base64_decoded(parts[2]))
    } else {
        Err(Fault::InvalidSignature(wrong_part_count_text(parts.len(), field)))
    }
}

/// In a field `<backend>:<key version>:<base64>` whose three parts hold no
/// colon, the signature is what the third part decodes to, whatever the
/// first two parts say.
pub proof fn lemma_signature_is_in_the_third_part(
    backend: Seq<char>,
    version: Seq<char>,
    text: Seq<char>,
)
    requires
        !backend.contains(':'),
        !version.contains(':'),
        !text.contains(':'),
    ensures
        signature_of(backend + seq![':'] + version + seq![':'] + text) == signature_of_decoded(
            base64_decoded(text),
        ),
{
    lemma_split_on_three(backend, version, text, ':');
}

/// A field of fewer or more than three parts holds no signature.
pub proof fn lemma_signature_needs_three_parts(field: Seq<char>)
    requires
        split_on(field, ':').len() != 3,
    ensures
        signature_of(field) == Err::<Seq<u8>, Fault>(
            Fault::InvalidSignature(wrong_part_count_text(split_on(field, ':').len(), field)),
        ),
{
}

/// The public key that decoded base64 amounts to: its first 32 bytes.
pub open spec fn public_key_of_decoded(decoded: Result<Seq<u8>, Seq<char>>) -> Result<
    Seq<u8>,
    Fault,
> {
    match decoded {
        Err(why) => Err(Fault::InvalidPubKey(undecodable_public_key_text(why))),
        Ok(bytes) => if bytes.len() >= PUBLIC_KEY_SIZE {
            Ok(bytes.take(PUBLIC_KEY_SIZE as int))
        } else {
            Err(Fault::InvalidPubKey(short_public_key_text(bytes.len())))
        },
    }
}

/// The public key that a base64 text holds.
pub open spec fn public_key_of(text: Seq<char>) -> Result<Seq<u8>, Fault> {
    public_key_of_decoded(base64_decoded(text))
}

/// Takes a signature from what the base64 decoder made of its text.
pub fn signature_from_decoded(decoded: Result<Vec<u8>, String>) -> (res: Result<
    [u8; 64],
    Error,
>)
    ensures
        match signature_of_decoded(
            match decoded {
                Ok(bytes) => Ok(bytes@),
                Err(said) => Err(said@),
            },
        ) {
            Ok(bytes) => res matches Ok(signature) && signature@ == bytes,
            Err(fault) => res matches Err(e) && e@ == fault,
        },
{
    match decoded {
        Err(said) => Err(
            Error::InvalidSignature(
                String::from_str("invalid signature encoding: ").concat(said.as_str()),
            ),
        ),
        Ok(bytes) => {
            if bytes.len() != SIGNATURE_SIZE {
                return Err(
                    Error::InvalidSignature(
                        String::from_str("invalid signature length! 64 == ").concat(
                            decimal_string(bytes.len() as u64).as_str(),
                        ),
                    ),
                );
            }
            let mut signature = [0u8;64];
            let mut i: usize = 0;
            while i < SIGNATURE_SIZE
                invariant
                    i <= SIGNATURE_SIZE,
                    bytes@.len() == SIGNATURE_SIZE,
                    forall|k: int| 0 <= k < i ==> signature@[k] == bytes@[k],
                decreases SIGNATURE_SIZE - i,
            {
                signature[i] = bytes[i];
                i = i + 1;
            }
            assert(signature@ =~= bytes@);
            Ok(signature)
        },
    }
}

/// Takes the signature out of a signature field of the service, which has
/// the form `<backend>:<key version>:<base64 signature>`.
pub fn decode_signature(field: &str) -> (res: Result<[u8; 64], Error>)
    ensures
        match signature_of(field@) {
            Ok(bytes) => res matches Ok(signature) && signature@ == bytes,
            Err(fault) => res matches Err(e) && e@ == fault,
        },
{
    let parts = split(field, ':');
    if parts.len() != 3 {
        return Err(
            Error::InvalidSignature(
                String::from_str("expected 3 parts, received:").concat(
                    decimal_string(parts.len() as u64).as_str(),
                ).concat(" full:").concat(field),
            ),
        );
    }
    signature_from_decoded(base64_decode(parts[2]))
}

/// Takes a public key from what the base64 decoder made of its text.
pub fn public_key_from_decoded(decoded: Result<Vec<u8>, String>) -> (res: Result<
    [u8; 32],
    Error,
>)
    ensures
        match public_key_of_decoded(
            match decoded {
                Ok(bytes) => Ok(bytes@),
                Err(said) => Err(said@),
            },
        ) {
            Ok(bytes) => res matches Ok(key) && key@ == bytes,
            Err(fault) => res matches Err(e) && e@ == fault,
        },
{
    match decoded {
        Err(said) => Err(
            Error::InvalidPubKey(
                String::from_str("Public key: invalid encoding: ").concat(said.as_str()),
            ),
        ),
        Ok(bytes) => {
            if bytes.len() < PUBLIC_KEY_SIZE {
                return Err(
                    Error::InvalidPubKey(
                        String::from_str(
                            "Public key: expected at least 32 bytes, received:",
                        ).concat(decimal_string(bytes.len() as u64).as_str()),
                    ),
                );
            }
            let mut key = [0u8;32];
            let mut i: usize = 0;
            while i < PUBLIC_KEY_SIZE
                invariant
                    i <= PUBLIC_KEY_SIZE,
                    bytes@.len() >= PUBLIC_KEY_SIZE,
                    forall|k: int| 0 <= k < i ==> key@[k] == bytes@[k],
                decreases PUBLIC_KEY_SIZE - i,
            {
                key[i] = bytes[i];
                i = i + 1;
            }
            assert(key@ =~= bytes@.take(PUBLIC_KEY_SIZE as int));
            Ok(key)
        },
    }
}

/// Takes a public key out of its base64 text: the first 32 bytes of what
/// the text stands for.
pub fn decode_public_key(text: &str) -> (res: Result<[u8; 32], Error>)
    ensures
        match public_key_of(text@) {
            Ok(bytes) => res matches Ok(key) && key@ == bytes,
            Err(fault) => res matches Err(e) && e@ == fault,
        },
{
    public_key_from_decoded(base64_decode(text))
}

} // verus!
