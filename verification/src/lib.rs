//! Ed25519 basic signatures: key generation from secret bytes, DER encoding
//! and decoding of public keys (RFC 8410), signing, single and batch
//! verification, and public key validation.

pub mod types;
pub mod der;
pub mod ed25519;
pub mod curve;
pub mod signature;
pub mod api;
pub mod protobuf_generator;

pub use api::{
    algorithm_identifier, keypair_from_secret_key_bytes, public_key_from_der, public_key_to_der,
    queue_batch, sign, verify, verify_batch, verify_public_key,
};
pub use types::{
    AlgorithmId, CryptoError, CryptoResult, PublicKeyBytes, SecretKeyBytes, Seed, SignatureBytes,
};
